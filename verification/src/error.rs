use vstd::prelude::*;

verus! {

/// Why a command or a query was turned down.
#[derive(Clone, Copy, Debug, PartialEq, Eq, Structural)]
pub enum ContractError {
    /// The caller is not the current owner.
    Unauthorized,
    /// A queried pair has no current price.
    NotFound,
    /// The storage layer could not encode or decode a record.
    Storage,
}

impl ContractError {
    /// A short human-readable message for the error.
    pub fn message(&self) -> (text: String)
        ensures
            text@ == match *self {
                ContractError::Unauthorized => "Unauthorized"@,
                ContractError::NotFound => "Price not found"@,
                ContractError::Storage => "Storage failure"@,
            },
    {
        match self {
            ContractError::Unauthorized => "Unauthorized".to_owned(),
            ContractError::NotFound => "Price not found".to_owned(),
            ContractError::Storage => "Storage failure".to_owned(),
        }
    }
}

} // verus!
