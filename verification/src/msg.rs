use vstd::prelude::*;
use crate::state::Price;
use crate::state::Ledger;

verus! {

/// One price submission of a batch.
#[derive(Clone, Debug, PartialEq)]
pub struct PriceMsg {
    pub base_asset: String,
    pub quote_asset: String,
    pub amount: u128,
}

/// One pair of a batch query.
#[derive(Clone, Debug, PartialEq)]
pub struct PriceResponseMsg {
    pub base_asset: String,
    pub quote_asset: String,
}

/// Set-up of the feed.
#[derive(Clone, Debug, PartialEq)]
pub struct InstantiateMsg {
    pub owner: String,
}

/// The commands that change the feed.
#[derive(Clone, Debug, PartialEq)]
pub enum ExecuteMsg {
    UpdateConfig { owner: String },
    SetSinglePrice { base_asset: String, quote_asset: String, amount: u128 },
    SetBatchPrice { prices: Vec<PriceMsg> },
}

/// The questions that read the feed.
#[derive(Clone, Debug, PartialEq)]
pub enum QueryMsg {
    GetConfig {  },
    GetCurrentPrice { base_asset: String, quote_asset: String },
    GetCurrentBatchPrices { prices: Vec<PriceResponseMsg> },
    GetOldPrices { base_asset: String, quote_asset: String },
}

#[derive(Clone, Debug, PartialEq)]
pub struct GetConfigResponse {
    pub owner: String,
}

#[derive(Clone, Debug, PartialEq)]
pub struct GetCurrentPriceResponse {
    pub price: Price,
}

#[derive(Clone, Debug, PartialEq)]
pub struct GetCurrentBatchPricesResponse {
    pub prices: Vec<Price>,
}

/// The archived prices of one pair, each with the timestamp it is filed under,
/// by ascending timestamp.
#[derive(Clone, Debug, PartialEq)]
pub struct GetOldPricesResponse {
    pub prices: Vec<(u64, Price)>,
}

/// The answer to a query, one variant for each question.
#[derive(Clone, Debug, PartialEq)]
pub enum QueryResponse {
    Config(GetConfigResponse),
    CurrentPrice(GetCurrentPriceResponse),
    CurrentBatchPrices(GetCurrentBatchPricesResponse),
    OldPrices(GetOldPricesResponse),
}

/// The feed after the submissions `entries` were recorded one after another,
/// in their order, all at the time `now`.
pub open spec fn record_all(ledger: Ledger, entries: Seq<PriceMsg>, now: u64) -> Ledger
    decreases entries.len(),
{
    if entries.len() == 0 {
        ledger
    } else {
        let last = entries.last();
        record_all(ledger, entries.drop_last(), now).record(
            last.base_asset@,
            last.quote_asset@,
            last.amount,
            now,
        )
    }
}

} // verus!
