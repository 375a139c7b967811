use vstd::prelude::*;
use cosmwasm_std::MemoryStorage;
use cosmwasm_std::StdError;
use cosmwasm_std::Uint128;
use cosmwasm_std::Order;
use cw_storage_plus::Item;
use crate::state::Price;
use crate::state::Ledger;

verus! {

/// `cosmwasm_std::MemoryStorage`, the key-value storage that holds the feed;
/// nothing is known of a value but what the functions below say.
#[verifier::external_type_specification]
#[verifier::external_body]
pub struct ExMemoryStorage(cosmwasm_std::MemoryStorage);

/// `cosmwasm_std::StdError`, the error of a failed read or write.
#[verifier::external_type_specification]
#[verifier::external_body]
pub struct ExStdError(cosmwasm_std::StdError);

/// The owner that a read of the `config` item of `s` yields, if it yields one.
pub uninterp spec fn stored_owner(s: MemoryStorage) -> Option<Seq<char>>;

/// The pairs whose record in the `current_prices` table of `s` can be read,
/// each with the price read.
pub uninterp spec fn stored_current(s: MemoryStorage) -> Map<(Seq<char>, Seq<char>), Price>;

/// The keys whose record in the `old_prices` table of `s` can be read, each
/// with the price read.
pub uninterp spec fn stored_archive(s: MemoryStorage) -> Map<(Seq<char>, Seq<char>, u64), Price>;

/// The pairs whose record in the `current_prices` table of `s` is there but
/// cannot be read as a price.
pub uninterp spec fn unreadable_current(s: MemoryStorage) -> Set<(Seq<char>, Seq<char>)>;

/// Whether every record in the `old_prices` table of `s` can be read: its
/// key ends in a timestamp and its value is a price.
pub uninterp spec fn archive_readable(s: MemoryStorage) -> bool;

/// What a storage holds, as a ledger.
pub open spec fn ledger_of(s: MemoryStorage) -> Ledger {
    Ledger { owner: stored_owner(s), current: stored_current(s), archive: stored_archive(s) }
}

/// The longest key part, in bytes of UTF-8, that a composite key can frame:
/// every part but the last is written behind its length in two bytes.
pub const MAX_KEY_PART: usize = 0xFFFF;

/// Whether `part` can stand in a composite storage key.
pub open spec fn key_part_ok(part: Seq<char>) -> bool {
    vstd::utf8::encode_utf8(part).len() <= MAX_KEY_PART
}

/// Whether `part` can stand in a composite storage key.
pub fn key_part_fits(part: &str) -> (r: bool)
    ensures
        r == key_part_ok(part@),
{
    part.as_bytes().len() <= MAX_KEY_PART
}

/// `MemoryStorage::new`: a storage with no record at all, so that nothing can
/// be read from it, and no record is unreadable.
#[verifier::external_body]
pub(crate) fn new_storage() -> (s: MemoryStorage)
    ensures
        ledger_of(s) == (Ledger { owner: None, current: Map::empty(), archive: Map::empty() }),
        unreadable_current(s) == Set::<(Seq<char>, Seq<char>)>::empty(),
        archive_readable(s),
{
    MemoryStorage::new()
}

/// `Item::load` on the `config` item, a string: the owner, or `None` where no
/// owner can be read.
#[verifier::external_body]
pub(crate) fn load_owner(s: &MemoryStorage) -> (r: Option<String>)
    ensures
        match r {
            Some(owner) => stored_owner(*s) == Some(owner@),
            None => stored_owner(*s) is None,
        },
{
    Item::<String>::new("config").load(s).ok()
}

/// `Item::save` on the `config` item. It fails only where the value cannot
/// be written as JSON, and a string always can: the call succeeds, a read then
/// yields `owner`, and every record of the two tables is as before.
#[verifier::external_body]
pub(crate) fn save_owner(s: &mut MemoryStorage, owner: &String) -> (r: Result<(), StdError>)
    ensures
        r is Ok,
        ledger_of(*final(s)) == ledger_of(*old(s)).with_owner(owner@),
        unreadable_current(*final(s)) == unreadable_current(*old(s)),
        archive_readable(*old(s)) ==> archive_readable(*final(s)),
{
    Item::<String>::new("config").save(s, owner)
}

/// `Map::may_load` on the `current_prices` table, keyed by base and quote:
/// the price under the pair, `None` where the pair has no record, and an
/// error where it has one that cannot be read.
#[verifier::external_body]
pub(crate) fn load_current(s: &MemoryStorage, base: &str, quote: &str) -> (r: Result<
    Option<Price>,
    StdError,
>)
    requires
        key_part_ok(base@),
    ensures
        match r {
            Ok(Some(price)) => stored_current(*s).contains_key((base@, quote@)) && stored_current(
                *s,
            )[(base@, quote@)] == price && !unreadable_current(*s).contains((base@, quote@)),
            Ok(None) => !stored_current(*s).contains_key((base@, quote@)) && !unreadable_current(
                *s,
            ).contains((base@, quote@)),
            Err(_) => !stored_current(*s).contains_key((base@, quote@)) && unreadable_current(
                *s,
            ).contains((base@, quote@)),
        },
{
    cw_storage_plus::Map::<(&str, &str), (Uint128, u64)>::new("current_prices")
        .may_load(s, (base, quote))
        .map(|found| found.map(|(amount, timestamp)| Price { amount: amount.u128(), timestamp }))
}

/// `Map::save` on the `current_prices` table. It fails only where the value
/// cannot be written as JSON, and an amount with a time always can: the call
/// succeeds, the pair then reads as `price`, and every other record is as
/// before.
#[verifier::external_body]
pub(crate) fn save_current(s: &mut MemoryStorage, base: &str, quote: &str, price: Price) -> (r:
    Result<(), StdError>)
    requires
        key_part_ok(base@),
    ensures
        r is Ok,
        ledger_of(*final(s)) == (Ledger {
            current: stored_current(*old(s)).insert((base@, quote@), price),
            ..ledger_of(*old(s))
        }),
        unreadable_current(*final(s)) == unreadable_current(*old(s)).remove((base@, quote@)),
        archive_readable(*old(s)) ==> archive_readable(*final(s)),
{
    cw_storage_plus::Map::<(&str, &str), (Uint128, u64)>::new("current_prices").save(
        s,
        (base, quote),
        &(Uint128::new(price.amount), price.timestamp),
    )
}

/// `Map::save` on the `old_prices` table, keyed by base, quote and a
/// timestamp. It fails only where the value cannot be written as JSON, and an
/// amount with a time always can: the call succeeds, that key then reads as
/// `price`, and every other record is as before. Where every record of the
/// archive could be read before, every one can be read after.
#[verifier::external_body]
pub(crate) fn save_archived(
    s: &mut MemoryStorage,
    base: &str,
    quote: &str,
    timestamp: u64,
    price: Price,
) -> (r: Result<(), StdError>)
    requires
        key_part_ok(base@),
        key_part_ok(quote@),
    ensures
        r is Ok,
        ledger_of(*final(s)) == (Ledger {
            archive: stored_archive(*old(s)).insert((base@, quote@, timestamp), price),
            ..ledger_of(*old(s))
        }),
        unreadable_current(*final(s)) == unreadable_current(*old(s)),
        archive_readable(*old(s)) ==> archive_readable(*final(s)),
{
    cw_storage_plus::Map::<(&str, &str, u64), (Uint128, u64)>::new("old_prices").save(
        s,
        (base, quote, timestamp),
        &(Uint128::new(price.amount), price.timestamp),
    )
}

/// `Map::prefix` and `Prefix::range` on the `old_prices` table, ascending and
/// unbounded: the scan fails only on a record that cannot be read; where it
/// succeeds it yields every record under the pair, by ascending timestamp of
/// its key.
#[verifier::external_body]
pub(crate) fn scan_archive(s: &MemoryStorage, base: &str, quote: &str) -> (r: Result<
    Vec<(u64, Price)>,
    StdError,
>)
    requires
        key_part_ok(base@),
        key_part_ok(quote@),
    ensures
        r is Ok ==> ledger_of(*s).history_is(base@, quote@, r->Ok_0@),
        archive_readable(*s) ==> r is Ok,
{
    cw_storage_plus::Map::<(&str, &str, u64), (Uint128, u64)>::new("old_prices")
        .prefix((base, quote))
        .range(s, None, None, Order::Ascending)
        .map(|row| row.map(|(key, (amount, timestamp))| (key, Price { amount: amount.u128(), timestamp })))
        .collect()
}

} // verus!
