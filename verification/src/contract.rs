use vstd::prelude::*;
use cosmwasm_std::MemoryStorage;
use cosmwasm_std::StdError;
use crate::error::ContractError;
use crate::msg::ExecuteMsg;
use crate::msg::GetConfigResponse;
use crate::msg::GetCurrentBatchPricesResponse;
use crate::msg::GetCurrentPriceResponse;
use crate::msg::GetOldPricesResponse;
use crate::msg::InstantiateMsg;
use crate::msg::PriceMsg;
use crate::msg::PriceResponseMsg;
use crate::msg::QueryMsg;
use crate::msg::QueryResponse;
use crate::msg::record_all;
use crate::state::Ledger;
use crate::state::Price;
use crate::store::archive_readable;
use crate::store::unreadable_current;
use crate::store::key_part_ok;
use crate::store::ledger_of;
use crate::store::load_current;
use crate::store::load_owner;
use crate::store::new_storage;
use crate::store::save_archived;
use crate::store::save_current;
use crate::store::save_owner;
use crate::store::scan_archive;

verus! {

/// Whether both names of a pair can stand in a storage key.
pub open spec fn pair_ok(base: Seq<char>, quote: Seq<char>) -> bool {
    key_part_ok(base) && key_part_ok(quote)
}

/// Whether every submission of a batch names a pair that can stand in a storage key.
pub open spec fn batch_ok(entries: Seq<PriceMsg>) -> bool {
    forall|i: int|
        0 <= i < entries.len() ==> pair_ok(
            (#[trigger] entries[i]).base_asset@,
            entries[i].quote_asset@,
        )
}

/// Whether every pair of a batch query can be looked up among the current
/// prices: there only the base is framed.
pub open spec fn pairs_ok(pairs: Seq<PriceResponseMsg>) -> bool {
    forall|i: int| 0 <= i < pairs.len() ==> key_part_ok((#[trigger] pairs[i]).base_asset@)
}

/// What a write to storage came to, in the feed's own terms.
pub fn storage_outcome(written: Result<(), StdError>) -> (r: Result<(), ContractError>)
    ensures
        r == match written {
            Ok(_) => Ok::<(), ContractError>(()),
            Err(_) => Err::<(), ContractError>(ContractError::Storage),
        },
{
    match written {
        Ok(_) => Ok(()),
        Err(_) => Err(ContractError::Storage),
    }
}

/// Whether the current price of `(base, quote)` is in storage but cannot be read.
pub open spec fn blocked(store: MemoryStorage, base: Seq<char>, quote: Seq<char>) -> bool {
    unreadable_current(store).contains((base, quote))
}

/// Whether some submission of a batch names a pair whose current price
/// cannot be read.
pub open spec fn batch_blocked(store: MemoryStorage, entries: Seq<PriceMsg>) -> bool {
    exists|i: int|
        0 <= i < entries.len() && blocked(
            store,
            (#[trigger] entries[i]).base_asset@,
            entries[i].quote_asset@,
        )
}

/// What a command by `sender` owes. A stranger is turned away. The owner's
/// command fails in storage where it would have to replace a record that
/// cannot be read, and succeeds otherwise, leaving `target`. A command that
/// fails leaves the storage as it was.
pub open spec fn command_outcome(
    before: MemoryStorage,
    after: MemoryStorage,
    sender: Seq<char>,
    target: Ledger,
    stuck: bool,
    r: Result<(), ContractError>,
) -> bool {
    let was = ledger_of(before);
    &&& r == if was.owner != Some(sender) {
        Err::<(), ContractError>(ContractError::Unauthorized)
    } else if stuck {
        Err::<(), ContractError>(ContractError::Storage)
    } else {
        Ok::<(), ContractError>(())
    }
    &&& r is Err ==> after == before
    &&& r is Ok ==> ledger_of(after) == target && unreadable_current(after) == unreadable_current(
        before,
    )
    &&& was.wf() ==> ledger_of(after).wf()
    &&& archive_readable(before) ==> archive_readable(after)
}

/// Recording a price keeps a well-formed feed well formed.
pub proof fn lemma_record_wf(l: Ledger, base: Seq<char>, quote: Seq<char>, amount: u128, now: u64)
    ensures
        l.wf() ==> l.record(base, quote, amount, now).wf(),
{
    if l.wf() {
        let after = l.record(base, quote, amount, now);
        assert forall|b: Seq<char>, q: Seq<char>, t: u64| #[trigger]
            after.archive.contains_key((b, q, t)) implies after.current.contains_key((b, q))
            && after.archive[(b, q, t)].timestamp == t by {
            if l.archive.contains_key((b, q, t)) {
                assert(l.current.contains_key((b, q)));
            }
        }
    }
}

/// Recording a batch keeps the owner, and keeps a well-formed feed well formed.
pub proof fn lemma_record_all_wf(l: Ledger, entries: Seq<PriceMsg>, now: u64)
    ensures
        record_all(l, entries, now).owner == l.owner,
        l.wf() ==> record_all(l, entries, now).wf(),
    decreases entries.len(),
{
    if entries.len() > 0 {
        lemma_record_all_wf(l, entries.drop_last(), now);
        let last = entries.last();
        lemma_record_wf(
            record_all(l, entries.drop_last(), now),
            last.base_asset@,
            last.quote_asset@,
            last.amount,
            now,
        );
    }
}

/// Sets the feed up: a new storage whose owner is `msg.owner`, with no price
/// and no history.
pub fn instantiate(msg: InstantiateMsg) -> (r: Result<MemoryStorage, ContractError>)
    ensures
        r is Ok,
        ledger_of(r->Ok_0) == Ledger::fresh(msg.owner@),
        unreadable_current(r->Ok_0) == Set::<(Seq<char>, Seq<char>)>::empty(),
        archive_readable(r->Ok_0),
{
    let mut store = new_storage();
    match storage_outcome(save_owner(&mut store, &msg.owner)) {
        Ok(_) => Ok(store),
        Err(e) => Err(e),
    }
}

/// Whether `sender` is the owner of the feed.
pub fn authorize(store: &MemoryStorage, sender: &str) -> (r: Result<(), ContractError>)
    ensures
        r == if ledger_of(*store).owner == Some(sender@) {
            Ok::<(), ContractError>(())
        } else {
            Err::<(), ContractError>(ContractError::Unauthorized)
        },
{
    match load_owner(store) {
        Some(owner) => {
            let who = sender.to_owned();
            if who == owner {
                Ok(())
            } else {
                Err(ContractError::Unauthorized)
            }
        },
        None => Err(ContractError::Unauthorized),
    }
}

/// Hands the feed to `owner`, if `sender` is the owner now.
pub fn try_update_config(store: &mut MemoryStorage, sender: &str, owner: String) -> (r: Result<
    (),
    ContractError,
>)
    ensures
        command_outcome(
            *old(store),
            *final(store),
            sender@,
            ledger_of(*old(store)).with_owner(owner@),
            false,
            r,
        ),
{
    match authorize(store, sender) {
        Ok(_) => storage_outcome(save_owner(store, &owner)),
        Err(e) => Err(e),
    }
}

/// Records one price: the current price of the pair, if there is one, is first
/// filed in the archive under its own timestamp, then `amount` at `now`
/// becomes the current price. Where the pair has a record that cannot be
/// read, nothing is written and the call fails.
pub fn record_price(store: &mut MemoryStorage, base: &str, quote: &str, amount: u128, now: u64) -> (r:
    Result<(), ContractError>)
    requires
        pair_ok(base@, quote@),
    ensures
        r == if blocked(*old(store), base@, quote@) {
            Err::<(), ContractError>(ContractError::Storage)
        } else {
            Ok::<(), ContractError>(())
        },
        r is Err ==> *final(store) == *old(store),
        r is Ok ==> ledger_of(*final(store)) == ledger_of(*old(store)).record(
            base@,
            quote@,
            amount,
            now,
        ) && unreadable_current(*final(store)) == unreadable_current(*old(store)),
        archive_readable(*old(store)) ==> archive_readable(*final(store)),
{
    match load_current(store, base, quote) {
        Ok(Some(displaced)) => {
            match storage_outcome(
                save_archived(store, base, quote, displaced.timestamp, displaced),
            ) {
                Ok(_) => {},
                Err(e) => {
                    return Err(e);
                },
            }
        },
        Ok(None) => {},
        Err(_) => {
            return Err(ContractError::Storage);
        },
    }
    let saved = storage_outcome(save_current(store, base, quote, Price { amount, timestamp: now }));
    proof {
        assert(unreadable_current(*old(store)).remove((base@, quote@)) =~= unreadable_current(
            *old(store),
        ));
    }
    saved
}

/// Records one price for the owner.
pub fn try_set_single_price(
    store: &mut MemoryStorage,
    sender: &str,
    now: u64,
    base_asset: String,
    quote_asset: String,
    amount: u128,
) -> (r: Result<(), ContractError>)
    requires
        ledger_of(*old(store)).owner == Some(sender@) ==> pair_ok(base_asset@, quote_asset@),
    ensures
        command_outcome(
            *old(store),
            *final(store),
            sender@,
            ledger_of(*old(store)).record(base_asset@, quote_asset@, amount, now),
            blocked(*old(store), base_asset@, quote_asset@),
            r,
        ),
{
    proof {
        lemma_record_wf(ledger_of(*old(store)), base_asset@, quote_asset@, amount, now);
    }
    match authorize(store, sender) {
        Ok(_) => record_price(store, base_asset.as_str(), quote_asset.as_str(), amount, now),
        Err(e) => Err(e),
    }
}

/// Whether the current price of every pair that a batch names can be read or
/// is absent.
pub fn batch_is_clear(store: &MemoryStorage, prices: &Vec<PriceMsg>) -> (clear: bool)
    requires
        batch_ok(prices@),
    ensures
        clear == !batch_blocked(*store, prices@),
{
    let mut i: usize = 0;
    while i < prices.len()
        invariant
            0 <= i <= prices.len(),
            batch_ok(prices@),
            forall|j: int|
                0 <= j < i ==> !blocked(
                    *store,
                    (#[trigger] prices@[j]).base_asset@,
                    prices@[j].quote_asset@,
                ),
        decreases prices.len() - i,
    {
        let entry = &prices[i];
        match load_current(store, entry.base_asset.as_str(), entry.quote_asset.as_str()) {
            Ok(_) => {},
            Err(_) => {
                proof {
                    assert(blocked(
                        *store,
                        prices@[i as int].base_asset@,
                        prices@[i as int].quote_asset@,
                    ));
                }
                return false;
            },
        }
        i = i + 1;
    }
    true
}

/// Records a batch of prices for the owner: one check of the caller, then
/// each submission in the order given, all at the time `now`. Where any pair
/// of the batch has a record that cannot be read, nothing is written.
pub fn try_set_batch_price(store: &mut MemoryStorage, sender: &str, now: u64, prices: Vec<PriceMsg>) -> (r:
    Result<(), ContractError>)
    requires
        ledger_of(*old(store)).owner == Some(sender@) ==> batch_ok(prices@),
    ensures
        command_outcome(
            *old(store),
            *final(store),
            sender@,
            record_all(ledger_of(*old(store)), prices@, now),
            batch_blocked(*old(store), prices@),
            r,
        ),
{
    let ghost was = ledger_of(*store);
    proof {
        lemma_record_all_wf(was, prices@, now);
    }
    match authorize(store, sender) {
        Ok(_) => {},
        Err(e) => {
            return Err(e);
        },
    }
    if !batch_is_clear(store, &prices) {
        return Err(ContractError::Storage);
    }
    let mut i: usize = 0;
    while i < prices.len()
        invariant
            0 <= i <= prices.len(),
            batch_ok(prices@),
            was == ledger_of(*old(store)),
            !batch_blocked(*old(store), prices@),
            unreadable_current(*store) == unreadable_current(*old(store)),
            archive_readable(*old(store)) ==> archive_readable(*store),
            ledger_of(*store) == record_all(was, prices@.take(i as int), now),
        decreases prices.len() - i,
    {
        let entry = &prices[i];
        proof {
            assert(prices@.take(i + 1).drop_last() == prices@.take(i as int));
            assert(prices@.take(i + 1).last() == prices@[i as int]);
            assert(!blocked(*store, prices@[i as int].base_asset@, prices@[i as int].quote_asset@));
        }
        match record_price(
            store,
            entry.base_asset.as_str(),
            entry.quote_asset.as_str(),
            entry.amount,
            now,
        ) {
            Ok(_) => {},
            Err(e) => {
                return Err(e);
            },
        }
        i = i + 1;
    }
    proof {
        assert(prices@.take(i as int) == prices@);
    }
    Ok(())
}

/// What a command does to the feed where it succeeds.
pub open spec fn executed(was: Ledger, msg: ExecuteMsg, now: u64) -> Ledger {
    match msg {
        ExecuteMsg::UpdateConfig { owner } => was.with_owner(owner@),
        ExecuteMsg::SetSinglePrice { base_asset, quote_asset, amount } => was.record(
            base_asset@,
            quote_asset@,
            amount,
            now,
        ),
        ExecuteMsg::SetBatchPrice { prices } => record_all(was, prices@, now),
    }
}

/// Whether every pair that a command names can stand in a storage key.
pub open spec fn command_ok(msg: ExecuteMsg) -> bool {
    match msg {
        ExecuteMsg::UpdateConfig { owner } => true,
        ExecuteMsg::SetSinglePrice { base_asset, quote_asset, amount } => pair_ok(
            base_asset@,
            quote_asset@,
        ),
        ExecuteMsg::SetBatchPrice { prices } => batch_ok(prices@),
    }
}

/// Whether a command names a pair whose current price cannot be read.
pub open spec fn command_blocked(store: MemoryStorage, msg: ExecuteMsg) -> bool {
    match msg {
        ExecuteMsg::UpdateConfig { owner } => false,
        ExecuteMsg::SetSinglePrice { base_asset, quote_asset, amount } => blocked(
            store,
            base_asset@,
            quote_asset@,
        ),
        ExecuteMsg::SetBatchPrice { prices } => batch_blocked(store, prices@),
    }
}

/// Carries out one command of `sender`, received at the time `now`.
pub fn execute(store: &mut MemoryStorage, sender: &str, now: u64, msg: ExecuteMsg) -> (r: Result<
    (),
    ContractError,
>)
    requires
        ledger_of(*old(store)).owner == Some(sender@) ==> command_ok(msg),
    ensures
        command_outcome(
            *old(store),
            *final(store),
            sender@,
            executed(ledger_of(*old(store)), msg, now),
            command_blocked(*old(store), msg),
            r,
        ),
{
    match msg {
        ExecuteMsg::UpdateConfig { owner } => try_update_config(store, sender, owner),
        ExecuteMsg::SetSinglePrice { base_asset, quote_asset, amount } => try_set_single_price(
            store,
            sender,
            now,
            base_asset,
            quote_asset,
            amount,
        ),
        ExecuteMsg::SetBatchPrice { prices } => try_set_batch_price(store, sender, now, prices),
    }
}

/// Whether `r` is the answer owed to a question for the owner.
pub open spec fn config_answer(l: Ledger, r: Result<GetConfigResponse, ContractError>) -> bool {
    match r {
        Ok(answer) => l.owner == Some(answer.owner@),
        Err(e) => e == ContractError::NotFound && l.owner is None,
    }
}

/// The owner of the feed, or `NotFound` where the feed was never set up.
pub fn query_config(store: &MemoryStorage) -> (r: Result<GetConfigResponse, ContractError>)
    ensures
        config_answer(ledger_of(*store), r),
{
    match load_owner(store) {
        Some(owner) => Ok(GetConfigResponse { owner }),
        None => Err(ContractError::NotFound),
    }
}

/// The answer owed to a question for one current price.
pub open spec fn current_price_answer(l: Ledger, base: Seq<char>, quote: Seq<char>) -> Result<
    GetCurrentPriceResponse,
    ContractError,
> {
    if l.current.contains_key((base, quote)) {
        Ok(GetCurrentPriceResponse { price: l.current[(base, quote)] })
    } else {
        Err(ContractError::NotFound)
    }
}

/// The answer owed to a question for one current price of the feed in
/// `store`: a record that cannot be read is a failure of storage.
pub open spec fn current_price_result(store: MemoryStorage, base: Seq<char>, quote: Seq<char>) -> Result<
    GetCurrentPriceResponse,
    ContractError,
> {
    if blocked(store, base, quote) {
        Err(ContractError::Storage)
    } else {
        current_price_answer(ledger_of(store), base, quote)
    }
}

/// The current price of a pair, or `NotFound` where it has none.
pub fn query_current_price(store: &MemoryStorage, base_asset: String, quote_asset: String) -> (r:
    Result<GetCurrentPriceResponse, ContractError>)
    requires
        key_part_ok(base_asset@),
    ensures
        r == current_price_result(*store, base_asset@, quote_asset@),
{
    match load_current(store, base_asset.as_str(), quote_asset.as_str()) {
        Ok(Some(price)) => Ok(GetCurrentPriceResponse { price }),
        Ok(None) => Err(ContractError::NotFound),
        Err(_) => Err(ContractError::Storage),
    }
}

/// Whether every pair of `pairs` has a current price.
pub open spec fn all_priced(l: Ledger, pairs: Seq<PriceResponseMsg>) -> bool {
    forall|i: int|
        0 <= i < pairs.len() ==> l.current.contains_key(
            ((#[trigger] pairs[i]).base_asset@, pairs[i].quote_asset@),
        )
}

/// The current prices of `pairs`, in their order.
pub open spec fn prices_of(l: Ledger, pairs: Seq<PriceResponseMsg>) -> Seq<Price> {
    Seq::new(pairs.len(), |i: int| l.current[(pairs[i].base_asset@, pairs[i].quote_asset@)])
}

/// Whether `e` is the error owed to a batch query: that of the first pair, in
/// the order asked, that has no current price to give.
pub open spec fn first_failure(store: MemoryStorage, pairs: Seq<PriceResponseMsg>, e: ContractError) -> bool {
    exists|k: int|
        0 <= k < pairs.len() && all_priced(ledger_of(store), pairs.take(k)) && current_price_result(
            store,
            (#[trigger] pairs[k]).base_asset@,
            pairs[k].quote_asset@,
        ) == Err::<GetCurrentPriceResponse, ContractError>(e)
}

/// The current prices of several pairs, in the order asked, or the error of
/// the first that has none to give: `NotFound` where it has no record.
pub fn query_current_batch_prices(store: &MemoryStorage, prices: Vec<PriceResponseMsg>) -> (r:
    Result<GetCurrentBatchPricesResponse, ContractError>)
    requires
        pairs_ok(prices@),
    ensures
        match r {
            Ok(answer) => all_priced(ledger_of(*store), prices@) && answer.prices@ == prices_of(
                ledger_of(*store),
                prices@,
            ),
            Err(e) => !all_priced(ledger_of(*store), prices@) && first_failure(
                *store,
                prices@,
                e,
            ),
        },
{
    let ghost l = ledger_of(*store);
    let mut found: Vec<Price> = Vec::new();
    let mut i: usize = 0;
    while i < prices.len()
        invariant
            0 <= i <= prices.len(),
            pairs_ok(prices@),
            l == ledger_of(*store),
            found@.len() == i,
            forall|j: int|
                0 <= j < i ==> l.current.contains_key(
                    ((#[trigger] prices@[j]).base_asset@, prices@[j].quote_asset@),
                ) && found@[j] == l.current[(prices@[j].base_asset@, prices@[j].quote_asset@)],
        decreases prices.len() - i,
    {
        let pair = &prices[i];
        proof {
            assert(all_priced(l, prices@.take(i as int)));
        }
        match load_current(store, pair.base_asset.as_str(), pair.quote_asset.as_str()) {
            Ok(Some(price)) => {
                found.push(price);
            },
            Ok(None) => {
                proof {
                    assert(current_price_result(
                        *store,
                        prices@[i as int].base_asset@,
                        prices@[i as int].quote_asset@,
                    ) == Err::<GetCurrentPriceResponse, ContractError>(ContractError::NotFound));
                }
                return Err(ContractError::NotFound);
            },
            Err(_) => {
                proof {
                    assert(current_price_result(
                        *store,
                        prices@[i as int].base_asset@,
                        prices@[i as int].quote_asset@,
                    ) == Err::<GetCurrentPriceResponse, ContractError>(ContractError::Storage));
                }
                return Err(ContractError::Storage);
            },
        }
        i = i + 1;
    }
    proof {
        assert(found@ =~= prices_of(l, prices@));
    }
    Ok(GetCurrentBatchPricesResponse { prices: found })
}

/// The history of a pair: every archived price with the timestamp it is filed
/// under, by ascending timestamp; empty where nothing was archived.
pub fn query_old_prices(store: &MemoryStorage, base_asset: String, quote_asset: String) -> (r:
    Result<GetOldPricesResponse, ContractError>)
    requires
        pair_ok(base_asset@, quote_asset@),
    ensures
        match r {
            Ok(answer) => ledger_of(*store).history_is(
                base_asset@,
                quote_asset@,
                answer.prices@,
            ),
            Err(e) => e == ContractError::Storage && !archive_readable(*store),
        },
{
    match scan_archive(store, base_asset.as_str(), quote_asset.as_str()) {
        Ok(prices) => Ok(GetOldPricesResponse { prices }),
        Err(_) => Err(ContractError::Storage),
    }
}

/// Whether every pair that a question names can stand in the storage keys
/// that the question reads.
pub open spec fn question_ok(msg: QueryMsg) -> bool {
    match msg {
        QueryMsg::GetConfig {  } => true,
        QueryMsg::GetCurrentPrice { base_asset, quote_asset } => key_part_ok(base_asset@),
        QueryMsg::GetCurrentBatchPrices { prices } => pairs_ok(prices@),
        QueryMsg::GetOldPrices { base_asset, quote_asset } => pair_ok(base_asset@, quote_asset@),
    }
}

/// Whether `r` answers the question `msg` on the feed in `store`.
pub open spec fn answers(store: MemoryStorage, msg: QueryMsg, r: Result<QueryResponse, ContractError>) -> bool {
    let l = ledger_of(store);
    match msg {
        QueryMsg::GetConfig {  } => match r {
            Ok(QueryResponse::Config(answer)) => config_answer(
                l,
                Ok::<GetConfigResponse, ContractError>(answer),
            ),
            Ok(_) => false,
            Err(e) => config_answer(l, Err::<GetConfigResponse, ContractError>(e)),
        },
        QueryMsg::GetCurrentPrice { base_asset, quote_asset } => match r {
            Ok(QueryResponse::CurrentPrice(answer)) => current_price_result(
                store,
                base_asset@,
                quote_asset@,
            ) == Ok::<GetCurrentPriceResponse, ContractError>(answer),
            Ok(_) => false,
            Err(e) => current_price_result(store, base_asset@, quote_asset@) == Err::<
                GetCurrentPriceResponse,
                ContractError,
            >(e),
        },
        QueryMsg::GetCurrentBatchPrices { prices } => match r {
            Ok(QueryResponse::CurrentBatchPrices(answer)) => all_priced(l, prices@)
                && answer.prices@ == prices_of(l, prices@),
            Ok(_) => false,
            Err(e) => !all_priced(l, prices@) && first_failure(store, prices@, e),
        },
        QueryMsg::GetOldPrices { base_asset, quote_asset } => match r {
            Ok(QueryResponse::OldPrices(answer)) => l.history_is(
                base_asset@,
                quote_asset@,
                answer.prices@,
            ),
            Ok(_) => false,
            Err(e) => e == ContractError::Storage && !archive_readable(store),
        },
    }
}

/// Answers one question about the feed.
pub fn query(store: &MemoryStorage, msg: QueryMsg) -> (r: Result<QueryResponse, ContractError>)
    requires
        question_ok(msg),
    ensures
        answers(*store, msg, r),
{
    match msg {
        QueryMsg::GetConfig {  } => {
            match query_config(store) {
                Ok(answer) => Ok(QueryResponse::Config(answer)),
                Err(e) => Err(e),
            }
        },
        QueryMsg::GetCurrentPrice { base_asset, quote_asset } => {
            match query_current_price(store, base_asset, quote_asset) {
                Ok(answer) => Ok(QueryResponse::CurrentPrice(answer)),
                Err(e) => Err(e),
            }
        },
        QueryMsg::GetCurrentBatchPrices { prices } => {
            match query_current_batch_prices(store, prices) {
                Ok(answer) => Ok(QueryResponse::CurrentBatchPrices(answer)),
                Err(e) => Err(e),
            }
        },
        QueryMsg::GetOldPrices { base_asset, quote_asset } => {
            match query_old_prices(store, base_asset, quote_asset) {
                Ok(answer) => Ok(QueryResponse::OldPrices(answer)),
                Err(e) => Err(e),
            }
        },
    }
}

} // verus!
