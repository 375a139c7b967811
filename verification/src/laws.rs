use vstd::prelude::*;
use crate::contract::all_priced;
use crate::contract::current_price_answer;
use crate::contract::prices_of;
use crate::error::ContractError;
use crate::msg::GetCurrentPriceResponse;
use crate::msg::PriceMsg;
use crate::msg::PriceResponseMsg;
use crate::msg::record_all;
use crate::state::Ledger;
use crate::state::Price;

verus! {

/// A feed that was just set up is well formed, prices no pair and has no
/// history for any.
pub proof fn law_fresh_feed_is_empty(owner: Seq<char>, base: Seq<char>, quote: Seq<char>)
    ensures
        Ledger::fresh(owner).wf(),
        current_price_answer(Ledger::fresh(owner), base, quote) == Err::<
            GetCurrentPriceResponse,
            ContractError,
        >(ContractError::NotFound),
        Ledger::fresh(owner).history_is(base, quote, Seq::empty()),
{
}

/// A pair that has never been priced has no history: a well-formed feed
/// archives only pairs that have a current price.
pub proof fn law_unpriced_pair_has_no_history(l: Ledger, base: Seq<char>, quote: Seq<char>)
    requires
        l.wf(),
        !l.current.contains_key((base, quote)),
    ensures
        l.history_is(base, quote, Seq::empty()),
{
    assert forall|t: u64| !#[trigger] l.archive.contains_key((base, quote, t)) by {
        if l.archive.contains_key((base, quote, t)) {
            assert(l.current.contains_key((base, quote)));
        }
    }
}

/// The first price of a pair archives nothing: after it the pair's history
/// is still empty, and the price is the current one.
pub proof fn law_first_write_has_no_archive(
    l: Ledger,
    base: Seq<char>,
    quote: Seq<char>,
    amount: u128,
    now: u64,
)
    requires
        l.wf(),
        !l.current.contains_key((base, quote)),
    ensures
        l.record(base, quote, amount, now).history_is(base, quote, Seq::empty()),
        current_price_answer(l.record(base, quote, amount, now), base, quote) == Ok::<
            GetCurrentPriceResponse,
            ContractError,
        >(GetCurrentPriceResponse { price: Price { amount, timestamp: now } }),
{
    law_unpriced_pair_has_no_history(l, base, quote);
}

/// A second price for a pair displaces the first into the archive, intact and
/// under the first's own timestamp: the second is then the current price, and
/// the pair's history is the first alone.
pub proof fn law_overwrite_archives_displaced(
    l: Ledger,
    base: Seq<char>,
    quote: Seq<char>,
    first: u128,
    t1: u64,
    second: u128,
    t2: u64,
)
    requires
        l.wf(),
        !l.current.contains_key((base, quote)),
    ensures
        ({
            let after = l.record(base, quote, first, t1).record(base, quote, second, t2);
            &&& current_price_answer(after, base, quote) == Ok::<
                GetCurrentPriceResponse,
                ContractError,
            >(GetCurrentPriceResponse { price: Price { amount: second, timestamp: t2 } })
            &&& after.history_is(
                base,
                quote,
                seq![(t1, Price { amount: first, timestamp: t1 })],
            )
        }),
{
    law_unpriced_pair_has_no_history(l, base, quote);
    let after = l.record(base, quote, first, t1).record(base, quote, second, t2);
    let rows = seq![(t1, Price { amount: first, timestamp: t1 })];
    assert(rows[0].0 == t1);
    assert forall|t: u64| #[trigger] after.archive.contains_key((base, quote, t)) implies exists|
        i: int,
    |
        0 <= i < rows.len() && (#[trigger] rows[i]).0 == t by {
        assert(!l.archive.contains_key((base, quote, t)));
        assert(t == t1);
        assert(rows[0].0 == t);
    }
}

/// Three prices for a pair at ascending times leave exactly the first two in
/// its history, the earlier one first.
pub proof fn law_history_ascends(
    l: Ledger,
    base: Seq<char>,
    quote: Seq<char>,
    a1: u128,
    t1: u64,
    a2: u128,
    t2: u64,
    a3: u128,
    t3: u64,
)
    requires
        l.wf(),
        !l.current.contains_key((base, quote)),
        t1 < t2 < t3,
    ensures
        l.record(base, quote, a1, t1).record(base, quote, a2, t2).record(
            base,
            quote,
            a3,
            t3,
        ).history_is(
            base,
            quote,
            seq![
                (t1, Price { amount: a1, timestamp: t1 }),
                (t2, Price { amount: a2, timestamp: t2 }),
            ],
        ),
{
    law_unpriced_pair_has_no_history(l, base, quote);
    let after = l.record(base, quote, a1, t1).record(base, quote, a2, t2).record(
        base,
        quote,
        a3,
        t3,
    );
    let rows = seq![
        (t1, Price { amount: a1, timestamp: t1 }),
        (t2, Price { amount: a2, timestamp: t2 }),
    ];
    assert(rows[0].0 == t1 && rows[1].0 == t2);
    assert forall|t: u64| #[trigger] after.archive.contains_key((base, quote, t)) implies exists|
        i: int,
    |
        0 <= i < rows.len() && (#[trigger] rows[i]).0 == t by {
        assert(!l.archive.contains_key((base, quote, t)));
        if t == t1 {
            assert(rows[0].0 == t);
        } else {
            assert(t == t2);
            assert(rows[1].0 == t);
        }
    }
}

/// A batch of two submissions for two different pairs prices both at the
/// batch's time, and a batch query for the two answers in the order asked.
pub proof fn law_batch_prices_each_pair(
    l: Ledger,
    first: PriceMsg,
    second: PriceMsg,
    now: u64,
    ask_first: PriceResponseMsg,
    ask_second: PriceResponseMsg,
)
    requires
        (first.base_asset@, first.quote_asset@) != (second.base_asset@, second.quote_asset@),
        ask_first.base_asset@ == first.base_asset@,
        ask_first.quote_asset@ == first.quote_asset@,
        ask_second.base_asset@ == second.base_asset@,
        ask_second.quote_asset@ == second.quote_asset@,
    ensures
        ({
            let after = record_all(l, seq![first, second], now);
            &&& current_price_answer(after, first.base_asset@, first.quote_asset@) == Ok::<
                GetCurrentPriceResponse,
                ContractError,
            >(GetCurrentPriceResponse { price: Price { amount: first.amount, timestamp: now } })
            &&& current_price_answer(after, second.base_asset@, second.quote_asset@) == Ok::<
                GetCurrentPriceResponse,
                ContractError,
            >(GetCurrentPriceResponse { price: Price { amount: second.amount, timestamp: now } })
            &&& all_priced(after, seq![ask_first, ask_second])
            &&& prices_of(after, seq![ask_first, ask_second]) == seq![
                Price { amount: first.amount, timestamp: now },
                Price { amount: second.amount, timestamp: now },
            ]
        }),
{
    let both = seq![first, second];
    let one = seq![first];
    assert(both.drop_last() == one);
    assert(one.drop_last() == Seq::<PriceMsg>::empty());
    assert(both.last() == second && one.last() == first);
    reveal_with_fuel(record_all, 3);
    let after = record_all(l, both, now);
    assert(after == l.record(first.base_asset@, first.quote_asset@, first.amount, now).record(
        second.base_asset@,
        second.quote_asset@,
        second.amount,
        now,
    ));
    let asked = seq![ask_first, ask_second];
    assert(asked[0] == ask_first && asked[1] == ask_second);
    assert(prices_of(after, asked) =~= seq![
        Price { amount: first.amount, timestamp: now },
        Price { amount: second.amount, timestamp: now },
    ]);
}

/// The last submission of a batch is the current price of its pair at the
/// batch's time, whatever the batch did before: a pair named twice keeps the
/// later amount.
pub proof fn law_batch_is_sequential(l: Ledger, entries: Seq<PriceMsg>, now: u64)
    requires
        entries.len() > 0,
    ensures
        current_price_answer(
            record_all(l, entries, now),
            entries.last().base_asset@,
            entries.last().quote_asset@,
        ) == Ok::<GetCurrentPriceResponse, ContractError>(
            GetCurrentPriceResponse {
                price: Price { amount: entries.last().amount, timestamp: now },
            },
        ),
{
}

/// Recording a price never removes an archived price, and changes none but
/// the one filed under the displaced price's own pair and timestamp.
pub proof fn law_archive_only_grows(
    l: Ledger,
    base: Seq<char>,
    quote: Seq<char>,
    amount: u128,
    now: u64,
    b: Seq<char>,
    q: Seq<char>,
    t: u64,
)
    requires
        l.archive.contains_key((b, q, t)),
    ensures
        l.record(base, quote, amount, now).archive.contains_key((b, q, t)),
        l.record(base, quote, amount, now).archive[(b, q, t)] != l.archive[(b, q, t)] ==> (b, q)
            == (base, quote) && l.current.contains_key((base, quote)) && l.current[(
            base,
            quote,
        )].timestamp == t,
        l.current.contains_key((base, quote)) ==> l.record(
            base,
            quote,
            amount,
            now,
        ).archive.contains_key((base, quote, l.current[(base, quote)].timestamp)) && l.record(
            base,
            quote,
            amount,
            now,
        ).archive[(base, quote, l.current[(base, quote)].timestamp)] == l.current[(base, quote)],
{
}

/// Recording a price for one pair leaves every other pair as it was: its
/// current price, and each of its archived prices.
pub proof fn law_record_leaves_other_pairs(
    l: Ledger,
    base: Seq<char>,
    quote: Seq<char>,
    amount: u128,
    now: u64,
    b: Seq<char>,
    q: Seq<char>,
    rows: Seq<(u64, Price)>,
)
    requires
        (b, q) != (base, quote),
    ensures
        current_price_answer(l.record(base, quote, amount, now), b, q) == current_price_answer(
            l,
            b,
            q,
        ),
        l.record(base, quote, amount, now).history_is(b, q, rows) == l.history_is(b, q, rows),
{
    let after = l.record(base, quote, amount, now);
    assert forall|t: u64|
        #![trigger after.archive.contains_key((b, q, t))]
        #![trigger l.archive.contains_key((b, q, t))]
        after.archive.contains_key((b, q, t)) == l.archive.contains_key((b, q, t)) && (
        l.archive.contains_key((b, q, t)) ==> after.archive[(b, q, t)] == l.archive[(b, q, t)]) by {
        if l.current.contains_key((base, quote)) {
            assert((b, q, t) != (base, quote, l.current[(base, quote)].timestamp));
        }
    }
    if l.history_is(b, q, rows) {
        assert(after.history_is(b, q, rows));
    }
    if after.history_is(b, q, rows) {
        assert(l.history_is(b, q, rows));
    }
}

/// The feed without the archived price of `(base, quote)` at `t`.
pub open spec fn without(l: Ledger, base: Seq<char>, quote: Seq<char>, t: u64) -> Ledger {
    Ledger { archive: l.archive.remove((base, quote, t)), ..l }
}

/// A history without its last row is the history of the feed without that row.
pub proof fn lemma_history_drop_last(
    l: Ledger,
    base: Seq<char>,
    quote: Seq<char>,
    rows: Seq<(u64, Price)>,
)
    requires
        l.history_is(base, quote, rows),
        rows.len() > 0,
    ensures
        without(l, base, quote, rows.last().0).history_is(base, quote, rows.drop_last()),
{
    let top = rows.last().0;
    let rest = rows.drop_last();
    let less = without(l, base, quote, top);
    assert forall|i: int| 0 <= i < rest.len() implies less.archive.contains_key(
        (base, quote, (#[trigger] rest[i]).0),
    ) && less.archive[(base, quote, rest[i].0)] == rest[i].1 by {
        assert(rest[i] == rows[i]);
        assert(rows[i].0 < rows[rows.len() - 1].0);
    }
    assert forall|i: int, j: int| 0 <= i < j < rest.len() implies (#[trigger] rest[i]).0 < (
    #[trigger] rest[j]).0 by {
        assert(rest[i] == rows[i] && rest[j] == rows[j]);
    }
    assert forall|t: u64| #[trigger] less.archive.contains_key((base, quote, t)) implies exists|
        i: int,
    |
        0 <= i < rest.len() && (#[trigger] rest[i]).0 == t by {
        assert(l.archive.contains_key((base, quote, t)));
        let i = choose|i: int| 0 <= i < rows.len() && (#[trigger] rows[i]).0 == t;
        assert(t != top);
        assert(i < rows.len() - 1);
        assert(rest[i] == rows[i]);
    }
}

/// A feed gives a pair one history and no other: two answers to a question
/// for the old prices of a pair are the same answer.
pub proof fn law_history_is_unique(
    l: Ledger,
    base: Seq<char>,
    quote: Seq<char>,
    one: Seq<(u64, Price)>,
    other: Seq<(u64, Price)>,
)
    requires
        l.history_is(base, quote, one),
        l.history_is(base, quote, other),
    ensures
        one == other,
    decreases one.len(),
{
    if one.len() == 0 {
        if other.len() > 0 {
            assert(l.archive.contains_key((base, quote, other[0].0)));
        }
        assert(one =~= other);
    } else {
        let top = one.last();
        assert(l.archive.contains_key((base, quote, one[one.len() - 1].0)));
        let j = choose|j: int| 0 <= j < other.len() && (#[trigger] other[j]).0 == top.0;
        let peak = other.last();
        assert(l.archive.contains_key((base, quote, other[other.len() - 1].0)));
        let i = choose|i: int| 0 <= i < one.len() && (#[trigger] one[i]).0 == peak.0;
        assert(one[i].0 <= one[one.len() - 1].0);
        assert(other[j].0 <= other[other.len() - 1].0);
        assert(top.0 == peak.0);
        assert(top == peak);
        lemma_history_drop_last(l, base, quote, one);
        lemma_history_drop_last(l, base, quote, other);
        law_history_is_unique(
            without(l, base, quote, top.0),
            base,
            quote,
            one.drop_last(),
            other.drop_last(),
        );
        assert(one =~= one.drop_last().push(top));
        assert(other =~= other.drop_last().push(peak));
    }
}

/// In a well-formed feed every row of a pair's history holds a price taken at
/// the timestamp that the row is filed under.
pub proof fn law_history_rows_carry_their_timestamp(
    l: Ledger,
    base: Seq<char>,
    quote: Seq<char>,
    rows: Seq<(u64, Price)>,
)
    requires
        l.wf(),
        l.history_is(base, quote, rows),
    ensures
        forall|i: int| 0 <= i < rows.len() ==> (#[trigger] rows[i]).1.timestamp == rows[i].0,
{
    assert forall|i: int| 0 <= i < rows.len() implies (#[trigger] rows[i]).1.timestamp
        == rows[i].0 by {
        assert(l.archive.contains_key((base, quote, rows[i].0)));
    }
}

/// Whether no two submissions of a batch name the same pair.
pub open spec fn distinct_pairs(entries: Seq<PriceMsg>) -> bool {
    forall|i: int, j: int|
        0 <= i < j < entries.len() ==> ((#[trigger] entries[i]).base_asset@, entries[i].quote_asset@)
            != ((#[trigger] entries[j]).base_asset@, entries[j].quote_asset@)
}

/// A batch that names each pair once prices every pair it names, at the
/// amount submitted and the batch's time.
pub proof fn law_batch_prices_every_pair(l: Ledger, entries: Seq<PriceMsg>, now: u64, i: int)
    requires
        distinct_pairs(entries),
        0 <= i < entries.len(),
    ensures
        current_price_answer(
            record_all(l, entries, now),
            entries[i].base_asset@,
            entries[i].quote_asset@,
        ) == Ok::<GetCurrentPriceResponse, ContractError>(
            GetCurrentPriceResponse { price: Price { amount: entries[i].amount, timestamp: now } },
        ),
    decreases entries.len(),
{
    if i < entries.len() - 1 {
        let rest = entries.drop_last();
        assert forall|a: int, b: int| 0 <= a < b < rest.len() implies ((#[trigger] rest[a]).base_asset@, rest[a].quote_asset@)
            != ((#[trigger] rest[b]).base_asset@, rest[b].quote_asset@) by {
            assert(rest[a] == entries[a] && rest[b] == entries[b]);
        }
        law_batch_prices_every_pair(l, rest, now, i);
        assert(rest[i] == entries[i]);
        assert(entries.last() == entries[entries.len() - 1]);
    }
}

/// A batch leaves every pair that it does not name as it was: its current
/// price, and each of its archived prices.
pub proof fn law_batch_leaves_other_pairs(
    l: Ledger,
    entries: Seq<PriceMsg>,
    now: u64,
    b: Seq<char>,
    q: Seq<char>,
    rows: Seq<(u64, Price)>,
)
    requires
        forall|i: int|
            0 <= i < entries.len() ==> ((#[trigger] entries[i]).base_asset@, entries[i].quote_asset@)
                != (b, q),
    ensures
        current_price_answer(record_all(l, entries, now), b, q) == current_price_answer(l, b, q),
        record_all(l, entries, now).history_is(b, q, rows) == l.history_is(b, q, rows),
    decreases entries.len(),
{
    if entries.len() > 0 {
        let rest = entries.drop_last();
        let last = entries.last();
        assert forall|i: int| 0 <= i < rest.len() implies ((#[trigger] rest[i]).base_asset@, rest[i].quote_asset@)
            != (b, q) by {
            assert(rest[i] == entries[i]);
        }
        law_batch_leaves_other_pairs(l, rest, now, b, q, rows);
        assert(last == entries[entries.len() - 1]);
        law_record_leaves_other_pairs(
            record_all(l, rest, now),
            last.base_asset@,
            last.quote_asset@,
            last.amount,
            now,
            b,
            q,
            rows,
        );
    }
}

/// Prices recorded for two different pairs may be recorded in either order:
/// the feed is the same.
pub proof fn law_records_of_different_pairs_commute(
    l: Ledger,
    base: Seq<char>,
    quote: Seq<char>,
    amount: u128,
    now: u64,
    b: Seq<char>,
    q: Seq<char>,
    other_amount: u128,
    other_now: u64,
)
    requires
        (b, q) != (base, quote),
    ensures
        l.record(base, quote, amount, now).record(b, q, other_amount, other_now) == l.record(
            b,
            q,
            other_amount,
            other_now,
        ).record(base, quote, amount, now),
{
    let one = l.record(base, quote, amount, now).record(b, q, other_amount, other_now);
    let two = l.record(b, q, other_amount, other_now).record(base, quote, amount, now);
    assert(one.current =~= two.current);
    if l.current.contains_key((base, quote)) && l.current.contains_key((b, q)) {
        assert((base, quote, l.current[(base, quote)].timestamp) != (
            b,
            q,
            l.current[(b, q)].timestamp,
        ));
    }
    assert(one.archive =~= two.archive);
}

/// A batch of two submissions for two different pairs leaves the same feed
/// in either order.
pub proof fn law_batch_of_two_pairs_in_either_order(
    l: Ledger,
    first: PriceMsg,
    second: PriceMsg,
    now: u64,
)
    requires
        (first.base_asset@, first.quote_asset@) != (second.base_asset@, second.quote_asset@),
    ensures
        record_all(l, seq![first, second], now) == record_all(l, seq![second, first], now),
{
    let ab = seq![first, second];
    let ba = seq![second, first];
    assert(ab.drop_last() == seq![first] && ab.last() == second);
    assert(ba.drop_last() == seq![second] && ba.last() == first);
    assert(seq![first].drop_last() == Seq::<PriceMsg>::empty() && seq![first].last() == first);
    assert(seq![second].drop_last() == Seq::<PriceMsg>::empty() && seq![second].last() == second);
    reveal_with_fuel(record_all, 3);
    law_records_of_different_pairs_commute(
        l,
        first.base_asset@,
        first.quote_asset@,
        first.amount,
        now,
        second.base_asset@,
        second.quote_asset@,
        second.amount,
        now,
    );
}

/// A batch in two parts is the first part, then the second.
pub proof fn lemma_record_all_in_parts(l: Ledger, head: Seq<PriceMsg>, tail: Seq<PriceMsg>, now: u64)
    ensures
        record_all(l, head + tail, now) == record_all(record_all(l, head, now), tail, now),
    decreases tail.len(),
{
    if tail.len() == 0 {
        assert(head + tail =~= head);
    } else {
        assert((head + tail).drop_last() =~= head + tail.drop_last());
        assert((head + tail).last() == tail.last());
        lemma_record_all_in_parts(l, head, tail.drop_last(), now);
    }
}

/// Two neighbours of a batch that name different pairs may change places:
/// the batch leaves the same feed.
pub proof fn law_batch_neighbours_commute(l: Ledger, entries: Seq<PriceMsg>, now: u64, i: int)
    requires
        0 <= i < entries.len() - 1,
        (entries[i].base_asset@, entries[i].quote_asset@) != (
            entries[i + 1].base_asset@,
            entries[i + 1].quote_asset@,
        ),
    ensures
        record_all(l, entries.update(i, entries[i + 1]).update(i + 1, entries[i]), now)
            == record_all(l, entries, now),
{
    let head = entries.take(i);
    let tail = entries.skip(i + 2);
    let pair = seq![entries[i], entries[i + 1]];
    let turned = seq![entries[i + 1], entries[i]];
    let swapped = entries.update(i, entries[i + 1]).update(i + 1, entries[i]);
    assert(entries =~= (head + pair) + tail);
    assert(swapped =~= (head + turned) + tail);
    lemma_record_all_in_parts(l, head + pair, tail, now);
    lemma_record_all_in_parts(l, head + turned, tail, now);
    lemma_record_all_in_parts(l, head, pair, now);
    lemma_record_all_in_parts(l, head, turned, now);
    law_batch_of_two_pairs_in_either_order(
        record_all(l, head, now),
        entries[i],
        entries[i + 1],
        now,
    );
}

/// A price that displaces one taken later than every archived price of the
/// pair adds exactly one row to the end of the pair's history: the displaced
/// price, under its own timestamp.
pub proof fn law_history_grows_at_the_end(
    l: Ledger,
    base: Seq<char>,
    quote: Seq<char>,
    amount: u128,
    now: u64,
    rows: Seq<(u64, Price)>,
)
    requires
        l.history_is(base, quote, rows),
        l.current.contains_key((base, quote)),
        forall|i: int|
            0 <= i < rows.len() ==> (#[trigger] rows[i]).0 < l.current[(base, quote)].timestamp,
    ensures
        l.record(base, quote, amount, now).history_is(
            base,
            quote,
            rows.push((l.current[(base, quote)].timestamp, l.current[(base, quote)])),
        ),
{
    let displaced = l.current[(base, quote)];
    let after = l.record(base, quote, amount, now);
    let longer = rows.push((displaced.timestamp, displaced));
    assert forall|i: int| 0 <= i < longer.len() implies after.archive.contains_key(
        (base, quote, (#[trigger] longer[i]).0),
    ) && after.archive[(base, quote, longer[i].0)] == longer[i].1 by {
        if i < rows.len() {
            assert(longer[i] == rows[i]);
            assert(l.archive.contains_key((base, quote, rows[i].0)));
        }
    }
    assert forall|i: int, j: int| 0 <= i < j < longer.len() implies (#[trigger] longer[i]).0 < (
    #[trigger] longer[j]).0 by {
        assert(longer[i] == rows[i]);
        if j < rows.len() {
            assert(longer[j] == rows[j]);
        }
    }
    assert forall|t: u64| #[trigger] after.archive.contains_key((base, quote, t)) implies exists|
        i: int,
    |
        0 <= i < longer.len() && (#[trigger] longer[i]).0 == t by {
        if t == displaced.timestamp {
            assert(longer[rows.len() as int].0 == t);
        } else {
            assert(l.archive.contains_key((base, quote, t)));
            let i = choose|i: int| 0 <= i < rows.len() && (#[trigger] rows[i]).0 == t;
            assert(longer[i] == rows[i]);
        }
    }
}

} // verus!
