use vstd::prelude::*;

verus! {

/// The single record that names who may write.
#[derive(Clone, Debug, PartialEq)]
pub struct Config {
    pub owner: String,
}

/// One observation of a pair's rate: the amount and the second it was taken.
#[derive(Clone, Copy, Debug, PartialEq, Eq, Structural)]
pub struct Price {
    pub amount: u128,
    pub timestamp: u64,
}

/// An asset pair as the contracts see it: base and quote, compared exactly.
pub type Pair = (Seq<char>, Seq<char>);

/// The mathematical content of a feed.
pub ghost struct Ledger {
    /// The owner, once the feed is set up.
    pub owner: Option<Seq<char>>,
    /// The latest price of each pair that has one.
    pub current: Map<Pair, Price>,
    /// Every replaced price, under its pair and its own timestamp.
    pub archive: Map<(Seq<char>, Seq<char>, u64), Price>,
}

impl Ledger {
    /// A feed that has an owner, archives only pairs that have a current
    /// price, and files each archived price under that price's own timestamp.
    pub open spec fn wf(self) -> bool {
        &&& self.owner is Some
        &&& forall|b: Seq<char>, q: Seq<char>, t: u64| #[trigger]
            self.archive.contains_key((b, q, t)) ==> self.current.contains_key((b, q))
                && self.archive[(b, q, t)].timestamp == t
    }

    /// The feed right after set-up by `owner`.
    pub open spec fn fresh(owner: Seq<char>) -> Ledger {
        Ledger { owner: Some(owner), current: Map::empty(), archive: Map::empty() }
    }

    /// The feed with another owner.
    pub open spec fn with_owner(self, owner: Seq<char>) -> Ledger {
        Ledger { owner: Some(owner), ..self }
    }

    /// The archive after the current price of `(base, quote)`, if any, has been moved into it.
    pub open spec fn archived(self, base: Seq<char>, quote: Seq<char>) -> Map<
        (Seq<char>, Seq<char>, u64),
        Price,
    > {
        if self.current.contains_key((base, quote)) {
            let displaced = self.current[(base, quote)];
            self.archive.insert((base, quote, displaced.timestamp), displaced)
        } else {
            self.archive
        }
    }

    /// The feed after one price was recorded: the displaced price, if any, goes to
    /// the archive under its own timestamp, and the new one takes its place.
    pub open spec fn record(self, base: Seq<char>, quote: Seq<char>, amount: u128, now: u64) -> Ledger {
        Ledger {
            owner: self.owner,
            current: self.current.insert((base, quote), Price { amount, timestamp: now }),
            archive: self.archived(base, quote),
        }
    }

    /// Whether `rows` is the history of `(base, quote)`: every archived price of the
    /// pair, each once, by ascending timestamp.
    pub open spec fn history_is(self, base: Seq<char>, quote: Seq<char>, rows: Seq<(u64, Price)>) -> bool {
        &&& forall|i: int|
            0 <= i < rows.len() ==> self.archive.contains_key((base, quote, (#[trigger] rows[i]).0))
                && self.archive[(base, quote, rows[i].0)] == rows[i].1
        &&& forall|i: int, j: int|
            0 <= i < j < rows.len() ==> (#[trigger] rows[i]).0 < (#[trigger] rows[j]).0
        &&& forall|t: u64| #[trigger]
            self.archive.contains_key((base, quote, t)) ==> exists|i: int|
                0 <= i < rows.len() && (#[trigger] rows[i]).0 == t
    }
}

} // verus!
