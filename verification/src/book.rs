use vstd::prelude::*;
use std::collections::HashMap;

verus! {

broadcast use vstd::std_specs::hash::group_hash_axioms;

/// Which side of the book a level belongs to.
#[derive(Clone, Copy, PartialEq, Eq, Structural, Debug)]
pub enum Side {
    Bid,
    Ask,
}

/// One price level. The price is the identity key within a side; a
/// quantity of zero means "this level is removed".
#[derive(Clone, Copy, PartialEq, Eq, Structural, Debug)]
pub struct PriceLevel {
    pub price: u64,
    pub quantity: u64,
}

/// A complete point-in-time view of the book for one instrument,
/// consumed exactly once to seed the live book.
#[derive(Clone, Debug)]
pub struct BookSnapshot {
    pub last_update_id: u64,
    pub bids: Vec<PriceLevel>,
    pub asks: Vec<PriceLevel>,
}

/// All level changes between two update-id boundaries. Diffs must be
/// applied in non-decreasing `first_update_id` order.
#[derive(Clone, Debug)]
pub struct DepthDiff {
    pub first_update_id: u64,
    pub final_update_id: u64,
    pub bids: Vec<PriceLevel>,
    pub asks: Vec<PriceLevel>,
}

/// What applying one level does to a side mapping: a zero quantity
/// removes the price, a positive quantity upserts it.
pub open spec fn apply_level(m: Map<u64, u64>, level: PriceLevel) -> Map<u64, u64> {
    if level.quantity == 0 {
        m.remove(level.price)
    } else {
        m.insert(level.price, level.quantity)
    }
}

/// Applying a sequence of levels to a side mapping, first to last.
pub open spec fn apply_levels(m: Map<u64, u64>, levels: Seq<PriceLevel>) -> Map<u64, u64>
    decreases levels.len(),
{
    if levels.len() == 0 {
        m
    } else {
        apply_levels(apply_level(m, levels[0]), levels.skip(1))
    }
}

/// A side mapping never stores a non-positive quantity: a key that is
/// present always maps to a quantity strictly greater than zero.
pub open spec fn side_well_formed(m: Map<u64, u64>) -> bool {
    forall|p: u64| #[trigger] m.contains_key(p) ==> m[p] > 0
}

/// No level in the sequence carries the given price.
pub open spec fn price_untouched(levels: Seq<PriceLevel>, p: u64) -> bool {
    forall|j: int| 0 <= j < levels.len() ==> (#[trigger] levels[j]).price != p
}

/// Each price occurs at most once in the sequence.
pub open spec fn distinct_prices(levels: Seq<PriceLevel>) -> bool {
    forall|i: int, j: int|
        0 <= i < levels.len() && 0 <= j < levels.len() && i != j ==> (#[trigger] levels[i]).price
            != (#[trigger] levels[j]).price
}

/// Applying one level preserves the strictly-positive-quantity shape of
/// a side mapping.
proof fn lemma_apply_level_well_formed(m: Map<u64, u64>, level: PriceLevel)
    requires
        side_well_formed(m),
    ensures
        side_well_formed(apply_level(m, level)),
{
}

/// No operation on a side mapping ever stores a non-positive quantity:
/// applying any sequence of level changes to a well-formed side mapping
/// leaves it well-formed.
pub proof fn lemma_apply_levels_well_formed(m: Map<u64, u64>, levels: Seq<PriceLevel>)
    requires
        side_well_formed(m),
    ensures
        side_well_formed(apply_levels(m, levels)),
    decreases levels.len(),
{
    if levels.len() > 0 {
        lemma_apply_level_well_formed(m, levels[0]);
        lemma_apply_levels_well_formed(apply_level(m, levels[0]), levels.skip(1));
    }
}

/// A price that no level in the sequence mentions keeps exactly the
/// mapping it had before the sequence is applied.
pub proof fn lemma_apply_levels_untouched(m: Map<u64, u64>, levels: Seq<PriceLevel>, p: u64)
    requires
        price_untouched(levels, p),
    ensures
        apply_levels(m, levels).contains_key(p) == m.contains_key(p),
        m.contains_key(p) ==> apply_levels(m, levels)[p] == m[p],
    decreases levels.len(),
{
    if levels.len() > 0 {
        assert(levels[0].price != p);
        assert(price_untouched(levels.skip(1), p)) by {
            assert forall|j: int| 0 <= j < levels.skip(1).len() implies (#[trigger] levels.skip(
                1,
            )[j]).price != p by {
                assert(levels.skip(1)[j] == levels[j + 1]);
            }
        }
        lemma_apply_levels_untouched(apply_level(m, levels[0]), levels.skip(1), p);
    }
}

/// Continuity of application at the level of one side: when each price
/// occurs at most once in the sequence, every level with a positive
/// quantity ends up present in the mapping with exactly that quantity,
/// and every level with a zero quantity ends up absent.
pub proof fn lemma_apply_levels_sets(m: Map<u64, u64>, levels: Seq<PriceLevel>, i: int)
    requires
        distinct_prices(levels),
        0 <= i < levels.len(),
    ensures
        levels[i].quantity > 0 ==> apply_levels(m, levels).contains_key(levels[i].price)
            && apply_levels(m, levels)[levels[i].price] == levels[i].quantity,
        levels[i].quantity == 0 ==> !apply_levels(m, levels).contains_key(levels[i].price),
    decreases levels.len(),
{
    let rest = levels.skip(1);
    assert(distinct_prices(rest)) by {
        assert forall|a: int, b: int|
            0 <= a < rest.len() && 0 <= b < rest.len() && a != b implies (#[trigger] rest[a]).price
            != (#[trigger] rest[b]).price by {
            assert(rest[a] == levels[a + 1]);
            assert(rest[b] == levels[b + 1]);
        }
    }
    if i == 0 {
        assert(price_untouched(rest, levels[0].price)) by {
            assert forall|j: int| 0 <= j < rest.len() implies (#[trigger] rest[j]).price
                != levels[0].price by {
                assert(rest[j] == levels[j + 1]);
            }
        }
        lemma_apply_levels_untouched(apply_level(m, levels[0]), rest, levels[0].price);
    } else {
        assert(rest[i - 1] == levels[i]);
        lemma_apply_levels_sets(apply_level(m, levels[0]), rest, i - 1);
    }
}

/// The three-way outcome of offering a diff to the book.
#[derive(Clone, Copy, PartialEq, Eq, Structural, Debug)]
pub enum ApplyResult {
    /// The diff passed the continuity check and its levels were applied.
    Applied,
    /// The diff ends at or before the last applied update: already seen,
    /// dropped without touching the book.
    Stale,
    /// The diff starts beyond the next expected update: an update was
    /// missed and the book must be re-seeded from a fresh snapshot.
    Gap,
}

/// The continuity rule: a diff is applicable exactly when it overlaps
/// or immediately follows the last applied update id.
pub open spec fn diff_applicable(diff: DepthDiff, last_applied: u64) -> bool {
    diff.first_update_id <= last_applied + 1 && last_applied + 1 <= diff.final_update_id
}

/// A gap: the diff starts strictly beyond the next expected update id,
/// so some update in between was missed.
pub open spec fn diff_gap(diff: DepthDiff, last_applied: u64) -> bool {
    diff.first_update_id > last_applied + 1
}

/// A stale diff: everything it describes was already applied.
pub open spec fn diff_stale(diff: DepthDiff, last_applied: u64) -> bool {
    diff.final_update_id < last_applied + 1
}

/// The authoritative in-memory book: one price -> quantity mapping per
/// side, plus the id of the last applied update.
pub struct OrderBook {
    pub bids: HashMap<u64, u64>,
    pub asks: HashMap<u64, u64>,
    pub last_applied_update_id: u64,
}

impl OrderBook {
    /// Both side mappings hold strictly positive quantities only.
    pub open spec fn well_formed(self) -> bool {
        side_well_formed(self.bids@) && side_well_formed(self.asks@)
    }

    /// An empty book, waiting to be seeded.
    pub fn new() -> (book: Self)
        ensures
            book.bids@ == Map::<u64, u64>::empty(),
            book.asks@ == Map::<u64, u64>::empty(),
            book.last_applied_update_id == 0,
            book.well_formed(),
    {
        OrderBook { bids: HashMap::new(), asks: HashMap::new(), last_applied_update_id: 0 }
    }

    /// Discard all current state, then take the snapshot as the new
    /// book. The resulting state is a function of the snapshot alone:
    /// whatever the book held before is gone.
    pub fn seed(&mut self, snapshot: &BookSnapshot)
        ensures
            final(self).bids@ == apply_levels(Map::<u64, u64>::empty(), snapshot.bids@),
            final(self).asks@ == apply_levels(Map::<u64, u64>::empty(), snapshot.asks@),
            final(self).last_applied_update_id == snapshot.last_update_id,
            final(self).well_formed(),
    {
        self.bids = HashMap::new();
        self.asks = HashMap::new();
        apply_levels_to_side(&mut self.bids, &snapshot.bids);
        apply_levels_to_side(&mut self.asks, &snapshot.asks);
        self.last_applied_update_id = snapshot.last_update_id;
        proof {
            lemma_apply_levels_well_formed(Map::<u64, u64>::empty(), snapshot.bids@);
            lemma_apply_levels_well_formed(Map::<u64, u64>::empty(), snapshot.asks@);
        }
    }

    /// Offer one diff to the book under the continuity rule. An
    /// applicable diff is folded into both sides and advances the last
    /// applied update id to the diff's final id; a stale diff is
    /// dropped; a gap leaves the book untouched and reports that a
    /// resync is required. The last applied update id never decreases.
    pub fn apply_diff(&mut self, diff: &DepthDiff) -> (result: ApplyResult)
        requires
            old(self).well_formed(),
        ensures
            final(self).well_formed(),
            final(self).last_applied_update_id >= old(self).last_applied_update_id,
            result == ApplyResult::Gap <==> diff_gap(*diff, old(self).last_applied_update_id),
            result == ApplyResult::Stale <==> !diff_gap(*diff, old(self).last_applied_update_id)
                && diff_stale(*diff, old(self).last_applied_update_id),
            result == ApplyResult::Applied <==> diff_applicable(
                *diff,
                old(self).last_applied_update_id,
            ),
            result == ApplyResult::Applied ==> {
                &&& final(self).bids@ == apply_levels(old(self).bids@, diff.bids@)
                &&& final(self).asks@ == apply_levels(old(self).asks@, diff.asks@)
                &&& final(self).last_applied_update_id == diff.final_update_id
            },
            result != ApplyResult::Applied ==> {
                &&& final(self).bids@ == old(self).bids@
                &&& final(self).asks@ == old(self).asks@
                &&& final(self).last_applied_update_id == old(self).last_applied_update_id
            },
    {
        if self.last_applied_update_id == u64::MAX {
            // No diff can start beyond or reach past the largest id.
            return ApplyResult::Stale;
        }
        let next = self.last_applied_update_id + 1;
        if diff.first_update_id > next {
            return ApplyResult::Gap;
        }
        if diff.final_update_id < next {
            return ApplyResult::Stale;
        }
        apply_levels_to_side(&mut self.bids, &diff.bids);
        apply_levels_to_side(&mut self.asks, &diff.asks);
        self.last_applied_update_id = diff.final_update_id;
        proof {
            lemma_apply_levels_well_formed(old(self).bids@, diff.bids@);
            lemma_apply_levels_well_formed(old(self).asks@, diff.asks@);
        }
        ApplyResult::Applied
    }

    /// Drop every level on both sides, as a resync does before a fresh
    /// snapshot arrives. The last applied update id is kept, so it
    /// never decreases.
    pub fn discard(&mut self)
        ensures
            final(self).bids@ == Map::<u64, u64>::empty(),
            final(self).asks@ == Map::<u64, u64>::empty(),
            final(self).last_applied_update_id == old(self).last_applied_update_id,
            final(self).well_formed(),
    {
        self.bids.clear();
        self.asks.clear();
    }

    /// The quantity resting at a price on one side, if the level exists.
    pub fn get_quantity(&self, side: Side, price: u64) -> (result: Option<u64>)
        ensures
            result == if self.side_view(side).contains_key(price) {
                Some(self.side_view(side)[price])
            } else {
                None::<u64>
            },
    {
        let m = match side {
            Side::Bid => &self.bids,
            Side::Ask => &self.asks,
        };
        match m.get(&price) {
            Some(q) => Some(*q),
            None => None,
        }
    }

    /// The number of levels resting on one side.
    pub fn side_len(&self, side: Side) -> (result: usize)
        ensures
            result == self.side_view(side).len(),
    {
        match side {
            Side::Bid => self.bids.len(),
            Side::Ask => self.asks.len(),
        }
    }

    /// The mapping of one side, as a mathematical map.
    pub open spec fn side_view(self, side: Side) -> Map<u64, u64> {
        match side {
            Side::Bid => self.bids@,
            Side::Ask => self.asks@,
        }
    }

    /// The crossed-book condition: some bid price at or above some ask
    /// price. Once both sides are populated, every bid key must lie
    /// below the best ask key; a crossed book is a correctness
    /// violation in the feed, not merely unusual data.
    pub open spec fn crossed(self) -> bool {
        exists|b: u64, a: u64|
            #![trigger self.bids@.contains_key(b), self.asks@.contains_key(a)]
            self.bids@.contains_key(b) && self.asks@.contains_key(a) && b >= a
    }

    /// Decide whether the book is crossed, exactly as `crossed` states
    /// it: the best bid reaches or passes the best ask.
    pub fn is_crossed(&self) -> (result: bool)
        ensures
            result == self.crossed(),
    {
        let best_bid = side_max_key(&self.bids);
        let best_ask = side_min_key(&self.asks);
        match (best_bid, best_ask) {
            (Some(bid), Some(ask)) => {
                if bid >= ask {
                    proof {
                        assert(self.bids@.contains_key(bid) && self.asks@.contains_key(ask) && bid
                            >= ask);
                    }
                    true
                } else {
                    false
                }
            },
            _ => false,
        }
    }
}

/// Relies on std's `HashMap::keys`: it visits every key of the map
/// exactly once, in no specified order, and `collect` gathers them.
#[verifier::external_body]
fn keys_vec(m: &HashMap<u64, u64>) -> (result: Vec<u64>)
    ensures
        result@.to_set() == m@.dom(),
{
    m.keys().copied().collect()
}

/// The largest price resting in a side mapping, if the side holds any.
fn side_max_key(m: &HashMap<u64, u64>) -> (result: Option<u64>)
    ensures
        match result {
            Some(k) => m@.contains_key(k) && (forall|q: u64| #[trigger] m@.contains_key(q) ==> q
                <= k),
            None => forall|q: u64| !(#[trigger] m@.contains_key(q)),
        },
{
    let keys = keys_vec(m);
    let mut best: Option<u64> = None;
    let n = keys.len();
    for i in 0..n
        invariant
            n == keys@.len(),
            keys@.to_set() == m@.dom(),
            match best {
                Some(b) => keys@.contains(b) && (forall|j: int|
                    0 <= j < i ==> #[trigger] keys@[j] <= b),
                None => i == 0,
            },
    {
        let k = keys[i];
        match best {
            None => {
                best = Some(k);
            },
            Some(b) => {
                if k > b {
                    best = Some(k);
                }
            },
        }
    }
    proof {
        match best {
            Some(b) => {
                assert(m@.dom().contains(b));
                assert forall|q: u64| #[trigger] m@.contains_key(q) implies q <= b by {
                    assert(keys@.to_set().contains(q));
                    let j = choose|j: int| 0 <= j < keys@.len() && keys@[j] == q;
                    assert(keys@[j] <= b);
                }
            },
            None => {
                assert forall|q: u64| !(#[trigger] m@.contains_key(q)) by {
                    if m@.dom().contains(q) {
                        assert(keys@.to_set().contains(q));
                        let j = choose|j: int| 0 <= j < keys@.len() && keys@[j] == q;
                    }
                }
            },
        }
    }
    best
}

/// The smallest price resting in a side mapping, if the side holds any.
fn side_min_key(m: &HashMap<u64, u64>) -> (result: Option<u64>)
    ensures
        match result {
            Some(k) => m@.contains_key(k) && (forall|q: u64| #[trigger] m@.contains_key(q) ==> q
                >= k),
            None => forall|q: u64| !(#[trigger] m@.contains_key(q)),
        },
{
    let keys = keys_vec(m);
    let mut best: Option<u64> = None;
    let n = keys.len();
    for i in 0..n
        invariant
            n == keys@.len(),
            keys@.to_set() == m@.dom(),
            match best {
                Some(b) => keys@.contains(b) && (forall|j: int|
                    0 <= j < i ==> #[trigger] keys@[j] >= b),
                None => i == 0,
            },
    {
        let k = keys[i];
        match best {
            None => {
                best = Some(k);
            },
            Some(b) => {
                if k < b {
                    best = Some(k);
                }
            },
        }
    }
    proof {
        match best {
            Some(b) => {
                assert(m@.dom().contains(b));
                assert forall|q: u64| #[trigger] m@.contains_key(q) implies q >= b by {
                    assert(keys@.to_set().contains(q));
                    let j = choose|j: int| 0 <= j < keys@.len() && keys@[j] == q;
                    assert(keys@[j] >= b);
                }
            },
            None => {
                assert forall|q: u64| !(#[trigger] m@.contains_key(q)) by {
                    if m@.dom().contains(q) {
                        assert(keys@.to_set().contains(q));
                        let j = choose|j: int| 0 <= j < keys@.len() && keys@[j] == q;
                    }
                }
            },
        }
    }
    best
}

/// Fold a sequence of level changes into one side mapping, first to
/// last: zero-quantity levels remove their price, others upsert it.
fn apply_levels_to_side(side: &mut HashMap<u64, u64>, levels: &Vec<PriceLevel>)
    ensures
        final(side)@ == apply_levels(old(side)@, levels@),
{
    let ghost orig = side@;
    proof {
        assert(levels@.skip(0) =~= levels@);
    }
    let n = levels.len();
    for i in 0..n
        invariant
            n == levels@.len(),
            apply_levels(side@, levels@.skip(i as int)) == apply_levels(orig, levels@),
    {
        let level = levels[i];
        proof {
            let rest = levels@.skip(i as int);
            assert(rest[0] == levels@[i as int]);
            assert(rest.skip(1) =~= levels@.skip(i as int + 1));
        }
        if level.quantity == 0 {
            side.remove(&level.price);
        } else {
            side.insert(level.price, level.quantity);
        }
    }
    assert(levels@.skip(levels@.len() as int) =~= Seq::<PriceLevel>::empty());
}

/// Seeding is idempotent and deterministic: any two books seeded from
/// the same snapshot hold identical state, so applying the same
/// snapshot twice to a fresh book yields an identical book both times.
pub proof fn lemma_seed_deterministic(a: OrderBook, b: OrderBook, snapshot: BookSnapshot)
    requires
        a.bids@ == apply_levels(Map::<u64, u64>::empty(), snapshot.bids@),
        a.asks@ == apply_levels(Map::<u64, u64>::empty(), snapshot.asks@),
        a.last_applied_update_id == snapshot.last_update_id,
        b.bids@ == apply_levels(Map::<u64, u64>::empty(), snapshot.bids@),
        b.asks@ == apply_levels(Map::<u64, u64>::empty(), snapshot.asks@),
        b.last_applied_update_id == snapshot.last_update_id,
    ensures
        a.bids@ == b.bids@,
        a.asks@ == b.asks@,
        a.last_applied_update_id == b.last_applied_update_id,
{
}

} // verus!
