//! The traffic aggregator: per-user byte counters merged by addition and
//! posted to the panel in batches.
//!
//! Connection tasks emit one delta each at end of life; the aggregator folds
//! them into a map keyed by user id. A submit tick renders the map as the
//! panel's JSON array; on a successful POST the map is cleared, on a failed
//! one it is kept for the next tick.

use vstd::prelude::*;
use vstd::pervasive::VecAdditionalExecFns;
use crate::render::{dec_seq, dec_seq_signed, push_all, push_dec_i32, push_dec_u64};

verus! {

/// Addition that sticks at the largest representable value.
pub open spec fn sat_add(a: u64, b: u64) -> u64 {
    if a + b > u64::MAX {
        u64::MAX
    } else {
        (a + b) as u64
    }
}

/// Eight bits per byte, sticking at the largest representable value.
pub open spec fn bits_of(bytes: u64) -> u64 {
    if bytes * 8 > u64::MAX {
        u64::MAX
    } else {
        (bytes * 8) as u64
    }
}

/// One traffic report line: a user and the bits relayed in each direction.
#[derive(Debug, Clone, Copy, PartialEq, Eq, Structural)]
pub struct TrafficItem {
    pub user_id: i32,
    pub u: u64,
    pub d: u64,
}

impl TrafficItem {
    pub fn new(user_id: i32, u: u64, d: u64) -> (r: TrafficItem)
        ensures
            r == (TrafficItem { user_id, u, d }),
    {
        TrafficItem { user_id, u, d }
    }

    /// The delta a finished connection emits: byte counts become bits.
    /// Whenever eight times the count fits in the counter, the delta is
    /// exactly `(user_id, 8 * up_bytes, 8 * down_bytes)`.
    pub fn from_byte_counts(user_id: i32, up_bytes: u64, down_bytes: u64) -> (r: TrafficItem)
        ensures
            r.user_id == user_id,
            r.u == bits_of(up_bytes),
            r.d == bits_of(down_bytes),
            up_bytes * 8 <= u64::MAX ==> r.u == up_bytes * 8,
            down_bytes * 8 <= u64::MAX ==> r.d == down_bytes * 8,
    {
        let u = if up_bytes <= u64::MAX / 8 {
            up_bytes * 8
        } else {
            u64::MAX
        };
        let d = if down_bytes <= u64::MAX / 8 {
            down_bytes * 8
        } else {
            u64::MAX
        };
        TrafficItem { user_id, u, d }
    }
}

/// The map a sequence of report lines with distinct users denotes.
pub open spec fn traffic_map(s: Seq<TrafficItem>) -> Map<i32, (u64, u64)>
    decreases s.len(),
{
    if s.len() == 0 {
        Map::empty()
    } else {
        traffic_map(s.drop_last()).insert(s.last().user_id, (s.last().u, s.last().d))
    }
}

/// One delta folded into the map: insert, or merge by saturating addition.
pub open spec fn merge_delta(m: Map<i32, (u64, u64)>, t: TrafficItem) -> Map<i32, (u64, u64)> {
    if m.contains_key(t.user_id) {
        m.insert(t.user_id, (sat_add(m[t.user_id].0, t.u), sat_add(m[t.user_id].1, t.d)))
    } else {
        m.insert(t.user_id, (t.u, t.d))
    }
}

/// A whole sequence of deltas folded into the map, oldest first.
pub open spec fn apply_deltas(m: Map<i32, (u64, u64)>, s: Seq<TrafficItem>) -> Map<
    i32,
    (u64, u64),
>
    decreases s.len(),
{
    if s.len() == 0 {
        m
    } else {
        merge_delta(apply_deltas(m, s.drop_last()), s.last())
    }
}

/// The up-bits a sequence of deltas carries for one user.
pub open spec fn sum_u(s: Seq<TrafficItem>, id: i32) -> int
    decreases s.len(),
{
    if s.len() == 0 {
        0
    } else {
        sum_u(s.drop_last(), id) + if s.last().user_id == id {
            s.last().u as int
        } else {
            0
        }
    }
}

/// The down-bits a sequence of deltas carries for one user.
pub open spec fn sum_d(s: Seq<TrafficItem>, id: i32) -> int
    decreases s.len(),
{
    if s.len() == 0 {
        0
    } else {
        sum_d(s.drop_last(), id) + if s.last().user_id == id {
            s.last().d as int
        } else {
            0
        }
    }
}

proof fn lemma_sums_nonneg(s: Seq<TrafficItem>, id: i32)
    ensures
        sum_u(s, id) >= 0,
        sum_d(s, id) >= 0,
    decreases s.len(),
{
    if s.len() > 0 {
        lemma_sums_nonneg(s.drop_last(), id);
    }
}

proof fn lemma_sum_absent(s: Seq<TrafficItem>, id: i32)
    requires
        forall|j: int| 0 <= j < s.len() ==> s[j].user_id != id,
    ensures
        sum_u(s, id) == 0,
        sum_d(s, id) == 0,
    decreases s.len(),
{
    if s.len() > 0 {
        assert(forall|j: int| 0 <= j < s.drop_last().len() ==> s.drop_last()[j].user_id != id);
        lemma_sum_absent(s.drop_last(), id);
        assert(s.last().user_id != id);
    }
}

proof fn lemma_apply_absent(m: Map<i32, (u64, u64)>, s: Seq<TrafficItem>, id: i32)
    requires
        !m.contains_key(id),
        forall|j: int| 0 <= j < s.len() ==> s[j].user_id != id,
    ensures
        !apply_deltas(m, s).contains_key(id),
    decreases s.len(),
{
    if s.len() > 0 {
        assert(forall|j: int| 0 <= j < s.drop_last().len() ==> s.drop_last()[j].user_id != id);
        lemma_apply_absent(m, s.drop_last(), id);
        assert(s.last().user_id != id);
    }
}

/// Aggregation is a running elementwise sum: folding any finite sequence of
/// deltas into an empty map gives, for each user that appears, exactly the
/// sum of that user's up-bits and down-bits — as long as neither sum
/// overflows the counters.
pub proof fn lemma_aggregate_sum(s: Seq<TrafficItem>, id: i32)
    requires
        sum_u(s, id) <= u64::MAX,
        sum_d(s, id) <= u64::MAX,
        exists|j: int| 0 <= j < s.len() && s[j].user_id == id,
    ensures
        apply_deltas(Map::empty(), s).contains_key(id),
        apply_deltas(Map::empty(), s)[id] == (
            (sum_u(s, id) as u64),
            (sum_d(s, id) as u64),
        ),
    decreases s.len(),
{
    let prefix = s.drop_last();
    let t = s.last();
    lemma_sums_nonneg(prefix, id);
    if t.user_id == id {
        assert(sum_u(s, id) == sum_u(prefix, id) + t.u);
        assert(sum_d(s, id) == sum_d(prefix, id) + t.d);
        if exists|j: int| 0 <= j < prefix.len() && prefix[j].user_id == id {
            lemma_aggregate_sum(prefix, id);
            let m = apply_deltas(Map::empty(), prefix);
            assert(m[id] == ((sum_u(prefix, id) as u64), (sum_d(prefix, id) as u64)));
            assert(sat_add(m[id].0, t.u) == sum_u(s, id) as u64);
            assert(sat_add(m[id].1, t.d) == sum_d(s, id) as u64);
        } else {
            assert(forall|j: int| 0 <= j < prefix.len() ==> prefix[j].user_id != id);
            lemma_apply_absent(Map::empty(), prefix, id);
            lemma_sum_absent(prefix, id);
        }
    } else {
        let j = choose|j: int| 0 <= j < s.len() && s[j].user_id == id;
        assert(0 <= j < prefix.len() && prefix[j].user_id == id);
        lemma_aggregate_sum(prefix, id);
    }
}

/// The aggregator's map of pending traffic, in arrival order of the users.
#[derive(Debug)]
pub struct TrafficCenter {
    store: Vec<TrafficItem>,
}

impl View for TrafficCenter {
    type V = Map<i32, (u64, u64)>;

    closed spec fn view(&self) -> Map<i32, (u64, u64)> {
        traffic_map(self.store@)
    }
}

impl TrafficCenter {
    /// The pending report lines, one per user, oldest user first.
    pub closed spec fn items(&self) -> Seq<TrafficItem> {
        self.store@
    }

    /// Each pending line names a different user.
    pub closed spec fn wf(&self) -> bool {
        forall|a: int, b: int|
            0 <= a < b < self.store@.len() ==> self.store@[a].user_id != self.store@[b].user_id
    }

    /// An empty aggregator: nothing pending.
    pub fn new() -> (r: TrafficCenter)
        ensures
            r.wf(),
            r.items() =~= Seq::<TrafficItem>::empty(),
            r@ == Map::<i32, (u64, u64)>::empty(),
    {
        TrafficCenter { store: Vec::new() }
    }

    /// Whether nothing is pending.
    pub fn is_empty(&self) -> (r: bool)
        ensures
            r == (self.items().len() == 0),
    {
        self.store.len() == 0
    }

    /// Folds one delta in: a new user is appended, a known user's counters
    /// grow by saturating addition; no other line moves.
    pub fn receive(&mut self, item: TrafficItem)
        requires
            old(self).wf(),
        ensures
            final(self).wf(),
            final(self)@ == merge_delta(old(self)@, item),
            old(self)@.contains_key(item.user_id) ==> final(self).items().len() == old(
                self,
            ).items().len(),
            !old(self)@.contains_key(item.user_id) ==> final(self).items() == old(
                self,
            ).items().push(item),
    {
        let mut i: usize = 0;
        while i < self.store.len()
            invariant
                i <= self.store@.len(),
                self.store@ == old(self).store@,
                self.wf(),
                forall|j: int| 0 <= j < i ==> self.store@[j].user_id != item.user_id,
            decreases self.store@.len() - i,
        {
            if self.store[i].user_id == item.user_id {
                let cur = self.store[i];
                let nu = if item.u <= u64::MAX - cur.u {
                    cur.u + item.u
                } else {
                    u64::MAX
                };
                let nd = if item.d <= u64::MAX - cur.d {
                    cur.d + item.d
                } else {
                    u64::MAX
                };
                let merged = TrafficItem { user_id: item.user_id, u: nu, d: nd };
                proof {
                    lemma_traffic_map_present(self.store@, i as int);
                    lemma_traffic_map_update(self.store@, i as int, merged);
                }
                self.store.set(i, merged);
                return ;
            }
            i = i + 1;
        }
        proof {
            lemma_traffic_map_absent(self.store@, item.user_id);
            assert(self.store@.push(item).drop_last() =~= self.store@);
        }
        self.store.push(item);
    }

    /// Applies the submit outcome: success clears everything, failure keeps
    /// the whole map untouched for the next tick.
    pub fn apply_submit_result(&mut self, success: bool)
        ensures
            success ==> final(self).items().len() == 0 && final(self)@ == Map::<
                i32,
                (u64, u64),
            >::empty() && final(self).wf(),
            !success ==> *final(self) == *old(self),
    {
        if success {
            self.store = Vec::new();
        }
    }
}

/// One line of the submit body: `{"user_id":<id>,"u":<u>,"d":<d>}`.
pub open spec fn entry_bytes(t: TrafficItem) -> Seq<u8> {
    seq![0x7bu8, 0x22u8, 0x75u8, 0x73u8, 0x65u8, 0x72u8, 0x5fu8, 0x69u8, 0x64u8, 0x22u8, 0x3au8]
        + dec_seq_signed(t.user_id as int) + seq![0x2cu8, 0x22u8, 0x75u8, 0x22u8, 0x3au8]
        + dec_seq(t.u as nat) + seq![0x2cu8, 0x22u8, 0x64u8, 0x22u8, 0x3au8] + dec_seq(
        t.d as nat,
    ) + seq![0x7du8]
}

/// The lines joined with commas.
pub open spec fn entries_bytes(s: Seq<TrafficItem>) -> Seq<u8>
    decreases s.len(),
{
    if s.len() == 0 {
        Seq::empty()
    } else if s.len() == 1 {
        entry_bytes(s[0])
    } else {
        entries_bytes(s.drop_last()) + seq![0x2cu8] + entry_bytes(s.last())
    }
}

/// The whole submit body: a JSON array of the pending lines, in order.
pub open spec fn body_bytes(s: Seq<TrafficItem>) -> Seq<u8> {
    seq![0x5bu8] + entries_bytes(s) + seq![0x5du8]
}

/// Appends one body line for `t`.
fn push_entry(out: &mut Vec<u8>, t: TrafficItem)
    ensures
        final(out)@ == old(out)@ + entry_bytes(t),
{
    out.push(0x7b);
    out.push(0x22);
    out.push(0x75);
    out.push(0x73);
    out.push(0x65);
    out.push(0x72);
    out.push(0x5f);
    out.push(0x69);
    out.push(0x64);
    out.push(0x22);
    out.push(0x3a);
    push_dec_i32(out, t.user_id);
    out.push(0x2c);
    out.push(0x22);
    out.push(0x75);
    out.push(0x22);
    out.push(0x3a);
    push_dec_u64(out, t.u);
    out.push(0x2c);
    out.push(0x22);
    out.push(0x64);
    out.push(0x22);
    out.push(0x3a);
    push_dec_u64(out, t.d);
    out.push(0x7d);
    proof {
        assert(out@ =~= old(out)@ + entry_bytes(t));
    }
}

/// The pending up-bits summed with saturation.
pub open spec fn sat_total_u(s: Seq<TrafficItem>) -> u64
    decreases s.len(),
{
    if s.len() == 0 {
        0
    } else {
        sat_add(sat_total_u(s.drop_last()), s.last().u)
    }
}

/// The pending down-bits summed with saturation.
pub open spec fn sat_total_d(s: Seq<TrafficItem>) -> u64
    decreases s.len(),
{
    if s.len() == 0 {
        0
    } else {
        sat_add(sat_total_d(s.drop_last()), s.last().d)
    }
}

impl TrafficCenter {
    /// Renders the pending map as the panel's submit body.
    pub fn submit_body(&self) -> (r: Vec<u8>)
        ensures
            r@ == body_bytes(self.items()),
    {
        let mut out: Vec<u8> = Vec::new();
        out.push(0x5b);
        let mut i: usize = 0;
        proof {
            assert(self.store@.subrange(0, 0) =~= Seq::<TrafficItem>::empty());
            assert(out@ =~= seq![0x5bu8] + entries_bytes(self.store@.subrange(0, 0)));
        }
        while i < self.store.len()
            invariant
                i <= self.store@.len(),
                out@ == seq![0x5bu8] + entries_bytes(self.store@.subrange(0, i as int)),
            decreases self.store@.len() - i,
        {
            if i > 0 {
                out.push(0x2c);
            }
            let t = self.store[i];
            push_entry(&mut out, t);
            proof {
                let pre = self.store@.subrange(0, i as int);
                let post = self.store@.subrange(0, i + 1);
                assert(post.drop_last() =~= pre);
                assert(post.last() == self.store@[i as int]);
                if i == 0 {
                    assert(entries_bytes(post) == entry_bytes(post[0]));
                    assert(out@ =~= seq![0x5bu8] + entries_bytes(post));
                } else {
                    assert(entries_bytes(post) == entries_bytes(pre) + seq![0x2cu8]
                        + entry_bytes(post.last()));
                    assert(out@ =~= seq![0x5bu8] + entries_bytes(post));
                }
            }
            i = i + 1;
        }
        out.push(0x5d);
        proof {
            assert(self.store@.subrange(0, self.store@.len() as int) =~= self.store@);
            assert(out@ =~= body_bytes(self.items()));
        }
        out
    }

    /// The pending totals, up-bits and down-bits, summed with saturation.
    pub fn totals(&self) -> (r: (u64, u64))
        ensures
            r.0 == sat_total_u(self.items()),
            r.1 == sat_total_d(self.items()),
    {
        let mut tu: u64 = 0;
        let mut td: u64 = 0;
        let mut i: usize = 0;
        proof {
            assert(self.store@.subrange(0, 0) =~= Seq::<TrafficItem>::empty());
        }
        while i < self.store.len()
            invariant
                i <= self.store@.len(),
                tu == sat_total_u(self.store@.subrange(0, i as int)),
                td == sat_total_d(self.store@.subrange(0, i as int)),
            decreases self.store@.len() - i,
        {
            let t = self.store[i];
            proof {
                let pre = self.store@.subrange(0, i as int);
                let post = self.store@.subrange(0, i + 1);
                assert(post.drop_last() =~= pre);
                assert(post.last() == self.store@[i as int]);
            }
            tu = if t.u <= u64::MAX - tu {
                tu + t.u
            } else {
                u64::MAX
            };
            td = if t.d <= u64::MAX - td {
                td + t.d
            } else {
                u64::MAX
            };
            i = i + 1;
        }
        proof {
            assert(self.store@.subrange(0, self.store@.len() as int) =~= self.store@);
        }
        (tu, td)
    }
}

impl Default for TrafficCenter {
    /// The empty aggregator.
    fn default() -> (r: TrafficCenter)
        ensures
            r.wf(),
            r.items() =~= Seq::<TrafficItem>::empty(),
            r@ == Map::<i32, (u64, u64)>::empty(),
    {
        TrafficCenter::new()
    }
}

/// A line's user is in the map, with that line's counters.
proof fn lemma_traffic_map_present(s: Seq<TrafficItem>, j: int)
    requires
        0 <= j < s.len(),
        forall|a: int, b: int| 0 <= a < b < s.len() ==> s[a].user_id != s[b].user_id,
    ensures
        traffic_map(s).contains_key(s[j].user_id),
        traffic_map(s)[s[j].user_id] == (s[j].u, s[j].d),
    decreases s.len(),
{
    if j < s.len() - 1 {
        let prefix = s.drop_last();
        assert(forall|a: int, b: int|
            0 <= a < b < prefix.len() ==> prefix[a].user_id != prefix[b].user_id);
        lemma_traffic_map_present(prefix, j);
        assert(s.last().user_id != s[j].user_id);
    }
}

/// A user no line names is not in the map.
proof fn lemma_traffic_map_absent(s: Seq<TrafficItem>, id: i32)
    requires
        forall|j: int| 0 <= j < s.len() ==> s[j].user_id != id,
    ensures
        !traffic_map(s).contains_key(id),
    decreases s.len(),
{
    if s.len() > 0 {
        let prefix = s.drop_last();
        assert(forall|j: int| 0 <= j < prefix.len() ==> prefix[j].user_id != id);
        lemma_traffic_map_absent(prefix, id);
    }
}

/// Overwriting a line in place is an insert on the map it denotes.
proof fn lemma_traffic_map_update(s: Seq<TrafficItem>, j: int, t: TrafficItem)
    requires
        0 <= j < s.len(),
        s[j].user_id == t.user_id,
        forall|a: int, b: int| 0 <= a < b < s.len() ==> s[a].user_id != s[b].user_id,
    ensures
        traffic_map(s.update(j, t)) == traffic_map(s).insert(t.user_id, (t.u, t.d)),
    decreases s.len(),
{
    let s2 = s.update(j, t);
    if j == s.len() - 1 {
        assert(s2.drop_last() =~= s.drop_last());
        assert(s2.last() == t);
        assert(traffic_map(s2) =~= traffic_map(s).insert(t.user_id, (t.u, t.d)));
    } else {
        let prefix = s.drop_last();
        assert(forall|a: int, b: int|
            0 <= a < b < prefix.len() ==> prefix[a].user_id != prefix[b].user_id);
        lemma_traffic_map_update(prefix, j, t);
        assert(s2.drop_last() =~= prefix.update(j, t));
        assert(s2.last() == s.last());
        assert(s.last().user_id != t.user_id);
        assert(traffic_map(s2) =~= traffic_map(s).insert(t.user_id, (t.u, t.d)));
    }
}

} // verus!
