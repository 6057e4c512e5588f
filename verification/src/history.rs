//! A capacity-bounded, tick-ordered history of world snapshots, for
//! lag-compensated "what did the world look like at tick T" queries.

use crate::math::Vec3;
use vstd::prelude::*;
use vstd::assert_seqs_equal;

verus! {

/// The per-player record a snapshot keeps: identifier, position and
/// collider radius, all that hit rewinding needs.
#[derive(Clone, Copy, PartialEq, Eq, Structural, Debug)]
pub struct SnapshotPlayer {
    pub id: u64,
    pub pos: Vec3,
    pub radius: i64,
}

/// The world as recorded at one tick.
#[derive(Clone, Debug)]
pub struct Snapshot {
    pub tick: u32,
    pub players: Vec<SnapshotPlayer>,
}

/// Snapshot ticks strictly increase along the sequence.
pub open spec fn ticks_increasing(s: Seq<Snapshot>) -> bool {
    forall|i: int, j: int| 0 <= i < j < s.len() ==> s[i].tick < s[j].tick
}

/// What one push does to the recorded sequence: append, evicting the
/// oldest snapshot first when the capacity is reached.
pub open spec fn push_model(v: Seq<Snapshot>, cap: int, s: Snapshot) -> Seq<Snapshot> {
    if v.len() >= cap {
        v.skip(1).push(s)
    } else {
        v.push(s)
    }
}

/// The most recent snapshot whose tick is at or before the query tick.
pub open spec fn nearest_spec(s: Seq<Snapshot>, tick: u32) -> Option<Snapshot>
    decreases s.len(),
{
    if s.len() == 0 {
        None
    } else if s.last().tick <= tick {
        Some(s.last())
    } else {
        nearest_spec(s.drop_last(), tick)
    }
}

pub struct History {
    buf: Vec<Snapshot>,
    cap: usize,
}

impl View for History {
    type V = Seq<Snapshot>;

    closed spec fn view(&self) -> Seq<Snapshot> {
        self.buf@
    }
}

impl History {
    pub closed spec fn capacity(&self) -> int {
        self.cap as int
    }

    /// The history never exceeds its capacity and holds snapshots in
    /// strictly increasing tick order.
    pub open spec fn wf(&self) -> bool {
        &&& self.capacity() >= 1
        &&& self@.len() <= self.capacity()
        &&& ticks_increasing(self@)
    }

    pub fn new(cap: usize) -> (h: History)
        requires
            cap >= 1,
        ensures
            h@ == Seq::<Snapshot>::empty(),
            h.capacity() == cap,
            h.wf(),
    {
        History { buf: Vec::new(), cap }
    }

    /// Append a snapshot, evicting the oldest if the history is full.
    pub fn push(&mut self, s: Snapshot)
        requires
            old(self).wf(),
            old(self)@.len() > 0 ==> old(self)@.last().tick < s.tick,
        ensures
            final(self).wf(),
            final(self).capacity() == old(self).capacity(),
            final(self)@ == push_model(old(self)@, old(self).capacity(), s),
    {
        let ghost v0 = self.buf@;
        if self.buf.len() == self.cap {
            self.buf.remove(0);
            proof {
                assert_seqs_equal!(self.buf@ == v0.skip(1));
            }
        }
        self.buf.push(s);
        proof {
            assert(final(self)@ == push_model(v0, self.cap as int, s));
            assert forall|i: int, j: int| 0 <= i < j < self.buf@.len() implies self.buf@[i].tick
                < self.buf@[j].tick by {
                if j < self.buf@.len() - 1 {
                } else {
                    assert(v0.len() > 0);
                    if v0.len() >= self.cap {
                        assert(self.buf@[i] == v0[i + 1]);
                        assert(v0[i + 1].tick <= v0.last().tick);
                    } else {
                        assert(self.buf@[i] == v0[i]);
                        assert(v0[i].tick <= v0.last().tick);
                    }
                }
            }
        }
    }

    /// Drop every recorded snapshot, keeping the capacity.
    pub fn clear(&mut self)
        ensures
            final(self).capacity() == old(self).capacity(),
            final(self)@ == Seq::<Snapshot>::empty(),
            old(self).capacity() >= 1 ==> final(self).wf(),
    {
        self.buf = Vec::new();
    }

    /// Scan from the most recent snapshot backward and return the first
    /// whose tick is at or before the query tick.
    pub fn nearest_at_or_before(&self, tick: u32) -> (r: Option<&Snapshot>)
        ensures
            (match r {
                Some(s) => nearest_spec(self@, tick) == Some(*s),
                None => nearest_spec(self@, tick) is None,
            }),
    {
        let mut i: usize = self.buf.len();
        proof {
            assert_seqs_equal!(self.buf@.take(i as int) == self.buf@);
        }
        while i > 0
            invariant
                i <= self.buf.len(),
                nearest_spec(self.buf@, tick) == nearest_spec(self.buf@.take(i as int), tick),
            decreases i,
        {
            if self.buf[i - 1].tick <= tick {
                proof {
                    assert(self.buf@.take(i as int).last() == self.buf@[i - 1]);
                }
                return Some(&self.buf[i - 1]);
            }
            proof {
                assert(self.buf@.take(i as int).last() == self.buf@[i - 1]);
                assert_seqs_equal!(self.buf@.take(i as int).drop_last() ==
                    self.buf@.take(i as int - 1));
            }
            i = i - 1;
        }
        proof {
            assert(self.buf@.take(0).len() == 0);
        }
        None
    }
}

/// For a query tick at or after the last recorded tick the history answers
/// with the greatest recorded tick at or before it; below the oldest
/// recorded tick it answers with nothing.
pub proof fn lemma_nearest_props(s: Seq<Snapshot>, tick: u32)
    requires
        ticks_increasing(s),
    ensures
        (match nearest_spec(s, tick) {
            Some(sn) => {
                &&& exists|i: int| 0 <= i < s.len() && s[i] == sn
                &&& sn.tick <= tick
                &&& forall|j: int|
                    0 <= j < s.len() && s[j].tick <= tick ==> s[j].tick <= sn.tick
            },
            None => forall|j: int| 0 <= j < s.len() ==> s[j].tick > tick,
        }),
    decreases s.len(),
{
    if s.len() == 0 {
    } else if s.last().tick <= tick {
        let sn = s.last();
        assert(s[s.len() - 1] == sn);
        assert forall|j: int| 0 <= j < s.len() && s[j].tick <= tick implies s[j].tick <= sn.tick by {
            if j < s.len() - 1 {
                assert(s[j].tick < s[s.len() - 1].tick);
            }
        }
    } else {
        let t = s.drop_last();
        assert(ticks_increasing(t)) by {
            assert forall|i: int, j: int| 0 <= i < j < t.len() implies t[i].tick < t[j].tick by {
                assert(t[i] == s[i] && t[j] == s[j]);
            }
        }
        lemma_nearest_props(t, tick);
        match nearest_spec(t, tick) {
            Some(sn) => {
                let wi = choose|i: int| 0 <= i < t.len() && t[i] == sn;
                assert(s[wi] == sn);
                assert forall|j: int|
                    0 <= j < s.len() && s[j].tick <= tick implies s[j].tick <= sn.tick by {
                    assert(j < s.len() - 1);
                    assert(t[j] == s[j]);
                }
            },
            None => {
                assert forall|j: int| 0 <= j < s.len() implies s[j].tick > tick by {
                    if j < s.len() - 1 {
                        assert(t[j] == s[j]);
                    }
                }
            },
        }
    }
}

/// A query tick strictly below the oldest retained snapshot finds nothing.
pub proof fn lemma_nearest_below_oldest(s: Seq<Snapshot>, tick: u32)
    requires
        ticks_increasing(s),
        s.len() > 0,
        tick < s[0].tick,
    ensures
        nearest_spec(s, tick) is None,
{
    lemma_nearest_props(s, tick);
    if nearest_spec(s, tick) is Some {
        let sn = nearest_spec(s, tick)->Some_0;
        let wi = choose|i: int| 0 <= i < s.len() && s[i] == sn;
        assert(s[0].tick <= s[wi].tick);
    }
}

/// History bound, end to end: pushing more snapshots than the capacity
/// retains exactly the last `cap` of them; a query tick strictly below the
/// oldest retained snapshot then finds nothing, while one at or above it
/// finds a snapshot (by `lemma_nearest_props`, the one with the greatest
/// tick at or before the query).
pub proof fn lemma_history_bound(cap: int, snaps: Seq<Snapshot>, tick: u32)
    requires
        cap >= 1,
        ticks_increasing(snaps),
        snaps.len() > cap,
    ensures
        push_all(cap, snaps) == snaps.skip(snaps.len() - cap),
        tick < snaps[snaps.len() - cap].tick ==> nearest_spec(push_all(cap, snaps), tick) is None,
        tick >= snaps[snaps.len() - cap].tick ==> nearest_spec(push_all(cap, snaps), tick) is Some,
{
    lemma_history_retains_suffix(cap, snaps);
    let ret = snaps.skip(snaps.len() - cap);
    assert(ticks_increasing(ret)) by {
        assert forall|i: int, j: int| 0 <= i < j < ret.len() implies ret[i].tick < ret[j].tick by {
            assert(ret[i] == snaps[i + snaps.len() - cap]);
            assert(ret[j] == snaps[j + snaps.len() - cap]);
        }
    }
    assert(ret[0] == snaps[snaps.len() - cap]);
    if tick < ret[0].tick {
        lemma_nearest_below_oldest(ret, tick);
    } else {
        lemma_nearest_props(ret, tick);
        if nearest_spec(ret, tick) is None {
            assert(ret[0].tick > tick);
        }
    }
}

/// Folding a whole sequence of snapshots through `push_model`.
pub open spec fn push_all(cap: int, snaps: Seq<Snapshot>) -> Seq<Snapshot>
    decreases snaps.len(),
{
    if snaps.len() == 0 {
        Seq::empty()
    } else {
        push_model(push_all(cap, snaps.drop_last()), cap, snaps.last())
    }
}

/// History bound: after pushing any number of snapshots into a history of
/// capacity `cap`, exactly the last `cap` of them are retained, oldest
/// evicted first.
pub proof fn lemma_history_retains_suffix(cap: int, snaps: Seq<Snapshot>)
    requires
        cap >= 1,
    ensures
        snaps.len() <= cap ==> push_all(cap, snaps) == snaps,
        snaps.len() > cap ==> push_all(cap, snaps) == snaps.skip(snaps.len() - cap),
    decreases snaps.len(),
{
    if snaps.len() == 0 {
        assert_seqs_equal!(push_all(cap, snaps) == snaps);
    } else {
        let pre = snaps.drop_last();
        lemma_history_retains_suffix(cap, pre);
        if snaps.len() <= cap {
            assert_seqs_equal!(push_all(cap, snaps) == snaps);
        } else if snaps.len() == cap + 1 {
            assert(pre.len() == cap);
            assert_seqs_equal!(push_all(cap, snaps) == snaps.skip(1));
        } else {
            assert(pre.len() > cap);
            assert(push_all(cap, pre) == pre.skip(pre.len() - cap));
            assert(push_all(cap, pre).len() == cap);
            assert_seqs_equal!(push_all(cap, snaps) == snaps.skip(snaps.len() - cap));
        }
    }
}

} // verus!
