//! Per-target level filtering: a [`TargetFilter`] maps target names to
//! minimum accepted levels with one default, and two filters combine into a
//! single filter that accepts exactly what either alone accepts.

use vstd::prelude::*;
use crate::level::Level;
use crate::text::str_eq;

verus! {

/// A minimum accepted level: `At(l)` accepts `l` and everything more severe,
/// `Off` accepts nothing.
#[derive(Clone, Copy, Debug, PartialEq, Eq, Structural)]
pub enum MinLevel {
    At(Level),
    Off,
}

impl MinLevel {
    /// Rank on the shared severity scale: `At(Trace)` is 0, `At(Error)` is 4,
    /// `Off` is 5 and so above every level.
    pub open spec fn rank(self) -> int {
        match self {
            MinLevel::At(l) => l.rank(),
            MinLevel::Off => 5,
        }
    }

    /// `true` iff an event at `l` clears this minimum.
    pub open spec fn spec_admits(self, l: Level) -> bool {
        l.rank() >= self.rank()
    }

    /// The more permissive (lower-ranked) of the two minimums.
    pub fn more_permissive(self, other: MinLevel) -> (r: MinLevel)
        ensures
            r.rank() == rank_min(self.rank(), other.rank()),
    {
        let a = self.rank_exec();
        let b = other.rank_exec();
        if a <= b {
            self
        } else {
            other
        }
    }

    /// Executable rank, equal to the specification rank.
    pub fn rank_exec(self) -> (r: u8)
        ensures
            r as int == self.rank(),
    {
        match self {
            MinLevel::At(l) => l.rank_exec(),
            MinLevel::Off => 5,
        }
    }

    /// `true` iff an event at `l` clears this minimum.
    pub fn admits(self, l: Level) -> (r: bool)
        ensures
            r == self.spec_admits(l),
    {
        l.rank_exec() >= self.rank_exec()
    }
}

/// The smaller of two ranks.
pub open spec fn rank_min(a: int, b: int) -> int {
    if a <= b {
        a
    } else {
        b
    }
}

/// A per-target override table with one default minimum. A target's
/// effective minimum is the first entry whose name equals it, else the
/// default.
#[derive(Debug)]
pub struct TargetFilter {
    /// Overrides, scanned front to back; the first matching name wins.
    pub entries: Vec<(String, MinLevel)>,
    /// The minimum applied when no entry matches.
    pub default_min: MinLevel,
}

/// The entries of `f` as name-sequence pairs.
pub open spec fn tf_entries(f: TargetFilter) -> Seq<(Seq<char>, MinLevel)> {
    f.entries@.map_values(|e: (String, MinLevel)| (e.0@, e.1))
}

/// The index of the first entry of `s` named `t`, or -1.
pub open spec fn tf_find(s: Seq<(Seq<char>, MinLevel)>, t: Seq<char>) -> int
    decreases s.len(),
{
    if s.len() == 0 {
        -1
    } else if s[0].0 == t {
        0
    } else {
        let r = tf_find(s.drop_first(), t);
        if r < 0 {
            -1
        } else {
            1 + r
        }
    }
}

/// The effective minimum of entry table `s` with default `d` for target `t`.
pub open spec fn entries_min(s: Seq<(Seq<char>, MinLevel)>, d: MinLevel, t: Seq<char>) -> MinLevel {
    if tf_find(s, t) >= 0 {
        s[tf_find(s, t)].1
    } else {
        d
    }
}

impl TargetFilter {
    /// The effective minimum this filter applies to target `t`.
    pub open spec fn spec_min_for(self, t: Seq<char>) -> MinLevel {
        entries_min(tf_entries(self), self.default_min, t)
    }

    /// `true` iff this filter accepts an event for target `t` at level `l`.
    pub open spec fn spec_accepts(self, t: Seq<char>, l: Level) -> bool {
        self.spec_min_for(t).spec_admits(l)
    }

    /// The filter with no overrides and default `d`.
    pub fn with_default(d: MinLevel) -> (r: TargetFilter)
        ensures
            forall|t: Seq<char>| r.spec_min_for(t) == d,
            r.default_min == d,
            tf_entries(r).len() == 0,
    {
        let r = TargetFilter { entries: Vec::new(), default_min: d };
        proof {
            assert forall|t: Seq<char>| r.spec_min_for(t) == d by {
                assert(tf_entries(r).len() == 0);
            }
        }
        r
    }

    /// The effective minimum this filter applies to `target`.
    pub fn min_for(&self, target: &str) -> (r: MinLevel)
        ensures
            r == self.spec_min_for(target@),
    {
        let ghost s = tf_entries(*self);
        let n = self.entries.len();
        let mut i: usize = 0;
        while i < n
            invariant
                n == s.len(),
                i <= n,
                s == tf_entries(*self),
                n == self.entries.len(),
                forall|j: int| 0 <= j < i ==> (#[trigger] s[j]).0 != target@,
            decreases n - i,
        {
            if str_eq(self.entries[i].0.as_str(), target) {
                proof {
                    lemma_tf_find_first_hit(s, target@, i as int);
                }
                return self.entries[i].1;
            }
            i = i + 1;
        }
        proof {
            lemma_tf_find_none(s, target@);
        }
        self.default_min
    }

    /// `true` iff this filter accepts an event for `target` at level `l`.
    pub fn accepts(&self, target: &str, l: Level) -> (r: bool)
        ensures
            r == self.spec_accepts(target@, l),
    {
        self.min_for(target).admits(l)
    }

    /// Adds (or tightens to `min`, replacing in place) the override for
    /// `target`.
    pub fn set_target(&mut self, target: String, min: MinLevel)
        ensures
            tf_entries(*final(self)) == tfe_insert(tf_entries(*old(self)), target@, min),
            final(self).default_min == old(self).default_min,
    {
        let ghost s = tf_entries(*old(self));
        let n = self.entries.len();
        let mut i: usize = 0;
        while i < n
            invariant
                n == s.len(),
                i <= n,
                s == tf_entries(*self),
                *self == *old(self),
                n == self.entries.len(),
                forall|j: int| 0 <= j < i ==> (#[trigger] s[j]).0 != target@,
            decreases n - i,
        {
            if str_eq(self.entries[i].0.as_str(), target.as_str()) {
                proof {
                    lemma_tf_find_first_hit(s, target@, i as int);
                }
                self.entries[i] = (target, min);
                proof {
                    assert(tf_entries(*self) =~= tfe_insert(s, target@, min));
                }
                return;
            }
            i = i + 1;
        }
        proof {
            lemma_tf_find_none(s, target@);
        }
        self.entries.push((target, min));
        proof {
            assert(tf_entries(*self) =~= tfe_insert(s, target@, min));
        }
    }

    /// Combines two filters into one that accepts exactly what either
    /// accepts: for every target the combined effective minimum is the more
    /// permissive of the two, so acceptance is the logical OR of the two
    /// filters' acceptance.
    pub fn combine(&self, other: &TargetFilter) -> (r: TargetFilter)
        ensures
            forall|t: Seq<char>| #[trigger] r.spec_min_for(t).rank() == rank_min(
                self.spec_min_for(t).rank(),
                other.spec_min_for(t).rank(),
            ),
            forall|t: Seq<char>, l: Level| #[trigger] r.spec_accepts(t, l) <==> (
            self.spec_accepts(t, l) || other.spec_accepts(t, l)),
    {
        let ghost a = tf_entries(*self);
        let ghost b = tf_entries(*other);
        let mut entries: Vec<(String, MinLevel)> = Vec::new();
        let n1 = self.entries.len();
        let mut i: usize = 0;
        while i < n1
            invariant
                n1 == a.len(),
                i <= n1,
                a == tf_entries(*self),
                b == tf_entries(*other),
                n1 == self.entries.len(),
                entries@.len() == i,
                forall|j: int| 0 <= j < i ==> (#[trigger] entries@[j]).0@ == a[j].0,
                forall|j: int|
                    0 <= j < i ==> (#[trigger] entries@[j]).1.rank() == rank_min(
                        a[j].1.rank(),
                        entries_min(b, other.default_min, a[j].0).rank(),
                    ),
            decreases n1 - i,
        {
            proof {
                assert(a[i as int] == (self.entries@[i as int].0@, self.entries@[i as int].1));
            }
            let name = self.entries[i].0.clone();
            let o_min = other.min_for(name.as_str());
            let merged = self.entries[i].1.more_permissive(o_min);
            entries.push((name, merged));
            i = i + 1;
        }
        let ghost raw1 = entries@;
        let n2 = other.entries.len();
        let mut k: usize = 0;
        while k < n2
            invariant
                n2 == b.len(),
                k <= n2,
                a == tf_entries(*self),
                b == tf_entries(*other),
                n2 == other.entries.len(),
                entries@.len() == n1 + k,
                n1 == raw1.len(),
                forall|j: int| 0 <= j < n1 ==> (#[trigger] entries@[j]) == raw1[j],
                forall|j: int| 0 <= j < k ==> (#[trigger] entries@[n1 + j]).0@ == b[j].0,
                forall|j: int|
                    0 <= j < k ==> (#[trigger] entries@[n1 + j]).1.rank() == rank_min(
                        b[j].1.rank(),
                        entries_min(a, self.default_min, b[j].0).rank(),
                    ),
            decreases n2 - k,
        {
            proof {
                assert(b[k as int] == (other.entries@[k as int].0@, other.entries@[k as int].1));
            }
            let name = other.entries[k].0.clone();
            let s_min = self.min_for(name.as_str());
            let merged = other.entries[k].1.more_permissive(s_min);
            entries.push((name, merged));
            k = k + 1;
        }
        let default_min = self.default_min.more_permissive(other.default_min);
        let r = TargetFilter { entries, default_min };
        proof {
            let rr = tf_entries(r);
            let block1 = rr.take(n1 as int);
            assert forall|j: int| 0 <= j < n1 implies (#[trigger] rr[j]) == block1[j] by {}
            assert forall|j: int| 0 <= j < n1 implies (#[trigger] block1[j]).0 == a[j].0
                && block1[j].1.rank() == rank_min(
                a[j].1.rank(),
                entries_min(b, other.default_min, a[j].0).rank(),
            ) by {
                assert(rr[j] == (r.entries@[j].0@, r.entries@[j].1));
            }
            assert forall|j: int| 0 <= j < n2 implies (#[trigger] rr[n1 + j]).0 == b[j].0
                && rr[n1 + j].1.rank() == rank_min(
                b[j].1.rank(),
                entries_min(a, self.default_min, b[j].0).rank(),
            ) by {
                assert(rr[n1 + j] == (r.entries@[n1 + j].0@, r.entries@[n1 + j].1));
            }
            lemma_combine_min(a, b, self.default_min, other.default_min, default_min, rr, block1);
            assert forall|t: Seq<char>, l: Level| #[trigger] r.spec_accepts(t, l) <==> (
            self.spec_accepts(t, l) || other.spec_accepts(t, l)) by {
                assert(r.spec_min_for(t).rank() == rank_min(
                    self.spec_min_for(t).rank(),
                    other.spec_min_for(t).rank(),
                ));
            }
        }
        r
    }
}

/// `s` with the override `(t, min)`: replaces the first entry named `t` in
/// place, or appends when `t` is absent.
pub open spec fn tfe_insert(
    s: Seq<(Seq<char>, MinLevel)>,
    t: Seq<char>,
    min: MinLevel,
) -> Seq<(Seq<char>, MinLevel)> {
    if tf_find(s, t) >= 0 {
        s.update(tf_find(s, t), (t, min))
    } else {
        s.push((t, min))
    }
}

/// If no entry before `i` is named `t` and the entry at `i` is, the first
/// match is at `i`.
pub proof fn lemma_tf_find_first_hit(s: Seq<(Seq<char>, MinLevel)>, t: Seq<char>, i: int)
    requires
        0 <= i < s.len(),
        s[i].0 == t,
        forall|j: int| 0 <= j < i ==> (#[trigger] s[j]).0 != t,
    ensures
        tf_find(s, t) == i,
    decreases i,
{
    if i == 0 {
    } else {
        lemma_tf_find_first_hit(s.drop_first(), t, i - 1);
    }
}

/// If no entry of `s` is named `t`, nothing is found.
pub proof fn lemma_tf_find_none(s: Seq<(Seq<char>, MinLevel)>, t: Seq<char>)
    requires
        forall|j: int| 0 <= j < s.len() ==> (#[trigger] s[j]).0 != t,
    ensures
        tf_find(s, t) == -1,
    decreases s.len(),
{
    if s.len() > 0 {
        lemma_tf_find_none(s.drop_first(), t);
    }
}

/// Finding in a concatenation: a hit in `a` wins, else a hit in `b` is
/// shifted by `a`'s length.
pub proof fn lemma_tf_find_concat(
    a: Seq<(Seq<char>, MinLevel)>,
    b: Seq<(Seq<char>, MinLevel)>,
    t: Seq<char>,
)
    ensures
        tf_find(a + b, t) == if tf_find(a, t) >= 0 {
            tf_find(a, t)
        } else if tf_find(b, t) >= 0 {
            a.len() + tf_find(b, t)
        } else {
            -1
        },
        tf_find(a, t) >= 0 ==> (a + b)[tf_find(a + b, t)] == a[tf_find(a, t)],
        tf_find(a, t) < 0 && tf_find(b, t) >= 0 ==> (a + b)[tf_find(a + b, t)] == b[tf_find(b, t)],
    decreases a.len(),
{
    if a.len() == 0 {
        assert(a + b =~= b);
    } else {
        assert((a + b).drop_first() =~= a.drop_first() + b);
        lemma_tf_find_concat(a.drop_first(), b, t);
        if (a + b)[0].0 != t {
            let rest = a.drop_first() + b;
            if tf_find(rest, t) >= 0 {
                lemma_tf_find_hit_names(rest, t);
                assert((a + b)[1 + tf_find(rest, t)] == rest[tf_find(rest, t)]);
            }
            if tf_find(a.drop_first(), t) >= 0 {
                lemma_tf_find_hit_names(a.drop_first(), t);
                assert(a[1 + tf_find(a.drop_first(), t)] == a.drop_first()[tf_find(
                    a.drop_first(),
                    t,
                )]);
            }
        }
    }
}

/// Two entry tables with the same names in the same order find the same
/// index for every target.
pub proof fn lemma_tf_find_same_names(
    s1: Seq<(Seq<char>, MinLevel)>,
    s2: Seq<(Seq<char>, MinLevel)>,
    t: Seq<char>,
)
    requires
        s1.len() == s2.len(),
        forall|j: int| 0 <= j < s1.len() ==> (#[trigger] s1[j]).0 == s2[j].0,
    ensures
        tf_find(s1, t) == tf_find(s2, t),
    decreases s1.len(),
{
    if s1.len() > 0 {
        assert(s1[0].0 == s2[0].0);
        lemma_tf_find_same_names(s1.drop_first(), s2.drop_first(), t);
    }
}

/// The combined table built by [`TargetFilter::combine`] realizes, for every
/// target, the more permissive of the two effective minimums.
proof fn lemma_combine_min(
    a: Seq<(Seq<char>, MinLevel)>,
    b: Seq<(Seq<char>, MinLevel)>,
    da: MinLevel,
    db: MinLevel,
    dr: MinLevel,
    r: Seq<(Seq<char>, MinLevel)>,
    block1: Seq<(Seq<char>, MinLevel)>,
)
    requires
        dr.rank() == rank_min(da.rank(), db.rank()),
        block1.len() == a.len(),
        r.len() == a.len() + b.len(),
        forall|j: int| 0 <= j < a.len() ==> (#[trigger] r[j]) == block1[j],
        forall|j: int| 0 <= j < a.len() ==> (#[trigger] block1[j]).0 == a[j].0,
        forall|j: int|
            0 <= j < a.len() ==> (#[trigger] block1[j]).1.rank() == rank_min(
                a[j].1.rank(),
                entries_min(b, db, a[j].0).rank(),
            ),
        forall|j: int| 0 <= j < b.len() ==> (#[trigger] r[a.len() + j]).0 == b[j].0,
        forall|j: int|
            0 <= j < b.len() ==> (#[trigger] r[a.len() + j]).1.rank() == rank_min(
                b[j].1.rank(),
                entries_min(a, da, b[j].0).rank(),
            ),
    ensures
        forall|t: Seq<char>|
            (#[trigger] entries_min(r, dr, t)).rank() == rank_min(
                entries_min(a, da, t).rank(),
                entries_min(b, db, t).rank(),
            ),
{
    assert forall|t: Seq<char>|
        (#[trigger] entries_min(r, dr, t)).rank() == rank_min(
            entries_min(a, da, t).rank(),
            entries_min(b, db, t).rank(),
        ) by {
        let r1 = r.take(a.len() as int);
        let r2 = r.skip(a.len() as int);
        assert(r =~= r1 + r2);
        assert forall|j: int| 0 <= j < r1.len() implies (#[trigger] r1[j]) == block1[j] by {}
        assert forall|j: int| 0 <= j < r2.len() implies (#[trigger] r2[j]) == r[a.len() + j] by {}
        lemma_tf_find_concat(r1, r2, t);
        lemma_tf_find_same_names(r1, a, t);
        lemma_tf_find_same_names(r2, b, t);
        let fa = tf_find(a, t);
        let fb = tf_find(b, t);
        if fa >= 0 {
            lemma_tf_find_hit_names(a, t);
            assert(r1[fa] == block1[fa]);
            assert(entries_min(r, dr, t) == r1[fa].1);
        } else if fb >= 0 {
            lemma_tf_find_hit_names(b, t);
            assert(r2[fb] == r[a.len() + fb]);
            assert(entries_min(r, dr, t) == r2[fb].1);
        } else {
        }
    }
}

/// A found entry is named by the target it was found for.
pub proof fn lemma_tf_find_hit_names(s: Seq<(Seq<char>, MinLevel)>, t: Seq<char>)
    requires
        tf_find(s, t) >= 0,
    ensures
        0 <= tf_find(s, t) < s.len(),
        s[tf_find(s, t)].0 == t,
    decreases s.len(),
{
    if s.len() > 0 && s[0].0 != t {
        lemma_tf_find_hit_names(s.drop_first(), t);
    }
}

} // verus!
