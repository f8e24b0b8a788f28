//! Health levels of a device subsystem, their total order, and the
//! worst-of reduction used for a device's aggregate health.
use vstd::prelude::*;
use crate::text::text_eq;

verus! {

/// Health of a subsystem, declared from worst to best.
#[derive(Clone, Copy, Debug, PartialEq, Eq, Structural)]
pub enum Health {
    Critical,
    SlowDecrease,
    Hold,
    SlowIncrease,
    RampUp,
}

/// Position of a level in the order from worst (0) to best (4).
pub open spec fn rank(h: Health) -> int {
    match h {
        Health::Critical => 0,
        Health::SlowDecrease => 1,
        Health::Hold => 2,
        Health::SlowIncrease => 3,
        Health::RampUp => 4,
    }
}

/// The worse of two levels: the one with the smaller rank.
pub open spec fn spec_worse_of(a: Health, b: Health) -> Health {
    if rank(a) <= rank(b) {
        a
    } else {
        b
    }
}

/// The textual name of a level as it appears in status payloads.
pub open spec fn health_name(h: Health) -> Seq<char> {
    match h {
        Health::Critical => "critical"@,
        Health::SlowDecrease => "slowDecrease"@,
        Health::Hold => "hold"@,
        Health::SlowIncrease => "slowIncrease"@,
        Health::RampUp => "rampUp"@,
    }
}

/// The level a raw string denotes; any unrecognised string is the best level.
pub open spec fn spec_parse_health(s: Seq<char>) -> Health {
    if s == "critical"@ {
        Health::Critical
    } else if s == "slowDecrease"@ {
        Health::SlowDecrease
    } else if s == "hold"@ {
        Health::Hold
    } else if s == "slowIncrease"@ {
        Health::SlowIncrease
    } else {
        Health::RampUp
    }
}

/// The worst level of a sequence; the best level for an empty one.
pub open spec fn worst_of_seq(hs: Seq<Health>) -> Health
    decreases hs.len(),
{
    if hs.len() == 0 {
        Health::RampUp
    } else {
        spec_worse_of(worst_of_seq(hs.drop_last()), hs.last())
    }
}

impl Health {
    /// Returns whichever of `a` and `b` is closer to `Critical`.
    pub fn worse_of(a: Health, b: Health) -> (r: Health)
        ensures
            r == spec_worse_of(a, b),
    {
        if Health::rank_of(a) <= Health::rank_of(b) {
            a
        } else {
            b
        }
    }

    fn rank_of(h: Health) -> (r: u8)
        ensures
            r as int == rank(h),
    {
        match h {
            Health::Critical => 0,
            Health::SlowDecrease => 1,
            Health::Hold => 2,
            Health::SlowIncrease => 3,
            Health::RampUp => 4,
        }
    }

    /// Maps a health string to its level; unknown strings give `RampUp`.
    pub fn parse(raw: &str) -> (r: Health)
        ensures
            r == spec_parse_health(raw@),
    {
        if text_eq(raw, "critical") {
            Health::Critical
        } else if text_eq(raw, "slowDecrease") {
            Health::SlowDecrease
        } else if text_eq(raw, "hold") {
            Health::Hold
        } else if text_eq(raw, "slowIncrease") {
            Health::SlowIncrease
        } else {
            Health::RampUp
        }
    }

    /// The name of the level as it appears in status payloads.
    pub fn name(&self) -> (r: &'static str)
        ensures
            r@ == health_name(*self),
    {
        match self {
            Health::Critical => "critical",
            Health::SlowDecrease => "slowDecrease",
            Health::Hold => "hold",
            Health::SlowIncrease => "slowIncrease",
            Health::RampUp => "rampUp",
        }
    }
}

/// The worst level of a list; `RampUp` for an empty list.
pub fn worst_of(hs: &Vec<Health>) -> (r: Health)
    ensures
        r == worst_of_seq(hs@),
{
    let mut acc = Health::RampUp;
    let mut i: usize = 0;
    while i < hs.len()
        invariant
            i <= hs@.len(),
            acc == worst_of_seq(hs@.subrange(0, i as int)),
        decreases hs@.len() - i,
    {
        proof {
            let s = hs@.subrange(0, i as int + 1);
            assert(s.drop_last() =~= hs@.subrange(0, i as int));
        }
        acc = Health::worse_of(acc, hs[i]);
        i = i + 1;
    }
    assert(hs@.subrange(0, i as int) =~= hs@);
    acc
}

/// `worse_of` does not depend on the order of its arguments.
pub proof fn lemma_worse_of_commutative(a: Health, b: Health)
    ensures
        spec_worse_of(a, b) == spec_worse_of(b, a),
{
}

/// The worse of a level and itself is that level.
pub proof fn lemma_worse_of_idempotent(a: Health)
    ensures
        spec_worse_of(a, a) == a,
{
}

/// `worse_of` returns one of its arguments, and that argument is at least as
/// bad as both, whichever order they are given in.
pub proof fn lemma_worse_of_respects_order(a: Health, b: Health)
    ensures
        spec_worse_of(a, b) == a || spec_worse_of(a, b) == b,
        rank(spec_worse_of(a, b)) <= rank(a),
        rank(spec_worse_of(a, b)) <= rank(b),
        rank(a) < rank(b) ==> spec_worse_of(a, b) == a && spec_worse_of(b, a) == a,
{
}

/// The worst level of a list is at least as bad as every element, and is
/// itself an element of any non-empty list.
pub proof fn lemma_worst_of_seq_is_minimum(hs: Seq<Health>)
    ensures
        forall|i: int| 0 <= i < hs.len() ==> rank(worst_of_seq(hs)) <= rank(#[trigger] hs[i]),
        hs.len() > 0 ==> hs.contains(worst_of_seq(hs)),
    decreases hs.len(),
{
    if hs.len() > 0 {
        lemma_worst_of_seq_is_minimum(hs.drop_last());
        assert forall|i: int| 0 <= i < hs.len() implies rank(worst_of_seq(hs)) <= rank(
            #[trigger] hs[i],
        ) by {
            if i < hs.len() - 1 {
                assert(hs[i] == hs.drop_last()[i]);
            }
        }
        if hs.len() > 1 {
            let w = worst_of_seq(hs.drop_last());
            let k = choose|k: int| 0 <= k < hs.drop_last().len() && hs.drop_last()[k] == w;
            assert(hs[k] == w);
        }
        if worst_of_seq(hs) == hs.last() {
            assert(hs[hs.len() - 1] == hs.last());
        }
    }
}

/// A list holding a `Critical` level has `Critical` as its worst level,
/// whatever the other levels are.
pub proof fn lemma_critical_dominates(hs: Seq<Health>)
    requires
        hs.contains(Health::Critical),
    ensures
        worst_of_seq(hs) == Health::Critical,
{
    lemma_worst_of_seq_is_minimum(hs);
    let k = choose|k: int| 0 <= k < hs.len() && hs[k] == Health::Critical;
    assert(rank(worst_of_seq(hs)) <= rank(hs[k]));
}

} // verus!
