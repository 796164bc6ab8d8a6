//! How two series stand to one another, step by step: above, below, or crossing.

use std::cmp::Ordering;
use vstd::prelude::*;

verus! {

/// Relation between two series at one point in time.
#[derive(Debug, Clone, Copy, PartialEq, Eq, Structural)]
pub enum Crossover {
    Equal,
    Bellow,
    Over,
    CrossingUpwards,
    CrossingDownwards,
}

impl Crossover {
    /// The classification of a step whose ordering is `curr` when the
    /// ordering of the step before it was `prev`.
    pub open spec fn transition(curr: Ordering, prev: Ordering) -> Crossover {
        match prev {
            Ordering::Greater => match curr {
                Ordering::Greater => Crossover::Over,
                _ => Crossover::CrossingDownwards,
            },
            Ordering::Equal => match curr {
                Ordering::Greater => Crossover::CrossingUpwards,
                Ordering::Equal => Crossover::Equal,
                Ordering::Less => Crossover::CrossingDownwards,
            },
            Ordering::Less => match curr {
                Ordering::Less => Crossover::Bellow,
                _ => Crossover::CrossingUpwards,
            },
        }
    }

    /// The classification of the first step of a series, which has no
    /// predecessor.
    pub open spec fn initial(first: Ordering) -> Crossover {
        if first == Ordering::Greater {
            Crossover::Over
        } else {
            Crossover::Bellow
        }
    }

    /// The signed rank of a classification.
    pub open spec fn rank(self) -> int {
        match self {
            Crossover::Bellow => -1,
            Crossover::Over => 1,
            Crossover::Equal => 0,
            Crossover::CrossingUpwards => 2,
            Crossover::CrossingDownwards => -2,
        }
    }

    /// Classifies a step by its ordering and that of the step before it.
    pub fn from(curr: Ordering, prev: Ordering) -> (r: Crossover)
        ensures
            r == Self::transition(curr, prev),
    {
        match prev {
            Ordering::Greater => match curr {
                Ordering::Greater => Crossover::Over,
                _ => Crossover::CrossingDownwards,
            },
            Ordering::Equal => match curr {
                Ordering::Greater => Crossover::CrossingUpwards,
                Ordering::Equal => Crossover::Equal,
                Ordering::Less => Crossover::CrossingDownwards,
            },
            Ordering::Less => match curr {
                Ordering::Less => Crossover::Bellow,
                _ => Crossover::CrossingUpwards,
            },
        }
    }

    /// The signed rank of the classification, for ranking and breaking ties.
    pub fn signal(&self) -> (r: i32)
        ensures
            r == self.rank(),
    {
        match self {
            Crossover::Bellow => -1,
            Crossover::Over => 1,
            Crossover::Equal => 0,
            Crossover::CrossingUpwards => 2,
            Crossover::CrossingDownwards => -2,
        }
    }
}

/// The classification of step `i` of a series of orderings.
pub open spec fn classify_at(ord: Seq<Ordering>, i: int) -> Crossover {
    if i > 0 {
        Crossover::transition(ord[i], ord[i - 1])
    } else {
        Crossover::initial(ord[0])
    }
}

/// The classification of every step of a series of orderings.
pub open spec fn classify(ord: Seq<Ordering>) -> Seq<Crossover> {
    Seq::new(ord.len(), |i: int| classify_at(ord, i))
}

/// The ordering seen from the other side.
pub open spec fn reversed_order(o: Ordering) -> Ordering {
    match o {
        Ordering::Less => Ordering::Greater,
        Ordering::Equal => Ordering::Equal,
        Ordering::Greater => Ordering::Less,
    }
}

impl Crossover {
    /// The classification seen from the other side: above for below, and
    /// a crossing downwards for one upwards.
    pub open spec fn mirrored(self) -> Crossover {
        match self {
            Crossover::Equal => Crossover::Equal,
            Crossover::Bellow => Crossover::Over,
            Crossover::Over => Crossover::Bellow,
            Crossover::CrossingUpwards => Crossover::CrossingDownwards,
            Crossover::CrossingDownwards => Crossover::CrossingUpwards,
        }
    }
}

/// When two series change places, every classification turns into its
/// mirror image, but for a first step at which the two are equal: that one
/// counts as below from either side.
pub proof fn lemma_classification_mirrors(ord: Seq<Ordering>, other: Seq<Ordering>, i: int)
    requires
        other.len() == ord.len(),
        forall|j: int| 0 <= j < ord.len() ==> other[j] == reversed_order(#[trigger] ord[j]),
        0 <= i < ord.len(),
        i > 0 || ord[0] != Ordering::Equal,
    ensures
        classify(other)[i] == classify(ord)[i].mirrored(),
{
}

/// Classifies every step of a series of orderings.
pub fn cross_from_ord(ord: &[Ordering]) -> (r: Vec<Crossover>)
    ensures
        r@ == classify(ord@),
{
    let mut r: Vec<Crossover> = Vec::new();
    let mut i: usize = 0;
    while i < ord.len()
        invariant
            i <= ord.len(),
            r@.len() == i,
            forall|j: int| 0 <= j < i ==> r@[j] == classify_at(ord@, j),
        decreases ord.len() - i,
    {
        let c = if i > 0 {
            Crossover::from(ord[i], ord[i - 1])
        } else {
            match ord[i] {
                Ordering::Greater => Crossover::Over,
                _ => Crossover::Bellow,
            }
        };
        r.push(c);
        i += 1;
    }
    r
}

/// Whether `ord` holds, step by step, a result that `f` can give for the
/// pair of `a` and `b` at that step.
pub open spec fn compared_by<T, F: Fn(&T, &T) -> Ordering>(
    a: Seq<T>,
    b: Seq<T>,
    f: F,
    ord: Seq<Ordering>,
) -> bool {
    &&& ord.len() == a.len()
    &&& forall|i: int| 0 <= i < a.len() ==> f.ensures((&a[i], &b[i]), #[trigger] ord[i])
}

/// Classifies, step by step, how the series `a` stands to the series `b`
/// when `f` compares their values. `b` may be longer than `a`; what it
/// holds beyond is not looked at.
pub fn compute_crossover_s<T, F>(a: &[T], b: &[T], f: F) -> (r: Vec<Crossover>) where
    F: Fn(&T, &T) -> Ordering,

    requires
        a@.len() <= b@.len(),
        forall|i: int| 0 <= i < a@.len() ==> f.requires((&a@[i], &b@[i])),
    ensures
        exists|ord: Seq<Ordering>| #[trigger] compared_by(a@, b@, f, ord) && r@ == classify(ord),
{
    let mut ord: Vec<Ordering> = Vec::new();
    let mut i: usize = 0;
    while i < a.len()
        invariant
            i <= a@.len() <= b@.len(),
            ord@.len() == i,
            forall|j: int| 0 <= j < a@.len() ==> f.requires((&a@[j], &b@[j])),
            forall|j: int| 0 <= j < i ==> f.ensures((&a@[j], &b@[j]), #[trigger] ord@[j]),
        decreases a@.len() - i,
    {
        let o = f(&a[i], &b[i]);
        ord.push(o);
        i += 1;
    }
    let r = cross_from_ord(ord.as_slice());
    assert(compared_by(a@, b@, f, ord@));
    r
}

/// How the series `a` stands to the series `b` at the last step of `a`,
/// when `f` compares their values.
pub fn compute_crossover<T, F>(a: &[T], b: &[T], f: F) -> (r: Crossover) where
    F: Fn(&T, &T) -> Ordering,

    requires
        0 < a@.len() <= b@.len(),
        forall|i: int| 0 <= i < a@.len() ==> f.requires((&a@[i], &b@[i])),
    ensures
        exists|ord: Seq<Ordering>| #[trigger]
            compared_by(a@, b@, f, ord) && r == classify(ord).last(),
{
    let s = compute_crossover_s(a, b, f);
    s[s.len() - 1]
}

/// How the number `a` stands to the number `b`.
pub open spec fn order_of(a: i64, b: i64) -> Ordering {
    if a < b {
        Ordering::Less
    } else if a == b {
        Ordering::Equal
    } else {
        Ordering::Greater
    }
}

/// How each value of the series `a` stands to the value of `b` at the same
/// step.
pub open spec fn orderings(a: Seq<i64>, b: Seq<i64>) -> Seq<Ordering> {
    Seq::new(a.len(), |i: int| order_of(a[i], b[i]))
}

/// How each value of a series stands to zero.
pub open spec fn zero_orderings(curve: Seq<i64>) -> Seq<Ordering> {
    Seq::new(curve.len(), |i: int| order_of(curve[i], 0))
}

/// How the series `a` stands to the series `b` at its last step.
pub open spec fn series_cross(a: Seq<i64>, b: Seq<i64>) -> Crossover {
    classify(orderings(a, b)).last()
}

/// How a series stands to zero at its last step.
pub open spec fn zero_cross(curve: Seq<i64>) -> Crossover {
    classify(zero_orderings(curve)).last()
}

/// Compares two numbers.
pub fn compare(a: &i64, b: &i64) -> (o: Ordering)
    ensures
        o == order_of(*a, *b),
{
    if *a < *b {
        Ordering::Less
    } else if *a == *b {
        Ordering::Equal
    } else {
        Ordering::Greater
    }
}

/// Classifies, step by step, how the series `a` stands to the series `b`.
pub fn compute_series_cross_s(a: &[i64], b: &[i64]) -> (r: Vec<Crossover>)
    requires
        a@.len() <= b@.len(),
    ensures
        r@ == classify(orderings(a@, b@)),
{
    compute_crossover_s(a, b, compare)
}

/// How the series `a` stands to the series `b` at the last step.
pub fn compute_series_cross(a: &[i64], b: &[i64]) -> (r: Crossover)
    requires
        0 < a@.len() <= b@.len(),
    ensures
        r == series_cross(a@, b@),
{
    compute_crossover(a, b, compare)
}

/// Classifies, step by step, how a series stands to zero.
pub fn compute_zero_cross_s(curve: &[i64]) -> (r: Vec<Crossover>)
    ensures
        r@ == classify(zero_orderings(curve@)),
{
    let mut ord: Vec<Ordering> = Vec::new();
    let mut i: usize = 0;
    while i < curve.len()
        invariant
            i <= curve@.len(),
            ord@.len() == i,
            forall|j: int| 0 <= j < i ==> ord@[j] == order_of(curve@[j], 0),
        decreases curve@.len() - i,
    {
        let zero: i64 = 0;
        let o = compare(&curve[i], &zero);
        ord.push(o);
        i += 1;
    }
    cross_from_ord(ord.as_slice())
}

/// How a series stands to zero at its last step.
pub fn compute_zero_cross(curve: &[i64]) -> (r: Crossover)
    requires
        curve@.len() > 0,
    ensures
        r == zero_cross(curve@),
{
    let s = compute_zero_cross_s(curve);
    s[s.len() - 1]
}

} // verus!
