//! Equality and order of versions.
//!
//! Versions are compared by their structure: first by variant, a text
//! before a real and a real before a whole number, then by what they hold.
//! Two texts, and two reals, compare as texts do, character by character;
//! two whole numbers compare as numbers. So a whole number and a text that
//! shows the same digits are not equal, and the order of two reals is that
//! of their texts, not of their values.
use crate::version::{Scalar, Version};
use std::cmp::Ordering;
use vstd::prelude::*;

verus! {

/// The order of two texts: the first place where they differ decides, by
/// the code points of the characters there; a text comes before every
/// longer text that starts with it.
pub open spec fn text_order(a: Seq<char>, b: Seq<char>) -> Ordering
    decreases a.len(),
{
    if a.len() == 0 {
        if b.len() == 0 {
            Ordering::Equal
        } else {
            Ordering::Less
        }
    } else if b.len() == 0 {
        Ordering::Greater
    } else if a[0] < b[0] {
        Ordering::Less
    } else if a[0] > b[0] {
        Ordering::Greater
    } else {
        text_order(a.skip(1), b.skip(1))
    }
}

/// The order of two whole numbers.
pub open spec fn whole_order(a: nat, b: nat) -> Ordering {
    if a < b {
        Ordering::Less
    } else if a > b {
        Ordering::Greater
    } else {
        Ordering::Equal
    }
}

/// The order of two scalars: by variant first, then by what they hold.
pub open spec fn scalar_order(a: Scalar, b: Scalar) -> Ordering {
    match (a, b) {
        (Scalar::Text(s), Scalar::Text(t)) => text_order(s, t),
        (Scalar::Text(_), _) => Ordering::Less,
        (Scalar::Real(_), Scalar::Text(_)) => Ordering::Greater,
        (Scalar::Real(s), Scalar::Real(t)) => text_order(s, t),
        (Scalar::Real(_), Scalar::Whole(_)) => Ordering::Less,
        (Scalar::Whole(m), Scalar::Whole(n)) => whole_order(m, n),
        (Scalar::Whole(_), _) => Ordering::Greater,
    }
}

/// `Ord::cmp` of `str`: the order of two texts. Strings are ordered by
/// their bytes, which orders them by the code points of their characters.
#[verifier::external_body]
fn compare_texts(a: &str, b: &str) -> (r: Ordering)
    ensures
        r == text_order(a@, b@),
{
    a.cmp(b)
}

impl PartialEq for Version {
    fn eq(&self, other: &Self) -> (r: bool) {
        match (self, other) {
            (Version::String(s), Version::String(t)) => *s == *t,
            (Version::Float(s), Version::Float(t)) => *s == *t,
            (Version::Int(m), Version::Int(n)) => *m == *n,
            _ => false,
        }
    }
}

impl vstd::std_specs::cmp::PartialEqSpecImpl for Version {
    open spec fn obeys_eq_spec() -> bool {
        true
    }

    open spec fn eq_spec(&self, other: &Self) -> bool {
        self@ == other@
    }
}

impl PartialOrd for Version {
    fn partial_cmp(&self, other: &Self) -> (r: Option<Ordering>) {
        match (self, other) {
            (Version::String(s), Version::String(t)) => Some(compare_texts(s.as_str(), t.as_str())),
            (Version::String(_), _) => Some(Ordering::Less),
            (Version::Float(_), Version::String(_)) => Some(Ordering::Greater),
            (Version::Float(s), Version::Float(t)) => Some(compare_texts(s.as_str(), t.as_str())),
            (Version::Float(_), Version::Int(_)) => Some(Ordering::Less),
            (Version::Int(m), Version::Int(n)) => if *m < *n {
                Some(Ordering::Less)
            } else if *m > *n {
                Some(Ordering::Greater)
            } else {
                Some(Ordering::Equal)
            },
            (Version::Int(_), _) => Some(Ordering::Greater),
        }
    }
}

impl vstd::std_specs::cmp::PartialOrdSpecImpl for Version {
    open spec fn obeys_partial_cmp_spec() -> bool {
        true
    }

    open spec fn partial_cmp_spec(&self, other: &Self) -> Option<Ordering> {
        Some(scalar_order(self@, other@))
    }
}

/// The order that results from swapping the two sides.
pub open spec fn reversed(o: Ordering) -> Ordering {
    match o {
        Ordering::Less => Ordering::Greater,
        Ordering::Equal => Ordering::Equal,
        Ordering::Greater => Ordering::Less,
    }
}

proof fn text_order_equal(a: Seq<char>, b: Seq<char>)
    ensures
        text_order(a, b) == Ordering::Equal <==> a == b,
    decreases a.len(),
{
    if a.len() > 0 && b.len() > 0 && a[0] == b[0] {
        text_order_equal(a.skip(1), b.skip(1));
        if a.skip(1) == b.skip(1) {
            assert(a =~= seq![a[0]] + a.skip(1));
            assert(b =~= seq![b[0]] + b.skip(1));
        }
    } else if a.len() == 0 && b.len() == 0 {
        assert(a =~= b);
    }
}

proof fn text_order_reverses(a: Seq<char>, b: Seq<char>)
    ensures
        text_order(b, a) == reversed(text_order(a, b)),
    decreases a.len(),
{
    if a.len() > 0 && b.len() > 0 && a[0] == b[0] {
        text_order_reverses(a.skip(1), b.skip(1));
    }
}

proof fn text_order_chains(a: Seq<char>, b: Seq<char>, c: Seq<char>)
    requires
        text_order(a, b) != Ordering::Greater,
        text_order(b, c) != Ordering::Greater,
    ensures
        text_order(a, c) != Ordering::Greater,
        text_order(a, c) == Ordering::Equal ==> text_order(a, b) == Ordering::Equal && text_order(
            b,
            c,
        ) == Ordering::Equal,
    decreases a.len(),
{
    if a.len() > 0 && b.len() > 0 && c.len() > 0 && a[0] == b[0] && b[0] == c[0] {
        text_order_chains(a.skip(1), b.skip(1), c.skip(1));
    }
}

/// Two versions compare as equal exactly where they are the same version.
pub proof fn order_equal_iff_same(a: Version, b: Version)
    ensures
        scalar_order(a@, b@) == Ordering::Equal <==> a@ == b@,
{
    match (a@, b@) {
        (Scalar::Text(s), Scalar::Text(t)) => text_order_equal(s, t),
        (Scalar::Real(s), Scalar::Real(t)) => text_order_equal(s, t),
        _ => {},
    }
}

/// Swapping the two sides of a comparison swaps less and greater.
pub proof fn order_reverses(a: Version, b: Version)
    ensures
        scalar_order(b@, a@) == reversed(scalar_order(a@, b@)),
{
    match (a@, b@) {
        (Scalar::Text(s), Scalar::Text(t)) => text_order_reverses(s, t),
        (Scalar::Real(s), Scalar::Real(t)) => text_order_reverses(s, t),
        _ => {},
    }
}

/// The order is transitive: what is not above a second version that is not
/// above a third is not above the third.
pub proof fn order_is_transitive(a: Version, b: Version, c: Version)
    requires
        scalar_order(a@, b@) != Ordering::Greater,
        scalar_order(b@, c@) != Ordering::Greater,
    ensures
        scalar_order(a@, c@) != Ordering::Greater,
{
    match (a@, b@, c@) {
        (Scalar::Text(s), Scalar::Text(t), Scalar::Text(u)) => text_order_chains(s, t, u),
        (Scalar::Real(s), Scalar::Real(t), Scalar::Real(u)) => text_order_chains(s, t, u),
        _ => {},
    }
}

} // verus!
