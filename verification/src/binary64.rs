//! Ordering of IEEE-754 binary64 values, read from their 64-bit patterns.
//!
//! A value is carried through the library as the `u64` that holds its bits.
//! The pattern splits into a sign bit and a 63-bit magnitude; every pattern
//! whose magnitude lies above that of infinity is a NaN.  For all other
//! patterns the numeric order of the values is the order of the signed
//! magnitudes, except that both zeros stand for the same value.

use vstd::prelude::*;

verus! {

/// The sign bit of a binary64 pattern.
pub const SIGN_BIT: u64 = 0x8000_0000_0000_0000u64;

/// The magnitude bits of positive infinity: all exponent bits set, no fraction.
pub const INFINITY_MAGNITUDE: u64 = 0x7FF0_0000_0000_0000u64;

/// A quiet NaN: the value the original folds start from.
pub const QUIET_NAN: u64 = 0x7FF8_0000_0000_0000u64;

/// Whether the sign bit is set.
pub open spec fn negative_sign(bits: u64) -> bool {
    bits >= SIGN_BIT
}

/// The pattern with its sign bit cleared.
pub open spec fn magnitude(bits: u64) -> int {
    (bits % SIGN_BIT) as int
}

/// Whether the pattern is a NaN.
pub open spec fn nan(bits: u64) -> bool {
    magnitude(bits) > INFINITY_MAGNITUDE
}

/// The position of a non-NaN value on the number line: an integer that is
/// ordered as the values are, with both zeros at 0.
pub open spec fn rank(bits: u64) -> int {
    if negative_sign(bits) {
        -magnitude(bits)
    } else {
        magnitude(bits)
    }
}

/// `a > b` on binary64 values: false whenever a NaN takes part.
pub open spec fn greater_spec(a: u64, b: u64) -> bool {
    !nan(a) && !nan(b) && rank(a) > rank(b)
}

/// `a == b` on binary64 values: a NaN equals nothing, the two zeros are equal.
pub open spec fn equal_spec(a: u64, b: u64) -> bool {
    !nan(a) && !nan(b) && rank(a) == rank(b)
}

/// Whether the pattern is a NaN.
pub fn is_nan(bits: u64) -> (r: bool)
    ensures
        r == nan(bits),
{
    bits % SIGN_BIT > INFINITY_MAGNITUDE
}

/// The rank of a non-NaN pattern as a machine integer.
fn rank_of(bits: u64) -> (r: i64)
    requires
        !nan(bits),
    ensures
        r == rank(bits),
{
    let m: u64 = bits % SIGN_BIT;
    let mi: i64 = m as i64;
    if bits >= SIGN_BIT {
        -mi
    } else {
        mi
    }
}

/// `a > b` for the values whose patterns are `a` and `b`.
pub fn greater(a: u64, b: u64) -> (r: bool)
    ensures
        r == greater_spec(a, b),
{
    if is_nan(a) || is_nan(b) {
        false
    } else {
        rank_of(a) > rank_of(b)
    }
}

/// `a == b` for the values whose patterns are `a` and `b`.
pub fn equal(a: u64, b: u64) -> (r: bool)
    ensures
        r == equal_spec(a, b),
{
    if is_nan(a) || is_nan(b) {
        false
    } else {
        rank_of(a) == rank_of(b)
    }
}

/// The larger of `a` and `b`, ignoring a NaN: a NaN gives way to the other
/// operand, and on a tie (which can only differ in the sign of a zero) the
/// first operand is kept.
pub open spec fn max_spec(a: u64, b: u64) -> u64 {
    if nan(a) {
        b
    } else if nan(b) {
        a
    } else if rank(b) > rank(a) {
        b
    } else {
        a
    }
}

/// The smaller of `a` and `b`, ignoring a NaN, as `max_spec` with the order reversed.
pub open spec fn min_spec(a: u64, b: u64) -> u64 {
    if nan(a) {
        b
    } else if nan(b) {
        a
    } else if rank(a) > rank(b) {
        b
    } else {
        a
    }
}

/// The larger of two values, ignoring a NaN.
pub fn max_of(a: u64, b: u64) -> (r: u64)
    ensures
        r == max_spec(a, b),
{
    if is_nan(a) {
        b
    } else if is_nan(b) {
        a
    } else if greater(b, a) {
        b
    } else {
        a
    }
}

/// The smaller of two values, ignoring a NaN.
pub fn min_of(a: u64, b: u64) -> (r: u64)
    ensures
        r == min_spec(a, b),
{
    if is_nan(a) {
        b
    } else if is_nan(b) {
        a
    } else if greater(a, b) {
        b
    } else {
        a
    }
}

/// `max_spec` folded over `s` from a quiet NaN.
pub open spec fn fold_max(s: Seq<u64>) -> u64
    decreases s.len(),
{
    if s.len() == 0 {
        QUIET_NAN
    } else {
        max_spec(fold_max(s.drop_last()), s.last())
    }
}

/// `min_spec` folded over `s` from a quiet NaN.
pub open spec fn fold_min(s: Seq<u64>) -> u64
    decreases s.len(),
{
    if s.len() == 0 {
        QUIET_NAN
    } else {
        min_spec(fold_min(s.drop_last()), s.last())
    }
}

/// Whether every pattern of `s` is a NaN (true of the empty sequence).
pub open spec fn all_nan(s: Seq<u64>) -> bool {
    forall|i: int| 0 <= i < s.len() ==> nan(#[trigger] s[i])
}

/// `r` is a largest value of `s`, NaNs left aside; a NaN when `s` holds no other value.
pub open spec fn is_max_of(s: Seq<u64>, r: u64) -> bool {
    &&& nan(r) <==> all_nan(s)
    &&& !nan(r) ==> exists|i: int| 0 <= i < s.len() && s[i] == r
    &&& forall|i: int| 0 <= i < s.len() && !nan(#[trigger] s[i]) ==> rank(s[i]) <= rank(r)
}

/// `r` is a smallest value of `s`, NaNs left aside; a NaN when `s` holds no other value.
pub open spec fn is_min_of(s: Seq<u64>, r: u64) -> bool {
    &&& nan(r) <==> all_nan(s)
    &&& !nan(r) ==> exists|i: int| 0 <= i < s.len() && s[i] == r
    &&& forall|i: int| 0 <= i < s.len() && !nan(#[trigger] s[i]) ==> rank(s[i]) >= rank(r)
}

/// The largest value of `values`, folding `max_of` from a NaN.
pub fn max_ignoring_nan(values: &Vec<u64>) -> (r: u64)
    ensures
        r == fold_max(values@),
{
    let mut acc: u64 = QUIET_NAN;
    let n: usize = values.len();
    for i in 0..n
        invariant
            n == values@.len(),
            acc == fold_max(values@.take(i as int)),
    {
        acc = max_of(acc, values[i]);
        assert(values@.take(i + 1).drop_last() =~= values@.take(i as int));
    }
    assert(values@.take(n as int) =~= values@);
    acc
}

/// The smallest value of `values`, folding `min_of` from a NaN.
pub fn min_ignoring_nan(values: &Vec<u64>) -> (r: u64)
    ensures
        r == fold_min(values@),
{
    let mut acc: u64 = QUIET_NAN;
    let n: usize = values.len();
    for i in 0..n
        invariant
            n == values@.len(),
            acc == fold_min(values@.take(i as int)),
    {
        acc = min_of(acc, values[i]);
        assert(values@.take(i + 1).drop_last() =~= values@.take(i as int));
    }
    assert(values@.take(n as int) =~= values@);
    acc
}

/// The folded maximum is a largest value of the sequence, NaNs left aside,
/// and a NaN exactly when the sequence holds no other value.
pub proof fn fold_max_is_a_maximum(s: Seq<u64>)
    ensures
        is_max_of(s, fold_max(s)),
    decreases s.len(),
{
    if s.len() > 0 {
        let t = s.drop_last();
        fold_max_is_a_maximum(t);
        assert(s =~= t.push(s.last()));
        let r = fold_max(s);
        if !nan(r) {
            if r == s.last() {
                assert(s[s.len() - 1] == r);
            } else {
                let j = choose|j: int| 0 <= j < t.len() && t[j] == fold_max(t);
                assert(s[j] == r);
            }
        }
        assert forall|i: int| 0 <= i < s.len() && !nan(#[trigger] s[i]) implies rank(s[i]) <= rank(
            r,
        ) by {
            if i < t.len() {
                assert(s[i] == t[i]);
            }
        }
        if all_nan(s) {
            assert forall|i: int| 0 <= i < t.len() implies nan(#[trigger] t[i]) by {
                assert(s[i] == t[i]);
            }
        }
        if !all_nan(s) && !all_nan(t) {
            let i = choose|i: int| 0 <= i < t.len() && !nan(#[trigger] t[i]);
            assert(s[i] == t[i]);
        }
    }
}

/// The folded minimum is a smallest value of the sequence, NaNs left aside,
/// and a NaN exactly when the sequence holds no other value.
pub proof fn fold_min_is_a_minimum(s: Seq<u64>)
    ensures
        is_min_of(s, fold_min(s)),
    decreases s.len(),
{
    if s.len() > 0 {
        let t = s.drop_last();
        fold_min_is_a_minimum(t);
        assert(s =~= t.push(s.last()));
        let r = fold_min(s);
        if !nan(r) {
            if r == s.last() {
                assert(s[s.len() - 1] == r);
            } else {
                let j = choose|j: int| 0 <= j < t.len() && t[j] == fold_min(t);
                assert(s[j] == r);
            }
        }
        assert forall|i: int| 0 <= i < s.len() && !nan(#[trigger] s[i]) implies rank(s[i]) >= rank(
            r,
        ) by {
            if i < t.len() {
                assert(s[i] == t[i]);
            }
        }
        if all_nan(s) {
            assert forall|i: int| 0 <= i < t.len() implies nan(#[trigger] t[i]) by {
                assert(s[i] == t[i]);
            }
        }
        if !all_nan(s) && !all_nan(t) {
            let i = choose|i: int| 0 <= i < t.len() && !nan(#[trigger] t[i]);
            assert(s[i] == t[i]);
        }
    }
}

/// The sign bit and the magnitude of a pattern: below the sign bit a pattern
/// is its own magnitude; at or above it, the magnitude is what lies above it.
proof fn lemma_split(a: u64)
    ensures
        a < SIGN_BIT ==> magnitude(a) == a,
        a >= SIGN_BIT ==> magnitude(a) == a - SIGN_BIT,
{
}

/// The order `greater` reads off the bit patterns, stated on the patterns as
/// integers: a NaN (magnitude above infinity) is never greater nor smaller;
/// among positive patterns the larger integer is the larger value; among
/// negative patterns the smaller integer is the larger value; a positive
/// pattern is greater than a negative one unless both are zeros.
pub proof fn greater_on_patterns(a: u64, b: u64)
    ensures
        (a % SIGN_BIT > INFINITY_MAGNITUDE || b % SIGN_BIT > INFINITY_MAGNITUDE) ==> !greater_spec(a, b),
        (a % SIGN_BIT <= INFINITY_MAGNITUDE && b % SIGN_BIT <= INFINITY_MAGNITUDE) ==> {
            &&& (a < SIGN_BIT && b < SIGN_BIT) ==> (greater_spec(a, b) <==> a > b)
            &&& (a >= SIGN_BIT && b >= SIGN_BIT) ==> (greater_spec(a, b) <==> a < b)
            &&& (a < SIGN_BIT && b >= SIGN_BIT) ==> (greater_spec(a, b) <==> !(a == 0 && b == SIGN_BIT))
            &&& (a >= SIGN_BIT && b < SIGN_BIT) ==> !greater_spec(a, b)
        },
{
    lemma_split(a);
    lemma_split(b);
}

/// Two values are equal exactly when neither is a NaN and their patterns are
/// the same, the two zeros aside, which are equal whatever their signs.
pub proof fn equal_on_patterns(a: u64, b: u64)
    ensures
        equal_spec(a, b) <==> (a % SIGN_BIT <= INFINITY_MAGNITUDE && b % SIGN_BIT
            <= INFINITY_MAGNITUDE && (a == b || (a % SIGN_BIT == 0 && b % SIGN_BIT == 0))),
{
    lemma_split(a);
    lemma_split(b);
}

/// `equal` and `greater` split the non-NaN pairs: two such values are equal
/// exactly when neither is greater than the other, and never both.
pub proof fn equal_or_greater(a: u64, b: u64)
    ensures
        equal_spec(a, b) <==> (!nan(a) && !nan(b) && !greater_spec(a, b) && !greater_spec(b, a)),
        (!nan(a) && !nan(b)) ==> (equal_spec(a, b) || greater_spec(a, b) || greater_spec(b, a)),
        !(greater_spec(a, b) && greater_spec(b, a)),
        !greater_spec(a, a),
        !nan(a) ==> equal_spec(a, a),
{
}

/// `greater` is transitive.
pub proof fn greater_is_transitive(a: u64, b: u64, c: u64)
    requires
        greater_spec(a, b),
        greater_spec(b, c),
    ensures
        greater_spec(a, c),
{
}

/// The maximum of two values is one of them; a NaN gives way to the other
/// operand; otherwise neither operand is greater than it, and on equal values
/// the first operand is kept.  The minimum is the same with the order reversed.
pub proof fn max_and_min_of_two(a: u64, b: u64)
    ensures
        max_spec(a, b) == a || max_spec(a, b) == b,
        min_spec(a, b) == a || min_spec(a, b) == b,
        nan(a) ==> max_spec(a, b) == b && min_spec(a, b) == b,
        (!nan(a) && nan(b)) ==> max_spec(a, b) == a && min_spec(a, b) == a,
        (!nan(a) && !nan(b)) ==> {
            &&& !greater_spec(a, max_spec(a, b)) && !greater_spec(b, max_spec(a, b))
            &&& !greater_spec(min_spec(a, b), a) && !greater_spec(min_spec(a, b), b)
            &&& equal_spec(a, b) ==> max_spec(a, b) == a && min_spec(a, b) == a
        },
{
}

} // verus!
