//! Small shared helpers: string comparison, decimal rendering of integers,
//! and first-occurrence search over sequences.

use vstd::prelude::*;

verus! {

/// The character for a single decimal digit.
pub open spec fn digit_char(d: int) -> char {
    if d == 0 {
        '0'
    } else if d == 1 {
        '1'
    } else if d == 2 {
        '2'
    } else if d == 3 {
        '3'
    } else if d == 4 {
        '4'
    } else if d == 5 {
        '5'
    } else if d == 6 {
        '6'
    } else if d == 7 {
        '7'
    } else if d == 8 {
        '8'
    } else {
        '9'
    }
}

/// Decimal digits of a non-negative integer, most significant first.
pub open spec fn dec_digits(n: nat) -> Seq<char>
    decreases n,
{
    if n < 10 {
        seq![digit_char(n as int)]
    } else {
        dec_digits(n / 10) + seq![digit_char((n % 10) as int)]
    }
}

/// Decimal rendering of a signed integer: a '-' sign for negative values,
/// then the digits of the magnitude.
pub open spec fn int_decimal(v: int) -> Seq<char> {
    if v < 0 {
        seq!['-'] + dec_digits((-v) as nat)
    } else {
        dec_digits(v as nat)
    }
}

/// Relies on str's `PartialEq`: two string slices compare equal exactly when
/// their character sequences are equal.
#[verifier::external_body]
pub(crate) fn str_eq(a: &str, b: &str) -> (r: bool)
    ensures
        r == (a@ == b@),
{
    a == b
}

/// Relies on i32's `Display` implementation: an integer is formatted as its
/// decimal digits, preceded by '-' when negative.
#[verifier::external_body]
pub(crate) fn int_to_decimal(v: i32) -> (r: String)
    ensures
        r@ == int_decimal(v as int),
{
    v.to_string()
}

/// Index of the first occurrence of `v` in `s`, or `s.len()` when `v` does
/// not occur.
pub open spec fn first_index_of<T>(s: Seq<T>, v: T) -> int
    decreases s.len(),
{
    if s.len() == 0 {
        0
    } else if s[0] == v {
        0
    } else {
        1 + first_index_of(s.drop_first(), v)
    }
}

/// `first_index_of` lands inside the sequence exactly when the value occurs,
/// it points at the first occurrence, and nothing before it matches.
pub proof fn lemma_first_index_of<T>(s: Seq<T>, v: T)
    ensures
        0 <= first_index_of(s, v) <= s.len(),
        first_index_of(s, v) < s.len() <==> s.contains(v),
        first_index_of(s, v) < s.len() ==> s[first_index_of(s, v)] == v,
        forall|j: int| 0 <= j < first_index_of(s, v) ==> s[j] != v,
    decreases s.len(),
{
    if s.len() == 0 {
    } else if s[0] == v {
        assert(s.contains(v));
    } else {
        lemma_first_index_of(s.drop_first(), v);
        let t = s.drop_first();
        assert forall|j: int| 0 <= j < first_index_of(s, v) implies s[j] != v by {
            if j > 0 {
                assert(s[j] == t[j - 1]);
            }
        }
        if t.contains(v) {
            let k = choose|k: int| 0 <= k < t.len() && t[k] == v;
            assert(s[k + 1] == v);
            assert(s.contains(v));
        }
        if s.contains(v) {
            let k = choose|k: int| 0 <= k < s.len() && s[k] == v;
            assert(k > 0);
            assert(t[k - 1] == v);
            assert(t.contains(v));
        }
        if first_index_of(s, v) < s.len() {
            assert(s[first_index_of(s, v)] == t[first_index_of(t, v)]);
        }
    }
}

/// Within a prefix that contains the value, the first occurrence is the
/// global one; a prefix without it pushes the first occurrence past the
/// prefix.
pub proof fn lemma_first_index_of_take<T>(s: Seq<T>, v: T, i: int)
    requires
        0 <= i <= s.len(),
    ensures
        s.take(i).contains(v) ==> first_index_of(s, v) == first_index_of(s.take(i), v),
        !s.take(i).contains(v) ==> first_index_of(s, v) >= i,
{
    lemma_first_index_of(s, v);
    lemma_first_index_of(s.take(i), v);
    let p = s.take(i);
    if p.contains(v) {
        let fp = first_index_of(p, v);
        assert(p[fp] == v);
        assert(s[fp] == v);
        assert(s.contains(v));
        let f = first_index_of(s, v);
        if f < fp {
            assert(p[f] == s[f]);
        }
    } else {
        let f = first_index_of(s, v);
        if f < i {
            assert(s[f] == v);
            assert(p[f] == v);
            assert(p.contains(v));
        }
    }
}

/// Appending a fresh value does not disturb the first occurrence of a value
/// already present, and the appended value's first occurrence is at the end
/// when it was absent before.
pub proof fn lemma_first_index_of_push<T>(s: Seq<T>, v: T, w: T)
    ensures
        s.contains(v) ==> first_index_of(s.push(w), v) == first_index_of(s, v),
        !s.contains(v) && v == w ==> first_index_of(s.push(w), v) == s.len(),
    decreases s.len(),
{
    lemma_first_index_of(s, v);
    lemma_first_index_of(s.push(w), v);
    if s.len() == 0 {
        if v == w {
            assert(s.push(w)[0] == w);
        }
    } else {
        lemma_first_index_of_push(s.drop_first(), v, w);
        assert(s.push(w).drop_first() =~= s.drop_first().push(w));
        if s.contains(v) {
            if s[0] == v {
            } else {
                assert(s.push(w)[0] == s[0]);
                let t = s.drop_first();
                let k = choose|k: int| 0 <= k < s.len() && s[k] == v;
                assert(t[k - 1] == v);
                assert(t.contains(v));
            }
        } else if v == w {
            assert(s.push(w)[0] == s[0]);
            assert(s[0] != v);
        }
    }
}

} // verus!
