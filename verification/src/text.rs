//! Texts: their order, and the decimal form of numbers.
//!
//! The decimal form is taken from std's `to_string`, on trust.

use vstd::prelude::*;
use vstd::string::*;

verus! {

/// `a` and `b` agree on their first `i` characters.
pub open spec fn agree_upto(a: Seq<char>, b: Seq<char>, i: int) -> bool {
    &&& 0 <= i <= a.len()
    &&& i <= b.len()
    &&& forall|k: int| 0 <= k < i ==> a[k] == b[k]
}

/// `a` comes before `b` in the order of texts: at the first place where they
/// differ `a` has the smaller character, or `a` ends there and `b` goes on.
pub open spec fn text_precedes(a: Seq<char>, b: Seq<char>) -> bool {
    exists|i: int| #[trigger]
        agree_upto(a, b, i) && i < b.len() && (i == a.len() || a[i] < b[i])
}

/// Whether `a` comes before `b` in the order of texts.
pub fn precedes(a: &str, b: &str) -> (r: bool)
    ensures
        r == text_precedes(a@, b@),
{
    let n: usize = a.unicode_len();
    let m: usize = b.unicode_len();
    let mut i: usize = 0;
    while i < n && i < m
        invariant
            n == a@.len(),
            m == b@.len(),
            agree_upto(a@, b@, i as int),
        decreases n - i,
    {
        let x = a.get_char(i);
        let y = b.get_char(i);
        if x != y {
            proof {
                lemma_first_difference_decides(a@, b@, i as int);
            }
            return x < y;
        }
        i += 1;
    }
    proof {
        lemma_first_difference_decides(a@, b@, i as int);
    }
    i < m
}

/// The first place where two texts part decides their order.
proof fn lemma_first_difference_decides(a: Seq<char>, b: Seq<char>, i: int)
    requires
        agree_upto(a, b, i),
        i == a.len() || i == b.len() || a[i] != b[i],
    ensures
        text_precedes(a, b) <==> i < b.len() && (i == a.len() || a[i] < b[i]),
        text_precedes(b, a) <==> i < a.len() && (i == b.len() || b[i] < a[i]),
        a == b <==> i == a.len() && i == b.len(),
{
    assert(agree_upto(b, a, i));
    if text_precedes(a, b) {
        let j = choose|j: int| #[trigger]
            agree_upto(a, b, j) && j < b.len() && (j == a.len() || a[j] < b[j]);
        if j < i {
            assert(a[j] == b[j]);
        }
        if i < j {
            assert(a[i] == b[i]);
        }
    }
    if text_precedes(b, a) {
        let j = choose|j: int| #[trigger]
            agree_upto(b, a, j) && j < a.len() && (j == b.len() || b[j] < a[j]);
        if j < i {
            assert(a[j] == b[j]);
        }
        if i < j {
            assert(a[i] == b[i]);
        }
    }
    if i == a.len() && i == b.len() {
        assert(a =~= b);
    }
}

/// The length of the longest common beginning of two texts.
proof fn lemma_texts_part_somewhere(a: Seq<char>, b: Seq<char>, i: int) -> (p: int)
    requires
        agree_upto(a, b, i),
    ensures
        agree_upto(a, b, p),
        p == a.len() || p == b.len() || a[p] != b[p],
    decreases a.len() - i,
{
    if i == a.len() || i == b.len() || a[i] != b[i] {
        i
    } else {
        lemma_texts_part_somewhere(a, b, i + 1)
    }
}

/// The order of texts is a strict total order: no text comes before itself,
/// of two different texts exactly one comes first, and the order is
/// transitive.
pub proof fn lemma_text_order(a: Seq<char>, b: Seq<char>, c: Seq<char>)
    ensures
        !text_precedes(a, a),
        a != b ==> (text_precedes(a, b) <==> !text_precedes(b, a)),
        a == b ==> !text_precedes(a, b),
        text_precedes(a, b) && text_precedes(b, c) ==> text_precedes(a, c),
{
    let p = lemma_texts_part_somewhere(a, b, 0);
    lemma_first_difference_decides(a, b, p);
    let s = lemma_texts_part_somewhere(a, a, 0);
    lemma_first_difference_decides(a, a, s);
    if text_precedes(a, b) && text_precedes(b, c) {
        let q = lemma_texts_part_somewhere(b, c, 0);
        lemma_first_difference_decides(b, c, q);
        let r = if p <= q {
            p
        } else {
            q
        };
        assert(agree_upto(a, c, r));
        assert(r < c.len() && (r == a.len() || a[r] < c[r]));
    }
}

/// The decimal digits of a natural number, without leading zeros.
pub open spec fn decimal_digits(n: nat) -> Seq<char>
    decreases n,
{
    if n < 10 {
        seq![(48 + n) as char]
    } else {
        decimal_digits(n / 10).push((48 + n % 10) as char)
    }
}

/// The decimal form of an integer: its digits, behind a minus sign where it
/// is negative.
pub open spec fn decimal_text(n: int) -> Seq<char> {
    if n < 0 {
        seq!['-'] + decimal_digits((-n) as nat)
    } else {
        decimal_digits(n as nat)
    }
}

/// Calls `to_string` of std on an `i64`, which writes the number in decimal
/// digits, with a minus sign where it is negative.
#[verifier::external_body]
pub(crate) fn i64_to_string(n: i64) -> (text: String)
    ensures
        text@ == decimal_text(n as int),
{
    n.to_string()
}

} // verus!
