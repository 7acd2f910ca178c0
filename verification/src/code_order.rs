//! The order of stock codes: the byte-wise lexicographic order of their UTF-8
//! text, which is how `String` orders, and sorted sets of codes kept in a `Vec`.
use vstd::prelude::*;
use vstd::utf8::{encode_utf8, encode_utf8_decode_utf8};

use crate::ids::StockCode;

verus! {

/// The UTF-8 bytes of a code.
pub open spec fn code_bytes(c: StockCode) -> Seq<u8> {
    encode_utf8(c@)
}

/// Strict lexicographic order of byte strings; a proper prefix comes first.
pub open spec fn bytes_lt(a: Seq<u8>, b: Seq<u8>) -> bool
    decreases a.len(),
{
    if b.len() == 0 {
        false
    } else if a.len() == 0 {
        true
    } else if a[0] != b[0] {
        a[0] < b[0]
    } else {
        bytes_lt(a.drop_first(), b.drop_first())
    }
}

/// `a` sorts strictly before `b`.
pub open spec fn code_lt(a: StockCode, b: StockCode) -> bool {
    bytes_lt(code_bytes(a), code_bytes(b))
}

/// Strictly increasing, hence free of repeats.
pub open spec fn sorted_codes(s: Seq<StockCode>) -> bool {
    forall|i: int, j: int| 0 <= i < j < s.len() ==> code_lt(#[trigger] s[i], #[trigger] s[j])
}

/// Some element of `s` has the characters `c`.
pub open spec fn has_code(s: Seq<StockCode>, c: Seq<char>) -> bool {
    exists|i: int| 0 <= i < s.len() && (#[trigger] s[i])@ == c
}

pub proof fn lemma_bytes_lt_irreflexive(a: Seq<u8>)
    ensures
        !bytes_lt(a, a),
    decreases a.len(),
{
    if a.len() > 0 {
        lemma_bytes_lt_irreflexive(a.drop_first());
    }
}

pub proof fn lemma_bytes_lt_transitive(a: Seq<u8>, b: Seq<u8>, c: Seq<u8>)
    requires
        bytes_lt(a, b),
        bytes_lt(b, c),
    ensures
        bytes_lt(a, c),
    decreases a.len(),
{
    if a.len() > 0 && b.len() > 0 && c.len() > 0 && a[0] == b[0] && b[0] == c[0] {
        lemma_bytes_lt_transitive(a.drop_first(), b.drop_first(), c.drop_first());
    }
}

pub proof fn lemma_bytes_lt_total(a: Seq<u8>, b: Seq<u8>)
    ensures
        a == b || bytes_lt(a, b) || bytes_lt(b, a),
    decreases a.len(),
{
    if a.len() > 0 && b.len() > 0 && a[0] == b[0] {
        lemma_bytes_lt_total(a.drop_first(), b.drop_first());
        if a.drop_first() == b.drop_first() {
            assert(a =~= seq![a[0]] + a.drop_first());
            assert(b =~= seq![b[0]] + b.drop_first());
        }
    } else if a.len() == 0 && b.len() == 0 {
        assert(a =~= b);
    }
}

/// Dropping a common prefix does not change the order.
proof fn lemma_bytes_lt_skip(a: Seq<u8>, b: Seq<u8>, i: int)
    requires
        0 <= i <= a.len(),
        i <= b.len(),
        a.take(i) == b.take(i),
    ensures
        bytes_lt(a, b) == bytes_lt(a.skip(i), b.skip(i)),
    decreases i,
{
    if i == 0 {
        assert(a.skip(0) =~= a);
        assert(b.skip(0) =~= b);
    } else {
        assert(a[0] == a.take(i)[0]);
        assert(b[0] == b.take(i)[0]);
        assert(a.drop_first().take(i - 1) =~= a.take(i).drop_first());
        assert(b.drop_first().take(i - 1) =~= b.take(i).drop_first());
        lemma_bytes_lt_skip(a.drop_first(), b.drop_first(), i - 1);
        assert(a.drop_first().skip(i - 1) =~= a.skip(i));
        assert(b.drop_first().skip(i - 1) =~= b.skip(i));
    }
}

/// Two codes with the same bytes have the same characters.
pub proof fn lemma_code_bytes_injective(a: StockCode, b: StockCode)
    requires
        code_bytes(a) == code_bytes(b),
    ensures
        a@ == b@,
{
    encode_utf8_decode_utf8(a@);
    encode_utf8_decode_utf8(b@);
}

/// Two codes with different characters are ordered one way or the other.
pub proof fn lemma_code_lt_total(a: StockCode, b: StockCode)
    requires
        a@ != b@,
    ensures
        code_lt(a, b) || code_lt(b, a),
{
    lemma_bytes_lt_total(code_bytes(a), code_bytes(b));
    if code_bytes(a) == code_bytes(b) {
        lemma_code_bytes_injective(a, b);
    }
}

/// Membership in a prefix grown by one element.
pub proof fn lemma_has_code_take_next(s: Seq<StockCode>, i: int, x: Seq<char>)
    requires
        0 <= i < s.len(),
    ensures
        has_code(s.take(i + 1), x) == (has_code(s.take(i), x) || s[i]@ == x),
{
    if has_code(s.take(i), x) {
        let k = choose|k: int| 0 <= k < s.take(i).len() && (#[trigger] s.take(i)[k])@ == x;
        assert(s.take(i + 1)[k] == s.take(i)[k]);
    }
    if s[i]@ == x {
        assert(s.take(i + 1)[i] == s[i]);
    }
    if has_code(s.take(i + 1), x) {
        let k = choose|k: int| 0 <= k < s.take(i + 1).len() && (#[trigger] s.take(i + 1)[k])@ == x;
        if k < i {
            assert(s.take(i)[k] == s.take(i + 1)[k]);
        }
    }
}

/// Whether `a` sorts strictly before `b`.
pub fn code_precedes(a: &StockCode, b: &StockCode) -> (r: bool)
    ensures
        r == code_lt(*a, *b),
{
    let x = a.0.as_str().as_bytes();
    let y = b.0.as_str().as_bytes();
    let mut i: usize = 0;
    while i < x.len() && i < y.len()
        invariant
            0 <= i <= x@.len(),
            i <= y@.len(),
            x@.take(i as int) == y@.take(i as int),
            x@ == code_bytes(*a),
            y@ == code_bytes(*b),
        decreases x@.len() - i,
    {
        if x[i] != y[i] {
            proof {
                lemma_bytes_lt_skip(x@, y@, i as int);
                assert(x@.skip(i as int)[0] == x@[i as int]);
                assert(y@.skip(i as int)[0] == y@[i as int]);
            }
            return x[i] < y[i];
        }
        proof {
            assert(x@.take(i + 1) =~= x@.take(i as int).push(x@[i as int]));
            assert(y@.take(i + 1) =~= y@.take(i as int).push(y@[i as int]));
        }
        i += 1;
    }
    proof {
        lemma_bytes_lt_skip(x@, y@, i as int);
    }
    i < y.len()
}

/// Adds `c` to a sorted set of codes unless a code with its characters is there.
pub fn insert_code(v: &mut Vec<StockCode>, c: &StockCode)
    requires
        sorted_codes(old(v)@),
    ensures
        sorted_codes(final(v)@),
        forall|x: Seq<char>| #[trigger] has_code(final(v)@, x) <==> (has_code(old(v)@, x) || x == c@),
{
    let mut p: usize = 0;
    while p < v.len() && code_precedes(&v[p], c)
        invariant
            0 <= p <= v@.len(),
            sorted_codes(v@),
            forall|i: int| 0 <= i < p ==> code_lt(#[trigger] v@[i], *c),
        decreases v@.len() - p,
    {
        p += 1;
    }
    if p < v.len() && v[p].same_as(c) {
        assert forall|x: Seq<char>| has_code(v@, x) <==> (has_code(v@, x) || x == c@) by {
            if x == c@ {
                assert(v@[p as int]@ == x);
            }
        }
        return ;
    }
    let ghost before = v@;
    proof {
        if p < before.len() {
            lemma_code_lt_total(before[p as int], *c);
        }
    }
    v.insert(p, c.clone());
    proof {
        let after = v@;
        assert(after =~= before.insert(p as int, *c));
        assert forall|i: int, j: int| 0 <= i < j < after.len() implies code_lt(
            #[trigger] after[i],
            #[trigger] after[j],
        ) by {
            if j < p {
            } else if j == p {
            } else if i < p {
                if j - 1 > p {
                    lemma_bytes_lt_transitive(
                        code_bytes(*c),
                        code_bytes(before[p as int]),
                        code_bytes(before[j - 1]),
                    );
                }
                lemma_bytes_lt_transitive(
                    code_bytes(before[i]),
                    code_bytes(*c),
                    code_bytes(before[j - 1]),
                );
            } else if i == p {
                if j - 1 > p {
                    lemma_bytes_lt_transitive(
                        code_bytes(*c),
                        code_bytes(before[p as int]),
                        code_bytes(before[j - 1]),
                    );
                }
            } else {
            }
        }
        assert forall|x: Seq<char>| has_code(after, x) <==> (has_code(before, x) || x == c@) by {
            if has_code(before, x) {
                let k = choose|k: int| 0 <= k < before.len() && (#[trigger] before[k])@ == x;
                if k < p {
                    assert(after[k] == before[k]);
                } else {
                    assert(after[k + 1] == before[k]);
                }
            }
            if x == c@ {
                assert(after[p as int]@ == x);
            }
            if has_code(after, x) {
                let k = choose|k: int| 0 <= k < after.len() && (#[trigger] after[k])@ == x;
                if k < p {
                    assert(before[k] == after[k]);
                } else if k > p {
                    assert(before[k - 1] == after[k]);
                }
            }
        }
    }
}

} // verus!
