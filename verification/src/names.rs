//! Character-sequence comparison, decimal rendering of indices, and the
//! `eth<i>` naming scheme used by the registry's default device mapping.

use vstd::prelude::*;
use vstd::relations::{sorted_by, total_ordering};
use vstd::string::StrSliceExecFns;
use vstd::string::StringExecFns;

verus! {

/// Lexicographic comparison of `a` and `b` from position `i` on, by code
/// point: the first differing position decides, and a sequence that runs out
/// first comes first.
pub open spec fn lex_le_from(a: Seq<char>, b: Seq<char>, i: int) -> bool
    decreases a.len() - i,
{
    if i >= a.len() {
        true
    } else if i >= b.len() {
        false
    } else if (a[i] as u32) < (b[i] as u32) {
        true
    } else if (a[i] as u32) > (b[i] as u32) {
        false
    } else {
        lex_le_from(a, b, i + 1)
    }
}

/// Lexicographic order on character sequences.
pub open spec fn lex_le(a: Seq<char>, b: Seq<char>) -> bool {
    lex_le_from(a, b, 0)
}

/// The lexicographic order as a relation value, for use with vstd's ordering
/// and sortedness vocabulary.
pub open spec fn lex_leq() -> spec_fn(Seq<char>, Seq<char>) -> bool {
    |a: Seq<char>, b: Seq<char>| lex_le(a, b)
}

proof fn lemma_lex_refl_from(a: Seq<char>, i: int)
    ensures
        lex_le_from(a, a, i),
    decreases a.len() - i,
{
    if i < a.len() {
        lemma_lex_refl_from(a, i + 1);
    }
}

proof fn lemma_lex_antisym_from(a: Seq<char>, b: Seq<char>, i: int)
    requires
        0 <= i <= a.len(),
        i <= b.len(),
        lex_le_from(a, b, i),
        lex_le_from(b, a, i),
    ensures
        a.len() == b.len(),
        forall|k: int| i <= k < a.len() ==> a[k] == b[k],
    decreases a.len() - i,
{
    if i < a.len() && i < b.len() {
        vstd::utf8::char_u32_cast(a[i], a[i] as u32);
        vstd::utf8::char_u32_cast(b[i], b[i] as u32);
        lemma_lex_antisym_from(a, b, i + 1);
    }
}

proof fn lemma_lex_trans_from(a: Seq<char>, b: Seq<char>, c: Seq<char>, i: int)
    requires
        lex_le_from(a, b, i),
        lex_le_from(b, c, i),
    ensures
        lex_le_from(a, c, i),
    decreases a.len() - i,
{
    if i < a.len() && i < b.len() && i < c.len() {
        if (a[i] as u32) == (b[i] as u32) && (b[i] as u32) == (c[i] as u32) {
            lemma_lex_trans_from(a, b, c, i + 1);
        }
    }
}

proof fn lemma_lex_total_from(a: Seq<char>, b: Seq<char>, i: int)
    ensures
        lex_le_from(a, b, i) || lex_le_from(b, a, i),
    decreases a.len() - i,
{
    if i < a.len() && i < b.len() && (a[i] as u32) == (b[i] as u32) {
        lemma_lex_total_from(a, b, i + 1);
    }
}

/// The lexicographic order is a total order, so sorting by it is meaningful
/// and a sorted arrangement of given elements is unique.
pub proof fn lemma_lex_total_ordering()
    ensures
        total_ordering(lex_leq()),
{
    let r = lex_leq();
    assert forall|a: Seq<char>| #[trigger] r(a, a) by {
        lemma_lex_refl_from(a, 0);
    }
    assert forall|a: Seq<char>, b: Seq<char>| #[trigger] r(a, b) && #[trigger] r(b, a)
        implies a == b by {
        lemma_lex_antisym_from(a, b, 0);
        assert(a =~= b);
    }
    assert forall|a: Seq<char>, b: Seq<char>, c: Seq<char>|
        #[trigger] r(a, b) && #[trigger] r(b, c) implies r(a, c) by {
        lemma_lex_trans_from(a, b, c, 0);
    }
    assert forall|a: Seq<char>, b: Seq<char>| !(#[trigger] r(a, b)) implies r(b, a) by {
        lemma_lex_total_from(a, b, 0);
    }
}

/// When two sequences agree on their first `i` positions, their order is
/// decided by what stands at position `i` and beyond.
proof fn lemma_lex_from_prefix(a: Seq<char>, b: Seq<char>, i: int)
    requires
        0 <= i <= a.len(),
        i <= b.len(),
        forall|k: int| 0 <= k < i ==> a[k] == b[k],
    ensures
        lex_le(a, b) == lex_le_from(a, b, i),
    decreases i,
{
    if i > 0 {
        lemma_lex_from_prefix(a, b, i - 1);
        assert(a[i - 1] == b[i - 1]);
    }
}

/// Compares two string slices for equality of their character sequences.
pub fn str_eq(a: &str, b: &str) -> (r: bool)
    ensures
        r == (a@ == b@),
{
    let alen = a.unicode_len();
    let blen = b.unicode_len();
    if alen != blen {
        return false;
    }
    let mut i: usize = 0;
    while i < alen
        invariant
            alen == a@.len(),
            blen == b@.len(),
            alen == blen,
            i <= alen,
            forall|k: int| 0 <= k < i ==> a@[k] == b@[k],
        decreases alen - i,
    {
        let ca = a.get_char(i);
        let cb = b.get_char(i);
        if ca != cb {
            return false;
        }
        i += 1;
    }
    proof {
        assert(a@ =~= b@);
    }
    true
}

/// Decides the lexicographic order of two string slices.
pub fn str_le(a: &str, b: &str) -> (r: bool)
    ensures
        r == lex_le(a@, b@),
{
    let alen = a.unicode_len();
    let blen = b.unicode_len();
    let mut i: usize = 0;
    loop
        invariant
            alen == a@.len(),
            blen == b@.len(),
            i <= alen,
            i <= blen,
            forall|k: int| 0 <= k < i ==> a@[k] == b@[k],
        decreases alen - i,
    {
        proof {
            lemma_lex_from_prefix(a@, b@, i as int);
        }
        if i >= alen {
            return true;
        }
        if i >= blen {
            return false;
        }
        let ca = a.get_char(i);
        let cb = b.get_char(i);
        if (ca as u32) < (cb as u32) {
            return true;
        }
        if (ca as u32) > (cb as u32) {
            return false;
        }
        proof {
            vstd::utf8::char_u32_cast(ca, ca as u32);
            vstd::utf8::char_u32_cast(cb, cb as u32);
        }
        i += 1;
    }
}

/// The character of a decimal digit value.
pub open spec fn dec_digit(d: nat) -> char
    recommends
        d < 10,
{
    if d == 0 {
        '0'
    } else if d == 1 {
        '1'
    } else if d == 2 {
        '2'
    } else if d == 3 {
        '3'
    } else if d == 4 {
        '4'
    } else if d == 5 {
        '5'
    } else if d == 6 {
        '6'
    } else if d == 7 {
        '7'
    } else if d == 8 {
        '8'
    } else {
        '9'
    }
}

/// The decimal rendering of a number: most significant digit first, without
/// leading zeroes.
pub open spec fn dec_digits(n: nat) -> Seq<char>
    decreases n,
{
    if n < 10 {
        seq![dec_digit(n)]
    } else {
        dec_digits(n / 10).push(dec_digit(n % 10))
    }
}

/// The one-character slice holding a decimal digit.
fn digit_str(d: u64) -> (r: &'static str)
    requires
        d < 10,
    ensures
        r@ == seq![dec_digit(d as nat)],
{
    let digits = "0123456789";
    proof {
        reveal_strlit("0123456789");
        assert(digits@ =~= seq!['0', '1', '2', '3', '4', '5', '6', '7', '8', '9']);
    }
    let r = digits.substring_ascii(d as usize, d as usize + 1);
    proof {
        assert(r@ =~= seq![dec_digit(d as nat)]);
    }
    r
}

/// Renders a number in decimal.
pub fn dec_string(n: u64) -> (s: String)
    ensures
        s@ == dec_digits(n as nat),
    decreases n,
{
    if n < 10 {
        String::from_str(digit_str(n))
    } else {
        let mut s = dec_string(n / 10);
        s.append(digit_str(n % 10));
        proof {
            assert(s@ =~= dec_digits((n / 10) as nat).push(dec_digit((n % 10) as nat)));
        }
        s
    }
}

/// The character of a hexadecimal digit value, lower case.
pub open spec fn hex_digit(d: nat) -> char
    recommends
        d < 16,
{
    if d < 10 {
        dec_digit(d)
    } else if d == 10 {
        'a'
    } else if d == 11 {
        'b'
    } else if d == 12 {
        'c'
    } else if d == 13 {
        'd'
    } else if d == 14 {
        'e'
    } else {
        'f'
    }
}

/// The hexadecimal rendering of a number: most significant digit first,
/// without leading zeroes, lower case.
pub open spec fn hex_digits(n: nat) -> Seq<char>
    decreases n,
{
    if n < 16 {
        seq![hex_digit(n)]
    } else {
        hex_digits(n / 16).push(hex_digit(n % 16))
    }
}

/// The one-character slice holding a hexadecimal digit.
fn hex_digit_str(d: u64) -> (r: &'static str)
    requires
        d < 16,
    ensures
        r@ == seq![hex_digit(d as nat)],
{
    let digits = "0123456789abcdef";
    proof {
        reveal_strlit("0123456789abcdef");
        assert(digits@ =~= seq![
            '0',
            '1',
            '2',
            '3',
            '4',
            '5',
            '6',
            '7',
            '8',
            '9',
            'a',
            'b',
            'c',
            'd',
            'e',
            'f',
        ]);
    }
    let r = digits.substring_ascii(d as usize, d as usize + 1);
    proof {
        assert(r@ =~= seq![hex_digit(d as nat)]);
    }
    r
}

/// Renders a number in hexadecimal, lower case.
pub fn hex_string(n: u64) -> (s: String)
    ensures
        s@ == hex_digits(n as nat),
    decreases n,
{
    if n < 16 {
        String::from_str(hex_digit_str(n))
    } else {
        let mut s = hex_string(n / 16);
        s.append(hex_digit_str(n % 16));
        proof {
            assert(s@ =~= hex_digits((n / 16) as nat).push(hex_digit((n % 16) as nat)));
        }
        s
    }
}

/// The logical interface name of index `i`: `eth` followed by the decimal
/// index.
pub open spec fn eth_name(i: nat) -> Seq<char> {
    seq!['e', 't', 'h'] + dec_digits(i)
}

/// Renders the logical interface name of index `i`.
pub fn eth_name_string(i: u64) -> (s: String)
    ensures
        s@ == eth_name(i as nat),
{
    let mut s = String::from_str("eth");
    proof {
        reveal_strlit("eth");
        assert(s@ =~= seq!['e', 't', 'h']);
    }
    let d = dec_string(i);
    s.append(d.as_str());
    s
}

proof fn lemma_dec_digit_injective(x: nat, y: nat)
    requires
        x < 10,
        y < 10,
        dec_digit(x) == dec_digit(y),
    ensures
        x == y,
{
}

proof fn lemma_dec_digits_len(n: nat)
    ensures
        dec_digits(n).len() >= 1,
        n >= 10 ==> dec_digits(n).len() >= 2,
    decreases n,
{
    if n >= 10 {
        lemma_dec_digits_len(n / 10);
    }
}

proof fn lemma_dec_digits_injective(a: nat, b: nat)
    requires
        dec_digits(a) == dec_digits(b),
    ensures
        a == b,
    decreases a,
{
    lemma_dec_digits_len(a);
    lemma_dec_digits_len(b);
    if a < 10 && b < 10 {
        assert(dec_digits(a)[0] == dec_digit(a));
        assert(dec_digits(b)[0] == dec_digit(b));
        lemma_dec_digit_injective(a, b);
    } else if a >= 10 && b >= 10 {
        assert(dec_digits(a).last() == dec_digit(a % 10));
        assert(dec_digits(b).last() == dec_digit(b % 10));
        lemma_dec_digit_injective(a % 10, b % 10);
        assert(a % 10 == b % 10);
        assert(dec_digits(a).drop_last() =~= dec_digits(a / 10));
        assert(dec_digits(b).drop_last() =~= dec_digits(b / 10));
        lemma_dec_digits_injective(a / 10, b / 10);
    } else {
        assert(dec_digits(a).len() != dec_digits(b).len());
    }
}

/// Distinct indices yield distinct logical interface names.
pub proof fn lemma_eth_name_injective(a: nat, b: nat)
    ensures
        eth_name(a) == eth_name(b) ==> a == b,
{
    if eth_name(a) == eth_name(b) {
        assert(dec_digits(a) =~= eth_name(a).skip(3));
        assert(dec_digits(b) =~= eth_name(b).skip(3));
        lemma_dec_digits_injective(a, b);
    }
}

/// The character sequences of a sequence of strings.
pub open spec fn views(s: Seq<String>) -> Seq<Seq<char>> {
    s.map_values(|x: String| x@)
}

/// The position of a lexicographically least element.
fn min_index(v: &Vec<String>) -> (m: usize)
    requires
        v@.len() > 0,
    ensures
        m < v@.len(),
        forall|k: int| 0 <= k < v@.len() ==> lex_le(v@[m as int]@, (#[trigger] v@[k])@),
{
    let mut m: usize = 0;
    let mut j: usize = 1;
    proof {
        lemma_lex_refl_from(v@[0]@, 0);
    }
    while j < v.len()
        invariant
            m < j <= v@.len(),
            forall|k: int| 0 <= k < j ==> lex_le(v@[m as int]@, (#[trigger] v@[k])@),
        decreases v@.len() - j,
    {
        if str_le(v[j].as_str(), v[m].as_str()) {
            proof {
                assert forall|k: int| 0 <= k < j implies lex_le(
                    v@[j as int]@,
                    (#[trigger] v@[k])@,
                ) by {
                    lemma_lex_trans_from(v@[j as int]@, v@[m as int]@, v@[k]@, 0);
                }
                lemma_lex_refl_from(v@[j as int]@, 0);
            }
            m = j;
        } else {
            proof {
                lemma_lex_total_from(v@[j as int]@, v@[m as int]@, 0);
            }
        }
        j += 1;
    }
    m
}

/// Sorts a list of strings lexicographically: the result holds exactly the
/// given character sequences, in ascending order.
pub fn sort_strings(v: Vec<String>) -> (r: Vec<String>)
    ensures
        sorted_by(views(r@), lex_leq()),
        views(r@).to_multiset() == views(v@).to_multiset(),
{
    broadcast use vstd::seq_lib::group_to_multiset_ensures;
    broadcast use vstd::multiset::group_multiset_axioms;

    let mut rest = v;
    let mut out: Vec<String> = Vec::new();
    proof {
        assert(views(out@) =~= Seq::<Seq<char>>::empty());
        assert(views(out@).to_multiset().add(views(rest@).to_multiset()) =~= views(
            v@,
        ).to_multiset());
    }
    while rest.len() > 0
        invariant
            sorted_by(views(out@), lex_leq()),
            views(out@).to_multiset().add(views(rest@).to_multiset()) == views(v@).to_multiset(),
            forall|p: int, q: int|
                #![trigger out@[p], rest@[q]]
                0 <= p < out@.len() && 0 <= q < rest@.len() ==> lex_le(out@[p]@, rest@[q]@),
        decreases rest@.len(),
    {
        broadcast use vstd::seq_lib::group_to_multiset_ensures;
        broadcast use vstd::multiset::group_multiset_axioms;

        let ghost out0 = out@;
        let ghost rest0 = rest@;
        let i = min_index(&rest);
        let x = rest.remove(i);
        out.push(x);
        proof {
            assert(views(rest@) =~= views(rest0).remove(i as int));
            assert(views(out@) =~= views(out0).push(x@));
            assert(views(rest0)[i as int] == x@);
            assert(views(rest0).to_multiset().contains(x@));
            assert(views(out@).to_multiset().add(views(rest@).to_multiset()) =~= views(
                out0,
            ).to_multiset().add(views(rest0).to_multiset()));
            assert forall|p: int, q: int|
                #![trigger out@[p], rest@[q]]
                0 <= p < out@.len() && 0 <= q < rest@.len() implies lex_le(
                out@[p]@,
                rest@[q]@,
            ) by {
                if p < out0.len() {
                    assert(out@[p] == out0[p]);
                } else {
                    assert(out@[p] == x);
                }
                if q < i {
                    assert(rest@[q] == rest0[q]);
                } else {
                    assert(rest@[q] == rest0[q + 1]);
                }
            }
            assert forall|p: int, q: int|
                0 <= p < q < views(out@).len() implies lex_leq()(
                #[trigger] views(out@)[p],
                #[trigger] views(out@)[q],
            ) by {
                if q < out0.len() {
                    assert(views(out0)[p] == out0[p]@);
                    assert(views(out0)[q] == out0[q]@);
                    assert(lex_leq()(views(out0)[p], views(out0)[q]));
                    assert(lex_le(out0[p]@, out0[q]@));
                } else {
                    assert(out@[q] == x);
                    assert(lex_le(out0[p]@, rest0[i as int]@));
                }
            }
        }
    }
    proof {
        assert(views(rest@) =~= Seq::<Seq<char>>::empty());
        assert(views(out@).to_multiset().add(views(rest@).to_multiset()) =~= views(
            out@,
        ).to_multiset());
    }
    out
}

} // verus!
