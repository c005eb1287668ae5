//! Orderings and renderings of text that the contract relies on.
use vstd::prelude::*;

verus! {

/// `a` comes strictly before `b` in the order of `String` (lexicographic by
/// character code, which is also the order of their UTF-8 bytes).
pub open spec fn text_lt(a: Seq<char>, b: Seq<char>) -> bool
    decreases a.len(),
{
    if b.len() == 0 {
        false
    } else if a.len() == 0 {
        true
    } else if (a[0] as u32) < (b[0] as u32) {
        true
    } else if a[0] == b[0] {
        text_lt(a.drop_first(), b.drop_first())
    } else {
        false
    }
}

/// `s` is in non-decreasing order.
pub open spec fn text_sorted(s: Seq<Seq<char>>) -> bool {
    forall|i: int, j: int| 0 <= i < j < s.len() ==> !text_lt(#[trigger] s[j], #[trigger] s[i])
}

/// `s` without the elements equal to the element just before them.
pub open spec fn dedup_seq<T>(s: Seq<T>) -> Seq<T>
    decreases s.len(),
{
    if s.len() <= 1 {
        s
    } else if s[s.len() - 1] == s[s.len() - 2] {
        dedup_seq(s.drop_last())
    } else {
        dedup_seq(s.drop_last()).push(s.last())
    }
}

/// Calls `<[String]>::sort_unstable`: the strings are reordered into
/// ascending order. The contract claims what the documentation states: the
/// result holds the same strings and is sorted.
#[verifier::external_body]
pub(crate) fn sort_strings(v: &mut Vec<String>)
    ensures
        final(v).deep_view().to_multiset() == old(v).deep_view().to_multiset(),
        final(v).deep_view().len() == old(v).deep_view().len(),
        text_sorted(final(v).deep_view()),
{
    v.sort_unstable();
}

/// Calls `Vec::<String>::dedup`: consecutive equal strings are removed but
/// for the first. The contract states that rule.
#[verifier::external_body]
pub(crate) fn dedup_strings(v: &mut Vec<String>)
    ensures
        final(v).deep_view() == dedup_seq(old(v).deep_view()),
{
    v.dedup();
}

/// Text of a string in the `Debug` format: quoted, with escapes.
pub uninterp spec fn debug_text(s: Seq<char>) -> Seq<char>;

/// Calls `<String as Debug>::fmt` through `format!("{:?}", ..)`; the text is
/// named `debug_text`.
#[verifier::external_body]
pub(crate) fn debug_string(s: &String) -> (r: String)
    ensures
        r@ == debug_text(s@),
{
    format!("{:?}", s)
}

/// Text of a list of integers in the `Debug` format, e.g. `[1, 2]`.
pub uninterp spec fn u64s_debug_text(s: Seq<u64>) -> Seq<char>;

/// Calls `<Vec<u64> as Debug>::fmt` through `format!("{:?}", ..)`; the text
/// is named `u64s_debug_text`.
#[verifier::external_body]
pub(crate) fn debug_u64s(v: &Vec<u64>) -> (r: String)
    ensures
        r@ == u64s_debug_text(v@),
{
    format!("{:?}", v)
}

/// The character of the decimal digit `d`.
pub open spec fn digit_char(d: nat) -> char {
    seq!['0', '1', '2', '3', '4', '5', '6', '7', '8', '9'][d as int]
}

/// Decimal text of `n`: its digits, most significant first, without leading
/// zeros.
pub open spec fn nat_text(n: nat) -> Seq<char>
    decreases n,
{
    if n < 10 {
        seq![digit_char(n)]
    } else {
        nat_text(n / 10).push(digit_char(n % 10))
    }
}

/// Decimal text of an integer.
pub open spec fn u64_text(x: u64) -> Seq<char> {
    nat_text(x as nat)
}

/// Calls `<u64 as ToString>::to_string`, which writes an integer in decimal
/// digits without leading zeros, as its documentation states; the contract
/// claims that text.
#[verifier::external_body]
pub(crate) fn u64_to_string(x: u64) -> (r: String)
    ensures
        r@ == u64_text(x),
{
    x.to_string()
}

/// `s` is in ascending order.
pub open spec fn u64_sorted(s: Seq<u64>) -> bool {
    forall|i: int, j: int| 0 <= i < j < s.len() ==> s[i] <= s[j]
}

/// Calls `<[u64]>::sort`: the numbers are put in ascending order. The
/// contract claims what the documentation states: the same numbers, sorted.
#[verifier::external_body]
pub(crate) fn sort_u64s(v: &mut Vec<u64>)
    ensures
        final(v)@.to_multiset() == old(v)@.to_multiset(),
        final(v)@.len() == old(v)@.len(),
        u64_sorted(final(v)@),
{
    v.sort();
}

/// The denominations of `s` are in non-decreasing order.
pub open spec fn denoms_sorted(s: Seq<crate::state::CoinModel>) -> bool {
    forall|i: int, j: int| 0 <= i < j < s.len() ==> !text_lt(#[trigger] s[j].denom, #[trigger] s[i].denom)
}

/// Calls `<[Coin]>::sort_by_key` with the denomination as key: the coins are
/// put in order of their denominations. The contract claims what the
/// documentation states: the same coins, ordered by denomination.
#[verifier::external_body]
pub(crate) fn sort_coins_by_denom(v: &mut Vec<crate::state::Coin>)
    ensures
        final(v).deep_view().to_multiset() == old(v).deep_view().to_multiset(),
        final(v).deep_view().len() == old(v).deep_view().len(),
        denoms_sorted(final(v).deep_view()),
{
    v.sort_by_key(|c| c.denom.clone());
}

} // verus!
