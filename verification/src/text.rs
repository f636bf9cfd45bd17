//! Text helpers with exact meanings over character sequences.

use vstd::prelude::*;

verus! {

/// Whether `s` reads exactly `lit`.
pub fn text_is(s: &String, lit: &str) -> (r: bool)
    ensures
        r == (s@ == lit@),
{
    let other = String::from_str(lit);
    *s == other
}

/// The decimal digit for `d`, for `d` below 10.
pub open spec fn digit_char(d: nat) -> char {
    if d == 0 {
        '0'
    } else if d == 1 {
        '1'
    } else if d == 2 {
        '2'
    } else if d == 3 {
        '3'
    } else if d == 4 {
        '4'
    } else if d == 5 {
        '5'
    } else if d == 6 {
        '6'
    } else if d == 7 {
        '7'
    } else if d == 8 {
        '8'
    } else {
        '9'
    }
}

/// The decimal notation of `n`, without leading zeros.
pub open spec fn decimal(n: nat) -> Seq<char>
    decreases n,
{
    if n < 10 {
        seq![digit_char(n)]
    } else {
        decimal(n / 10).push(digit_char(n % 10))
    }
}

fn digit_text(d: usize) -> (r: String)
    requires
        d < 10,
    ensures
        r@ == seq![digit_char(d as nat)],
{
    let lit = if d == 0 {
        proof { reveal_strlit("0"); }
        "0"
    } else if d == 1 {
        proof { reveal_strlit("1"); }
        "1"
    } else if d == 2 {
        proof { reveal_strlit("2"); }
        "2"
    } else if d == 3 {
        proof { reveal_strlit("3"); }
        "3"
    } else if d == 4 {
        proof { reveal_strlit("4"); }
        "4"
    } else if d == 5 {
        proof { reveal_strlit("5"); }
        "5"
    } else if d == 6 {
        proof { reveal_strlit("6"); }
        "6"
    } else if d == 7 {
        proof { reveal_strlit("7"); }
        "7"
    } else if d == 8 {
        proof { reveal_strlit("8"); }
        "8"
    } else {
        proof { reveal_strlit("9"); }
        "9"
    };
    let r = String::from_str(lit);
    assert(r@ =~= seq![digit_char(d as nat)]);
    r
}

/// `n` written in decimal.
pub fn decimal_text(n: usize) -> (r: String)
    ensures
        r@ == decimal(n as nat),
    decreases n,
{
    if n < 10 {
        digit_text(n)
    } else {
        let mut r = decimal_text(n / 10);
        let last = digit_text(n % 10);
        r.append(last.as_str());
        r
    }
}

/// The ellipsis that ends a shortened value.
pub open spec fn ellipsis() -> char {
    '\u{2026}'
}

/// How many characters of a value are kept before the ellipsis when it is
/// shortened to `max_len` characters.
pub open spec fn kept_chars(max_len: nat) -> nat {
    if max_len == 0 {
        0
    } else {
        (max_len - 1) as nat
    }
}

/// `v` unchanged when it has at most `max_len` characters; else its first
/// `max_len - 1` characters (none when `max_len` is 0) followed by an ellipsis.
pub open spec fn truncated(v: Seq<char>, max_len: nat) -> Seq<char> {
    if v.len() <= max_len {
        v
    } else {
        v.take(kept_chars(max_len) as int).push(ellipsis())
    }
}

/// The text `v` shortened as [`truncated`] says.
pub fn truncate_text(v: &String, max_len: usize) -> (r: String)
    ensures
        r@ == truncated(v@, max_len as nat),
{
    let count: usize = v.as_str().unicode_len();
    if count <= max_len {
        v.clone()
    } else {
        let keep: usize = max_len.saturating_sub(1);
        let mut r = String::from_str(v.as_str().substring_char(0, keep));
        proof { reveal_strlit("\u{2026}"); }
        r.append("\u{2026}");
        assert(r@ =~= truncated(v@, max_len as nat));
        r
    }
}

} // verus!
