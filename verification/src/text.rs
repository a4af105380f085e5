//! Text operations of the standard library for which the verifier has no
//! specification. Each is a thin wrapper whose contract is taken on trust.
use vstd::prelude::*;

verus! {

/// The digit character of a value below ten.
pub open spec fn digit_char(d: nat) -> char {
    if d == 0 {
        '0'
    } else if d == 1 {
        '1'
    } else if d == 2 {
        '2'
    } else if d == 3 {
        '3'
    } else if d == 4 {
        '4'
    } else if d == 5 {
        '5'
    } else if d == 6 {
        '6'
    } else if d == 7 {
        '7'
    } else if d == 8 {
        '8'
    } else {
        '9'
    }
}

/// The decimal numeral of a natural number, without leading zeros.
pub open spec fn decimal(n: nat) -> Seq<char>
    decreases n,
{
    if n < 10 {
        seq![digit_char(n)]
    } else {
        decimal(n / 10).push(digit_char(n % 10))
    }
}

/// What `str`'s `Debug` formatting writes for a text: the text in double
/// quotes, with the escapes that the standard library applies.
pub uninterp spec fn debug_quoted(s: Seq<char>) -> Seq<char>;

/// What `str::trim` leaves of a text.
pub uninterp spec fn trimmed(s: Seq<char>) -> Seq<char>;

/// What `str::to_lowercase` makes of a text.
pub uninterp spec fn lowercased(s: Seq<char>) -> Seq<char>;

/// The pieces that `str::split_whitespace` yields for a text, in order.
pub uninterp spec fn whitespace_split(s: Seq<char>) -> Seq<Seq<char>>;

/// `str::eq`: two texts are equal exactly when they hold the same characters.
#[verifier::external_body]
pub(crate) fn str_eq(a: &str, b: &str) -> (r: bool)
    ensures
        r == (a@ == b@),
{
    a == b
}

/// Formats a text with `{:?}`. The result is a function of the text alone;
/// the contract gives it the name `debug_quoted`.
#[verifier::external_body]
pub(crate) fn debug_text(s: &str) -> (r: String)
    ensures
        r@ == debug_quoted(s@),
{
    format!("{:?}", s)
}

/// Formats a `u16` with `{:?}`, which for an integer is its decimal numeral.
#[verifier::external_body]
pub(crate) fn u16_text(n: u16) -> (r: String)
    ensures
        r@ == decimal(n as nat),
{
    format!("{:?}", n)
}

/// `str::trim`: the text without leading and trailing whitespace. The
/// contract names the result and claims nothing more of it.
#[verifier::external_body]
pub(crate) fn str_trim(s: &str) -> (r: &str)
    ensures
        r@ == trimmed(s@),
{
    s.trim()
}

/// `str::to_lowercase`: the lower-case form of the text. The contract names
/// the result and claims nothing more of it.
#[verifier::external_body]
pub(crate) fn str_to_lowercase(s: &str) -> (r: String)
    ensures
        r@ == lowercased(s@),
{
    s.to_lowercase()
}

/// `str::split_whitespace`, collected: the pieces of the text between runs of
/// whitespace. The contract names the result and claims nothing more of it.
#[verifier::external_body]
pub(crate) fn str_split_whitespace(s: &str) -> (r: Vec<String>)
    ensures
        r.deep_view() == whitespace_split(s@),
{
    s.split_whitespace().map(String::from).collect()
}

/// The concatenation of two texts.
pub fn concat(a: &str, b: &str) -> (r: String)
    ensures
        r@ == a@ + b@,
{
    let mut r = a.to_owned();
    r.append(b);
    r
}

} // verus!
