//! Text of numbers and names, as headers of regions show them.
use vstd::prelude::*;
use vstd::string::StringExecFns;

verus! {

/// The decimal digit character of a number below ten.
pub open spec fn digit_char(d: nat) -> char {
    (48 + d) as char
}

/// The decimal representation of a number, without leading zeros.
pub open spec fn decimal(n: nat) -> Seq<char>
    decreases n,
{
    if n < 10 {
        seq![digit_char(n)]
    } else {
        decimal(n / 10).push(digit_char(n % 10))
    }
}

/// The text of a decimal digit.
fn digit_text(d: usize) -> (r: String)
    requires
        d < 10,
    ensures
        r@ == seq![digit_char(d as nat)],
{
    proof {
        reveal_strlit("0");
        reveal_strlit("1");
        reveal_strlit("2");
        reveal_strlit("3");
        reveal_strlit("4");
        reveal_strlit("5");
        reveal_strlit("6");
        reveal_strlit("7");
        reveal_strlit("8");
        reveal_strlit("9");
    }
    let s = if d == 0 {
        "0"
    } else if d == 1 {
        "1"
    } else if d == 2 {
        "2"
    } else if d == 3 {
        "3"
    } else if d == 4 {
        "4"
    } else if d == 5 {
        "5"
    } else if d == 6 {
        "6"
    } else if d == 7 {
        "7"
    } else if d == 8 {
        "8"
    } else {
        "9"
    };
    let r = String::from_str(s);
    assert(r@ =~= seq![digit_char(d as nat)]);
    r
}

/// The decimal representation of the number, as [`decimal`] says.
pub fn decimal_text(n: usize) -> (r: String)
    ensures
        r@ == decimal(n as nat),
    decreases n,
{
    if n < 10 {
        digit_text(n)
    } else {
        let head = decimal_text(n / 10);
        let last = digit_text(n % 10);
        let r = head.concat(last.as_str());
        assert(r@ =~= decimal(n as nat));
        r
    }
}

/// What `{:?}` shows of a text: the text between double quotes, with its special characters
/// escaped.
pub uninterp spec fn debug_quoted(s: Seq<char>) -> Seq<char>;

/// `Debug` of `str` (through `format!("{:?}", ..)`).
/// Claims that the text depends on the argument alone, and names it [`debug_quoted`].
#[verifier::external_body]
fn debug_text(s: &str) -> (r: String)
    ensures
        r@ == debug_quoted(s@),
{
    format!("{:?}", s)
}

/// The text of a header: the first part, a space, and the name between quotes as `{:?}`
/// shows it.
pub fn header_text(kind: &str, name: &str) -> (r: String)
    ensures
        r@ == kind@ + seq![' '] + debug_quoted(name@),
{
    proof {
        reveal_strlit(" ");
    }
    let first = String::from_str(kind).concat(" ");
    let quoted = debug_text(name);
    let r = first.concat(quoted.as_str());
    assert(r@ =~= kind@ + seq![' '] + debug_quoted(name@));
    r
}

} // verus!
