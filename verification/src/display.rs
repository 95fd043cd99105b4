//! The text of a clock line: three decimal fields separated by colons.

use vstd::prelude::*;
use vstd::string::StringExecFns;

verus! {

/// The character that stands for a single decimal digit.
pub open spec fn digit_char(d: nat) -> char {
    if d == 0 {
        '0'
    } else if d == 1 {
        '1'
    } else if d == 2 {
        '2'
    } else if d == 3 {
        '3'
    } else if d == 4 {
        '4'
    } else if d == 5 {
        '5'
    } else if d == 6 {
        '6'
    } else if d == 7 {
        '7'
    } else if d == 8 {
        '8'
    } else {
        '9'
    }
}

/// Decimal notation of `n`, most significant digit first, without leading zeros.
pub open spec fn decimal(n: nat) -> Seq<char>
    decreases n,
{
    if n < 10 {
        seq![digit_char(n)]
    } else {
        decimal(n / 10).push(digit_char(n % 10))
    }
}

/// The number that a decimal digit stands for.
pub open spec fn digit_value(c: char) -> nat {
    if c == '1' {
        1
    } else if c == '2' {
        2
    } else if c == '3' {
        3
    } else if c == '4' {
        4
    } else if c == '5' {
        5
    } else if c == '6' {
        6
    } else if c == '7' {
        7
    } else if c == '8' {
        8
    } else if c == '9' {
        9
    } else {
        0
    }
}

/// The number that a run of decimal digits stands for.
pub open spec fn decimal_value(digits: Seq<char>) -> nat
    decreases digits.len(),
{
    if digits.len() == 0 {
        0
    } else {
        decimal_value(digits.drop_last()) * 10 + digit_value(digits.last())
    }
}

/// `H:M:S` for a number of seconds: whole hours, then the minutes and seconds
/// that remain, each in decimal and unpadded.
pub open spec fn hms(v: nat) -> Seq<char> {
    decimal(v / 3600) + seq![':'] + decimal((v % 3600) / 60) + seq![':'] + decimal(v % 60)
}

/// A clock line as it is handed to the sink: the `H:M:S` text followed by a
/// newline when it is the last line of a run, by a carriage return otherwise.
pub open spec fn line(v: nat, last: bool) -> Seq<char> {
    hms(v).push(if last { '\n' } else { '\r' })
}

/// Whether `c` can occur in the `H:M:S` text: a decimal digit or a colon.
pub open spec fn is_clock_char(c: char) -> bool {
    c == ':' || c == '0' || c == '1' || c == '2' || c == '3' || c == '4' || c == '5' || c == '6'
        || c == '7' || c == '8' || c == '9'
}

/// One clock line, ready for the sink.
///
/// After a line that is not the last the caller flushes the sink and waits one
/// second before asking for the next; the last line ends the run.
#[derive(Clone, Debug)]
pub struct Frame {
    /// The `H:M:S` text with its line ending.
    pub text: String,
    /// Whether the run is over once this line is written.
    pub last: bool,
}

/// A decimal number has at least one digit and holds digits only.
pub proof fn lemma_decimal_digits(n: nat)
    ensures
        decimal(n).len() >= 1,
        forall|i: int| 0 <= i < decimal(n).len() ==> is_clock_char(#[trigger] decimal(n)[i]),
    decreases n,
{
    if n >= 10 {
        lemma_decimal_digits(n / 10);
    }
}

/// Decimal notation reads back as the number it was written for, and only
/// zero itself begins with a zero.
pub proof fn law_decimal_reads_back(n: nat)
    ensures
        decimal_value(decimal(n)) == n,
        n > 0 ==> decimal(n)[0] != '0',
    decreases n,
{
    if n < 10 {
        assert(decimal(n).drop_last() =~= Seq::<char>::empty());
        assert(decimal_value(decimal(n).drop_last()) == 0);
    } else {
        law_decimal_reads_back(n / 10);
        lemma_decimal_digits(n / 10);
        assert(decimal(n).drop_last() =~= decimal(n / 10));
        assert(decimal(n)[0] == decimal(n / 10)[0]);
    }
}

/// The `H:M:S` text holds digits and colons only, so no line ending.
pub proof fn lemma_hms_chars(v: nat)
    ensures
        hms(v).len() >= 5,
        forall|i: int| 0 <= i < hms(v).len() ==> is_clock_char(#[trigger] hms(v)[i]),
{
    lemma_decimal_digits(v / 3600);
    lemma_decimal_digits((v % 3600) / 60);
    lemma_decimal_digits(v % 60);
}

/// A clock line ends in its line ending and holds none before it: a newline
/// occurs only as the last character of a last line.
pub proof fn lemma_line_shape(v: nat, last: bool)
    ensures
        line(v, last).len() == hms(v).len() + 1,
        line(v, last).last() == (if last { '\n' } else { '\r' }),
        forall|i: int|
            0 <= i < line(v, last).len() - 1 ==> is_clock_char(#[trigger] line(v, last)[i]),
        !last ==> !line(v, last).contains('\n'),
{
    lemma_hms_chars(v);
    assert forall|i: int| 0 <= i < line(v, last).len() - 1 implies is_clock_char(
        #[trigger] line(v, last)[i],
    ) by {
        assert(line(v, last)[i] == hms(v)[i]);
    }
}

/// The line for zero seconds reads `0:0:0`.
pub proof fn lemma_line_zero(last: bool)
    ensures
        line(0, last) =~= seq!['0', ':', '0', ':', '0', if last { '\n' } else { '\r' }],
{
    assert(decimal(0) =~= seq!['0']);
}

fn digit_str(d: u64) -> (r: &'static str)
    requires
        d < 10,
    ensures
        r@ == seq![digit_char(d as nat)],
{
    proof {
        reveal_strlit("0");
        reveal_strlit("1");
        reveal_strlit("2");
        reveal_strlit("3");
        reveal_strlit("4");
        reveal_strlit("5");
        reveal_strlit("6");
        reveal_strlit("7");
        reveal_strlit("8");
        reveal_strlit("9");
    }
    let r = if d == 0 {
        "0"
    } else if d == 1 {
        "1"
    } else if d == 2 {
        "2"
    } else if d == 3 {
        "3"
    } else if d == 4 {
        "4"
    } else if d == 5 {
        "5"
    } else if d == 6 {
        "6"
    } else if d == 7 {
        "7"
    } else if d == 8 {
        "8"
    } else {
        "9"
    };
    assert(r@ =~= seq![digit_char(d as nat)]);
    r
}

/// Writes `n` in decimal.
pub fn decimal_string(n: u64) -> (r: String)
    ensures
        r@ == decimal(n as nat),
    decreases n,
{
    if n < 10 {
        String::from_str(digit_str(n))
    } else {
        let mut text = decimal_string(n / 10);
        text.append(digit_str(n % 10));
        assert(text@ =~= decimal(n as nat));
        text
    }
}

fn colon() -> (r: &'static str)
    ensures
        r@ == seq![':'],
{
    proof {
        reveal_strlit(":");
    }
    assert(":"@ =~= seq![':']);
    ":"
}

fn line_ending(last: bool) -> (r: &'static str)
    ensures
        r@ == seq![if last { '\n' } else { '\r' }],
{
    proof {
        reveal_strlit("\n");
        reveal_strlit("\r");
    }
    assert("\n"@ =~= seq!['\n']);
    assert("\r"@ =~= seq!['\r']);
    if last {
        "\n"
    } else {
        "\r"
    }
}

/// Writes a number of seconds as `H:M:S`.
pub fn hms_string(v: u64) -> (r: String)
    ensures
        r@ == hms(v as nat),
{
    let rest: u64 = v % 3600;
    let hours = decimal_string(v / 3600);
    let minutes = decimal_string(rest / 60);
    let seconds = decimal_string(rest % 60);
    let mut text = hours;
    text.append(colon());
    text.append(minutes.as_str());
    text.append(colon());
    text.append(seconds.as_str());
    text
}

/// Writes the clock line for `v` seconds with its line ending.
pub fn line_string(v: u64, last: bool) -> (r: String)
    ensures
        r@ == line(v as nat, last),
{
    let mut text = hms_string(v);
    let ghost shown = text@;
    text.append(line_ending(last));
    assert(shown + seq![if last { '\n' } else { '\r' }] =~= shown.push(
        if last { '\n' } else { '\r' },
    ));
    text
}

} // verus!
