//! Decimal rendering of integers and the fixed line frames that the output
//! transcript is built from.

use vstd::prelude::*;

verus! {

/// The character for one decimal digit.
pub open spec fn dec_digit(d: int) -> char
    recommends
        0 <= d < 10,
{
    if d == 0 {
        '0'
    } else if d == 1 {
        '1'
    } else if d == 2 {
        '2'
    } else if d == 3 {
        '3'
    } else if d == 4 {
        '4'
    } else if d == 5 {
        '5'
    } else if d == 6 {
        '6'
    } else if d == 7 {
        '7'
    } else if d == 8 {
        '8'
    } else {
        '9'
    }
}

/// The decimal representation of a natural number, most significant digit
/// first, with no leading zeros (except for the number zero itself).
pub open spec fn dec_rep(n: nat) -> Seq<char>
    decreases n,
{
    if n < 10 {
        seq![dec_digit(n as int)]
    } else {
        dec_rep(n / 10) + seq![dec_digit((n % 10) as int)]
    }
}

/// A single decimal digit as a fresh one-character string.
pub fn digit_string(d: u64) -> (s: String)
    requires
        d < 10,
    ensures
        s@ == seq![dec_digit(d as int)],
{
    let lit: &str = if d == 0 {
        "0"
    } else if d == 1 {
        "1"
    } else if d == 2 {
        "2"
    } else if d == 3 {
        "3"
    } else if d == 4 {
        "4"
    } else if d == 5 {
        "5"
    } else if d == 6 {
        "6"
    } else if d == 7 {
        "7"
    } else if d == 8 {
        "8"
    } else {
        "9"
    };
    proof {
        reveal_strlit("0");
        reveal_strlit("1");
        reveal_strlit("2");
        reveal_strlit("3");
        reveal_strlit("4");
        reveal_strlit("5");
        reveal_strlit("6");
        reveal_strlit("7");
        reveal_strlit("8");
        reveal_strlit("9");
        assert(lit@ =~= seq![dec_digit(d as int)]);
    }
    lit.to_owned()
}

/// Renders an unsigned number in decimal.
pub fn u64_to_string(n: u64) -> (s: String)
    ensures
        s@ == dec_rep(n as nat),
    decreases n,
{
    if n < 10 {
        digit_string(n)
    } else {
        let mut s = u64_to_string(n / 10);
        let d = digit_string(n % 10);
        s.append(d.as_str());
        assert(s@ =~= dec_rep(n as nat));
        s
    }
}

/// A fraction of a second, in milliseconds, zero-padded to three digits.
pub open spec fn frac3(ms: nat) -> Seq<char>
    recommends
        ms < 1000,
{
    seq![
        dec_digit((ms / 100) as int),
        dec_digit(((ms / 10) % 10) as int),
        dec_digit((ms % 10) as int),
    ]
}

/// Renders a millisecond fraction as exactly three digits.
pub fn frac3_string(ms: u64) -> (s: String)
    requires
        ms < 1000,
    ensures
        s@ == frac3(ms as nat),
{
    let mut s = digit_string(ms / 100);
    let d1 = digit_string((ms / 10) % 10);
    let d2 = digit_string(ms % 10);
    s.append(d1.as_str());
    s.append(d2.as_str());
    assert(s@ =~= frac3(ms as nat));
    s
}

/// One transcript line for a printed value: `[STDOUT] {text}\n`.
pub open spec fn stdout_line(text: Seq<char>) -> Seq<char> {
    "[STDOUT] "@ + text + "\n"@
}

/// The terminal timing line: `[INFO] Execution finished in {s}.{mmm} seconds\n`.
pub open spec fn info_line(millis: nat) -> Seq<char> {
    "[INFO] Execution finished in "@ + dec_rep(millis / 1000) + "."@ + frac3(millis % 1000)
        + " seconds\n"@
}

/// The transcript fragment for a runtime failure:
/// `runtime error: {message}\n   --> repl:{line}\n`.
pub open spec fn runtime_error_text(message: Seq<char>, line: nat) -> Seq<char> {
    "runtime error: "@ + message + "\n   --> repl:"@ + dec_rep(line) + "\n"@
}

/// Builds the `[STDOUT]` frame around one printed value.
pub fn stdout_line_string(text: &str) -> (s: String)
    ensures
        s@ == stdout_line(text@),
{
    let mut s = "[STDOUT] ".to_owned();
    s.append(text);
    s.append("\n");
    assert(s@ =~= stdout_line(text@));
    s
}

/// Builds the timing line from a duration in milliseconds.
pub fn info_line_string(millis: u64) -> (s: String)
    ensures
        s@ == info_line(millis as nat),
{
    let mut s = "[INFO] Execution finished in ".to_owned();
    let secs = u64_to_string(millis / 1000);
    let frac = frac3_string(millis % 1000);
    s.append(secs.as_str());
    s.append(".");
    s.append(frac.as_str());
    s.append(" seconds\n");
    assert(s@ =~= info_line(millis as nat));
    s
}

/// Builds the runtime-error transcript fragment.
pub fn runtime_error_string(message: &str, line: u64) -> (s: String)
    ensures
        s@ == runtime_error_text(message@, line as nat),
{
    let mut s = "runtime error: ".to_owned();
    s.append(message);
    s.append("\n   --> repl:");
    let l = u64_to_string(line);
    s.append(l.as_str());
    s.append("\n");
    assert(s@ =~= runtime_error_text(message@, line as nat));
    s
}

} // verus!
