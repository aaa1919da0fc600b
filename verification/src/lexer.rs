//! Lexical analysis with an exact specification: `spec_lex` states which
//! token sequence a source text denotes, or on which line lexing fails, and
//! `tokenize` is proved to return exactly that.

use vstd::prelude::*;

use crate::ast::Tok;

verus! {

pub open spec fn is_ws(c: char) -> bool {
    c == ' ' || c == '\t' || c == '\r' || c == '\n'
}

pub open spec fn is_digit(c: char) -> bool {
    '0' <= c <= '9'
}

pub open spec fn is_alpha(c: char) -> bool {
    ('a' <= c <= 'z') || ('A' <= c <= 'Z') || c == '_'
}

pub open spec fn is_ident_char(c: char) -> bool {
    is_alpha(c) || is_digit(c)
}

/// The numeric value of a decimal digit character.
pub open spec fn digit_val(c: char) -> nat {
    (c as u32 - 48) as nat
}

/// Increments a line counter without wrapping.
pub open spec fn sat_inc(line: u64) -> u64 {
    if line < u64::MAX {
        (line + 1) as u64
    } else {
        line
    }
}

/// The position and line after skipping whitespace from `i`.
pub open spec fn skip_ws(s: Seq<char>, i: int, line: u64) -> (int, u64)
    decreases s.len() - i,
{
    if 0 <= i < s.len() && is_ws(s[i]) {
        skip_ws(s, i + 1, if s[i] == '\n' { sat_inc(line) } else { line })
    } else {
        (i, line)
    }
}

pub proof fn lemma_skip_ws_bounds(s: Seq<char>, i: int, line: u64)
    requires
        0 <= i <= s.len(),
    ensures
        i <= skip_ws(s, i, line).0 <= s.len(),
    decreases s.len() - i,
{
    if i < s.len() && is_ws(s[i]) {
        lemma_skip_ws_bounds(s, i + 1, if s[i] == '\n' { sat_inc(line) } else { line });
    }
}

/// The end of the run of identifier characters starting at `i`.
pub open spec fn ident_end(s: Seq<char>, i: int) -> int
    decreases s.len() - i,
{
    if 0 <= i < s.len() && is_ident_char(s[i]) {
        ident_end(s, i + 1)
    } else {
        i
    }
}

pub proof fn lemma_ident_end_bounds(s: Seq<char>, i: int)
    requires
        0 <= i <= s.len(),
    ensures
        i <= ident_end(s, i) <= s.len(),
    decreases s.len() - i,
{
    if i < s.len() && is_ident_char(s[i]) {
        lemma_ident_end_bounds(s, i + 1);
    }
}

/// The end of the run of decimal digits starting at `i`.
pub open spec fn digits_end(s: Seq<char>, i: int) -> int
    decreases s.len() - i,
{
    if 0 <= i < s.len() && is_digit(s[i]) {
        digits_end(s, i + 1)
    } else {
        i
    }
}

pub proof fn lemma_digits_end_bounds(s: Seq<char>, i: int)
    requires
        0 <= i <= s.len(),
    ensures
        i <= digits_end(s, i) <= s.len(),
    decreases s.len() - i,
{
    if i < s.len() && is_digit(s[i]) {
        lemma_digits_end_bounds(s, i + 1);
    }
}

/// Every character of a digit run is a digit.
pub proof fn lemma_digits_run(s: Seq<char>, i: int)
    requires
        0 <= i <= s.len(),
    ensures
        forall|k: int| i <= k < digits_end(s, i) ==> is_digit(#[trigger] s[k]),
    decreases s.len() - i,
{
    if i < s.len() && is_digit(s[i]) {
        lemma_digits_run(s, i + 1);
    }
}

/// The value of the digit run `s[i..j]`, read left to right.
pub open spec fn digits_val(s: Seq<char>, i: int, j: int) -> nat
    decreases j - i,
{
    if j <= i {
        0
    } else {
        digits_val(s, i, j - 1) * 10 + digit_val(s[j - 1])
    }
}

pub open spec fn pow10(n: nat) -> nat
    decreases n,
{
    if n == 0 {
        1nat
    } else {
        10 * pow10((n - 1) as nat)
    }
}

pub proof fn lemma_pow10_at_18()
    ensures
        pow10(18) == 1_000_000_000_000_000_000,
{
    reveal_with_fuel(pow10, 19);
}

/// A digit run of k digits denotes a value below 10^k.
pub proof fn lemma_digits_val_bound(s: Seq<char>, i: int, j: int)
    requires
        i <= j,
        forall|k: int| i <= k < j ==> is_digit(#[trigger] s[k]),
    ensures
        digits_val(s, i, j) < pow10((j - i) as nat),
    decreases j - i,
{
    if j > i {
        lemma_digits_val_bound(s, i, j - 1);
        assert(digit_val(s[j - 1]) <= 9);
        assert(digits_val(s, i, j - 1) * 10 + 9 < pow10((j - i - 1) as nat) * 10) by (nonlinear_arith)
            requires
                digits_val(s, i, j - 1) < pow10((j - i - 1) as nat),
        ;
    }
}

pub proof fn lemma_pow10_mono(a: nat, b: nat)
    requires
        a <= b,
    ensures
        pow10(a) <= pow10(b),
    decreases b,
{
    if a < b {
        lemma_pow10_mono(a, (b - 1) as nat);
        assert(pow10(b) == 10 * pow10((b - 1) as nat));
    }
}

pub open spec fn kw_let() -> Seq<char> {
    seq!['l', 'e', 't']
}

pub open spec fn kw_true() -> Seq<char> {
    seq!['t', 'r', 'u', 'e']
}

pub open spec fn kw_false() -> Seq<char> {
    seq!['f', 'a', 'l', 's', 'e']
}

/// One step of lexing: the next token after position `i0`, or the end of the
/// input, or a failure (an unknown character or an oversized number literal)
/// with the line it stands on.
pub enum LexStep {
    Done,
    Found { t: Tok, i2: int, line2: u64 },
    Fail { line: u64 },
}

/// The outcome of lexing a whole suffix of the source.
pub enum LexOut {
    Toks(Seq<Tok>),
    Fail { line: u64 },
}

/// The next token of `s` at or after `i0`, skipping whitespace.
pub open spec fn next_token(s: Seq<char>, i0: int, line0: u64) -> LexStep {
    let (i, line) = skip_ws(s, i0, line0);
    if i >= s.len() {
        LexStep::Done
    } else {
        let c = s[i];
        if is_digit(c) {
            let j = digits_end(s, i);
            if j - i > 18 {
                LexStep::Fail { line }
            } else {
                LexStep::Found {
                    t: Tok::Num { val: digits_val(s, i, j) as i64, line },
                    i2: j,
                    line2: line,
                }
            }
        } else if is_alpha(c) {
            let j = ident_end(s, i);
            let name = s.subrange(i, j);
            if name == kw_let() {
                LexStep::Found { t: Tok::KwLet { line }, i2: j, line2: line }
            } else if name == kw_true() {
                LexStep::Found { t: Tok::KwTrue { line }, i2: j, line2: line }
            } else if name == kw_false() {
                LexStep::Found { t: Tok::KwFalse { line }, i2: j, line2: line }
            } else {
                LexStep::Found {
                    t: Tok::Ident { lo: i as usize, len: (j - i) as usize, line },
                    i2: j,
                    line2: line,
                }
            }
        } else if c == '+' {
            LexStep::Found { t: Tok::Plus { line }, i2: i + 1, line2: line }
        } else if c == '-' {
            LexStep::Found { t: Tok::Minus { line }, i2: i + 1, line2: line }
        } else if c == '*' {
            LexStep::Found { t: Tok::Star { line }, i2: i + 1, line2: line }
        } else if c == '/' {
            LexStep::Found { t: Tok::Slash { line }, i2: i + 1, line2: line }
        } else if c == '(' {
            LexStep::Found { t: Tok::LParen { line }, i2: i + 1, line2: line }
        } else if c == ')' {
            LexStep::Found { t: Tok::RParen { line }, i2: i + 1, line2: line }
        } else if c == '=' {
            LexStep::Found { t: Tok::Assign { line }, i2: i + 1, line2: line }
        } else if c == ';' {
            LexStep::Found { t: Tok::Semi { line }, i2: i + 1, line2: line }
        } else {
            LexStep::Fail { line }
        }
    }
}

/// A found token starts at or after the scan position and ends beyond it.
pub proof fn lemma_next_token_advances(s: Seq<char>, i0: int, line0: u64)
    requires
        0 <= i0 <= s.len(),
    ensures
        next_token(s, i0, line0) matches LexStep::Found { t, i2, line2 } ==> i0 < i2 <= s.len(),
{
    lemma_skip_ws_bounds(s, i0, line0);
    let (i, line) = skip_ws(s, i0, line0);
    if i < s.len() {
        let c = s[i];
        if is_digit(c) {
            lemma_digits_end_bounds(s, i + 1);
            assert(digits_end(s, i) == digits_end(s, i + 1));
        } else if is_alpha(c) {
            lemma_ident_end_bounds(s, i + 1);
            assert(ident_end(s, i) == ident_end(s, i + 1));
        }
    }
}

/// The tokens of the suffix of `s` starting at `i0` (after whitespace), or
/// the line of the first failure.
pub open spec fn spec_lex(s: Seq<char>, i0: int, line0: u64) -> LexOut
    recommends
        0 <= i0 <= s.len(),
    decreases s.len() - i0,
    when 0 <= i0 <= s.len()
    via spec_lex_decreases
{
    match next_token(s, i0, line0) {
        LexStep::Done => LexOut::Toks(Seq::empty()),
        LexStep::Fail { line } => LexOut::Fail { line },
        LexStep::Found { t, i2, line2 } => match spec_lex(s, i2, line2) {
            LexOut::Toks(rest) => LexOut::Toks(seq![t] + rest),
            LexOut::Fail { line } => LexOut::Fail { line },
        },
    }
}

#[via_fn]
proof fn spec_lex_decreases(s: Seq<char>, i0: int, line0: u64) {
    lemma_next_token_advances(s, i0, line0);
}

/// Scans past whitespace; returns the next position and its line.
fn scan_ws(src: &Vec<char>, i: usize, line: u64) -> (r: (usize, u64))
    requires
        i <= src.len(),
    ensures
        (r.0 as int, r.1) == skip_ws(src@, i as int, line),
        i <= r.0 <= src.len(),
{
    let mut j: usize = i;
    let mut l: u64 = line;
    while j < src.len() && (src[j] == ' ' || src[j] == '\t' || src[j] == '\r' || src[j] == '\n')
        invariant
            i <= j <= src.len(),
            skip_ws(src@, i as int, line) == skip_ws(src@, j as int, l),
        decreases src.len() - j,
    {
        if src[j] == '\n' {
            if l < u64::MAX {
                l = l + 1;
            }
        }
        j = j + 1;
    }
    proof {
        assert(skip_ws(src@, j as int, l) == (j as int, l));
    }
    (j, l)
}

/// Scans to the end of an identifier-character run.
fn scan_ident_end(src: &Vec<char>, i: usize) -> (j: usize)
    requires
        i <= src.len(),
    ensures
        j as int == ident_end(src@, i as int),
        i <= j <= src.len(),
{
    let mut j: usize = i;
    while j < src.len() && (('a' <= src[j] && src[j] <= 'z') || ('A' <= src[j] && src[j] <= 'Z')
        || src[j] == '_' || ('0' <= src[j] && src[j] <= '9'))
        invariant
            i <= j <= src.len(),
            ident_end(src@, i as int) == ident_end(src@, j as int),
        decreases src.len() - j,
    {
        proof {
            assert(ident_end(src@, j as int) == ident_end(src@, j + 1));
        }
        j = j + 1;
    }
    proof {
        assert(ident_end(src@, j as int) == j as int);
    }
    j
}

/// Scans to the end of a digit run.
pub fn scan_digits_end(src: &Vec<char>, i: usize) -> (j: usize)
    requires
        i <= src.len(),
    ensures
        j as int == digits_end(src@, i as int),
        i <= j <= src.len(),
{
    let mut j: usize = i;
    while j < src.len() && '0' <= src[j] && src[j] <= '9'
        invariant
            i <= j <= src.len(),
            digits_end(src@, i as int) == digits_end(src@, j as int),
        decreases src.len() - j,
    {
        proof {
            assert(digits_end(src@, j as int) == digits_end(src@, j + 1));
        }
        j = j + 1;
    }
    proof {
        assert(digits_end(src@, j as int) == j as int);
    }
    j
}

/// Reads the value of the digit run `src[i..j]`; the run has at most 18
/// digits, so the value fits an `i64`.
pub fn read_digits(src: &Vec<char>, i: usize, j: usize) -> (val: i64)
    requires
        i <= j <= src.len(),
        j - i <= 18,
        forall|k: int| i <= k < j ==> is_digit(#[trigger] src@[k]),
    ensures
        val == digits_val(src@, i as int, j as int) as i64,
{
    let mut acc: u64 = 0;
    let mut k: usize = i;
    while k < j
        invariant
            i <= k <= j <= src.len(),
            j - i <= 18,
            forall|m: int| i <= m < j ==> is_digit(#[trigger] src@[m]),
            acc == digits_val(src@, i as int, k as int),
            acc < pow10((k - i) as nat),
        decreases j - k,
    {
        let c = src[k];
        let d: u64 = (c as u32 - 48) as u64;
        proof {
            assert(is_digit(src@[k as int]));
            assert(d == digit_val(src@[k as int]));
            lemma_pow10_mono(((k - i) + 1) as nat, 18nat);
            lemma_pow10_at_18();
            assert(acc * 10 + d < pow10((k - i + 1) as nat)) by (nonlinear_arith)
                requires
                    acc < pow10((k - i) as nat),
                    d <= 9,
                    pow10((k - i + 1) as nat) == 10 * pow10((k - i) as nat),
            ;
        }
        acc = acc * 10 + d;
        k = k + 1;
    }
    proof {
        lemma_pow10_mono((j - i) as nat, 18nat);
        lemma_pow10_at_18();
    }
    acc as i64
}

/// Lexes the suffix of `src` from `i`, appending the tokens to `out`.
fn lex_from(src: &Vec<char>, i: usize, line: u64, out: &mut Vec<Tok>) -> (r: Result<(), u64>)
    requires
        i <= src.len(),
    ensures
        r matches Ok(()) ==> spec_lex(src@, i as int, line) matches LexOut::Toks(ts) && final(out)@
            == old(out)@ + ts,
        r matches Err(l) ==> spec_lex(src@, i as int, line) == (LexOut::Fail { line: l }),
    decreases src.len() - i,
{
    let (p, l) = scan_ws(src, i, line);
    if p >= src.len() {
        assert(next_token(src@, i as int, line) is Done);
        assert(final(out)@ =~= old(out)@ + Seq::<Tok>::empty());
        return Ok(());
    }
    let c = src[p];
    let step: Result<(Tok, usize), u64> = if '0' <= c && c <= '9' {
        let j = scan_digits_end(src, p);
        if j - p > 18 {
            Err(l)
        } else {
            proof {
                lemma_digits_run(src@, p as int);
            }
            let val = read_digits(src, p, j);
            Ok((Tok::Num { val, line: l }, j))
        }
    } else if ('a' <= c && c <= 'z') || ('A' <= c && c <= 'Z') || c == '_' {
        let j = scan_ident_end(src, p);
        let ghost name = src@.subrange(p as int, j as int);
        if j - p == 3 && src[p] == 'l' && src[p + 1] == 'e' && src[p + 2] == 't' {
            proof {
                assert(name =~= kw_let());
            }
            Ok((Tok::KwLet { line: l }, j))
        } else if j - p == 4 && src[p] == 't' && src[p + 1] == 'r' && src[p + 2] == 'u' && src[p
            + 3] == 'e' {
            proof {
                assert(name =~= kw_true());
                assert(name != kw_let());
            }
            Ok((Tok::KwTrue { line: l }, j))
        } else if j - p == 5 && src[p] == 'f' && src[p + 1] == 'a' && src[p + 2] == 'l' && src[p
            + 3] == 's' && src[p + 4] == 'e' {
            proof {
                assert(name =~= kw_false());
                assert(name != kw_let());
                assert(name != kw_true());
            }
            Ok((Tok::KwFalse { line: l }, j))
        } else {
            proof {
                lemma_keyword_mismatch(src@, p as int, j as int);
            }
            Ok((Tok::Ident { lo: p, len: j - p, line: l }, j))
        }
    } else if c == '+' {
        Ok((Tok::Plus { line: l }, p + 1))
    } else if c == '-' {
        Ok((Tok::Minus { line: l }, p + 1))
    } else if c == '*' {
        Ok((Tok::Star { line: l }, p + 1))
    } else if c == '/' {
        Ok((Tok::Slash { line: l }, p + 1))
    } else if c == '(' {
        Ok((Tok::LParen { line: l }, p + 1))
    } else if c == ')' {
        Ok((Tok::RParen { line: l }, p + 1))
    } else if c == '=' {
        Ok((Tok::Assign { line: l }, p + 1))
    } else if c == ';' {
        Ok((Tok::Semi { line: l }, p + 1))
    } else {
        Err(l)
    };
    match step {
        Err(e) => {
            assert(next_token(src@, i as int, line) matches LexStep::Fail { line: fl } && fl == e);
            Err(e)
        },
        Ok((t, i2)) => {
            proof {
                lemma_next_token_advances(src@, i as int, line);
                assert(next_token(src@, i as int, line) == (LexStep::Found {
                    t,
                    i2: i2 as int,
                    line2: l,
                }));
            }
            out.push(t);
            let ghost mid = out@;
            let rec = lex_from(src, i2, l, out);
            match rec {
                Ok(()) => {
                    proof {
                        let ts_rest = choose|ts: Seq<Tok>|
                            spec_lex(src@, i2 as int, l) == LexOut::Toks(ts);
                        assert(spec_lex(src@, i2 as int, l) matches LexOut::Toks(ts) ==> out@
                            =~= old(out)@ + (seq![t] + ts));
                    }
                    Ok(())
                },
                Err(e) => Err(e),
            }
        },
    }
}

/// If an identifier span is none of the keywords by direct character
/// comparison, its character sequence differs from each keyword sequence.
proof fn lemma_keyword_mismatch(s: Seq<char>, p: int, j: int)
    requires
        0 <= p <= j <= s.len(),
        !(j - p == 3 && s[p] == 'l' && s[p + 1] == 'e' && s[p + 2] == 't'),
        !(j - p == 4 && s[p] == 't' && s[p + 1] == 'r' && s[p + 2] == 'u' && s[p + 3] == 'e'),
        !(j - p == 5 && s[p] == 'f' && s[p + 1] == 'a' && s[p + 2] == 'l' && s[p + 3] == 's' && s[p
            + 4] == 'e'),
    ensures
        s.subrange(p, j) != kw_let(),
        s.subrange(p, j) != kw_true(),
        s.subrange(p, j) != kw_false(),
{
    let name = s.subrange(p, j);
    assert(name.len() == j - p);
    if name == kw_let() {
        assert(name[0] == 'l' && name[1] == 'e' && name[2] == 't');
        assert(s[p] == 'l' && s[p + 1] == 'e' && s[p + 2] == 't');
    }
    if name == kw_true() {
        assert(name[0] == 't' && name[1] == 'r' && name[2] == 'u' && name[3] == 'e');
        assert(s[p] == 't' && s[p + 1] == 'r' && s[p + 2] == 'u' && s[p + 3] == 'e');
    }
    if name == kw_false() {
        assert(name[0] == 'f' && name[1] == 'a' && name[2] == 'l' && name[3] == 's' && name[4]
            == 'e');
        assert(s[p] == 'f' && s[p + 1] == 'a' && s[p + 2] == 'l' && s[p + 3] == 's' && s[p + 4]
            == 'e');
    }
}

/// Collects the characters of a string, so that later stages can index them.
pub fn chars_vec(s: &str) -> (v: Vec<char>)
    ensures
        v@ == s@,
{
    broadcast use vstd::string::axiom_spec_iter;

    let mut v: Vec<char> = Vec::new();
    for c in it: s.chars()
        invariant
            it.seq() == s@,
            v@ == it.seq().take(it.index() as int),
    {
        v.push(c);
        proof {
            assert(v@ =~= it.seq().take(it.index() as int + 1));
        }
    }
    proof {
        assert(v@ =~= s@);
    }
    v
}

/// Tokenizes a whole source text. On failure, returns the line of the first
/// unknown character or oversized number literal.
pub fn tokenize(src: &Vec<char>) -> (r: Result<Vec<Tok>, u64>)
    ensures
        r matches Ok(toks) ==> spec_lex(src@, 0, 1) == LexOut::Toks(toks@),
        r matches Err(l) ==> spec_lex(src@, 0, 1) == (LexOut::Fail { line: l }),
{
    let mut out: Vec<Tok> = Vec::new();
    match lex_from(src, 0, 1, &mut out) {
        Ok(()) => {
            proof {
                let ts = choose|ts: Seq<Tok>| spec_lex(src@, 0, 1) == LexOut::Toks(ts);
                assert(out@ =~= ts);
            }
            Ok(out)
        },
        Err(l) => Err(l),
    }
}

} // verus!
