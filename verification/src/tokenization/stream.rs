//! The lazy token stream: a character scanner specified step by step, and a
//! one-token-lookahead stream over it.

use super::GhostToken;
use super::Token;
use crate::error::tokenization_error::TokenizationError;
use crate::error::tokenization_error::UnexpectedTokenError;
use crate::error::tokenization_error::UnknownTokenError;
use crate::operator::comp_op::CompOperator;
use crate::operator::spec_is_op_char;
use crate::operator::spec_op_token_of;
use crate::operator::OpToken;
use crate::rational::rat_clip;
use crate::rational::Rat;
use crate::rational::Rational;
use crate::rational::RAT_BOUND;
use crate::tokenization::flags::spec_has_set;
use crate::tokenization::flags::TokenFlags;
use crate::tokenization::spec_token_type;
use vstd::prelude::*;
use vstd::string::StrSliceExecFns;

verus! {

/// An ASCII decimal digit.
pub open spec fn is_digit(c: char) -> bool {
    48 <= (c as u32) <= 57
}

/// The value of one decimal digit.
pub open spec fn digit_of(c: char) -> int {
    (c as u32) - 48
}

/// A Unicode whitespace character, the set `char::is_whitespace` accepts.
pub open spec fn is_ws(c: char) -> bool {
    ||| 9 <= (c as u32) <= 13
    ||| (c as u32) == 32
    ||| (c as u32) == 0x85
    ||| (c as u32) == 0xA0
    ||| (c as u32) == 0x1680
    ||| 0x2000 <= (c as u32) <= 0x200A
    ||| (c as u32) == 0x2028
    ||| (c as u32) == 0x2029
    ||| (c as u32) == 0x202F
    ||| (c as u32) == 0x205F
    ||| (c as u32) == 0x3000
}

/// A character that can open a comparison operator.
pub open spec fn is_comp_start(c: char) -> bool {
    c == '=' || c == '!' || c == '<' || c == '>'
}

/// The comparison operator written as the given character followed by `=`.
pub open spec fn spec_comp2_of(c: char) -> CompOperator {
    if c == '=' {
        CompOperator::Equals
    } else if c == '!' {
        CompOperator::NotEquals
    } else if c == '>' {
        CompOperator::GreaterOrEqual
    } else {
        CompOperator::LessOrEqual
    }
}

/// The first position at or after `i` holding no digit.
pub open spec fn digit_run_end(s: Seq<char>, i: int) -> int
    decreases s.len() - i,
{
    if i < s.len() && is_digit(s[i]) {
        digit_run_end(s, i + 1)
    } else {
        i
    }
}

/// The value of the digits `s[i..j)` read as a decimal number.
pub open spec fn digits_val(s: Seq<char>, i: int, j: int) -> int
    decreases j - i,
{
    if j <= i {
        0
    } else {
        digits_val(s, i, j - 1) * 10 + digit_of(s[j - 1])
    }
}

pub open spec fn pow10(k: nat) -> int
    decreases k,
{
    if k == 0 {
        1
    } else {
        10 * pow10((k - 1) as nat)
    }
}

/// Whether the number starting at `i` carries a fraction part: a dot
/// directly after the integer digits, itself followed by a digit.
pub open spec fn has_fraction(s: Seq<char>, i: int) -> bool {
    let j = digit_run_end(s, i);
    j < s.len() && s[j] == '.' && j + 1 < s.len() && is_digit(s[j + 1])
}

/// Where the number starting at `i` ends: after its integer digits, and
/// after its fraction digits when it has any.
pub open spec fn literal_end(s: Seq<char>, i: int) -> int {
    if has_fraction(s, i) {
        digit_run_end(s, digit_run_end(s, i) + 1)
    } else {
        digit_run_end(s, i)
    }
}

/// How many fraction digits contribute to the value: at most eighteen, so
/// the denominator stays within the representation bound; further digits are
/// consumed but read as zero contribution.
pub open spec fn fraction_kept(s: Seq<char>, i: int) -> int {
    let fs = digit_run_end(s, i) + 1;
    let fe = digit_run_end(s, fs);
    if fe - fs > 18 {
        18
    } else {
        fe - fs
    }
}

/// The rational value of the number literal starting at `i`: its decimal
/// value, exact up to eighteen fraction digits, clipped into the
/// representation.
pub open spec fn literal_rat(s: Seq<char>, i: int) -> Rat {
    let j = digit_run_end(s, i);
    if has_fraction(s, i) {
        let m = fraction_kept(s, i);
        rat_clip(digits_val(s, i, j) * pow10(m as nat) + digits_val(s, j + 1, j + 1 + m), pow10(m as nat))
    } else {
        rat_clip(digits_val(s, i, j), 1)
    }
}

/// One step of the scanner at position `i`: the end of the input, the next
/// token together with the position after it, or the offending character.
/// Categories are decided by the character at the position: digits open a
/// number, the operator symbols an operator, parentheses the delimiters,
/// `= ! < >` a comparison (two-character forms first), and whitespace is
/// skipped.
pub enum ScanStep {
    End,
    Bad { c: char, at: int },
    Tok { token: GhostToken, next: int },
}

pub open spec fn spec_scan(s: Seq<char>, i: int) -> ScanStep
    decreases s.len() - i,
{
    if i >= s.len() {
        ScanStep::End
    } else if is_digit(s[i]) {
        ScanStep::Tok { token: GhostToken::Number(literal_rat(s, i)), next: literal_end(s, i) }
    } else if spec_is_op_char(s[i]) {
        ScanStep::Tok { token: GhostToken::Operator(spec_op_token_of(s[i])), next: i + 1 }
    } else if s[i] == '(' {
        ScanStep::Tok { token: GhostToken::OpenDelimiter, next: i + 1 }
    } else if s[i] == ')' {
        ScanStep::Tok { token: GhostToken::CloseDelimiter, next: i + 1 }
    } else if is_comp_start(s[i]) {
        if i + 1 < s.len() && s[i + 1] == '=' {
            ScanStep::Tok {
                token: GhostToken::ComparisonOperator(spec_comp2_of(s[i])),
                next: i + 2,
            }
        } else if s[i] == '>' {
            ScanStep::Tok {
                token: GhostToken::ComparisonOperator(CompOperator::GreaterThan),
                next: i + 1,
            }
        } else if s[i] == '<' {
            ScanStep::Tok {
                token: GhostToken::ComparisonOperator(CompOperator::LessThan),
                next: i + 1,
            }
        } else {
            ScanStep::Bad { c: s[i], at: i }
        }
    } else if is_ws(s[i]) {
        spec_scan(s, i + 1)
    } else {
        ScanStep::Bad { c: s[i], at: i }
    }
}

/// A digit run's end lies between its start and the end of the input.
pub proof fn lemma_digit_run_bounds(s: Seq<char>, i: int)
    requires
        0 <= i <= s.len(),
    ensures
        i <= digit_run_end(s, i) <= s.len(),
    decreases s.len() - i,
{
    if i < s.len() && is_digit(s[i]) {
        lemma_digit_run_bounds(s, i + 1);
    }
}

/// What a scan step can say about its positions: a token starts after `i`
/// and ends within the input, an offending character stands within it.
pub proof fn lemma_scan_bounds(s: Seq<char>, i: int)
    requires
        0 <= i <= s.len(),
    ensures
        spec_scan(s, i) matches ScanStep::Tok { token: _, next } ==> i < next <= s.len(),
        spec_scan(s, i) matches ScanStep::Bad { c, at } ==> i <= at < s.len() && c == s[at],
    decreases s.len() - i,
{
    if i < s.len() {
        if is_digit(s[i]) {
            lemma_digit_run_bounds(s, i + 1);
            let j = digit_run_end(s, i);
            assert(j == digit_run_end(s, i + 1));
            if has_fraction(s, i) {
                lemma_digit_run_bounds(s, j + 1);
            }
        } else if is_ws(s[i]) {
            lemma_scan_bounds(s, i + 1);
        }
    }
}

/// Every character of a digit run is a digit.
proof fn lemma_digit_run_digits(s: Seq<char>, i: int)
    ensures
        forall|k: int| i <= k < digit_run_end(s, i) ==> is_digit(#[trigger] s[k]),
    decreases s.len() - i,
{
    if i < s.len() && is_digit(s[i]) {
        lemma_digit_run_digits(s, i + 1);
    }
}

/// Digit values grow with every further digit; past the bound they stay past
/// it.
proof fn lemma_digits_step_monotone(v: int, d: int)
    by (nonlinear_arith)
    requires
        0 <= d,
    ensures
        v > RAT_BOUND ==> v * 10 + d > RAT_BOUND,
        v >= 0 ==> v * 10 + d >= v,
{
}

/// Characterises `digit_run_end` from the shape of the input: digits up to
/// `j`, then a non-digit or the end.
proof fn lemma_digit_run_at(s: Seq<char>, i: int, j: int)
    requires
        0 <= i <= j <= s.len(),
        forall|k: int| i <= k < j ==> is_digit(#[trigger] s[k]),
        j == s.len() || !is_digit(s[j]),
    ensures
        digit_run_end(s, i) == j,
    decreases j - i,
{
    if i < j {
        lemma_digit_run_at(s, i + 1, j);
    }
}

/// The integer part of an exact mixed fraction: dividing `a * d + r` by `d`
/// gives back `a` while `0 <= r < d`.
proof fn lemma_mixed_div(a: int, r: int, d: int)
    by (nonlinear_arith)
    requires
        0 <= a,
        0 <= r < d,
    ensures
        (a * d + r) / d == a,
{
}

/// The lazy scanner over the input text: a cursor that advances as tokens
/// are read out.
pub struct BackingTokenStream<'a> {
    text: &'a str,
    cursor: usize,
}

impl<'a> BackingTokenStream<'a> {
    /// The text being scanned.
    pub closed spec fn spec_text(self) -> Seq<char> {
        self.text@
    }

    /// The position the scanner stands at.
    pub closed spec fn spec_cursor(self) -> int {
        self.cursor as int
    }

    /// The cursor never leaves the text.
    pub open spec fn wf(self) -> bool {
        0 <= self.spec_cursor() <= self.spec_text().len()
    }

    /// A scanner at the start of the text.
    pub fn new(text: &'a str) -> (r: BackingTokenStream<'a>)
        ensures
            r.spec_text() == text@,
            r.spec_cursor() == 0,
            r.wf(),
    {
        BackingTokenStream { text, cursor: 0 }
    }

    /// Whether the cursor stands on a whitespace character.
    fn at_ws(&self) -> (r: bool)
        requires
            self.wf(),
        ensures
            r == (self.spec_cursor() < self.spec_text().len() && is_ws(
                self.spec_text()[self.spec_cursor()],
            )),
    {
        if self.cursor < self.text.unicode_len() {
            is_ws_exec(self.text.get_char(self.cursor))
        } else {
            false
        }
    }

    /// Whether the cursor stands on a digit.
    fn at_digit(&self) -> (r: bool)
        requires
            self.wf(),
        ensures
            r == (self.spec_cursor() < self.spec_text().len() && is_digit(
                self.spec_text()[self.spec_cursor()],
            )),
    {
        if self.cursor < self.text.unicode_len() {
            is_digit_exec(self.text.get_char(self.cursor))
        } else {
            false
        }
    }

    /// Reads the next token, skipping whitespace before it: `None` at the
    /// end of the input, the token, or the unknown-character error the
    /// scanner stopped at (on which the cursor does not advance further, so
    /// the same error is reported again).
    pub fn next(&mut self) -> (r: Option<Result<Token, TokenizationError>>)
        requires
            old(self).wf(),
        ensures
            final(self).wf(),
            final(self).spec_text() == old(self).spec_text(),
            old(self).spec_cursor() <= final(self).spec_cursor(),
            match spec_scan(old(self).spec_text(), old(self).spec_cursor()) {
                ScanStep::End => r is None && final(self).spec_cursor()
                    == final(self).spec_text().len(),
                ScanStep::Bad { c, at } => r == Some(
                    Result::<Token, TokenizationError>::Err(
                        TokenizationError::UnknownToken(
                            UnknownTokenError { unknown_char: c, index: at as usize },
                        ),
                    ),
                ) && final(self).spec_cursor() == at,
                ScanStep::Tok { token, next } => (r matches Some(item) && item matches Ok(t)
                    && t@ == token) && final(self).spec_cursor() == next,
            },
    {
        let ghost s = self.text@;
        let ghost c0 = self.cursor as int;
        let len = self.text.unicode_len();
        while self.at_ws()
            invariant
                self.text@ == s,
                len == s.len(),
                0 <= self.cursor <= len,
                spec_scan(s, self.cursor as int) == spec_scan(s, c0),
                c0 <= self.cursor as int,
            decreases len - self.cursor,
        {
            self.cursor = self.cursor + 1;
        }
        if self.cursor >= len {
            return None;
        }
        proof {
            lemma_scan_bounds(s, self.cursor as int);
        }
        let c = self.text.get_char(self.cursor);
        if is_digit_exec(c) {
            let token = self.scan_number();
            Some(Ok(token))
        } else if is_op_char_exec(c) {
            self.cursor = self.cursor + 1;
            Some(Ok(Token::Operator(op_of_exec(c))))
        } else if c == '(' {
            self.cursor = self.cursor + 1;
            Some(Ok(Token::OpenDelimiter))
        } else if c == ')' {
            self.cursor = self.cursor + 1;
            Some(Ok(Token::CloseDelimiter))
        } else if c == '=' || c == '!' || c == '<' || c == '>' {
            if self.cursor + 1 < len && self.text.get_char(self.cursor + 1) == '=' {
                let op = if c == '=' {
                    CompOperator::Equals
                } else if c == '!' {
                    CompOperator::NotEquals
                } else if c == '>' {
                    CompOperator::GreaterOrEqual
                } else {
                    CompOperator::LessOrEqual
                };
                self.cursor = self.cursor + 2;
                Some(Ok(Token::ComparisonOperator(op)))
            } else if c == '>' {
                self.cursor = self.cursor + 1;
                Some(Ok(Token::ComparisonOperator(CompOperator::GreaterThan)))
            } else if c == '<' {
                self.cursor = self.cursor + 1;
                Some(Ok(Token::ComparisonOperator(CompOperator::LessThan)))
            } else {
                Some(
                    Err(
                        TokenizationError::UnknownToken(
                            UnknownTokenError { unknown_char: c, index: self.cursor },
                        ),
                    ),
                )
            }
        } else {
            Some(
                Err(
                    TokenizationError::UnknownToken(
                        UnknownTokenError { unknown_char: c, index: self.cursor },
                    ),
                ),
            )
        }
    }

    /// Reads the number literal the cursor stands on and leaves the cursor
    /// after it.
    fn scan_number(&mut self) -> (r: Token)
        requires
            old(self).wf(),
            old(self).spec_cursor() < old(self).spec_text().len(),
            is_digit(old(self).spec_text()[old(self).spec_cursor()]),
        ensures
            final(self).wf(),
            final(self).spec_text() == old(self).spec_text(),
            final(self).spec_cursor() == literal_end(old(self).spec_text(), old(self).spec_cursor()),
            r matches Token::Number(v) && v@ == literal_rat(
                old(self).spec_text(),
                old(self).spec_cursor(),
            ),
    {
        let ghost s = self.text@;
        let ghost start = self.cursor as int;
        let len = self.text.unicode_len();
        let (int_val, int_sat) = self.scan_digit_run();
        let ghost j = self.cursor as int;
        proof {
            lemma_digit_run_bounds(s, start);
        }
        let with_fraction = self.cursor < len && {
            let dot = self.text.get_char(self.cursor);
            dot == '.' && self.cursor + 1 < len && is_digit_exec(self.text.get_char(self.cursor + 1))
        };
        if with_fraction {
            self.cursor = self.cursor + 1;
            let (frac_val, kept, p) = self.scan_fraction_run();
            proof {
                lemma_digit_run_bounds(s, j + 1);
            }
            if int_sat {
                proof {
                    let m = fraction_kept(s, start);
                    lemma_digit_run_digits(s, start);
                    lemma_digits_val_nonneg(s, start, j);
                    lemma_digit_run_digits(s, j + 1);
                    lemma_digits_val_nonneg(s, j + 1, j + 1 + m);
                    lemma_frac_below_pow(s, j + 1, m);
                    lemma_pow10_bounds(m as nat);
                    crate::rational::lemma_mul_ge_self(digits_val(s, start, j), pow10(m as nat));
                    lemma_mixed_div(
                        digits_val(s, start, j),
                        digits_val(s, j + 1, j + 1 + m),
                        pow10(m as nat),
                    );
                }
                Token::Number(rational_saturated())
            } else {
                proof {
                    lemma_pow10_bounds(fraction_kept(s, start) as nat);
                    crate::rational::lemma_mul_bound(
                        int_val as int,
                        p as int,
                        RAT_BOUND as int,
                        1000000000000000000int,
                    );
                    crate::rational::lemma_nonneg_mul(int_val as int, p as int);
                }
                let num = int_val * p + frac_val;
                Token::Number(rational_from_parts(num, p))
            }
        } else {
            if int_sat {
                Token::Number(rational_saturated())
            } else {
                Token::Number(rational_from_parts(int_val, 1))
            }
        }
    }

    /// Reads a run of digits from the cursor, leaving the cursor at its end.
    /// Returns the run's value and whether it exceeded the representation
    /// bound (in which case the value is no longer tracked).
    fn scan_digit_run(&mut self) -> (r: (i128, bool))
        requires
            old(self).wf(),
        ensures
            final(self).wf(),
            final(self).spec_text() == old(self).spec_text(),
            final(self).spec_cursor() == digit_run_end(old(self).spec_text(), old(self).spec_cursor()),
            ({
                let v = digits_val(
                    old(self).spec_text(),
                    old(self).spec_cursor(),
                    final(self).spec_cursor(),
                );
                if r.1 {
                    v > RAT_BOUND
                } else {
                    r.0 == v && 0 <= v <= RAT_BOUND
                }
            }),
    {
        let ghost s = self.text@;
        let ghost start = self.cursor as int;
        let len = self.text.unicode_len();
        let mut value: i128 = 0;
        let mut saturated = false;
        while self.at_digit()
            invariant
                self.text@ == s,
                len == s.len(),
                0 <= start <= self.cursor as int <= len,
                forall|k: int| start <= k < self.cursor as int ==> is_digit(#[trigger] s[k]),
                saturated ==> digits_val(s, start, self.cursor as int) > RAT_BOUND,
                !saturated ==> value == digits_val(s, start, self.cursor as int) && 0 <= value
                    <= RAT_BOUND,
            decreases len - self.cursor,
        {
            let ch = self.text.get_char(self.cursor);
            let d = (ch as u32) - 48;
            proof {
                lemma_digits_step_monotone(digits_val(s, start, self.cursor as int), d as int);
            }
            if !saturated {
                let widened = value * 10 + (d as i128);
                if widened > RAT_BOUND {
                    saturated = true;
                } else {
                    value = widened;
                }
            }
            self.cursor = self.cursor + 1;
        }
        proof {
            lemma_digit_run_at(s, start, self.cursor as int);
        }
        (value, saturated)
    }

    /// Reads the fraction digits from the cursor (which stands right after
    /// the dot), keeping at most eighteen of them, and leaves the cursor at
    /// the run's end.  Returns the kept digits' value, how many were kept,
    /// and ten to that power.
    fn scan_fraction_run(&mut self) -> (r: (i128, usize, i128))
        requires
            old(self).wf(),
        ensures
            final(self).wf(),
            final(self).spec_text() == old(self).spec_text(),
            final(self).spec_cursor() == digit_run_end(old(self).spec_text(), old(self).spec_cursor()),
            ({
                let fs = old(self).spec_cursor();
                let fe = final(self).spec_cursor();
                let m = if fe - fs > 18 {
                    18int
                } else {
                    fe - fs
                };
                r.1 == m && r.0 == digits_val(old(self).spec_text(), fs, fs + m) && r.2 == pow10(
                    m as nat,
                ) && 0 <= r.0 < r.2 <= 1000000000000000000int
            }),
    {
        let ghost s = self.text@;
        let ghost start = self.cursor as int;
        let len = self.text.unicode_len();
        let mut value: i128 = 0;
        let mut kept: usize = 0;
        let mut p: i128 = 1;
        while self.at_digit()
            invariant
                self.text@ == s,
                len == s.len(),
                0 <= start <= self.cursor as int <= len,
                forall|k: int| start <= k < self.cursor as int ==> is_digit(#[trigger] s[k]),
                kept == (if self.cursor as int - start > 18 {
                    18int
                } else {
                    self.cursor as int - start
                }),
                value == digits_val(s, start, start + kept),
                p == pow10(kept as nat),
                0 <= value < p <= 1000000000000000000int,
            decreases len - self.cursor,
        {
            let ch = self.text.get_char(self.cursor);
            if kept < 18 {
                proof {
                    lemma_pow10_bounds(kept as nat);
                }
                let d = (ch as u32) - 48;
                value = value * 10 + (d as i128);
                p = p * 10;
                kept = kept + 1;
            }
            self.cursor = self.cursor + 1;
        }
        proof {
            lemma_digit_run_at(s, start, self.cursor as int);
        }
        (value, kept, p)
    }
}

/// Digit-run values are never negative.
proof fn lemma_digits_val_nonneg(s: Seq<char>, i: int, j: int)
    requires
        forall|k: int| i <= k < j ==> is_digit(#[trigger] s[k]),
    ensures
        digits_val(s, i, j) >= 0,
    decreases j - i,
{
    if j > i {
        lemma_digits_val_nonneg(s, i, j - 1);
        lemma_digits_step_monotone(digits_val(s, i, j - 1), digit_of(s[j - 1]));
    }
}

/// A run of at most `m` digits stays below ten to the `m`.
proof fn lemma_frac_below_pow(s: Seq<char>, i: int, m: int)
    requires
        0 <= m,
        forall|k: int| i <= k < i + m ==> is_digit(#[trigger] s[k]),
    ensures
        digits_val(s, i, i + m) < pow10(m as nat),
    decreases m,
{
    if m > 0 {
        lemma_frac_below_pow(s, i, m - 1);
        assert(digits_val(s, i, i + m) == digits_val(s, i, i + m - 1) * 10 + digit_of(
            s[i + m - 1],
        ));
        assert(digits_val(s, i, i + m - 1) * 10 + digit_of(s[i + m - 1]) < pow10((m - 1) as nat)
            * 10) by (nonlinear_arith)
            requires
                digits_val(s, i, i + m - 1) < pow10((m - 1) as nat) && digit_of(s[i + m - 1]) < 10,
        ;
    }
}

/// Powers of ten grow with the exponent.
proof fn lemma_pow10_mono(k1: nat, k2: nat)
    requires
        k1 <= k2,
    ensures
        1 <= pow10(k1) <= pow10(k2),
    decreases k2,
{
    if k2 > 0 {
        if k1 == k2 {
            lemma_pow10_mono(0, (k2 - 1) as nat);
        } else {
            lemma_pow10_mono(k1, (k2 - 1) as nat);
        }
    }
}

/// The first nineteen powers of ten, written out.
proof fn lemma_pow10_18()
    ensures
        pow10(17) == 100000000000000000int,
        pow10(18) == 1000000000000000000int,
{
    assert(pow10(0) == 1);
    assert(pow10(1) == 10);
    assert(pow10(2) == 100);
    assert(pow10(3) == 1000);
    assert(pow10(4) == 10000);
    assert(pow10(5) == 100000);
    assert(pow10(6) == 1000000);
    assert(pow10(7) == 10000000);
    assert(pow10(8) == 100000000);
    assert(pow10(9) == 1000000000);
    assert(pow10(10) == 10000000000);
    assert(pow10(11) == 100000000000);
    assert(pow10(12) == 1000000000000);
    assert(pow10(13) == 10000000000000);
    assert(pow10(14) == 100000000000000);
    assert(pow10(15) == 1000000000000000);
    assert(pow10(16) == 10000000000000000);
    assert(pow10(17) == 100000000000000000);
    assert(pow10(18) == 1000000000000000000);
}

/// Ten to any power up to eighteen stays within the representation bound.
proof fn lemma_pow10_bounds(k: nat)
    ensures
        1 <= pow10(k),
        k <= 17 ==> pow10(k) <= 100000000000000000int,
        k <= 18 ==> pow10(k) <= 1000000000000000000int,
{
    lemma_pow10_mono(0, k);
    lemma_pow10_18();
    if k <= 17 {
        lemma_pow10_mono(k, 17);
    }
    if k <= 18 {
        lemma_pow10_mono(k, 18);
    }
}

/// The saturated number a literal past every bound becomes.
fn rational_saturated() -> (r: Rational)
    ensures
        r@ == (Rat { num: RAT_BOUND as int, den: 1 }),
{
    let r = Rational::from_frac(i64::MAX, 1);
    r
}

/// A rational from a literal's computed numerator and denominator.
fn rational_from_parts(num: i128, den: i128) -> (r: Rational)
    requires
        0 <= num,
        1 <= den,
    ensures
        r@ == rat_clip(num as int, den as int),
{
    Rational::from_frac_wide(num, den)
}

/// Whether the character is an ASCII decimal digit.
fn is_digit_exec(c: char) -> (r: bool)
    ensures
        r == is_digit(c),
{
    let u = c as u32;
    48 <= u && u <= 57
}

/// Whether the character is Unicode whitespace.
fn is_ws_exec(c: char) -> (r: bool)
    ensures
        r == is_ws(c),
{
    let u = c as u32;
    (9 <= u && u <= 13) || u == 32 || u == 0x85 || u == 0xA0 || u == 0x1680 || (0x2000 <= u && u
        <= 0x200A) || u == 0x2028 || u == 0x2029 || u == 0x202F || u == 0x205F || u == 0x3000
}

/// Whether the character is an operator symbol.
fn is_op_char_exec(c: char) -> (r: bool)
    ensures
        r == spec_is_op_char(c),
{
    c == '+' || c == '-' || c == '*' || c == '/' || c == '%' || c == '^' || c == 'd' || c == 'D'
}

/// The operator token behind a known operator symbol.
fn op_of_exec(c: char) -> (r: OpToken)
    requires
        spec_is_op_char(c),
    ensures
        r == spec_op_token_of(c),
{
    if c == '+' {
        OpToken::Plus
    } else if c == '-' {
        OpToken::Minus
    } else if c == '*' {
        OpToken::Multiply
    } else if c == '/' {
        OpToken::Divide
    } else if c == '%' {
        OpToken::Modulus
    } else if c == '^' {
        OpToken::Power
    } else {
        OpToken::Dice
    }
}

/// What the scanner's step, seen from a stream, hands out next: nothing at
/// the end, the token, or the error.
pub open spec fn step_item(step: ScanStep) -> Option<Result<GhostToken, TokenizationError>> {
    match step {
        ScanStep::End => None,
        ScanStep::Bad { c, at } => Some(
            Err(
                TokenizationError::UnknownToken(
                    UnknownTokenError { unknown_char: c, index: at as usize },
                ),
            ),
        ),
        ScanStep::Tok { token, next } => Some(Ok(token)),
    }
}

/// An owned token-or-error item lifted to the ghost level.
pub open spec fn lift_item(item: Option<Result<Token, TokenizationError>>) -> Option<
    Result<GhostToken, TokenizationError>,
> {
    match item {
        None => None,
        Some(Ok(t)) => Some(Ok(t@)),
        Some(Err(e)) => Some(Err(e)),
    }
}

/// The token stream the parser consumes: the scanner plus one token of
/// lookahead, so the parser can decide on a token without committing to it.
/// A ghost position tracks where in the text the stream's next item begins,
/// so consuming an item pins the whole stream state that follows.
pub struct TokenStream<'a> {
    token_stream: BackingTokenStream<'a>,
    lookahead: Option<Option<Result<Token, TokenizationError>>>,
    start: Ghost<int>,
}

impl<'a> TokenStream<'a> {
    /// The text being tokenized.
    pub closed spec fn spec_text(self) -> Seq<char> {
        self.token_stream.spec_text()
    }

    /// The position in the text at which the stream's next item begins
    /// (whitespace before it included).
    pub closed spec fn spec_pos(self) -> int {
        self.start@
    }

    /// The stream's state is within its text, and whatever the lookahead
    /// caches is exactly what the scanner yields at the stream's position.
    pub closed spec fn wf(self) -> bool {
        &&& self.token_stream.wf()
        &&& 0 <= self.start@ <= self.spec_text().len()
        &&& match self.lookahead {
            None => self.start@ == self.token_stream.spec_cursor(),
            Some(None) => spec_scan(self.spec_text(), self.start@) is End
                && self.token_stream.spec_cursor() == self.spec_text().len(),
            Some(Some(Ok(t))) => spec_scan(self.spec_text(), self.start@) == (ScanStep::Tok {
                token: t@,
                next: self.token_stream.spec_cursor(),
            }),
            Some(Some(Err(e))) => spec_scan(self.spec_text(), self.start@) matches ScanStep::Bad {
                c,
                at,
            } && e == TokenizationError::UnknownToken(
                UnknownTokenError { unknown_char: c, index: at as usize },
            ) && self.token_stream.spec_cursor() == at,
        }
    }

    /// What the stream hands out next: `None` at the end of the input, the
    /// next token, or the tokenization error the scanner stopped at.
    pub open spec fn upcoming(self) -> Option<Result<GhostToken, TokenizationError>> {
        step_item(spec_scan(self.spec_text(), self.spec_pos()))
    }

    /// How much input can still be consumed; every consumed token brings it
    /// down.
    pub closed spec fn fuel(self) -> nat {
        ((if self.token_stream.spec_cursor() <= self.token_stream.spec_text().len() {
            self.token_stream.spec_text().len() - self.token_stream.spec_cursor()
        } else {
            0int
        }) + (match self.lookahead {
            Some(Some(Ok(_))) => 1int,
            _ => 0int,
        })) as nat
    }

    /// A stream over the given text, standing at its start.
    pub fn new(text: &'a str) -> (r: TokenStream<'a>)
        ensures
            r.wf(),
            r.spec_text() == text@,
            r.spec_pos() == 0,
            r.upcoming() == step_item(spec_scan(text@, 0)),
            r.fuel() == text@.len(),
    {
        TokenStream {
            token_stream: BackingTokenStream::new(text),
            lookahead: None,
            start: Ghost(0),
        }
    }

    /// The next item without consuming it: what `next` would return.
    pub fn peek(&mut self) -> (r: Option<Result<Token, TokenizationError>>)
        requires
            old(self).wf(),
        ensures
            final(self).wf(),
            final(self).spec_text() == old(self).spec_text(),
            final(self).spec_pos() == old(self).spec_pos(),
            lift_item(r) == old(self).upcoming(),
            final(self).upcoming() == old(self).upcoming(),
            final(self).fuel() <= old(self).fuel(),
    {
        proof {
            lemma_scan_bounds(self.spec_text(), self.start@);
        }
        if self.lookahead.is_none() {
            let item = self.token_stream.next();
            self.lookahead = Some(item);
        }
        match &self.lookahead {
            Some(item) => clone_item(item),
            None => None,
        }
    }

    /// Consumes and returns the next item, leaving the stream right after
    /// it: after a token the position moves to the token's end, after the
    /// end of input or an unknown character the scanner's verdict stays the
    /// same.
    pub fn next(&mut self) -> (r: Option<Result<Token, TokenizationError>>)
        requires
            old(self).wf(),
        ensures
            final(self).wf(),
            final(self).spec_text() == old(self).spec_text(),
            lift_item(r) == old(self).upcoming(),
            final(self).fuel() <= old(self).fuel(),
            r matches Some(item) && item is Ok ==> final(self).fuel() < old(self).fuel(),
            match spec_scan(old(self).spec_text(), old(self).spec_pos()) {
                ScanStep::End => r is None && spec_scan(
                    final(self).spec_text(),
                    final(self).spec_pos(),
                ) is End,
                ScanStep::Bad { c, at } => spec_scan(final(self).spec_text(), final(self).spec_pos())
                    == spec_scan(old(self).spec_text(), old(self).spec_pos()),
                ScanStep::Tok { token, next } => final(self).spec_pos() == next,
            },
    {
        proof {
            lemma_scan_bounds(self.spec_text(), self.start@);
            lemma_scan_bad_stable(self.spec_text(), self.start@);
        }
        let item = match self.lookahead.take() {
            Some(item) => item,
            None => self.token_stream.next(),
        };
        proof {
            lemma_scan_bad_stable(self.spec_text(), old(self).spec_pos());
        }
        self.start = Ghost(self.token_stream.spec_cursor());
        item
    }

    /// Consumes the next item, requiring it to be a token of one of the
    /// given types: that token on success; the scanner's error, or an
    /// unexpected-token error naming what was found and what was expected,
    /// otherwise.  Whatever the verdict, the consumed token's end becomes
    /// the stream's position.
    pub fn expect(&mut self, token_types: TokenFlags) -> (r: Result<Token, TokenizationError>)
        requires
            old(self).wf(),
        ensures
            final(self).wf(),
            final(self).spec_text() == old(self).spec_text(),
            final(self).fuel() <= old(self).fuel(),
            match old(self).upcoming() {
                None => r == Result::<Token, TokenizationError>::Err(
                    TokenizationError::UnexpectedToken(
                        UnexpectedTokenError { found: None, expected: token_types },
                    ),
                ),
                Some(Err(e)) => r == Result::<Token, TokenizationError>::Err(e),
                Some(Ok(gt)) => final(self).fuel() < old(self).fuel() && (if spec_has_set(
                    token_types,
                    spec_token_type(gt),
                ) {
                    r matches Ok(t) && t@ == gt
                } else {
                    r == Result::<Token, TokenizationError>::Err(
                        TokenizationError::UnexpectedToken(
                            UnexpectedTokenError {
                                found: Some(spec_token_type(gt)),
                                expected: token_types,
                            },
                        ),
                    )
                }),
            },
            match spec_scan(old(self).spec_text(), old(self).spec_pos()) {
                ScanStep::End => spec_scan(final(self).spec_text(), final(self).spec_pos()) is End,
                ScanStep::Bad { c, at } => spec_scan(final(self).spec_text(), final(self).spec_pos())
                    == spec_scan(old(self).spec_text(), old(self).spec_pos()),
                ScanStep::Tok { token, next } => final(self).spec_pos() == next,
            },
    {
        let item = self.next();
        match item {
            None => Err(
                TokenizationError::UnexpectedToken(
                    UnexpectedTokenError { found: None, expected: token_types },
                ),
            ),
            Some(Err(e)) => Err(e),
            Some(Ok(token)) => {
                if token_types.has_set(token.token_type()) {
                    Ok(token)
                } else {
                    Err(
                        TokenizationError::UnexpectedToken(
                            UnexpectedTokenError {
                                found: Some(token.token_type()),
                                expected: token_types,
                            },
                        ),
                    )
                }
            },
        }
    }

    /// Consumes the next item, keeping only whether a tokenization error
    /// stood there.
    pub fn consume(&mut self) -> (r: Result<(), TokenizationError>)
        requires
            old(self).wf(),
        ensures
            final(self).wf(),
            final(self).spec_text() == old(self).spec_text(),
            final(self).fuel() <= old(self).fuel(),
            match old(self).upcoming() {
                None => r is Ok,
                Some(Err(e)) => r == Result::<(), TokenizationError>::Err(e),
                Some(Ok(_)) => r is Ok && final(self).fuel() < old(self).fuel(),
            },
            match spec_scan(old(self).spec_text(), old(self).spec_pos()) {
                ScanStep::End => spec_scan(final(self).spec_text(), final(self).spec_pos()) is End,
                ScanStep::Bad { c, at } => spec_scan(final(self).spec_text(), final(self).spec_pos())
                    == spec_scan(old(self).spec_text(), old(self).spec_pos()),
                ScanStep::Tok { token, next } => final(self).spec_pos() == next,
            },
    {
        let item = self.next();
        match item {
            Some(Err(e)) => Err(e),
            _ => Ok(()),
        }
    }

    /// Consumes the next item, requiring it to be a token of one of the
    /// given types, as [`TokenStream::expect`] does, and drops the token.
    pub fn consume_expecting(&mut self, token_types: TokenFlags) -> (r: Result<
        (),
        TokenizationError,
    >)
        requires
            old(self).wf(),
        ensures
            final(self).wf(),
            final(self).spec_text() == old(self).spec_text(),
            final(self).fuel() <= old(self).fuel(),
            match old(self).upcoming() {
                None => r == Result::<(), TokenizationError>::Err(
                    TokenizationError::UnexpectedToken(
                        UnexpectedTokenError { found: None, expected: token_types },
                    ),
                ),
                Some(Err(e)) => r == Result::<(), TokenizationError>::Err(e),
                Some(Ok(gt)) => final(self).fuel() < old(self).fuel() && (if spec_has_set(
                    token_types,
                    spec_token_type(gt),
                ) {
                    r is Ok
                } else {
                    r == Result::<(), TokenizationError>::Err(
                        TokenizationError::UnexpectedToken(
                            UnexpectedTokenError {
                                found: Some(spec_token_type(gt)),
                                expected: token_types,
                            },
                        ),
                    )
                }),
            },
            match spec_scan(old(self).spec_text(), old(self).spec_pos()) {
                ScanStep::End => spec_scan(final(self).spec_text(), final(self).spec_pos()) is End,
                ScanStep::Bad { c, at } => spec_scan(final(self).spec_text(), final(self).spec_pos())
                    == spec_scan(old(self).spec_text(), old(self).spec_pos()),
                ScanStep::Tok { token, next } => final(self).spec_pos() == next,
            },
    {
        match self.expect(token_types) {
            Ok(_) => Ok(()),
            Err(e) => Err(e),
        }
    }
}

/// An unknown character reports itself again: scanning from the offending
/// position yields the same verdict as scanning from anywhere before it.
pub proof fn lemma_scan_bad_stable(s: Seq<char>, i: int)
    requires
        0 <= i <= s.len(),
    ensures
        spec_scan(s, i) matches ScanStep::Bad { c, at } ==> spec_scan(s, at) == spec_scan(s, i),
    decreases s.len() - i,
{
    if i < s.len() && !is_digit(s[i]) && !spec_is_op_char(s[i]) && s[i] != '(' && s[i] != ')'
        && !is_comp_start(s[i]) && is_ws(s[i]) {
        lemma_scan_bad_stable(s, i + 1);
    }
}

/// A copy of a borrowed stream item.
fn clone_item(item: &Option<Result<Token, TokenizationError>>) -> (r: Option<
    Result<Token, TokenizationError>,
>)
    ensures
        r == *item,
{
    match item {
        None => None,
        Some(Ok(t)) => Some(Ok(*t)),
        Some(Err(e)) => Some(Err(*e)),
    }
}

} // verus!
