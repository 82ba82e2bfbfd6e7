//! The scanner: a cursor over an immutable byte buffer that produces one
//! classified token per call.
//!
//! The language defines no comment syntax, so only whitespace (space, tab,
//! newline) separates tokens.

use vstd::prelude::*;

use crate::error::LexError;
use crate::error::LexErrorKind;
use crate::error::SourcePosition;
use crate::token::Token;
use crate::token::TokenModel;
use crate::token::ascii_str;
use crate::token::word_token;

verus! {

/// The longest identifier the language accepts, in bytes.
pub const MAX_ID_LENGTH: usize = 32;

/// The largest value a number literal may denote (the signed 32-bit maximum).
pub const MAX_NUMBER: u64 = 0x7fff_ffff;

/// Whitespace between tokens: space, tab and newline.
pub open spec fn is_ws(b: u8) -> bool {
    b == ' ' as u8 || b == '\t' as u8 || b == '\n' as u8
}

/// A byte that may continue an identifier: ASCII letter, digit or underscore.
pub open spec fn is_ident_byte(b: u8) -> bool {
    ('a' as u8 <= b && b <= 'z' as u8) || ('A' as u8 <= b && b <= 'Z' as u8) || ('0' as u8 <= b && b <= '9' as u8) || b == '_' as u8
}

/// A byte that may begin an identifier: ASCII letter or underscore.
pub open spec fn is_ident_start(b: u8) -> bool {
    ('a' as u8 <= b && b <= 'z' as u8) || ('A' as u8 <= b && b <= 'Z' as u8) || b == '_' as u8
}

/// An ASCII decimal digit.
pub open spec fn is_digit(b: u8) -> bool {
    '0' as u8 <= b && b <= '9' as u8
}

/// The cursor state of a scanner, as mathematics: the whole buffer, the
/// offset of the next unread byte, and the 1-based position of that byte.
pub ghost struct LexState {
    pub s: Seq<u8>,
    pub pos: int,
    pub line: int,
    pub col: int,
}

/// What one scan step produces: a token, or a typed failure.
pub ghost enum ScanOutcome {
    Tok(TokenModel),
    Fail(LexErrorKind),
}

/// Everything one scan step determines: what came out, the position of the
/// token's (or error's) first character, and the cursor state left behind.
pub ghost struct StepResult {
    pub out: ScanOutcome,
    pub tok_line: int,
    pub tok_col: int,
    pub end: LexState,
}

/// The first offset at or after `i` that does not hold whitespace; the buffer
/// length when whitespace runs to the end.
pub open spec fn ws_end(s: Seq<u8>, i: int) -> int
    decreases s.len() - i,
{
    if i < s.len() && is_ws(s[i]) {
        ws_end(s, i + 1)
    } else {
        i
    }
}

/// The first offset at or after `i` that does not hold an identifier byte.
pub open spec fn ident_end(s: Seq<u8>, i: int) -> int
    decreases s.len() - i,
{
    if i < s.len() && is_ident_byte(s[i]) {
        ident_end(s, i + 1)
    } else {
        i
    }
}

/// The first offset at or after `i` that does not hold a digit.
pub open spec fn digit_end(s: Seq<u8>, i: int) -> int
    decreases s.len() - i,
{
    if i < s.len() && is_digit(s[i]) {
        digit_end(s, i + 1)
    } else {
        i
    }
}

/// The first offset at or after `i` that holds a closing quote or a newline;
/// the buffer length when neither occurs before the end.
pub open spec fn str_close(s: Seq<u8>, i: int) -> int
    decreases s.len() - i,
{
    if i < s.len() && s[i] != '"' as u8 && s[i] != '\n' as u8 {
        str_close(s, i + 1)
    } else {
        i
    }
}

/// How consuming one byte moves the (line, column) coordinates: a newline
/// starts the next line at column 1, any other byte moves one column right.
pub open spec fn pos_step(b: u8, line: int, col: int) -> (int, int) {
    if b == '\n' as u8 {
        (line + 1, 1)
    } else {
        (line, col + 1)
    }
}

/// The (line, column) coordinates after consuming `s[i..j]`, starting
/// from (line, col).
pub open spec fn pos_after(s: Seq<u8>, i: int, j: int, line: int, col: int) -> (int, int)
    decreases j - i,
{
    if i >= j {
        (line, col)
    } else {
        let lc = pos_step(s[i], line, col);
        pos_after(s, i + 1, j, lc.0, lc.1)
    }
}

/// The numeric value the decimal digits `s[i..j]` denote.
pub open spec fn digits_val(s: Seq<u8>, i: int, j: int) -> int
    decreases j - i,
{
    if i >= j {
        0
    } else {
        digits_val(s, i, j - 1) * 10 + (s[j - 1] - '0' as u8)
    }
}

/// The operator or punctuation token that begins at offset `i`, together
/// with how many bytes (1 or 2) it spans.  Maximal munch: every two-byte
/// operator wins over its one-byte prefix whenever the second byte matches.
/// A byte that starts no known token yields `UnknownCharacter`; so does a
/// lone `:`, since only `:=` is in the language.
pub open spec fn symbol_token(s: Seq<u8>, i: int) -> (ScanOutcome, int) {
    let b = s[i];
    let two = i + 1 < s.len();
    if b == '=' as u8 {
        (ScanOutcome::Tok(TokenModel::Equal), 1)
    } else if b == '>' as u8 {
        if two && s[i + 1] == '=' as u8 {
            (ScanOutcome::Tok(TokenModel::GreaterEqual), 2)
        } else {
            (ScanOutcome::Tok(TokenModel::GreaterThan), 1)
        }
    } else if b == '<' as u8 {
        if two && s[i + 1] == '=' as u8 {
            (ScanOutcome::Tok(TokenModel::LessEqual), 2)
        } else if two && s[i + 1] == '>' as u8 {
            (ScanOutcome::Tok(TokenModel::NotEqual), 2)
        } else {
            (ScanOutcome::Tok(TokenModel::LessThan), 1)
        }
    } else if b == ':' as u8 {
        if two && s[i + 1] == '=' as u8 {
            (ScanOutcome::Tok(TokenModel::Gets), 2)
        } else {
            (ScanOutcome::Fail(LexErrorKind::UnknownCharacter(b)), 1)
        }
    } else if b == '-' as u8 {
        (ScanOutcome::Tok(TokenModel::Minus), 1)
    } else if b == '+' as u8 {
        (ScanOutcome::Tok(TokenModel::Plus), 1)
    } else if b == '/' as u8 {
        (ScanOutcome::Tok(TokenModel::Divide), 1)
    } else if b == '*' as u8 {
        (ScanOutcome::Tok(TokenModel::Multiply), 1)
    } else if b == '[' as u8 {
        (ScanOutcome::Tok(TokenModel::OpenBracket), 1)
    } else if b == ']' as u8 {
        (ScanOutcome::Tok(TokenModel::CloseBracket), 1)
    } else if b == '(' as u8 {
        (ScanOutcome::Tok(TokenModel::OpenParenthesis), 1)
    } else if b == ')' as u8 {
        (ScanOutcome::Tok(TokenModel::CloseParenthesis), 1)
    } else if b == ',' as u8 {
        (ScanOutcome::Tok(TokenModel::Comma), 1)
    } else if b == '.' as u8 {
        (ScanOutcome::Tok(TokenModel::Concatenate), 1)
    } else if b == ';' as u8 {
        (ScanOutcome::Tok(TokenModel::Semicolon), 1)
    } else {
        (ScanOutcome::Fail(LexErrorKind::UnknownCharacter(b)), 1)
    }
}

/// One whole scan step from cursor state `st`: skip whitespace, remember the
/// position reached, then classify what begins there.  This is the meaning of
/// `Lexer::get_token`, stated once over the mathematical cursor state.
pub open spec fn step(st: LexState) -> StepResult {
    let i = ws_end(st.s, st.pos);
    let lc = pos_after(st.s, st.pos, i, st.line, st.col);
    let l = lc.0;
    let c = lc.1;
    if i >= st.s.len() {
        StepResult {
            out: ScanOutcome::Tok(TokenModel::Eof),
            tok_line: l,
            tok_col: c,
            end: LexState { s: st.s, pos: i, line: l, col: c },
        }
    } else if is_ident_start(st.s[i]) {
        let j = ident_end(st.s, i);
        let out = if j - i > MAX_ID_LENGTH as int {
            ScanOutcome::Fail(LexErrorKind::IdentifierTooLong)
        } else {
            ScanOutcome::Tok(word_token(st.s.subrange(i, j)))
        };
        StepResult {
            out,
            tok_line: l,
            tok_col: c,
            end: LexState { s: st.s, pos: j, line: l, col: c + (j - i) },
        }
    } else if is_digit(st.s[i]) {
        let j = digit_end(st.s, i);
        let v = digits_val(st.s, i, j);
        let out = if v > MAX_NUMBER as int {
            ScanOutcome::Fail(LexErrorKind::NumberOverflow)
        } else {
            ScanOutcome::Tok(TokenModel::Number(v))
        };
        StepResult {
            out,
            tok_line: l,
            tok_col: c,
            end: LexState { s: st.s, pos: j, line: l, col: c + (j - i) },
        }
    } else if st.s[i] == '"' as u8 {
        let j = str_close(st.s, i + 1);
        if j < st.s.len() && st.s[j] == '"' as u8 {
            StepResult {
                out: ScanOutcome::Tok(TokenModel::StringLiteral(ascii_str(st.s.subrange(i + 1, j)))),
                tok_line: l,
                tok_col: c,
                end: LexState { s: st.s, pos: j + 1, line: l, col: c + (j + 1 - i) },
            }
        } else {
            StepResult {
                out: ScanOutcome::Fail(LexErrorKind::UnterminatedString),
                tok_line: l,
                tok_col: c,
                end: LexState { s: st.s, pos: j, line: l, col: c + (j - i) },
            }
        }
    } else {
        let on = symbol_token(st.s, i);
        StepResult {
            out: on.0,
            tok_line: l,
            tok_col: c,
            end: LexState { s: st.s, pos: i + on.1, line: l, col: c + on.1 },
        }
    }
}

/// Where the whitespace run beginning at `i` stops: every byte before
/// `ws_end` is whitespace, and the byte at `ws_end`, if any, is not.
pub proof fn lemma_ws_end(s: Seq<u8>, i: int)
    requires
        0 <= i <= s.len(),
    ensures
        i <= ws_end(s, i) <= s.len(),
        forall|k: int| i <= k < ws_end(s, i) ==> is_ws(#[trigger] s[k]),
        ws_end(s, i) < s.len() ==> !is_ws(s[ws_end(s, i)]),
    decreases s.len() - i,
{
    if i < s.len() && is_ws(s[i]) {
        lemma_ws_end(s, i + 1);
    }
}

/// Consuming bytes never moves the (line, column) coordinates backwards in
/// the lexicographic order on (line, column).
pub proof fn lemma_pos_after_monotonic(s: Seq<u8>, i: int, j: int, line: int, col: int)
    requires
        i <= j,
    ensures
        pos_after(s, i, j, line, col).0 >= line,
        pos_after(s, i, j, line, col).0 == line ==> pos_after(s, i, j, line, col).1 >= col,
    decreases j - i,
{
    if i < j {
        let lc = pos_step(s[i], line, col);
        lemma_pos_after_monotonic(s, i + 1, j, lc.0, lc.1);
    }
}

/// Where the identifier run beginning at `i` stops: every byte before
/// `ident_end` is an identifier byte, and the byte at `ident_end`, if any,
/// is not.
pub proof fn lemma_ident_end(s: Seq<u8>, i: int)
    requires
        0 <= i <= s.len(),
    ensures
        i <= ident_end(s, i) <= s.len(),
        forall|k: int| i <= k < ident_end(s, i) ==> is_ident_byte(#[trigger] s[k]),
        ident_end(s, i) < s.len() ==> !is_ident_byte(s[ident_end(s, i)]),
    decreases s.len() - i,
{
    if i < s.len() && is_ident_byte(s[i]) {
        lemma_ident_end(s, i + 1);
    }
}

/// Where the digit run beginning at `i` stops: every byte before `digit_end`
/// is a digit, and the byte at `digit_end`, if any, is not.
pub proof fn lemma_digit_end(s: Seq<u8>, i: int)
    requires
        0 <= i <= s.len(),
    ensures
        i <= digit_end(s, i) <= s.len(),
        forall|k: int| i <= k < digit_end(s, i) ==> is_digit(#[trigger] s[k]),
        digit_end(s, i) < s.len() ==> !is_digit(s[digit_end(s, i)]),
    decreases s.len() - i,
{
    if i < s.len() && is_digit(s[i]) {
        lemma_digit_end(s, i + 1);
    }
}

/// Where the string-literal scan beginning at `i` stops: every byte before
/// `str_close` is neither a quote nor a newline, and the byte at `str_close`,
/// if any, is one of the two.
pub proof fn lemma_str_close(s: Seq<u8>, i: int)
    requires
        0 <= i <= s.len(),
    ensures
        i <= str_close(s, i) <= s.len(),
        forall|k: int|
            i <= k < str_close(s, i) ==> #[trigger] s[k] != '"' as u8 && s[k] != '\n' as u8,
        str_close(s, i) < s.len() ==> (s[str_close(s, i)] == '"' as u8 || s[str_close(s, i)]
            == '\n' as u8),
    decreases s.len() - i,
{
    if i < s.len() && s[i] != '"' as u8 && s[i] != '\n' as u8 {
        lemma_str_close(s, i + 1);
    }
}

/// Consuming `s[i..j+1]` is consuming `s[i..j]` and then the byte `s[j]`.
pub proof fn lemma_pos_after_snoc(s: Seq<u8>, i: int, j: int, line: int, col: int)
    requires
        i <= j,
    ensures
        pos_after(s, i, j + 1, line, col) == pos_step(
            s[j],
            pos_after(s, i, j, line, col).0,
            pos_after(s, i, j, line, col).1,
        ),
    decreases j - i,
{
    if i < j {
        let lc = pos_step(s[i], line, col);
        lemma_pos_after_snoc(s, i + 1, j, lc.0, lc.1);
    } else {
        let lc = pos_step(s[j], line, col);
        assert(pos_after(s, j + 1, j + 1, lc.0, lc.1) == lc);
    }
}

/// A digit string denotes a non-negative value.
pub proof fn lemma_digits_val_nonneg(s: Seq<u8>, i: int, j: int)
    requires
        i <= j,
        forall|k: int| i <= k < j ==> is_digit(#[trigger] s[k]),
    ensures
        digits_val(s, i, j) >= 0,
    decreases j - i,
{
    if i < j {
        lemma_digits_val_nonneg(s, i, j - 1);
    }
}

/// Extending a digit string never shrinks its value: once a prefix is already
/// too large for the 32-bit range, the whole literal is too.
pub proof fn lemma_digits_val_mono(s: Seq<u8>, i: int, k: int, j: int)
    requires
        i <= k <= j,
        forall|m: int| i <= m < j ==> is_digit(#[trigger] s[m]),
    ensures
        digits_val(s, i, j) >= digits_val(s, i, k),
    decreases j - k,
{
    if k < j {
        lemma_digits_val_mono(s, i, k, j - 1);
        lemma_digits_val_nonneg(s, i, j - 1);
    }
}

/// Runtime test for `is_ws`.
fn ws_byte(b: u8) -> (r: bool)
    ensures
        r == is_ws(b),
{
    b == ' ' as u8 || b == '\t' as u8 || b == '\n' as u8
}

/// Runtime test for `is_ident_byte`.
fn ident_byte(b: u8) -> (r: bool)
    ensures
        r == is_ident_byte(b),
{
    ('a' as u8 <= b && b <= 'z' as u8) || ('A' as u8 <= b && b <= 'Z' as u8) || ('0' as u8 <= b
        && b <= '9' as u8) || b == '_' as u8
}

/// Runtime test for `is_ident_start`.
fn ident_start_byte(b: u8) -> (r: bool)
    ensures
        r == is_ident_start(b),
{
    ('a' as u8 <= b && b <= 'z' as u8) || ('A' as u8 <= b && b <= 'Z' as u8) || b == '_' as u8
}

/// Runtime test for `is_digit`.
fn digit_byte(b: u8) -> (r: bool)
    ensures
        r == is_digit(b),
{
    '0' as u8 <= b && b <= '9' as u8
}

/// The tokenizer.  It owns no heap data beyond the lexeme buffers it hands
/// out; one instance serves exactly one source buffer.
pub struct Lexer<'a> {
    /// the source text
    bytes: &'a [u8],
    /// offset of the next unread byte
    index: usize,
    /// 1-based line of the next unread byte
    line: usize,
    /// 1-based column of the next unread byte
    col: usize,
}

impl<'a> View for Lexer<'a> {
    type V = LexState;

    closed spec fn view(&self) -> LexState {
        LexState {
            s: self.bytes@,
            pos: self.index as int,
            line: self.line as int,
            col: self.col as int,
        }
    }
}

impl<'a> Lexer<'a> {
    /// The cursor sits inside the buffer and its position coordinates are
    /// 1-based and cannot outrun the bytes consumed so far.
    pub open spec fn wf(&self) -> bool {
        &&& 0 <= self@.pos <= self@.s.len()
        &&& 1 <= self@.line <= self@.pos + 1
        &&& 1 <= self@.col <= self@.pos + 1
        &&& self@.s.len() < usize::MAX
    }

    /// Makes a scanner for `bytes`, with the cursor on the first byte at
    /// line 1, column 1.
    pub fn new(bytes: &'a [u8]) -> (r: Self)
        requires
            bytes@.len() < usize::MAX,
        ensures
            r.wf(),
            r@ == (LexState { s: bytes@, pos: 0, line: 1, col: 1 }),
    {
        Lexer { bytes, index: 0, line: 1, col: 1 }
    }

    /// Whether any byte is left unread.
    fn has_next_char(&self) -> (r: bool)
        ensures
            r == (self@.pos < self@.s.len()),
    {
        self.index < self.bytes.len()
    }

    /// Consumes one byte.  The line and column move at the moment a newline
    /// is consumed, never later.
    fn next_char(&mut self)
        requires
            old(self).wf(),
            old(self)@.pos < old(self)@.s.len(),
        ensures
            final(self).wf(),
            final(self)@.s == old(self)@.s,
            final(self)@.pos == old(self)@.pos + 1,
            (final(self)@.line, final(self)@.col) == pos_step(
                old(self)@.s[old(self)@.pos],
                old(self)@.line,
                old(self)@.col,
            ),
    {
        let b = self.bytes[self.index];
        self.index = self.index + 1;
        if b == '\n' as u8 {
            self.line = self.line + 1;
            self.col = 1;
        } else {
            self.col = self.col + 1;
        }
    }

    /// Skips the whitespace run under the cursor, keeping the line and
    /// column bookkeeping in step with every byte consumed.
    fn skip_whitespace(&mut self)
        requires
            old(self).wf(),
        ensures
            final(self).wf(),
            final(self)@.s == old(self)@.s,
            final(self)@.pos == ws_end(old(self)@.s, old(self)@.pos),
            (final(self)@.line, final(self)@.col) == pos_after(
                old(self)@.s,
                old(self)@.pos,
                final(self)@.pos,
                old(self)@.line,
                old(self)@.col,
            ),
    {
        let ghost s = self@.s;
        let ghost p0 = self@.pos;
        let ghost l0 = self@.line;
        let ghost c0 = self@.col;
        while self.index < self.bytes.len() && ws_byte(self.bytes[self.index])
            invariant
                self.wf(),
                self@.s == s,
                p0 <= self@.pos,
                ws_end(s, p0) == ws_end(s, self@.pos),
                pos_after(s, p0, self@.pos, l0, c0) == (self@.line, self@.col),
            decreases s.len() - self@.pos,
        {
            proof {
                lemma_pos_after_snoc(s, p0, self@.pos, l0, c0);
            }
            self.next_char();
        }
    }

    /// Produces the next token together with the position of its first
    /// character, or a typed error carrying the position of the offending
    /// lexeme.  The call never panics, always moves the cursor past what it
    /// scanned, and is idempotent once the buffer is exhausted: every further
    /// call returns `Eof` at the same position.  Its whole behaviour is the
    /// `step` function on the cursor state.
    pub fn get_token(&mut self) -> (r: Result<(Token, SourcePosition), LexError>)
        requires
            old(self).wf(),
        ensures
            final(self).wf(),
            final(self)@.s == old(self)@.s,
            final(self)@ == step(old(self)@).end,
            ({
                let sr = step(old(self)@);
                match sr.out {
                    ScanOutcome::Tok(t) => r matches Ok(p) && p.0@ == t && p.1.line == sr.tok_line
                        && p.1.col == sr.tok_col,
                    ScanOutcome::Fail(k) => r matches Err(e) && e.kind == k && e.position.line
                        == sr.tok_line && e.position.col == sr.tok_col,
                }
            }),
    {
        self.skip_whitespace();
        if !self.has_next_char() {
            let token_pos = SourcePosition { line: self.line, col: self.col };
            return Ok((Token::Eof, token_pos));
        }
        let b = self.bytes[self.index];
        if ident_start_byte(b) {
            self.process_word()
        } else if digit_byte(b) {
            self.process_number()
        } else if b == '"' as u8 {
            self.process_string()
        } else {
            self.process_symbol()
        }
    }

    /// Scans an identifier-shaped lexeme and classifies it: the keyword token
    /// when the lexeme is a reserved word, a generic identifier otherwise,
    /// and `IdentifierTooLong` when the run of qualifying bytes goes past 32.
    /// Either way the cursor ends just past the whole run.
    fn process_word(&mut self) -> (r: Result<(Token, SourcePosition), LexError>)
        requires
            old(self).wf(),
            old(self)@.pos < old(self)@.s.len(),
            is_ident_start(old(self)@.s[old(self)@.pos]),
        ensures
            final(self).wf(),
            final(self)@.s == old(self)@.s,
            ({
                let i = old(self)@.pos;
                let j = ident_end(old(self)@.s, i);
                let w = old(self)@.s.subrange(i, j);
                &&& final(self)@.pos == j
                &&& final(self)@.line == old(self)@.line
                &&& final(self)@.col == old(self)@.col + (j - i)
                &&& (if j - i > MAX_ID_LENGTH as int {
                    r matches Err(e) && e.kind == LexErrorKind::IdentifierTooLong
                        && e.position.line == old(self)@.line && e.position.col == old(self)@.col
                } else {
                    r matches Ok(p) && p.0@ == word_token(w) && p.1.line == old(self)@.line
                        && p.1.col == old(self)@.col
                })
            }),
    {
        let token_pos = SourcePosition { line: self.line, col: self.col };
        let bytes: &[u8] = self.bytes;
        let n = bytes.len();
        let start = self.index;
        let ghost s = self@.s;
        let mut end = start;
        while end < n && ident_byte(bytes[end])
            invariant
                bytes@ == s,
                n == s.len(),
                start <= end <= n,
                ident_end(s, start as int) == ident_end(s, end as int),
            decreases n - end,
        {
            end = end + 1;
        }
        let len = end - start;
        self.index = end;
        self.col = self.col + len;
        if len > MAX_ID_LENGTH {
            return Err(LexError { kind: LexErrorKind::IdentifierTooLong, position: token_pos });
        }
        let w = &bytes[start..end];
        let token = match crate::token::keyword_lookup(w) {
            Some(k) => k,
            None => Token::Id(crate::token::bytes_to_string(w)),
        };
        Ok((token, token_pos))
    }

    /// Scans a number literal: the value of the whole digit run, or
    /// `NumberOverflow` when that value does not fit a signed 32-bit integer.
    /// Either way the cursor ends just past the run, so a later call resumes
    /// at the next token.
    fn process_number(&mut self) -> (r: Result<(Token, SourcePosition), LexError>)
        requires
            old(self).wf(),
            old(self)@.pos < old(self)@.s.len(),
            is_digit(old(self)@.s[old(self)@.pos]),
        ensures
            final(self).wf(),
            final(self)@.s == old(self)@.s,
            ({
                let i = old(self)@.pos;
                let j = digit_end(old(self)@.s, i);
                let v = digits_val(old(self)@.s, i, j);
                &&& final(self)@.pos == j
                &&& final(self)@.line == old(self)@.line
                &&& final(self)@.col == old(self)@.col + (j - i)
                &&& (if v > MAX_NUMBER as int {
                    r matches Err(e) && e.kind == LexErrorKind::NumberOverflow
                        && e.position.line == old(self)@.line && e.position.col == old(self)@.col
                } else {
                    r matches Ok(p) && p.0@ == TokenModel::Number(v) && p.1.line == old(self)@.line
                        && p.1.col == old(self)@.col
                })
            }),
    {
        let token_pos = SourcePosition { line: self.line, col: self.col };
        let bytes: &[u8] = self.bytes;
        let n = bytes.len();
        let start = self.index;
        let ghost s = self@.s;
        let mut end = start;
        while end < n && digit_byte(bytes[end])
            invariant
                bytes@ == s,
                n == s.len(),
                start <= end <= n,
                digit_end(s, start as int) == digit_end(s, end as int),
            decreases n - end,
        {
            end = end + 1;
        }
        proof {
            lemma_digit_end(s, start as int);
        }
        let len = end - start;
        self.index = end;
        self.col = self.col + len;
        let mut value: u64 = 0;
        let mut k = start;
        let mut overflow = false;
        while k < end && !overflow
            invariant
                bytes@ == s,
                n == s.len(),
                start <= k <= end <= n,
                end == digit_end(s, start as int),
                forall|m: int| start <= m < end ==> is_digit(#[trigger] s[m]),
                !overflow ==> value == digits_val(s, start as int, k as int) && value
                    <= MAX_NUMBER,
                overflow ==> digits_val(s, start as int, end as int) > MAX_NUMBER as int,
            decreases end - k,
        {
            let d = bytes[k] - '0' as u8;
            value = value * 10 + d as u64;
            k = k + 1;
            if value > MAX_NUMBER {
                overflow = true;
                proof {
                    lemma_digits_val_mono(s, start as int, k as int, end as int);
                }
            }
        }
        if overflow {
            return Err(LexError { kind: LexErrorKind::NumberOverflow, position: token_pos });
        }
        Ok((Token::Number(value as i32), token_pos))
    }

    /// Scans a string literal: the bytes between the quotes, taken literally,
    /// with no escape processing.  When end-of-input or a newline comes first
    /// the literal is unterminated: the error carries the opening quote's
    /// position and the cursor stops just before the newline, or at the end.
    fn process_string(&mut self) -> (r: Result<(Token, SourcePosition), LexError>)
        requires
            old(self).wf(),
            old(self)@.pos < old(self)@.s.len(),
            old(self)@.s[old(self)@.pos] == '"' as u8,
        ensures
            final(self).wf(),
            final(self)@.s == old(self)@.s,
            ({
                let i = old(self)@.pos;
                let j = str_close(old(self)@.s, i + 1);
                &&& final(self)@.line == old(self)@.line
                &&& (if j < old(self)@.s.len() && old(self)@.s[j] == '"' as u8 {
                    &&& final(self)@.pos == j + 1
                    &&& final(self)@.col == old(self)@.col + (j + 1 - i)
                    &&& r matches Ok(p) && p.0@ == TokenModel::StringLiteral(
                        ascii_str(old(self)@.s.subrange(i + 1, j)),
                    ) && p.1.line == old(self)@.line && p.1.col == old(self)@.col
                } else {
                    &&& final(self)@.pos == j
                    &&& final(self)@.col == old(self)@.col + (j - i)
                    &&& r matches Err(e) && e.kind == LexErrorKind::UnterminatedString
                        && e.position.line == old(self)@.line && e.position.col == old(self)@.col
                })
            }),
    {
        let token_pos = SourcePosition { line: self.line, col: self.col };
        let bytes: &[u8] = self.bytes;
        let n = bytes.len();
        let start = self.index;
        let ghost s = self@.s;
        let mut end = start + 1;
        while end < n && bytes[end] != '"' as u8 && bytes[end] != '\n' as u8
            invariant
                bytes@ == s,
                n == s.len(),
                start + 1 <= end <= n,
                str_close(s, start as int + 1) == str_close(s, end as int),
            decreases n - end,
        {
            end = end + 1;
        }
        if end < n && bytes[end] == '"' as u8 {
            let contents = &bytes[start + 1..end];
            let token = Token::StringLiteral(crate::token::bytes_to_string(contents));
            self.index = end + 1;
            self.col = self.col + (end + 1 - start);
            Ok((token, token_pos))
        } else {
            self.index = end;
            self.col = self.col + (end - start);
            Err(LexError { kind: LexErrorKind::UnterminatedString, position: token_pos })
        }
    }

    /// Scans an operator or punctuation token, preferring the two-byte
    /// operators `<=`, `<>`, `>=` and `:=` over their one-byte prefixes.  A
    /// byte that starts no token is reported as `UnknownCharacter` and
    /// consumed, so a later call resumes after it.
    fn process_symbol(&mut self) -> (r: Result<(Token, SourcePosition), LexError>)
        requires
            old(self).wf(),
            old(self)@.pos < old(self)@.s.len(),
        ensures
            final(self).wf(),
            final(self)@.s == old(self)@.s,
            ({
                let i = old(self)@.pos;
                let on = symbol_token(old(self)@.s, i);
                &&& final(self)@.pos == i + on.1
                &&& final(self)@.line == old(self)@.line
                &&& final(self)@.col == old(self)@.col + on.1
                &&& (match on.0 {
                    ScanOutcome::Tok(t) => r matches Ok(p) && p.0@ == t && p.1.line == old(
                        self,
                    )@.line && p.1.col == old(self)@.col,
                    ScanOutcome::Fail(k) => r matches Err(e) && e.kind == k && e.position.line
                        == old(self)@.line && e.position.col == old(self)@.col,
                })
            }),
    {
        let token_pos = SourcePosition { line: self.line, col: self.col };
        let b = self.bytes[self.index];
        let two = self.index + 1 < self.bytes.len();
        let next = if two {
            self.bytes[self.index + 1]
        } else {
            0
        };
        if b == '=' as u8 {
            self.take_symbol_bytes(1);
            Ok((Token::Equal, token_pos))
        } else if b == '>' as u8 {
            if two && next == '=' as u8 {
                self.take_symbol_bytes(2);
                Ok((Token::GreaterEqual, token_pos))
            } else {
                self.take_symbol_bytes(1);
                Ok((Token::GreaterThan, token_pos))
            }
        } else if b == '<' as u8 {
            if two && next == '=' as u8 {
                self.take_symbol_bytes(2);
                Ok((Token::LessEqual, token_pos))
            } else if two && next == '>' as u8 {
                self.take_symbol_bytes(2);
                Ok((Token::NotEqual, token_pos))
            } else {
                self.take_symbol_bytes(1);
                Ok((Token::LessThan, token_pos))
            }
        } else if b == ':' as u8 {
            if two && next == '=' as u8 {
                self.take_symbol_bytes(2);
                Ok((Token::Gets, token_pos))
            } else {
                self.take_symbol_bytes(1);
                Err(LexError { kind: LexErrorKind::UnknownCharacter(b), position: token_pos })
            }
        } else if b == '-' as u8 {
            self.take_symbol_bytes(1);
            Ok((Token::Minus, token_pos))
        } else if b == '+' as u8 {
            self.take_symbol_bytes(1);
            Ok((Token::Plus, token_pos))
        } else if b == '/' as u8 {
            self.take_symbol_bytes(1);
            Ok((Token::Divide, token_pos))
        } else if b == '*' as u8 {
            self.take_symbol_bytes(1);
            Ok((Token::Multiply, token_pos))
        } else if b == '[' as u8 {
            self.take_symbol_bytes(1);
            Ok((Token::OpenBracket, token_pos))
        } else if b == ']' as u8 {
            self.take_symbol_bytes(1);
            Ok((Token::CloseBracket, token_pos))
        } else if b == '(' as u8 {
            self.take_symbol_bytes(1);
            Ok((Token::OpenParenthesis, token_pos))
        } else if b == ')' as u8 {
            self.take_symbol_bytes(1);
            Ok((Token::CloseParenthesis, token_pos))
        } else if b == ',' as u8 {
            self.take_symbol_bytes(1);
            Ok((Token::Comma, token_pos))
        } else if b == '.' as u8 {
            self.take_symbol_bytes(1);
            Ok((Token::Concatenate, token_pos))
        } else if b == ';' as u8 {
            self.take_symbol_bytes(1);
            Ok((Token::Semicolon, token_pos))
        } else {
            self.take_symbol_bytes(1);
            Err(LexError { kind: LexErrorKind::UnknownCharacter(b), position: token_pos })
        }
    }

    /// Moves the cursor over the 1 or 2 bytes of an operator lexeme, which
    /// never holds a newline.
    fn take_symbol_bytes(&mut self, count: usize)
        requires
            old(self).wf(),
            1 <= count <= 2,
            old(self)@.pos + count <= old(self)@.s.len(),
        ensures
            final(self).wf(),
            final(self)@.s == old(self)@.s,
            final(self)@.pos == old(self)@.pos + count,
            final(self)@.line == old(self)@.line,
            final(self)@.col == old(self)@.col + count,
    {
        self.index = self.index + count;
        self.col = self.col + count;
    }
}

} // verus!
