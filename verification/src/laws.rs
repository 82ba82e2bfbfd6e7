//! General laws of the scanner, each proved from the `step` function that
//! `Lexer::get_token` is contracted to follow.

use vstd::prelude::*;

use crate::error::LexErrorKind;
use crate::lexer::LexState;
use crate::lexer::ScanOutcome;
use crate::lexer::digit_end;
use crate::lexer::digits_val;
use crate::lexer::ident_end;
use crate::lexer::is_digit;
use crate::lexer::is_ident_byte;
use crate::lexer::is_ident_start;
use crate::lexer::lemma_digit_end;
use crate::lexer::lemma_ident_end;
use crate::lexer::lemma_pos_after_monotonic;
use crate::lexer::lemma_str_close;
use crate::lexer::lemma_ws_end;
use crate::lexer::step;
use crate::lexer::str_close;
use crate::lexer::ws_end;
use crate::token::TokenModel;
use crate::token::ascii_str;
use crate::token::keyword_token;
use crate::token::word_token;

verus! {

/// Maximal munch: wherever the next byte is `<`, `>` or `:`, the scanner
/// takes the two-byte operator over the one-byte one whenever the following
/// byte matches, and consumes both bytes.
pub proof fn lemma_maximal_munch(st: LexState)
    requires
        0 <= st.pos < st.s.len(),
        st.s[st.pos] == '<' as u8 || st.s[st.pos] == '>' as u8 || st.s[st.pos] == ':' as u8,
    ensures
        st.pos + 1 < st.s.len() && st.s[st.pos] == '<' as u8 && st.s[st.pos + 1] == '=' as u8
            ==> step(st).out == ScanOutcome::Tok(TokenModel::LessEqual) && step(st).end.pos
            == st.pos + 2,
        st.pos + 1 < st.s.len() && st.s[st.pos] == '<' as u8 && st.s[st.pos + 1] == '>' as u8
            ==> step(st).out == ScanOutcome::Tok(TokenModel::NotEqual) && step(st).end.pos
            == st.pos + 2,
        st.pos + 1 < st.s.len() && st.s[st.pos] == '>' as u8 && st.s[st.pos + 1] == '=' as u8
            ==> step(st).out == ScanOutcome::Tok(TokenModel::GreaterEqual) && step(st).end.pos
            == st.pos + 2,
        st.pos + 1 < st.s.len() && st.s[st.pos] == ':' as u8 && st.s[st.pos + 1] == '=' as u8
            ==> step(st).out == ScanOutcome::Tok(TokenModel::Gets) && step(st).end.pos == st.pos
            + 2,
{
    assert(ws_end(st.s, st.pos) == st.pos);
}

/// Keyword precedence: scanning exactly an identifier-shaped text of 1 to 32
/// bytes yields the reserved word's own token when the text is a reserved
/// word, and a generic identifier carrying that exact text otherwise.
pub proof fn lemma_keyword_precedence(w: Seq<u8>)
    requires
        1 <= w.len() <= 32,
        is_ident_start(w[0]),
        forall|k: int| 0 <= k < w.len() ==> is_ident_byte(#[trigger] w[k]),
    ensures
        step(LexState { s: w, pos: 0, line: 1, col: 1 }).out == ScanOutcome::Tok(word_token(w)),
        keyword_token(w) matches Some(t) ==> step(
            LexState { s: w, pos: 0, line: 1, col: 1 },
        ).out == ScanOutcome::Tok(t),
        keyword_token(w) is None ==> step(LexState { s: w, pos: 0, line: 1, col: 1 }).out
            == ScanOutcome::Tok(TokenModel::Id(ascii_str(w))),
{
    let st = LexState { s: w, pos: 0, line: 1, col: 1 };
    assert(ws_end(w, 0) == 0);
    lemma_ident_end(w, 0);
    assert(ident_end(w, 0) == w.len());
    assert(w.subrange(0, w.len() as int) =~= w);
}

/// Length boundary: a run of more than 32 identifier bytes fails with
/// `IdentifierTooLong`, and the cursor still moves past the whole run.
/// (That a run of exactly 32 succeeds is `lemma_keyword_precedence`.)
pub proof fn lemma_identifier_too_long(w: Seq<u8>)
    requires
        w.len() > 32,
        is_ident_start(w[0]),
        forall|k: int| 0 <= k < w.len() ==> is_ident_byte(#[trigger] w[k]),
    ensures
        step(LexState { s: w, pos: 0, line: 1, col: 1 }).out == ScanOutcome::Fail(
            LexErrorKind::IdentifierTooLong,
        ),
        step(LexState { s: w, pos: 0, line: 1, col: 1 }).end.pos == w.len(),
{
    assert(ws_end(w, 0) == 0);
    lemma_ident_end(w, 0);
    assert(ident_end(w, 0) == w.len());
}

/// Numeric boundary: a digit string denoting at most the signed 32-bit
/// maximum scans to exactly that value; one denoting more fails with
/// `NumberOverflow`.  Either way the whole digit run is consumed.
pub proof fn lemma_number_boundary(w: Seq<u8>)
    requires
        1 <= w.len(),
        forall|k: int| 0 <= k < w.len() ==> is_digit(#[trigger] w[k]),
    ensures
        digits_val(w, 0, w.len() as int) <= 0x7fff_ffff ==> step(
            LexState { s: w, pos: 0, line: 1, col: 1 },
        ).out == ScanOutcome::Tok(TokenModel::Number(digits_val(w, 0, w.len() as int))),
        digits_val(w, 0, w.len() as int) > 0x7fff_ffff ==> step(
            LexState { s: w, pos: 0, line: 1, col: 1 },
        ).out == ScanOutcome::Fail(LexErrorKind::NumberOverflow),
        step(LexState { s: w, pos: 0, line: 1, col: 1 }).end.pos == w.len(),
{
    assert(ws_end(w, 0) == 0);
    lemma_digit_end(w, 0);
    assert(digit_end(w, 0) == w.len());
}

/// Idempotent end of input: with the cursor at the buffer's end, a scan step
/// yields `Eof` at the current position and leaves the cursor exactly where
/// it was — so every further call does the same.
pub proof fn lemma_eof_idempotent(st: LexState)
    requires
        st.pos == st.s.len(),
    ensures
        step(st).out == ScanOutcome::Tok(TokenModel::Eof),
        step(st).tok_line == st.line,
        step(st).tok_col == st.col,
        step(st).end.s == st.s,
        step(st).end.pos == st.pos,
        step(st).end.line == st.line,
        step(st).end.col == st.col,
{
    assert(ws_end(st.s, st.pos) == st.pos);
}

/// Unterminated string: when no closing quote stands between the opening
/// quote and the next newline or the end of input, the scan fails with
/// `UnterminatedString` positioned at the opening quote, and the cursor has
/// still advanced past that quote.
pub proof fn lemma_unterminated_string(st: LexState)
    requires
        0 <= st.pos < st.s.len(),
        st.s[st.pos] == '"' as u8,
        str_close(st.s, st.pos + 1) >= st.s.len() || st.s[str_close(st.s, st.pos + 1)]
            == '\n' as u8,
    ensures
        step(st).out == ScanOutcome::Fail(LexErrorKind::UnterminatedString),
        step(st).tok_line == st.line,
        step(st).tok_col == st.col,
        step(st).end.pos > st.pos,
{
    assert(ws_end(st.s, st.pos) == st.pos);
    lemma_str_close(st.s, st.pos + 1);
}

/// Positions never move backwards: the token a scan step reports begins at
/// or after the cursor's own position (lexicographically on line then
/// column), the cursor afterwards sits on the same line at or after the
/// token's first character, and the byte offset never shrinks.  Applied to
/// each call in turn, positions are monotonically non-decreasing across
/// successive tokens of one scan.
pub proof fn lemma_positions_monotonic(st: LexState)
    requires
        0 <= st.pos <= st.s.len(),
    ensures
        step(st).tok_line > st.line || (step(st).tok_line == st.line && step(st).tok_col
            >= st.col),
        step(st).end.line == step(st).tok_line,
        step(st).end.col >= step(st).tok_col,
        step(st).end.pos >= st.pos,
{
    lemma_ws_end(st.s, st.pos);
    lemma_pos_after_monotonic(st.s, st.pos, ws_end(st.s, st.pos), st.line, st.col);
    let i = ws_end(st.s, st.pos);
    if i < st.s.len() {
        if is_ident_start(st.s[i]) {
            lemma_ident_end(st.s, i);
        } else if is_digit(st.s[i]) {
            lemma_digit_end(st.s, i);
        } else if st.s[i] == '"' as u8 {
            lemma_str_close(st.s, i + 1);
        }
    }
}

/// Forward progress on errors: whenever a scan step fails, the cursor has
/// still advanced past at least the offending byte, so repeated calls after
/// an error can never loop on the same input.
pub proof fn lemma_error_forward_progress(st: LexState)
    requires
        0 <= st.pos <= st.s.len(),
        step(st).out is Fail,
    ensures
        step(st).end.pos > st.pos,
{
    lemma_ws_end(st.s, st.pos);
    let i = ws_end(st.s, st.pos);
    if i < st.s.len() {
        if is_ident_start(st.s[i]) {
            lemma_ident_end(st.s, i);
        } else if is_digit(st.s[i]) {
            lemma_digit_end(st.s, i);
            assert(digit_end(st.s, i) > i);
        } else if st.s[i] == '"' as u8 {
            lemma_str_close(st.s, i + 1);
        }
    }
}

} // verus!
