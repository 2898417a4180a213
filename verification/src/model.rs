//! The mathematical model of the scanner.
//!
//! `scan_at` says, for a source text and a cursor position, what the next call
//! of the lexer returns: the end of the stream, one token with its span, or
//! one diagnostic with its span. The executable lexer is verified to return
//! exactly what this model prescribes.

use vstd::prelude::*;

use crate::token::{DiagnosticKind, KindModel, NumericError, PartModel};

verus! {

/// A byte is an ASCII decimal digit.
pub open spec fn is_digit(b: u8) -> bool {
    ('0' as u8) <= b && b <= ('9' as u8)
}

/// A byte is an ASCII letter.
pub open spec fn is_alpha(b: u8) -> bool {
    (('a' as u8) <= b && b <= ('z' as u8)) || (('A' as u8) <= b && b <= ('Z' as u8))
}

/// A byte may stand in an identifier: a letter or a digit.
pub open spec fn is_ident_byte(b: u8) -> bool {
    is_alpha(b) || is_digit(b)
}

/// A byte is whitespace other than a newline: space, tab, carriage return,
/// vertical tab or form feed.
pub open spec fn is_blank_byte(b: u8) -> bool {
    b == 32 || b == 9 || b == 13 || b == 11 || b == 12
}

/// A byte may open a template literal, and closes the one it opened:
/// a backtick, a double quote or a single quote.
pub open spec fn is_quote(b: u8) -> bool {
    b == ('`' as u8) || b == ('"' as u8) || b == ('\'' as u8)
}

/// A byte may stand in a numeric literal run: a digit or a dot.
pub open spec fn is_number_byte(b: u8) -> bool {
    is_digit(b) || b == ('.' as u8)
}

/// A UTF-8 continuation byte: of the form 10xxxxxx.
pub open spec fn is_cont_byte(b: u8) -> bool {
    128 <= b && b <= 191
}

/// The length of the UTF-8 sequence that starts at `pos`: 2, 3 or 4 where a
/// well-formed multi-byte sequence starts there, and 1 otherwise (an ASCII
/// byte, or a byte that starts no well-formed sequence, stands alone).
pub open spec fn char_len_at(src: Seq<u8>, pos: int) -> int {
    if 194 <= src[pos] && src[pos] <= 223 && pos + 1 < src.len() && is_cont_byte(src[pos + 1]) {
        2
    } else if 224 <= src[pos] && src[pos] <= 239 && pos + 2 < src.len() && is_cont_byte(
        src[pos + 1],
    ) && is_cont_byte(src[pos + 2]) {
        3
    } else if 240 <= src[pos] && src[pos] <= 244 && pos + 3 < src.len() && is_cont_byte(
        src[pos + 1],
    ) && is_cont_byte(src[pos + 2]) && is_cont_byte(src[pos + 3]) {
        4
    } else {
        1
    }
}

/// The code point of the UTF-8 sequence at `pos`, for the two- and
/// three-byte forms; elsewhere the lead byte's own value.
pub open spec fn scalar_at(src: Seq<u8>, pos: int) -> int {
    if char_len_at(src, pos) == 2 {
        (src[pos] - 192) * 64 + (src[pos + 1] - 128)
    } else if char_len_at(src, pos) == 3 {
        (src[pos] - 224) * 4096 + (src[pos + 1] - 128) * 64 + (src[pos + 2] - 128)
    } else {
        src[pos] as int
    }
}

/// A code point above ASCII with the Unicode white-space property: next line,
/// no-break space, ogham space mark, the en-quad..hair-space range, line and
/// paragraph separators, narrow no-break space, medium mathematical space,
/// and ideographic space.
pub open spec fn is_uni_ws_scalar(c: int) -> bool {
    c == 0x85 || c == 0xA0 || c == 0x1680 || (0x2000 <= c && c <= 0x200A) || c == 0x2028 || c
        == 0x2029 || c == 0x202F || c == 0x205F || c == 0x3000
}

/// The character at `pos` is whitespace above ASCII: a two- or three-byte
/// UTF-8 sequence whose code point has the white-space property. (No
/// four-byte character has it.)
pub open spec fn is_uni_ws_at(src: Seq<u8>, pos: int) -> bool {
    2 <= char_len_at(src, pos) && char_len_at(src, pos) <= 3 && is_uni_ws_scalar(
        scalar_at(src, pos),
    )
}

/// The character at `pos` spans at least one byte and stays in the source.
pub proof fn lemma_char_len_bounds(src: Seq<u8>, pos: int)
    requires
        0 <= pos < src.len(),
    ensures
        1 <= char_len_at(src, pos),
        pos + char_len_at(src, pos) <= src.len(),
{
}

/// The end of the identifier run that starts at `pos`: the first position at
/// or after `pos` that is out of range or does not hold an identifier byte.
pub open spec fn ident_end(src: Seq<u8>, pos: int) -> int
    decreases src.len() - pos,
{
    if pos < 0 || pos >= src.len() || !is_ident_byte(src[pos]) {
        pos
    } else {
        ident_end(src, pos + 1)
    }
}

/// The end of the numeric run that starts at `pos`: the first position at or
/// after `pos` that is out of range or holds neither a digit nor a dot.
pub open spec fn num_run_end(src: Seq<u8>, pos: int) -> int
    decreases src.len() - pos,
{
    if pos < 0 || pos >= src.len() || !is_number_byte(src[pos]) {
        pos
    } else {
        num_run_end(src, pos + 1)
    }
}

/// The first position at or after `pos` that is out of range or holds a
/// newline: where a `//` comment stops consuming.
pub open spec fn line_end(src: Seq<u8>, pos: int) -> int
    decreases src.len() - pos,
{
    if pos < 0 || pos >= src.len() || src[pos] == ('\n' as u8) {
        pos
    } else {
        line_end(src, pos + 1)
    }
}

/// The position of the `}` that balances an interpolation, scanning from
/// `pos` with `depth` braces already open, or `None` when the input ends
/// first. Only `{` and `}` move the depth; every other byte is inert.
pub open spec fn interp_close(src: Seq<u8>, pos: int, depth: int) -> Option<int>
    decreases src.len() - pos,
{
    if pos < 0 || pos >= src.len() {
        None
    } else if src[pos] == ('}' as u8) {
        if depth <= 1 {
            Some(pos)
        } else {
            interp_close(src, pos + 1, depth - 1)
        }
    } else if src[pos] == ('{' as u8) {
        interp_close(src, pos + 1, depth + 1)
    } else {
        interp_close(src, pos + 1, depth)
    }
}

/// Inside a template literal, position `i` stops the pending literal run:
/// it holds the terminating delimiter, or it starts a `${` interpolation.
pub open spec fn tmpl_event(src: Seq<u8>, i: int, delim: u8) -> bool {
    src[i] == delim || (src[i] == ('$' as u8) && i + 1 < src.len() && src[i + 1] == ('{' as u8))
}

/// The end of the literal run that starts at `pos` inside a template literal:
/// the first position at or after `pos` that is out of range or stops the run.
pub open spec fn lit_run_end(src: Seq<u8>, pos: int, delim: u8) -> int
    decreases src.len() - pos,
{
    if pos < 0 || pos >= src.len() || tmpl_event(src, pos, delim) {
        pos
    } else {
        lit_run_end(src, pos + 1, delim)
    }
}

/// The outcome of scanning the body of one template literal.
pub enum TmplScan {
    /// The literal closes: its parts, and the position of the closing delimiter.
    Closed { parts: Seq<PartModel>, close: int },
    /// The input ends before the terminating delimiter.
    Unterminated,
    /// A `${` at position `dollar` never reaches its balanced closing `}`.
    UnclosedInterpolation { dollar: int },
}

/// Scans the body of a template literal from `pos` (just after the opening
/// delimiter, or just after an interpolation's closing `}`) up to the
/// terminating delimiter `delim`. A literal run is flushed as a part only
/// when it is not empty; each interpolation contributes one part holding the
/// raw expression text between `${` and its balancing `}`.
pub open spec fn scan_template(src: Seq<u8>, pos: int, delim: u8) -> TmplScan
    decreases src.len() - pos,
        via scan_template_dec
{
    let e = lit_run_end(src, pos, delim);
    let lead: Seq<PartModel> = if e > pos {
        seq![PartModel::Literal(src.subrange(pos, e))]
    } else {
        seq![]
    };
    if e >= src.len() {
        TmplScan::Unterminated
    } else if src[e] == delim {
        TmplScan::Closed { parts: lead, close: e }
    } else {
        match interp_close(src, e + 2, 1) {
            None => TmplScan::UnclosedInterpolation { dollar: e },
            Some(cb) => match scan_template(src, cb + 1, delim) {
                TmplScan::Closed { parts, close } => TmplScan::Closed {
                    parts: lead + seq![PartModel::Interpolation(src.subrange(e + 2, cb))] + parts,
                    close,
                },
                other => other,
            },
        }
    }
}

#[via_fn]
proof fn scan_template_dec(src: Seq<u8>, pos: int, delim: u8) {
    lemma_lit_run_end_ge(src, pos, delim);
    let e = lit_run_end(src, pos, delim);
    lemma_interp_close_bounds(src, e + 2, 1);
}

/// What one call of the lexer yields at a given position.
pub enum ScanStep {
    /// The input is exhausted (after whitespace and comments): no further item.
    End,
    /// One token of kind `kind` whose origin is exactly `src[start..end]`.
    Tok { kind: KindModel, start: int, end: int },
    /// One diagnostic of kind `kind` whose span is `[start, end)`.
    Fail { kind: DiagnosticKind, start: int, end: int },
}

/// The decimal value of a sequence of ASCII digit bytes.
pub open spec fn dec_val(s: Seq<u8>) -> int
    decreases s.len(),
{
    if s.len() == 0 {
        0
    } else {
        dec_val(s.drop_last()) * 10 + (s.last() - 48)
    }
}

/// The signed value of a numeric literal text: the decimal value of its
/// digits, negated when the text starts with `-`.
pub open spec fn int_val(s: Seq<u8>) -> int {
    if s.len() > 0 && s[0] == ('-' as u8) {
        -dec_val(s.skip(1))
    } else {
        dec_val(s)
    }
}

/// How many dots a sequence of bytes holds.
pub open spec fn count_dots(s: Seq<u8>) -> int
    decreases s.len(),
{
    if s.len() == 0 {
        0
    } else {
        count_dots(s.drop_last()) + if s.last() == ('.' as u8) {
            1int
        } else {
            0int
        }
    }
}

/// The step for a numeric literal whose text is `src[start..end]`: a `Double`
/// when the text holds exactly one dot, an `Integer` when it holds none and
/// its value fits in a 64-bit signed integer, and a malformed-literal failure
/// naming its cause otherwise (more than one dot, or overflow on either
/// side).
pub open spec fn number_step(src: Seq<u8>, start: int, end: int) -> ScanStep {
    let lit = src.subrange(start, end);
    if count_dots(lit) >= 2 {
        ScanStep::Fail {
            kind: DiagnosticKind::MalformedNumericLiteral { cause: NumericError::InvalidFloat },
            start,
            end,
        }
    } else if count_dots(lit) == 1 {
        ScanStep::Tok { kind: KindModel::Double { text: lit }, start, end }
    } else if int_val(lit) < i64::MIN {
        ScanStep::Fail {
            kind: DiagnosticKind::MalformedNumericLiteral { cause: NumericError::TooSmall },
            start,
            end,
        }
    } else if int_val(lit) > i64::MAX {
        ScanStep::Fail {
            kind: DiagnosticKind::MalformedNumericLiteral { cause: NumericError::TooLarge },
            start,
            end,
        }
    } else {
        ScanStep::Tok { kind: KindModel::Integer(int_val(lit)), start, end }
    }
}

/// What the next call of the lexer yields when the cursor stands at `pos`.
///
/// Whitespace is skipped, ASCII blanks and Unicode whitespace characters
/// alike; a newline is a token unless another newline follows at once (runs
/// of blank lines collapse to the run's last newline); `//` comments are
/// skipped up to the end of their line; then the character at hand decides:
/// structural bytes and operators give their token, a letter starts an
/// identifier run, a digit (or `-` before a digit) a numeric run, a quote a
/// template literal, and any other character is invalid, with a span covering
/// its whole UTF-8 sequence.
pub open spec fn scan_at(src: Seq<u8>, pos: int) -> ScanStep
    decreases src.len() - pos,
        via scan_at_dec
{
    if pos < 0 || pos >= src.len() {
        ScanStep::End
    } else {
        let b = src[pos];
        if is_blank_byte(b) {
            scan_at(src, pos + 1)
        } else if is_uni_ws_at(src, pos) {
            scan_at(src, pos + char_len_at(src, pos))
        } else if b == ('\n' as u8) {
            if pos + 1 < src.len() && src[pos + 1] == ('\n' as u8) {
                scan_at(src, pos + 1)
            } else {
                ScanStep::Tok { kind: KindModel::Newline, start: pos, end: pos + 1 }
            }
        } else if b == ('/' as u8) && pos + 1 < src.len() && src[pos + 1] == ('/' as u8) {
            scan_at(src, line_end(src, pos + 2))
        } else if b == ('{' as u8) {
            ScanStep::Tok { kind: KindModel::LeftBrace, start: pos, end: pos + 1 }
        } else if b == ('}' as u8) {
            ScanStep::Tok { kind: KindModel::RightBrace, start: pos, end: pos + 1 }
        } else if b == (':' as u8) {
            ScanStep::Tok { kind: KindModel::Colon, start: pos, end: pos + 1 }
        } else if b == (',' as u8) {
            ScanStep::Tok { kind: KindModel::Comma, start: pos, end: pos + 1 }
        } else if b == ('!' as u8) {
            if pos + 1 < src.len() && src[pos + 1] == ('=' as u8) {
                ScanStep::Tok { kind: KindModel::BangEqual, start: pos, end: pos + 2 }
            } else {
                ScanStep::Tok { kind: KindModel::Bang, start: pos, end: pos + 1 }
            }
        } else if b == ('=' as u8) {
            if pos + 1 < src.len() && src[pos + 1] == ('=' as u8) {
                ScanStep::Tok { kind: KindModel::EqualEqual, start: pos, end: pos + 2 }
            } else {
                ScanStep::Tok { kind: KindModel::Equal, start: pos, end: pos + 1 }
            }
        } else if is_alpha(b) {
            ScanStep::Tok {
                kind: keyword_kind(src.subrange(pos, ident_end(src, pos))),
                start: pos,
                end: ident_end(src, pos),
            }
        } else if is_digit(b) {
            number_step(src, pos, num_run_end(src, pos + 1))
        } else if b == ('-' as u8) {
            if pos + 1 < src.len() && is_digit(src[pos + 1]) {
                number_step(src, pos, num_run_end(src, pos + 1))
            } else {
                ScanStep::Fail { kind: DiagnosticKind::StandaloneMinus, start: pos, end: pos + 1 }
            }
        } else if is_quote(b) {
            match scan_template(src, pos + 1, b) {
                TmplScan::Closed { parts, close } => ScanStep::Tok {
                    kind: KindModel::TemplateLiteral { content: src.subrange(pos + 1, close), parts },
                    start: pos,
                    end: close + 1,
                },
                TmplScan::Unterminated => ScanStep::Fail {
                    kind: DiagnosticKind::UnterminatedTemplate,
                    start: pos,
                    end: src.len() as int,
                },
                TmplScan::UnclosedInterpolation { dollar } => ScanStep::Fail {
                    kind: DiagnosticKind::UnclosedInterpolation,
                    start: dollar,
                    end: src.len() as int,
                },
            }
        } else {
            ScanStep::Fail {
                kind: DiagnosticKind::InvalidCharacter,
                start: pos,
                end: pos + char_len_at(src, pos),
            }
        }
    }
}

#[via_fn]
proof fn scan_at_dec(src: Seq<u8>, pos: int) {
    if 0 <= pos && pos < src.len() {
        lemma_char_len_bounds(src, pos);
    }
    if 0 <= pos && pos + 2 <= src.len() {
        lemma_line_end_bounds(src, pos + 2);
    }
}

/// A stretch of source that yields no token: whitespace other than newlines
/// (ASCII blanks and Unicode whitespace characters alike), and `//` comments.
/// A source text that is blank from `pos` scans to `End`.
pub open spec fn blank_from(src: Seq<u8>, pos: int) -> bool
    decreases src.len() - pos,
        via blank_from_dec
{
    if pos < 0 || pos >= src.len() {
        true
    } else if is_blank_byte(src[pos]) {
        blank_from(src, pos + 1)
    } else if is_uni_ws_at(src, pos) {
        blank_from(src, pos + char_len_at(src, pos))
    } else if src[pos] == ('/' as u8) && pos + 1 < src.len() && src[pos + 1] == ('/' as u8) {
        blank_from(src, line_end(src, pos + 2))
    } else {
        false
    }
}

#[via_fn]
proof fn blank_from_dec(src: Seq<u8>, pos: int) {
    if 0 <= pos && pos < src.len() {
        lemma_char_len_bounds(src, pos);
    }
    if 0 <= pos && pos + 2 <= src.len() {
        lemma_line_end_bounds(src, pos + 2);
    }
}

/// The source text that a template part stands for: a literal part is its own
/// text, an interpolation part is its expression wrapped back into `${`...`}`.
pub open spec fn part_text(p: PartModel) -> Seq<u8> {
    match p {
        PartModel::Literal(text) => text,
        PartModel::Interpolation(expr) => seq![('$' as u8), ('{' as u8)] + expr + seq![('}' as u8)],
    }
}

/// The concatenation of the source texts of a sequence of template parts.
pub open spec fn reconstruct(parts: Seq<PartModel>) -> Seq<u8>
    decreases parts.len(),
{
    if parts.len() == 0 {
        Seq::empty()
    } else {
        part_text(parts[0]) + reconstruct(parts.skip(1))
    }
}

/// `lit_run_end` never moves backwards.
pub proof fn lemma_lit_run_end_ge(src: Seq<u8>, pos: int, delim: u8)
    ensures
        pos <= lit_run_end(src, pos, delim),
    decreases src.len() - pos,
{
    if !(pos < 0 || pos >= src.len() || tmpl_event(src, pos, delim)) {
        lemma_lit_run_end_ge(src, pos + 1, delim);
    }
}

/// Where `interp_close` finds a balancing `}`, that position is in range, at
/// or after the start, and holds a `}`.
pub proof fn lemma_interp_close_bounds(src: Seq<u8>, pos: int, depth: int)
    ensures
        match interp_close(src, pos, depth) {
            Some(cb) => pos <= cb < src.len() && src[cb] == ('}' as u8),
            None => true,
        },
    decreases src.len() - pos,
{
    if !(pos < 0 || pos >= src.len()) {
        if src[pos] == ('}' as u8) {
            if depth > 1 {
                lemma_interp_close_bounds(src, pos + 1, depth - 1);
            }
        } else if src[pos] == ('{' as u8) {
            lemma_interp_close_bounds(src, pos + 1, depth + 1);
        } else {
            lemma_interp_close_bounds(src, pos + 1, depth);
        }
    }
}

/// `line_end` stays between its start and the end of the source.
pub proof fn lemma_line_end_bounds(src: Seq<u8>, pos: int)
    requires
        0 <= pos <= src.len(),
    ensures
        pos <= line_end(src, pos) <= src.len(),
    decreases src.len() - pos,
{
    if !(pos >= src.len() || src[pos] == ('\n' as u8)) {
        lemma_line_end_bounds(src, pos + 1);
    }
}

/// `ident_end` stays between its start and the end of the source.
pub proof fn lemma_ident_end_bounds(src: Seq<u8>, pos: int)
    requires
        0 <= pos <= src.len(),
    ensures
        pos <= ident_end(src, pos) <= src.len(),
    decreases src.len() - pos,
{
    if !(pos >= src.len() || !is_ident_byte(src[pos])) {
        lemma_ident_end_bounds(src, pos + 1);
    }
}

/// `num_run_end` stays between its start and the end of the source.
pub proof fn lemma_num_run_end_bounds(src: Seq<u8>, pos: int)
    requires
        0 <= pos <= src.len(),
    ensures
        pos <= num_run_end(src, pos) <= src.len(),
    decreases src.len() - pos,
{
    if !(pos >= src.len() || !is_number_byte(src[pos])) {
        lemma_num_run_end_bounds(src, pos + 1);
    }
}

/// Where a template literal closes, the closing delimiter stands in range, at
/// or after the scan's start, and holds the delimiter byte.
pub proof fn lemma_scan_template_bounds(src: Seq<u8>, pos: int, delim: u8)
    ensures
        match scan_template(src, pos, delim) {
            TmplScan::Closed { parts, close } => pos <= close < src.len() && src[close] == delim,
            TmplScan::Unterminated => true,
            TmplScan::UnclosedInterpolation { dollar } => pos <= dollar < src.len(),
        },
    decreases src.len() - pos,
{
    lemma_lit_run_end_ge(src, pos, delim);
    let e = lit_run_end(src, pos, delim);
    if e < src.len() && src[e] != delim {
        lemma_interp_close_bounds(src, e + 2, 1);
        match interp_close(src, e + 2, 1) {
            Some(cb) => {
                lemma_scan_template_bounds(src, cb + 1, delim);
            },
            None => {},
        }
    }
}

/// The bytes of the keyword `true`.
pub open spec fn kw_true() -> Seq<u8> {
    seq!['t' as u8, 'r' as u8, 'u' as u8, 'e' as u8]
}

/// The bytes of the keyword `false`.
pub open spec fn kw_false() -> Seq<u8> {
    seq!['f' as u8, 'a' as u8, 'l' as u8, 's' as u8, 'e' as u8]
}

/// The bytes of the keyword `nil`.
pub open spec fn kw_nil() -> Seq<u8> {
    seq!['n' as u8, 'i' as u8, 'l' as u8]
}

/// The bytes of the keyword `let`.
pub open spec fn kw_let() -> Seq<u8> {
    seq!['l' as u8, 'e' as u8, 't' as u8]
}

/// The bytes of the keyword `import`.
pub open spec fn kw_import() -> Seq<u8> {
    seq!['i' as u8, 'm' as u8, 'p' as u8, 'o' as u8, 'r' as u8, 't' as u8]
}

/// The bytes of the keyword `json`.
pub open spec fn kw_json() -> Seq<u8> {
    seq!['j' as u8, 's' as u8, 'o' as u8, 'n' as u8]
}

/// The bytes of the keyword `multipart`.
pub open spec fn kw_multipart() -> Seq<u8> {
    seq!['m' as u8, 'u' as u8, 'l' as u8, 't' as u8, 'i' as u8, 'p' as u8, 'a' as u8, 'r' as u8, 't' as u8]
}

/// The bytes of the keyword `raw`.
pub open spec fn kw_raw() -> Seq<u8> {
    seq!['r' as u8, 'a' as u8, 'w' as u8]
}

/// The bytes of the keyword `form`.
pub open spec fn kw_form() -> Seq<u8> {
    seq!['f' as u8, 'o' as u8, 'r' as u8, 'm' as u8]
}

/// The bytes of the keyword `save`.
pub open spec fn kw_save() -> Seq<u8> {
    seq!['s' as u8, 'a' as u8, 'v' as u8, 'e' as u8]
}

/// The bytes of the keyword `assert`.
pub open spec fn kw_assert() -> Seq<u8> {
    seq!['a' as u8, 's' as u8, 's' as u8, 'e' as u8, 'r' as u8, 't' as u8]
}

/// The bytes of the keyword `matches`.
pub open spec fn kw_matches() -> Seq<u8> {
    seq!['m' as u8, 'a' as u8, 't' as u8, 'c' as u8, 'h' as u8, 'e' as u8, 's' as u8]
}

/// The bytes of the keyword `in`.
pub open spec fn kw_in() -> Seq<u8> {
    seq!['i' as u8, 'n' as u8]
}

/// The bytes of the keyword `contains`.
pub open spec fn kw_contains() -> Seq<u8> {
    seq!['c' as u8, 'o' as u8, 'n' as u8, 't' as u8, 'a' as u8, 'i' as u8, 'n' as u8, 's' as u8]
}

/// The bytes of the keyword `test`.
pub open spec fn kw_test() -> Seq<u8> {
    seq!['t' as u8, 'e' as u8, 's' as u8, 't' as u8]
}

/// The bytes of the keyword `get`.
pub open spec fn kw_get() -> Seq<u8> {
    seq!['g' as u8, 'e' as u8, 't' as u8]
}

/// The bytes of the keyword `post`.
pub open spec fn kw_post() -> Seq<u8> {
    seq!['p' as u8, 'o' as u8, 's' as u8, 't' as u8]
}

/// The bytes of the keyword `put`.
pub open spec fn kw_put() -> Seq<u8> {
    seq!['p' as u8, 'u' as u8, 't' as u8]
}

/// The bytes of the keyword `delete`.
pub open spec fn kw_delete() -> Seq<u8> {
    seq!['d' as u8, 'e' as u8, 'l' as u8, 'e' as u8, 't' as u8, 'e' as u8]
}

/// The bytes of the keyword `name`.
pub open spec fn kw_name() -> Seq<u8> {
    seq!['n' as u8, 'a' as u8, 'm' as u8, 'e' as u8]
}

/// The bytes of the keyword `graphql`.
pub open spec fn kw_graphql() -> Seq<u8> {
    seq!['g' as u8, 'r' as u8, 'a' as u8, 'p' as u8, 'h' as u8, 'q' as u8, 'l' as u8]
}

/// The bytes of the keyword `ws`.
pub open spec fn kw_ws() -> Seq<u8> {
    seq!['w' as u8, 's' as u8]
}

/// The token kind of an identifier run: the matching keyword's kind, or
/// `Ident` when the run matches no keyword (exact, case-sensitive match).
pub open spec fn keyword_kind(s: Seq<u8>) -> KindModel {
    if s == kw_true() {
        KindModel::True
    } else if s == kw_false() {
        KindModel::False
    } else if s == kw_nil() {
        KindModel::Nil
    } else if s == kw_let() {
        KindModel::Let
    } else if s == kw_import() {
        KindModel::Import
    } else if s == kw_json() {
        KindModel::Json
    } else if s == kw_multipart() {
        KindModel::Multipart
    } else if s == kw_raw() {
        KindModel::Raw
    } else if s == kw_form() {
        KindModel::Form
    } else if s == kw_save() {
        KindModel::Save
    } else if s == kw_assert() {
        KindModel::Assert
    } else if s == kw_matches() {
        KindModel::Matches
    } else if s == kw_in() {
        KindModel::In
    } else if s == kw_contains() {
        KindModel::Contains
    } else if s == kw_test() {
        KindModel::Test
    } else if s == kw_get() {
        KindModel::Get
    } else if s == kw_post() {
        KindModel::Post
    } else if s == kw_put() {
        KindModel::Put
    } else if s == kw_delete() {
        KindModel::Delete
    } else if s == kw_name() {
        KindModel::Name
    } else if s == kw_graphql() {
        KindModel::Graphql
    } else if s == kw_ws() {
        KindModel::Ws
    } else {
        KindModel::Ident
    }
}


/// Where no byte of `[s, p)` stops a literal run and `p` is the end of the
/// source or stops the run, the run that starts at `s` ends exactly at `p`.
pub proof fn lemma_lit_run_end_pinpoint(src: Seq<u8>, s: int, p: int, delim: u8)
    requires
        0 <= s <= p <= src.len(),
        forall|i: int| s <= i < p ==> !tmpl_event(src, i, delim),
        p == src.len() || tmpl_event(src, p, delim),
    ensures
        lit_run_end(src, s, delim) == p,
    decreases p - s,
{
    if s < p {
        lemma_lit_run_end_pinpoint(src, s + 1, p, delim);
    }
}

/// Checks whether a byte is an ASCII decimal digit.
pub fn byte_is_digit(b: u8) -> (r: bool)
    ensures
        r == is_digit(b),
{
    ('0' as u8) <= b && b <= ('9' as u8)
}

/// Checks whether a byte is an ASCII letter.
pub fn byte_is_alpha(b: u8) -> (r: bool)
    ensures
        r == is_alpha(b),
{
    (('a' as u8) <= b && b <= ('z' as u8)) || (('A' as u8) <= b && b <= ('Z' as u8))
}

/// Checks whether a byte may stand in an identifier.
pub fn byte_is_ident(b: u8) -> (r: bool)
    ensures
        r == is_ident_byte(b),
{
    byte_is_alpha(b) || byte_is_digit(b)
}

/// Checks whether a byte is whitespace other than a newline.
pub fn byte_is_blank(b: u8) -> (r: bool)
    ensures
        r == is_blank_byte(b),
{
    b == 32 || b == 9 || b == 13 || b == 11 || b == 12
}

/// Checks whether a byte may open a template literal.
pub fn byte_is_quote(b: u8) -> (r: bool)
    ensures
        r == is_quote(b),
{
    b == ('`' as u8) || b == ('"' as u8) || b == ('\'' as u8)
}

/// Checks whether a byte may stand in a numeric literal run.
pub fn byte_is_number(b: u8) -> (r: bool)
    ensures
        r == is_number_byte(b),
{
    byte_is_digit(b) || b == ('.' as u8)
}

/// Checks whether a byte is a UTF-8 continuation byte.
pub fn byte_is_cont(b: u8) -> (r: bool)
    ensures
        r == is_cont_byte(b),
{
    128 <= b && b <= 191
}

/// The length of the UTF-8 sequence that starts at `pos`.
pub fn char_len(src: &Vec<u8>, pos: usize) -> (r: usize)
    requires
        pos < src@.len(),
    ensures
        r as int == char_len_at(src@, pos as int),
        1 <= r,
        pos + r <= src@.len(),
{
    let b = src[pos];
    if 194 <= b && b <= 223 && src.len() - pos > 1 && byte_is_cont(src[pos + 1]) {
        2
    } else if 224 <= b && b <= 239 && src.len() - pos > 2 && byte_is_cont(src[pos + 1])
        && byte_is_cont(src[pos + 2]) {
        3
    } else if 240 <= b && b <= 244 && src.len() - pos > 3 && byte_is_cont(src[pos + 1])
        && byte_is_cont(src[pos + 2]) && byte_is_cont(src[pos + 3]) {
        4
    } else {
        1
    }
}

/// Checks whether a code point has the above-ASCII white-space property.
fn is_ws_scalar(c: u32) -> (r: bool)
    ensures
        r == is_uni_ws_scalar(c as int),
{
    c == 0x85 || c == 0xA0 || c == 0x1680 || (0x2000 <= c && c <= 0x200A) || c == 0x2028 || c
        == 0x2029 || c == 0x202F || c == 0x205F || c == 0x3000
}

/// Checks whether the character at `pos` is whitespace above ASCII.
pub fn uni_ws_at(src: &Vec<u8>, pos: usize) -> (r: bool)
    requires
        pos < src@.len(),
    ensures
        r == is_uni_ws_at(src@, pos as int),
{
    let n = src.len();
    let l = char_len(src, pos);
    if l == 2 {
        proof {
            assert(pos + 2 <= n);
            assert(194 <= src@[pos as int] && src@[pos as int] <= 223 && is_cont_byte(
                src@[pos as int + 1],
            ));
        }
        let c: u32 = ((src[pos] as u32) - 192) * 64 + ((src[pos + 1] as u32) - 128);
        proof {
            assert(c as int == scalar_at(src@, pos as int));
        }
        is_ws_scalar(c)
    } else if l == 3 {
        proof {
            assert(pos + 3 <= n);
            assert(224 <= src@[pos as int] && src@[pos as int] <= 239 && is_cont_byte(
                src@[pos as int + 1],
            ) && is_cont_byte(src@[pos as int + 2]));
        }
        let c: u32 = ((src[pos] as u32) - 224) * 4096 + ((src[pos + 1] as u32) - 128) * 64 + ((
        src[pos + 2] as u32) - 128);
        proof {
            assert(c as int == scalar_at(src@, pos as int));
        }
        is_ws_scalar(c)
    } else {
        false
    }
}

/// Where every byte of `[s, p)` is an identifier byte and `p` is the end of
/// the source or holds none, the identifier run that starts at `s` ends
/// exactly at `p`.
pub proof fn lemma_ident_end_pinpoint(src: Seq<u8>, s: int, p: int)
    requires
        0 <= s <= p <= src.len(),
        forall|i: int| s <= i < p ==> is_ident_byte(src[i]),
        p == src.len() || !is_ident_byte(src[p]),
    ensures
        ident_end(src, s) == p,
    decreases p - s,
{
    if s < p {
        lemma_ident_end_pinpoint(src, s + 1, p);
    }
}

/// `lit_run_end` stays in range, and where it stops short of the end it
/// stops on an event.
pub proof fn lemma_lit_run_end_bounds(src: Seq<u8>, pos: int, delim: u8)
    requires
        0 <= pos <= src.len(),
    ensures
        pos <= lit_run_end(src, pos, delim) <= src.len(),
        lit_run_end(src, pos, delim) < src.len() ==> tmpl_event(
            src,
            lit_run_end(src, pos, delim),
            delim,
        ),
    decreases src.len() - pos,
{
    if pos < src.len() && !tmpl_event(src, pos, delim) {
        lemma_lit_run_end_bounds(src, pos + 1, delim);
    }
}

} // verus!
