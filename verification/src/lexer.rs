//! The token stream engine: a cursor over the source bytes that yields one
//! token or diagnostic per call, exactly as the model's `scan_at` prescribes.

use vstd::prelude::*;

use crate::keyword::classify_ident;
use crate::model::{
    byte_is_alpha, byte_is_blank, byte_is_digit, byte_is_ident, byte_is_number, byte_is_quote,
    char_len, char_len_at, ident_end, interp_close, is_digit, is_number_byte,
    lemma_lit_run_end_pinpoint, lemma_num_run_end_bounds, line_end, num_run_end, scan_at,
    scan_template, tmpl_event, uni_ws_at, ScanStep, TmplScan,
};
use crate::number::{count_dots_exec, digits_of, int_literal_shape, parse_int};

pub use crate::token::{Diagnostic, DiagnosticKind, KindModel, NumericError, PartModel,
    TemplatePart, Token, TokenKind};

use crate::token::parts_view;

verus! {

/// Copies the bytes of `src[start..end]` into a fresh vector.
fn copy_range(src: &Vec<u8>, start: usize, end: usize) -> (r: Vec<u8>)
    requires
        start <= end <= src@.len(),
    ensures
        r@ == src@.subrange(start as int, end as int),
{
    let mut r: Vec<u8> = Vec::new();
    let mut i: usize = start;
    while i < end
        invariant
            start <= i <= end <= src@.len(),
            r@ == src@.subrange(start as int, i as int),
        decreases end - i,
    {
        r.push(src[i]);
        i = i + 1;
        proof {
            assert(r@ =~= src@.subrange(start as int, i as int));
        }
    }
    r
}

/// What one call of `next` yields at cursor position `pos`, and where it
/// leaves the cursor: exactly what `scan_at` prescribes. After a diagnostic
/// the cursor has made progress but its exact position is not promised;
/// scanning is not guaranteed to be resumable after a fatal condition.
pub open spec fn next_result_matches(
    src: Seq<u8>,
    pos: int,
    new_pos: int,
    r: Option<Result<Token, Diagnostic>>,
) -> bool {
    match scan_at(src, pos) {
        ScanStep::End => r is None && new_pos == src.len(),
        ScanStep::Tok { kind, start, end } => match r {
            Some(Ok(t)) => t.kind@ == kind && t.offset == start && t.origin@ == src.subrange(
                start,
                end,
            ) && new_pos == end,
            _ => false,
        },
        ScanStep::Fail { kind, start, end } => match r {
            Some(Err(d)) => d.kind == kind && d.span_start == start && d.span_end == end
                && d.source@ == src && pos < new_pos <= src.len(),
            _ => false,
        },
    }
}

/// The lexer: borrows nothing, owns the source bytes and a cursor. One
/// instance scans its source front to back exactly once; after exhaustion or
/// a fatal condition a fresh instance must be built to re-scan.
pub struct Lexer {
    source: Vec<u8>,
    pos: usize,
}

impl Lexer {
    /// The whole source text this lexer scans.
    pub closed spec fn src(&self) -> Seq<u8> {
        self.source@
    }

    /// The cursor: the byte offset where the next scan starts.
    pub closed spec fn cursor(&self) -> int {
        self.pos as int
    }

    /// The cursor never stands past the end of the source.
    pub open spec fn wf(&self) -> bool {
        self.cursor() <= self.src().len()
    }

    /// Builds a lexer over the given source bytes, with the cursor at the
    /// start.
    pub fn new(input: Vec<u8>) -> (lexer: Lexer)
        ensures
            lexer.wf(),
            lexer.src() == input@,
            lexer.cursor() == 0,
    {
        Lexer { source: input, pos: 0 }
    }

    /// Builds a diagnostic over this lexer's source: the diagnostic builder
    /// shared by every sub-scanner.
    fn diag(&self, kind: DiagnosticKind, start: usize, end: usize) -> (d: Diagnostic)
        ensures
            d.kind == kind,
            d.span_start == start,
            d.span_end == end,
            d.source@ == self.src(),
    {
        let source = copy_range(&self.source, 0, self.source.len());
        proof {
            assert(self.source@.subrange(0, self.source@.len() as int) =~= self.source@);
        }
        Diagnostic { kind, span_start: start, span_end: end, source }
    }

    /// Consumes the body of one `${...}` interpolation by counting brace
    /// depth. On entry the cursor stands just past the `${` that opened it,
    /// two bytes after `dollar`.
    fn extract_interpolation(&mut self, dollar: usize) -> (r: Result<Vec<u8>, Diagnostic>)
        requires
            old(self).wf(),
            dollar + 2 == old(self).cursor(),
        ensures
            final(self).wf(),
            final(self).src() == old(self).src(),
            match interp_close(old(self).src(), dollar + 2, 1) {
                Some(cb) => match r {
                    Ok(expr) => expr@ == old(self).src().subrange(dollar + 2, cb) && final(self).cursor()
                        == cb + 1,
                    Err(_) => false,
                },
                None => match r {
                    Err(d) => d.kind == DiagnosticKind::UnclosedInterpolation && d.span_start
                        == dollar && d.span_end == old(self).src().len() && d.source@ == old(
                        self,
                    ).src() && final(self).cursor() == old(self).src().len(),
                    Ok(_) => false,
                },
            },
    {
        let ghost src = self.source@;
        let n = self.source.len();
        let mut depth: usize = 1;
        #[verifier::loop_isolation(false)]
        loop
            invariant
                self.source@ == src,
                n == src.len(),
                dollar + 2 <= self.pos <= n,
                1 <= depth,
                depth <= self.pos - dollar - 1,
                interp_close(src, dollar + 2, 1) == interp_close(
                    src,
                    self.pos as int,
                    depth as int,
                ),
            decreases n - self.pos,
        {
            if self.pos >= n {
                let d = self.diag(DiagnosticKind::UnclosedInterpolation, dollar, n);
                return Err(d);
            }
            let b = self.source[self.pos];
            if b == ('}' as u8) {
                if depth == 1 {
                    let expr = copy_range(&self.source, dollar + 2, self.pos);
                    self.pos = self.pos + 1;
                    return Ok(expr);
                }
                depth = depth - 1;
                self.pos = self.pos + 1;
            } else if b == ('{' as u8) {
                depth = depth + 1;
                self.pos = self.pos + 1;
            } else {
                self.pos = self.pos + 1;
            }
        }
    }

    /// Scans one numeric literal: the maximal run of digits and dots that
    /// starts at `start` (a digit, or a `-` directly before a digit). On
    /// entry the cursor stands one byte past `start`.
    fn lex_number_literal(&mut self, start: usize) -> (r: Result<Token, Diagnostic>)
        requires
            old(self).wf(),
            start + 1 == old(self).cursor(),
            start < old(self).src().len(),
            is_digit(old(self).src()[start as int]) || (old(self).src()[start as int] == (
            '-' as u8) && start + 1 < old(self).src().len() && is_digit(
                old(self).src()[start as int + 1],
            )),
        ensures
            final(self).wf(),
            final(self).src() == old(self).src(),
            ({
                let src = old(self).src();
                match crate::model::number_step(src, start as int, num_run_end(src, start as int + 1)) {
                    ScanStep::Tok { kind, start: s, end } => match r {
                        Ok(t) => t.kind@ == kind && t.offset == s && t.origin@ == src.subrange(
                            s,
                            end,
                        ) && final(self).cursor() == end,
                        Err(_) => false,
                    },
                    ScanStep::Fail { kind, start: s, end } => match r {
                        Err(d) => d.kind == kind && d.span_start == s && d.span_end == end
                            && d.source@ == src && final(self).cursor() == end,
                        Ok(_) => false,
                    },
                    ScanStep::End => false,
                }
            }),
    {
        let ghost src = self.source@;
        let n = self.source.len();
        let mut j: usize = start + 1;
        while j < n && byte_is_number(self.source[j])
            invariant
                self.source@ == src,
                n == src.len(),
                start + 1 <= j <= n,
                forall|i: int| start + 1 <= i < j ==> is_number_byte(src[i]),
                num_run_end(src, start as int + 1) == num_run_end(src, j as int),
            decreases n - j,
        {
            j = j + 1;
        }
        let ghost end = num_run_end(src, start as int + 1);
        proof {
            assert(end == j);
        }
        let lit = copy_range(&self.source, start, j);
        self.pos = j;
        let dots = count_dots_exec(&lit);
        if dots >= 2 {
            let d = self.diag(
                DiagnosticKind::MalformedNumericLiteral { cause: NumericError::InvalidFloat },
                start,
                j,
            );
            return Err(d);
        }
        if dots == 1 {
            let text = copy_range(&self.source, start, j);
            return Ok(
                Token { origin: lit, offset: start, kind: TokenKind::Double { text } },
            );
        }
        proof {
            crate::number::lemma_count_dots_zero(lit@);
            if src[start as int] == ('-' as u8) {
                assert(is_digit(src[start as int + 1]));
                assert(num_run_end(src, start as int + 1) == num_run_end(src, start as int + 2));
                lemma_num_run_end_bounds(src, start as int + 2);
                assert(j >= start + 2);
                assert(digits_of(lit@) == lit@.skip(1));
                assert(forall|k: int|
                    0 <= k < lit@.skip(1).len() ==> lit@.skip(1)[k] == src[start + 1 + k]);
                assert(int_literal_shape(lit@));
            } else {
                assert(is_digit(lit@[0]));
                assert(digits_of(lit@) == lit@);
                assert(int_literal_shape(lit@));
            }
        }
        match parse_int(&lit) {
            Some(v) => Ok(Token { origin: lit, offset: start, kind: TokenKind::Integer(v) }),
            None => {
                let neg = lit[0] == ('-' as u8);
                proof {
                    crate::number::lemma_dec_val_nonneg(digits_of(lit@));
                }
                let cause = if neg {
                    NumericError::TooSmall
                } else {
                    NumericError::TooLarge
                };
                let d = self.diag(
                    DiagnosticKind::MalformedNumericLiteral { cause },
                    start,
                    j,
                );
                Err(d)
            },
        }
    }

    /// Scans one template literal that opened at `open` with delimiter
    /// `delim`. On entry the cursor stands just past the opening delimiter.
    fn lex_template_literal(&mut self, open: usize, delim: u8) -> (r: Result<Token, Diagnostic>)
        requires
            old(self).wf(),
            open + 1 == old(self).cursor(),
            open < old(self).src().len(),
            old(self).src()[open as int] == delim,
        ensures
            final(self).wf(),
            final(self).src() == old(self).src(),
            ({
                let src = old(self).src();
                match scan_template(src, open as int + 1, delim) {
                    TmplScan::Closed { parts, close } => match r {
                        Ok(t) => t.offset == open && t.origin@ == src.subrange(
                            open as int,
                            close + 1,
                        ) && t.kind@ == (KindModel::TemplateLiteral {
                            content: src.subrange(open as int + 1, close),
                            parts,
                        }) && final(self).cursor() == close + 1,
                        Err(_) => false,
                    },
                    TmplScan::Unterminated => match r {
                        Err(d) => d.kind == DiagnosticKind::UnterminatedTemplate && d.span_start
                            == open && d.span_end == src.len() && d.source@ == src
                            && final(self).cursor() == src.len(),
                        Ok(_) => false,
                    },
                    TmplScan::UnclosedInterpolation { dollar } => match r {
                        Err(d) => d.kind == DiagnosticKind::UnclosedInterpolation && d.span_start
                            == dollar && d.span_end == src.len() && d.source@ == src
                            && final(self).cursor() == src.len(),
                        Ok(_) => false,
                    },
                }
            }),
    {
        let ghost src = self.source@;
        let n = self.source.len();
        let mut parts: Vec<TemplatePart> = Vec::new();
        let mut cur: Vec<u8> = Vec::new();
        let ghost mut run_start: int = open as int + 1;
        proof {
            assert(parts_view(parts@) =~= Seq::<PartModel>::empty());
            lemma_glue_empty(scan_template(src, run_start, delim));
            assert(cur@ =~= src.subrange(run_start, run_start));
        }
        #[verifier::loop_isolation(false)]
        loop
            invariant
                self.source@ == src,
                open as int + 1 <= run_start,
                run_start <= self.pos as int <= n,
                cur@ == src.subrange(run_start, self.pos as int),
                forall|i: int| run_start <= i < self.pos as int ==> !tmpl_event(src, i, delim),
                glue(parts_view(parts@), scan_template(src, run_start, delim)) == scan_template(
                    src,
                    open as int + 1,
                    delim,
                ),
            decreases n - self.pos,
        {
            if self.pos >= n {
                proof {
                    lemma_lit_run_end_pinpoint(src, run_start, n as int, delim);
                    assert(scan_template(src, run_start, delim) == TmplScan::Unterminated);
                }
                let d = self.diag(DiagnosticKind::UnterminatedTemplate, open, n);
                return Err(d);
            }
            let b = self.source[self.pos];
            if b == delim {
                let close = self.pos;
                let ghost lead: Seq<PartModel> = if close as int > run_start {
                    seq![PartModel::Literal(src.subrange(run_start, close as int))]
                } else {
                    Seq::<PartModel>::empty()
                };
                proof {
                    assert(tmpl_event(src, close as int, delim));
                    lemma_lit_run_end_pinpoint(src, run_start, close as int, delim);
                    assert(scan_template(src, run_start, delim) == (TmplScan::Closed {
                        parts: lead,
                        close: close as int,
                    }));
                }
                self.pos = close + 1;
                let ghost flushed_from = parts@;
                if cur.len() > 0 {
                    parts.push(TemplatePart::Literal(cur));
                }
                proof {
                    assert(parts_view(parts@) =~= parts_view(flushed_from) + lead);
                    assert(scan_template(src, open as int + 1, delim) == (TmplScan::Closed {
                        parts: parts_view(parts@),
                        close: close as int,
                    }));
                }
                let content = copy_range(&self.source, open + 1, close);
                let origin = copy_range(&self.source, open, close + 1);
                return Ok(
                    Token {
                        origin,
                        offset: open,
                        kind: TokenKind::TemplateLiteral { content, parts },
                    },
                );
            } else if b == ('$' as u8) && self.pos + 1 < n && self.source[self.pos + 1] == (
            '{' as u8) {
                let dollar = self.pos;
                let ghost lead: Seq<PartModel> = if dollar as int > run_start {
                    seq![PartModel::Literal(src.subrange(run_start, dollar as int))]
                } else {
                    Seq::<PartModel>::empty()
                };
                proof {
                    assert(tmpl_event(src, dollar as int, delim));
                    lemma_lit_run_end_pinpoint(src, run_start, dollar as int, delim);
                }
                let ghost before_flush = parts@;
                if cur.len() > 0 {
                    parts.push(TemplatePart::Literal(cur));
                    cur = Vec::new();
                }
                proof {
                    assert(parts_view(parts@) =~= parts_view(before_flush) + lead);
                }
                self.pos = dollar + 2;
                let res = self.extract_interpolation(dollar);
                match res {
                    Ok(expr) => {
                        let ghost cb = self.pos as int - 1;
                        proof {
                            assert(interp_close(src, dollar as int + 2, 1) == Some(cb));
                            crate::model::lemma_interp_close_bounds(src, dollar as int + 2, 1);
                        }
                        let ghost before_interp = parts@;
                        parts.push(TemplatePart::Interpolation(expr));
                        proof {
                            let interp_part = PartModel::Interpolation(
                                src.subrange(dollar as int + 2, cb),
                            );
                            assert(parts_view(parts@) =~= parts_view(before_interp)
                                + seq![interp_part]);
                            assert(scan_template(src, run_start, delim) == glue(
                                lead + seq![interp_part],
                                scan_template(src, cb + 1, delim),
                            )) by {
                                match scan_template(src, cb + 1, delim) {
                                    TmplScan::Closed { parts: p2, close: c2 } => {
                                        assert(lead + seq![interp_part] + p2 =~= (lead
                                            + seq![interp_part]) + p2);
                                    },
                                    _ => {},
                                }
                            }
                            lemma_glue_assoc(
                                parts_view(before_flush),
                                lead + seq![interp_part],
                                scan_template(src, cb + 1, delim),
                            );
                            assert(parts_view(before_flush) + (lead + seq![interp_part])
                                =~= parts_view(parts@));
                            run_start = self.pos as int;
                            assert(cur@ =~= src.subrange(run_start, run_start));
                            assert(glue(parts_view(parts@), scan_template(src, run_start, delim))
                                == scan_template(src, open as int + 1, delim));
                        }
                    },
                    Err(d) => {
                        proof {
                            assert(scan_template(src, run_start, delim)
                                == (TmplScan::UnclosedInterpolation { dollar: dollar as int }));
                        }
                        return Err(d);
                    },
                }
            } else {
                cur.push(b);
                self.pos = self.pos + 1;
                proof {
                    assert(cur@ =~= src.subrange(run_start, self.pos as int));
                }
            }
        }
    }

    /// Scans past whitespace, runs of blank lines and `//` comments, then
    /// yields the next token (`Some(Ok(..))`) or diagnostic (`Some(Err(..))`),
    /// or `None` once the input is exhausted: exactly what the model's
    /// `scan_at` prescribes at the current cursor.
    pub fn next(&mut self) -> (r: Option<Result<Token, Diagnostic>>)
        requires
            old(self).wf(),
        ensures
            final(self).wf(),
            final(self).src() == old(self).src(),
            next_result_matches(old(self).src(), old(self).cursor(), final(self).cursor(), r),
    {
        let ghost src = self.source@;
        let ghost pos0 = self.pos as int;
        let n = self.source.len();
        #[verifier::loop_isolation(false)]
        loop
            invariant
                self.source@ == src,
                pos0 <= self.pos as int <= n,
                scan_at(src, self.pos as int) == scan_at(src, pos0),
            decreases n - self.pos,
        {
            if self.pos >= n {
                return None;
            }
            let pos = self.pos;
            let b = self.source[pos];
            if byte_is_blank(b) {
                self.pos = pos + 1;
            } else if uni_ws_at(&self.source, pos) {
                let l = char_len(&self.source, pos);
                self.pos = pos + l;
            } else if b == ('\n' as u8) {
                if pos + 1 < n && self.source[pos + 1] == ('\n' as u8) {
                    self.pos = pos + 1;
                } else {
                    self.pos = pos + 1;
                    let origin = copy_range(&self.source, pos, pos + 1);
                    return Some(Ok(Token { origin, offset: pos, kind: TokenKind::Newline }));
                }
            } else if b == ('/' as u8) && pos + 1 < n && self.source[pos + 1] == ('/' as u8) {
                let mut j: usize = pos + 2;
                #[verifier::loop_isolation(false)]
                while j < n && self.source[j] != ('\n' as u8)
                    invariant
                        pos + 2 <= j <= n,
                        line_end(src, pos as int + 2) == line_end(src, j as int),
                    decreases n - j,
                {
                    j = j + 1;
                }
                self.pos = j;
            } else if b == ('{' as u8) {
                self.pos = pos + 1;
                let origin = copy_range(&self.source, pos, pos + 1);
                return Some(Ok(Token { origin, offset: pos, kind: TokenKind::LeftBrace }));
            } else if b == ('}' as u8) {
                self.pos = pos + 1;
                let origin = copy_range(&self.source, pos, pos + 1);
                return Some(Ok(Token { origin, offset: pos, kind: TokenKind::RightBrace }));
            } else if b == (':' as u8) {
                self.pos = pos + 1;
                let origin = copy_range(&self.source, pos, pos + 1);
                return Some(Ok(Token { origin, offset: pos, kind: TokenKind::Colon }));
            } else if b == (',' as u8) {
                self.pos = pos + 1;
                let origin = copy_range(&self.source, pos, pos + 1);
                return Some(Ok(Token { origin, offset: pos, kind: TokenKind::Comma }));
            } else if b == ('!' as u8) {
                if pos + 1 < n && self.source[pos + 1] == ('=' as u8) {
                    self.pos = pos + 2;
                    let origin = copy_range(&self.source, pos, pos + 2);
                    return Some(Ok(Token { origin, offset: pos, kind: TokenKind::BangEqual }));
                } else {
                    self.pos = pos + 1;
                    let origin = copy_range(&self.source, pos, pos + 1);
                    return Some(Ok(Token { origin, offset: pos, kind: TokenKind::Bang }));
                }
            } else if b == ('=' as u8) {
                if pos + 1 < n && self.source[pos + 1] == ('=' as u8) {
                    self.pos = pos + 2;
                    let origin = copy_range(&self.source, pos, pos + 2);
                    return Some(Ok(Token { origin, offset: pos, kind: TokenKind::EqualEqual }));
                } else {
                    self.pos = pos + 1;
                    let origin = copy_range(&self.source, pos, pos + 1);
                    return Some(Ok(Token { origin, offset: pos, kind: TokenKind::Equal }));
                }
            } else if byte_is_alpha(b) {
                let mut j: usize = pos + 1;
                proof {
                    assert(ident_end(src, pos as int) == ident_end(src, pos as int + 1));
                }
                #[verifier::loop_isolation(false)]
                while j < n && byte_is_ident(self.source[j])
                    invariant
                        pos + 1 <= j <= n,
                        ident_end(src, pos as int) == ident_end(src, j as int),
                    decreases n - j,
                {
                    j = j + 1;
                }
                let lit = copy_range(&self.source, pos, j);
                let kind = classify_ident(&lit);
                self.pos = j;
                return Some(Ok(Token { origin: lit, offset: pos, kind }));
            } else if byte_is_digit(b) {
                self.pos = pos + 1;
                let res = self.lex_number_literal(pos);
                proof {
                    lemma_num_run_end_bounds(src, pos as int + 1);
                }
                return Some(res);
            } else if b == ('-' as u8) {
                if pos + 1 < n && byte_is_digit(self.source[pos + 1]) {
                    self.pos = pos + 1;
                    let res = self.lex_number_literal(pos);
                    proof {
                        lemma_num_run_end_bounds(src, pos as int + 1);
                    }
                    return Some(res);
                } else {
                    self.pos = pos + 1;
                    let d = self.diag(DiagnosticKind::StandaloneMinus, pos, pos + 1);
                    return Some(Err(d));
                }
            } else if byte_is_quote(b) {
                self.pos = pos + 1;
                let res = self.lex_template_literal(pos, b);
                return Some(res);
            } else {
                let l = char_len(&self.source, pos);
                self.pos = pos + l;
                let d = self.diag(DiagnosticKind::InvalidCharacter, pos, pos + l);
                return Some(Err(d));
            }
        }
    }
}

/// Prepends already-flushed parts to the outcome of scanning the rest of a
/// template literal.
spec fn glue(parts: Seq<PartModel>, t: TmplScan) -> TmplScan {
    match t {
        TmplScan::Closed { parts: rest, close } => TmplScan::Closed { parts: parts + rest, close },
        other => other,
    }
}

proof fn lemma_glue_empty(t: TmplScan)
    ensures
        glue(Seq::<PartModel>::empty(), t) == t,
{
    match t {
        TmplScan::Closed { parts: rest, close } => {
            assert(Seq::<PartModel>::empty() + rest =~= rest);
        },
        _ => {},
    }
}

proof fn lemma_glue_assoc(a: Seq<PartModel>, b: Seq<PartModel>, t: TmplScan)
    ensures
        glue(a, glue(b, t)) == glue(a + b, t),
{
    match t {
        TmplScan::Closed { parts: rest, close } => {
            assert(a + (b + rest) =~= (a + b) + rest);
        },
        _ => {},
    }
}

} // verus!

