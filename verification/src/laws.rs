//! Global properties of the scanner, stated and proved over the model.
//!
//! `Lexer::next` is verified to return exactly what `scan_at` prescribes, so
//! each property proved of `scan_at` here holds of every token and diagnostic
//! the executable lexer ever yields.

use vstd::prelude::*;

use crate::model::{
    blank_from, char_len_at, ident_end, interp_close, is_alpha, is_blank_byte, is_digit,
    is_ident_byte, is_quote, is_uni_ws_at, keyword_kind, lemma_char_len_bounds,
    lemma_ident_end_bounds, lemma_ident_end_pinpoint, lemma_interp_close_bounds,
    lemma_line_end_bounds, lemma_lit_run_end_bounds, lemma_num_run_end_bounds,
    lemma_scan_template_bounds, line_end, lit_run_end, part_text, reconstruct, scan_at,
    scan_template, ScanStep, TmplScan,
};
use crate::token::{KindModel, PartModel};

verus! {

/// A source text that is blank from `pos` onwards — nothing but whitespace
/// characters other than newlines (ASCII blanks and Unicode whitespace
/// alike), and `//` comments — yields no further item: the scan reaches the
/// end of the stream without producing a token or a diagnostic.
pub proof fn lemma_blank_scans_to_end(src: Seq<u8>, pos: int)
    requires
        blank_from(src, pos),
    ensures
        scan_at(src, pos) == ScanStep::End,
    decreases src.len() - pos,
{
    if pos < 0 || pos >= src.len() {
    } else if is_blank_byte(src[pos]) {
        lemma_blank_scans_to_end(src, pos + 1);
    } else if is_uni_ws_at(src, pos) {
        lemma_char_len_bounds(src, pos);
        lemma_blank_scans_to_end(src, pos + char_len_at(src, pos));
    } else {
        lemma_line_end_bounds(src, pos + 2);
        lemma_blank_scans_to_end(src, line_end(src, pos + 2));
    }
}

/// Every token's span lies within the source, at or after the position the
/// scan started from, and is never empty.
pub proof fn lemma_token_span_bounds(src: Seq<u8>, pos: int)
    requires
        0 <= pos,
    ensures
        match scan_at(src, pos) {
            ScanStep::Tok { kind: _, start, end } => pos <= start < end <= src.len(),
            _ => true,
        },
    decreases src.len() - pos,
{
    if pos < 0 || pos >= src.len() {
    } else {
        let b = src[pos];
        if is_blank_byte(b) {
            lemma_token_span_bounds(src, pos + 1);
        } else if is_uni_ws_at(src, pos) {
            lemma_char_len_bounds(src, pos);
            lemma_token_span_bounds(src, pos + char_len_at(src, pos));
        } else if b == ('\n' as u8) {
            if pos + 1 < src.len() && src[pos + 1] == ('\n' as u8) {
                lemma_token_span_bounds(src, pos + 1);
            }
        } else if b == ('/' as u8) && pos + 1 < src.len() && src[pos + 1] == ('/' as u8) {
            lemma_line_end_bounds(src, pos + 2);
            lemma_token_span_bounds(src, line_end(src, pos + 2));
        } else if is_alpha(b) {
            assert(ident_end(src, pos) == ident_end(src, pos + 1));
            lemma_ident_end_bounds(src, pos + 1);
        } else if is_digit(b) || b == ('-' as u8) {
            lemma_num_run_end_bounds(src, pos + 1);
        } else if is_quote(b) {
            lemma_scan_template_bounds(src, pos + 1, b);
        }
    }
}

/// Offsets are strictly non-decreasing and spans never overlap: where one
/// token is scanned at `p1` and a second token is scanned from where the
/// first ended, the first span ends at or before the second begins, and both
/// lie in order within the source.
pub proof fn lemma_consecutive_tokens_disjoint(
    src: Seq<u8>,
    p1: int,
    k1: KindModel,
    s1: int,
    e1: int,
    k2: KindModel,
    s2: int,
    e2: int,
)
    requires
        0 <= p1,
        scan_at(src, p1) == (ScanStep::Tok { kind: k1, start: s1, end: e1 }),
        scan_at(src, e1) == (ScanStep::Tok { kind: k2, start: s2, end: e2 }),
    ensures
        p1 <= s1 < e1 <= s2 < e2 <= src.len(),
{
    lemma_token_span_bounds(src, p1);
    lemma_token_span_bounds(src, e1);
}

/// Concatenating the source texts of parts distributes over appending part
/// sequences.
proof fn lemma_reconstruct_append(a: Seq<PartModel>, b: Seq<PartModel>)
    ensures
        reconstruct(a + b) == reconstruct(a) + reconstruct(b),
    decreases a.len(),
{
    if a.len() == 0 {
        assert(a + b =~= b);
        assert(reconstruct(a) + reconstruct(b) =~= reconstruct(b));
    } else {
        lemma_reconstruct_append(a.skip(1), b);
        assert((a + b).skip(1) =~= a.skip(1) + b);
        assert((a + b)[0] == a[0]);
        assert(part_text(a[0]) + (reconstruct(a.skip(1)) + reconstruct(b)) =~= (part_text(a[0])
            + reconstruct(a.skip(1))) + reconstruct(b));
    }
}

/// Where the body of a template literal closes, rebuilding the scanned parts
/// — literal parts verbatim, interpolation parts as `${`, expression, `}` —
/// yields exactly the source slice from the scan's start to the closing
/// delimiter.
pub proof fn lemma_scan_template_reconstruct(src: Seq<u8>, pos: int, delim: u8)
    requires
        0 <= pos <= src.len(),
    ensures
        match scan_template(src, pos, delim) {
            TmplScan::Closed { parts, close } => reconstruct(parts) == src.subrange(pos, close),
            _ => true,
        },
    decreases src.len() - pos,
{
    lemma_lit_run_end_bounds(src, pos, delim);
    let e = lit_run_end(src, pos, delim);
    let lead: Seq<PartModel> = if e > pos {
        seq![PartModel::Literal(src.subrange(pos, e))]
    } else {
        seq![]
    };
    assert(reconstruct(lead) == src.subrange(pos, e)) by {
        if e > pos {
            assert(lead[0] == PartModel::Literal(src.subrange(pos, e)));
            assert(lead.skip(1) =~= Seq::<PartModel>::empty());
            assert(reconstruct(Seq::<PartModel>::empty()) == Seq::<u8>::empty());
            assert(reconstruct(lead) == part_text(lead[0]) + reconstruct(lead.skip(1)));
            assert(src.subrange(pos, e) + Seq::<u8>::empty() =~= src.subrange(pos, e));
        } else {
            assert(reconstruct(lead) == Seq::<u8>::empty());
            assert(src.subrange(pos, e) =~= Seq::<u8>::empty());
        }
    }
    if e >= src.len() {
    } else if src[e] == delim {
    } else {
        assert(src[e] == ('$' as u8) && e + 1 < src.len() && src[e + 1] == ('{' as u8));
        match interp_close(src, e + 2, 1) {
            None => {},
            Some(cb) => {
                lemma_interp_close_bounds(src, e + 2, 1);
                lemma_scan_template_reconstruct(src, cb + 1, delim);
                match scan_template(src, cb + 1, delim) {
                    TmplScan::Closed { parts: p2, close } => {
                        lemma_scan_template_bounds(src, cb + 1, delim);
                        let interp_part = PartModel::Interpolation(src.subrange(e + 2, cb));
                        lemma_reconstruct_append(lead + seq![interp_part], p2);
                        lemma_reconstruct_append(lead, seq![interp_part]);
                        assert(reconstruct(seq![interp_part]) == part_text(interp_part)) by {
                            assert(seq![interp_part][0] == interp_part);
                            assert(seq![interp_part].skip(1) =~= Seq::<PartModel>::empty());
                            assert(reconstruct(Seq::<PartModel>::empty()) == Seq::<u8>::empty());
                            assert(reconstruct(seq![interp_part]) == part_text(seq![interp_part][0])
                                + reconstruct(seq![interp_part].skip(1)));
                            assert(part_text(interp_part) + Seq::<u8>::empty() =~= part_text(
                                interp_part,
                            ));
                        }
                        assert(src.subrange(pos, e) + (seq![('$' as u8), ('{' as u8)]
                            + src.subrange(e + 2, cb) + seq![('}' as u8)]) + src.subrange(
                            cb + 1,
                            close,
                        ) =~= src.subrange(pos, close));
                    },
                    _ => {},
                }
            },
        }
    }
}

/// Round-trip law: for every template literal token the scan produces,
/// rebuilding `content` from `parts` — each literal part verbatim, each
/// interpolation part as `${` + expression + `}` — yields exactly `content`.
pub proof fn lemma_template_round_trip(src: Seq<u8>, pos: int)
    requires
        0 <= pos,
    ensures
        match scan_at(src, pos) {
            ScanStep::Tok { kind: KindModel::TemplateLiteral { content, parts }, start: _, end: _ } =>
                reconstruct(parts) == content,
            _ => true,
        },
    decreases src.len() - pos,
{
    if pos < 0 || pos >= src.len() {
    } else {
        let b = src[pos];
        if is_blank_byte(b) {
            lemma_template_round_trip(src, pos + 1);
        } else if is_uni_ws_at(src, pos) {
            lemma_char_len_bounds(src, pos);
            lemma_template_round_trip(src, pos + char_len_at(src, pos));
        } else if b == ('\n' as u8) {
            if pos + 1 < src.len() && src[pos + 1] == ('\n' as u8) {
                lemma_template_round_trip(src, pos + 1);
            }
        } else if b == ('/' as u8) && pos + 1 < src.len() && src[pos + 1] == ('/' as u8) {
            lemma_line_end_bounds(src, pos + 2);
            lemma_template_round_trip(src, line_end(src, pos + 2));
        } else if is_quote(b) {
            lemma_scan_template_reconstruct(src, pos + 1, b);
        }
    }
}

/// Any maximal alphanumeric word that starts with a letter scans to exactly
/// one token covering the whole string, whose kind is the keyword table's
/// answer for the word; after it the stream ends.
pub proof fn lemma_word_scans_to_one_token(s: Seq<u8>)
    requires
        s.len() > 0,
        is_alpha(s[0]),
        forall|i: int| 0 <= i < s.len() ==> is_ident_byte(s[i]),
    ensures
        scan_at(s, 0) == (ScanStep::Tok {
            kind: keyword_kind(s),
            start: 0,
            end: s.len() as int,
        }),
        scan_at(s, s.len() as int) == ScanStep::End,
{
    lemma_ident_end_pinpoint(s, 0, s.len() as int);
    assert(s.subrange(0, s.len() as int) =~= s);
}

/// Scanning a keyword string alone yields exactly one token, whose kind is
/// the corresponding keyword kind — never `Ident`; after it the stream ends.
pub proof fn lemma_keyword_scans_to_keyword(s: Seq<u8>)
    requires
        keyword_kind(s) != KindModel::Ident,
    ensures
        s.len() > 0,
        scan_at(s, 0) == (ScanStep::Tok {
            kind: keyword_kind(s),
            start: 0,
            end: s.len() as int,
        }),
        scan_at(s, s.len() as int) == ScanStep::End,
{
    assert(s.len() > 0 && is_alpha(s[0]));
    assert(forall|i: int| 0 <= i < s.len() ==> is_ident_byte(s[i]));
    lemma_word_scans_to_one_token(s);
}

/// Idempotence: what a scan yields is a function of the source text and the
/// cursor position alone. Lexers over equal source texts yield equal items
/// at every position, so re-scanning the same text with a fresh instance
/// repeats exactly the same sequence of tokens and diagnostics.
pub proof fn lemma_scan_deterministic(src1: Seq<u8>, src2: Seq<u8>, pos: int)
    requires
        src1 == src2,
    ensures
        scan_at(src1, pos) == scan_at(src2, pos),
{
}

} // verus!


