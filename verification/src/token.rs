//! Token and diagnostic value types, together with their mathematical models.
//!
//! Exec types hold their text as `Vec<u8>`; the corresponding models replace
//! each `Vec<u8>` with a `Seq<u8>`, so that contracts can speak of token
//! contents as mathematical sequences.

use vstd::prelude::*;

verus! {

/// One part of a template literal: either a raw literal run or the unparsed
/// text of a `${...}` interpolation (without the `${` and `}` delimiters).
#[derive(Debug, Clone, PartialEq)]
pub enum TemplatePart {
    Literal(Vec<u8>),
    Interpolation(Vec<u8>),
}

/// Model of a `TemplatePart`: the same shape over `Seq<u8>`.
pub enum PartModel {
    Literal(Seq<u8>),
    Interpolation(Seq<u8>),
}

impl View for TemplatePart {
    type V = PartModel;

    open spec fn view(&self) -> PartModel {
        match self {
            TemplatePart::Literal(text) => PartModel::Literal(text@),
            TemplatePart::Interpolation(expr) => PartModel::Interpolation(expr@),
        }
    }
}

/// The models of a sequence of template parts, element by element.
pub open spec fn parts_view(parts: Seq<TemplatePart>) -> Seq<PartModel> {
    parts.map_values(|p: TemplatePart| p@)
}

/// The kind of a token.
///
/// Keyword and operator kinds carry no payload; a template literal carries the
/// exact source slice between its delimiters together with its parsed parts; a
/// `Double` carries the exact text of the literal (always containing exactly
/// one `.`), which downstream consumers may convert to a floating-point value.
#[derive(Debug, Clone, PartialEq)]
pub enum TokenKind {
    Let,
    Import,
    Json,
    Multipart,
    Raw,
    Form,
    Save,
    Assert,
    Matches,
    In,
    Contains,
    Test,
    Graphql,
    Ws,
    Get,
    Post,
    Put,
    Delete,
    Name,
    Ident,
    TemplateLiteral { content: Vec<u8>, parts: Vec<TemplatePart> },
    Double { text: Vec<u8> },
    Integer(i64),
    Nil,
    True,
    False,
    LeftBrace,
    RightBrace,
    Colon,
    Comma,
    Newline,
    Bang,
    Equal,
    BangEqual,
    EqualEqual,
}

/// Model of a `TokenKind`: the same variants over `Seq<u8>` and `int`.
pub enum KindModel {
    Let,
    Import,
    Json,
    Multipart,
    Raw,
    Form,
    Save,
    Assert,
    Matches,
    In,
    Contains,
    Test,
    Graphql,
    Ws,
    Get,
    Post,
    Put,
    Delete,
    Name,
    Ident,
    TemplateLiteral { content: Seq<u8>, parts: Seq<PartModel> },
    Double { text: Seq<u8> },
    Integer(int),
    Nil,
    True,
    False,
    LeftBrace,
    RightBrace,
    Colon,
    Comma,
    Newline,
    Bang,
    Equal,
    BangEqual,
    EqualEqual,
}

impl View for TokenKind {
    type V = KindModel;

    open spec fn view(&self) -> KindModel {
        match self {
            TokenKind::Let => KindModel::Let,
            TokenKind::Import => KindModel::Import,
            TokenKind::Json => KindModel::Json,
            TokenKind::Multipart => KindModel::Multipart,
            TokenKind::Raw => KindModel::Raw,
            TokenKind::Form => KindModel::Form,
            TokenKind::Save => KindModel::Save,
            TokenKind::Assert => KindModel::Assert,
            TokenKind::Matches => KindModel::Matches,
            TokenKind::In => KindModel::In,
            TokenKind::Contains => KindModel::Contains,
            TokenKind::Test => KindModel::Test,
            TokenKind::Graphql => KindModel::Graphql,
            TokenKind::Ws => KindModel::Ws,
            TokenKind::Get => KindModel::Get,
            TokenKind::Post => KindModel::Post,
            TokenKind::Put => KindModel::Put,
            TokenKind::Delete => KindModel::Delete,
            TokenKind::Name => KindModel::Name,
            TokenKind::Ident => KindModel::Ident,
            TokenKind::TemplateLiteral { content, parts } => KindModel::TemplateLiteral {
                content: content@,
                parts: parts_view(parts@),
            },
            TokenKind::Double { text } => KindModel::Double { text: text@ },
            TokenKind::Integer(v) => KindModel::Integer(*v as int),
            TokenKind::Nil => KindModel::Nil,
            TokenKind::True => KindModel::True,
            TokenKind::False => KindModel::False,
            TokenKind::LeftBrace => KindModel::LeftBrace,
            TokenKind::RightBrace => KindModel::RightBrace,
            TokenKind::Colon => KindModel::Colon,
            TokenKind::Comma => KindModel::Comma,
            TokenKind::Newline => KindModel::Newline,
            TokenKind::Bang => KindModel::Bang,
            TokenKind::Equal => KindModel::Equal,
            TokenKind::BangEqual => KindModel::BangEqual,
            TokenKind::EqualEqual => KindModel::EqualEqual,
        }
    }
}

/// A token: the exact source bytes it was scanned from (`origin`), the byte
/// offset of its first byte in the whole source, and its kind.
#[derive(Debug, Clone, PartialEq)]
pub struct Token {
    pub origin: Vec<u8>,
    pub offset: usize,
    pub kind: TokenKind,
}

/// Why a numeric literal failed to parse: the underlying failure that a
/// malformed-literal diagnostic reports.
#[derive(Debug, Clone, Copy, PartialEq, Eq, Structural)]
pub enum NumericError {
    /// The run holds more than one dot: no valid floating-point literal.
    InvalidFloat,
    /// A dotless literal larger than the largest 64-bit signed integer.
    TooLarge,
    /// A dotless literal smaller than the smallest 64-bit signed integer.
    TooSmall,
}

/// The class of a fatal scanning failure.
#[derive(Debug, Clone, Copy, PartialEq, Eq, Structural)]
pub enum DiagnosticKind {
    /// A character that starts no recognized token form; its span covers the
    /// character's whole UTF-8 sequence.
    InvalidCharacter,
    /// A `-` not immediately followed by a digit.
    StandaloneMinus,
    /// A template literal that never reaches its terminating delimiter.
    UnterminatedTemplate,
    /// A `${` that never reaches its balanced closing `}`.
    UnclosedInterpolation,
    /// A digit/`.` run that fails numeric parsing (multiple dots or overflow);
    /// carries the underlying failure.
    MalformedNumericLiteral { cause: NumericError },
}

/// A structured report of a fatal scanning failure: a kind, a labeled byte
/// span into the original source, and the whole source text for rendering.
#[derive(Debug, Clone, PartialEq)]
pub struct Diagnostic {
    pub kind: DiagnosticKind,
    pub span_start: usize,
    pub span_end: usize,
    pub source: Vec<u8>,
}

/// The human-readable message for each diagnostic kind.
pub open spec fn kind_message(kind: DiagnosticKind) -> Seq<char> {
    match kind {
        DiagnosticKind::InvalidCharacter => "unexpected character in input"@,
        DiagnosticKind::StandaloneMinus => "a `-` must be followed by a digit"@,
        DiagnosticKind::UnterminatedTemplate => "expected a terminating delimiter"@,
        DiagnosticKind::UnclosedInterpolation => "expected a closing `}` for the interpolation"@,
        DiagnosticKind::MalformedNumericLiteral { cause } => match cause {
            NumericError::InvalidFloat => "invalid float literal"@,
            NumericError::TooLarge => "number too large to fit in target type"@,
            NumericError::TooSmall => "number too small to fit in target type"@,
        },
    }
}

/// The label attached to each diagnostic's span.
pub open spec fn kind_label(kind: DiagnosticKind) -> Seq<char> {
    match kind {
        DiagnosticKind::InvalidCharacter => "this character"@,
        DiagnosticKind::StandaloneMinus => "this character"@,
        DiagnosticKind::UnterminatedTemplate => "template literal termination error"@,
        DiagnosticKind::UnclosedInterpolation => "unclosed interpolation"@,
        DiagnosticKind::MalformedNumericLiteral { cause: _ } => "this numeric literal"@,
    }
}

impl Diagnostic {
    /// The human-readable message of this diagnostic.
    pub fn message(&self) -> (r: String)
        ensures
            r@ == kind_message(self.kind),
    {
        match self.kind {
            DiagnosticKind::InvalidCharacter => "unexpected character in input".to_owned(),
            DiagnosticKind::StandaloneMinus => "a `-` must be followed by a digit".to_owned(),
            DiagnosticKind::UnterminatedTemplate => "expected a terminating delimiter".to_owned(),
            DiagnosticKind::UnclosedInterpolation => "expected a closing `}` for the interpolation".to_owned(),
            DiagnosticKind::MalformedNumericLiteral { cause } => match cause {
                NumericError::InvalidFloat => "invalid float literal".to_owned(),
                NumericError::TooLarge => "number too large to fit in target type".to_owned(),
                NumericError::TooSmall => "number too small to fit in target type".to_owned(),
            },
        }
    }

    /// The label describing this diagnostic's span.
    pub fn label(&self) -> (r: String)
        ensures
            r@ == kind_label(self.kind),
    {
        match self.kind {
            DiagnosticKind::InvalidCharacter => "this character".to_owned(),
            DiagnosticKind::StandaloneMinus => "this character".to_owned(),
            DiagnosticKind::UnterminatedTemplate => "template literal termination error".to_owned(),
            DiagnosticKind::UnclosedInterpolation => "unclosed interpolation".to_owned(),
            DiagnosticKind::MalformedNumericLiteral { cause: _ } => "this numeric literal".to_owned(),
        }
    }
}

} // verus!
