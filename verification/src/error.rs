//! Structured parse errors: a categorized reason where one can be determined,
//! the token kinds that would have been accepted, and the position of the
//! failure within the input.

use vstd::prelude::*;

verus! {

/// Why a parse failed, beyond "no alternative matched here".
#[derive(Clone, Copy, Debug, PartialEq, Eq, Structural)]
pub enum ParserErrorReason {
    /// `/` immediately following `/`.
    DoubleSlash,
    /// A `&`-delimited pair appearing before any `?`.
    AndBeforeQuestion,
    /// Two `{...}` forms with nothing between them.
    AdjacentCaptures,
    /// A second `?` after query parsing has begun.
    MultipleQuestions,
    /// An identifier containing the given disallowed character.
    BadRustIdent(char),
    /// A token was lexed but is illegal in the current grammatical position.
    NotAllowedStateTransition,
    /// The previously accepted token cannot occur in the current state.
    InvalidState,
    /// Any token appearing after the explicit terminator.
    TokensAfterEndToken,
}

/// A token kind that would have been accepted at a failure position.
#[derive(Clone, Copy, Debug, PartialEq, Eq, Structural)]
pub enum ExpectedToken {
    /// `/`
    Separator,
    /// A literal run of non-special characters.
    Literal,
    /// `{`
    CaptureBegin,
    /// `}`
    CloseBracket,
    /// `:`
    Colon,
    /// An identifier character.
    Ident,
    /// `?`
    QueryBegin,
    /// `&`
    QuerySeparator,
    /// `#`
    FragmentBegin,
    /// `=`
    Equals,
    /// `!`
    End,
}

/// Spec view of a [`ParseError`].
pub ghost struct ParseErrorView {
    pub reason: Option<ParserErrorReason>,
    pub expected: Seq<ExpectedToken>,
    pub offset: nat,
}

/// A parse failure: the optional categorized reason, the token kinds that
/// were acceptable at the failure position, and the character offset of the
/// failure within the full input.
#[derive(Clone, Debug, PartialEq, Eq)]
pub struct ParseError {
    /// Why the parse failed, when a specific cause could be determined.
    pub reason: Option<ParserErrorReason>,
    /// The token kinds that would have been accepted at the failure position.
    pub expected: Vec<ExpectedToken>,
    /// The character offset of the failure within the full input.
    pub offset: usize,
}

impl View for ParseError {
    type V = ParseErrorView;

    open spec fn view(&self) -> ParseErrorView {
        ParseErrorView {
            reason: self.reason,
            expected: self.expected@,
            offset: self.offset as nat,
        }
    }
}

impl ParseError {
    /// Builds an error with an empty expected set.
    pub fn with0(reason: Option<ParserErrorReason>, offset: usize) -> (r: ParseError)
        ensures
            r@ == (ParseErrorView { reason, expected: Seq::empty(), offset: offset as nat }),
    {
        let r = ParseError { reason, expected: Vec::new(), offset };
        proof { assert(r@.expected =~= Seq::<ExpectedToken>::empty()); }
        r
    }

    /// Builds an error expecting one token kind.
    pub fn with1(reason: Option<ParserErrorReason>, e1: ExpectedToken, offset: usize) -> (r: ParseError)
        ensures
            r@ == (ParseErrorView { reason, expected: seq![e1], offset: offset as nat }),
    {
        let mut expected: Vec<ExpectedToken> = Vec::new();
        expected.push(e1);
        let r = ParseError { reason, expected, offset };
        proof { assert(r@.expected =~= seq![e1]); }
        r
    }

    /// Builds an error expecting two token kinds.
    pub fn with2(
        reason: Option<ParserErrorReason>,
        e1: ExpectedToken,
        e2: ExpectedToken,
        offset: usize,
    ) -> (r: ParseError)
        ensures
            r@ == (ParseErrorView { reason, expected: seq![e1, e2], offset: offset as nat }),
    {
        let mut expected: Vec<ExpectedToken> = Vec::new();
        expected.push(e1);
        expected.push(e2);
        let r = ParseError { reason, expected, offset };
        proof { assert(r@.expected =~= seq![e1, e2]); }
        r
    }
}

/// Spec view of a [`PrettyParseError`].
pub ghost struct PrettyParseErrorView {
    pub error: ParseErrorView,
    pub input: Seq<char>,
    pub remaining: Seq<char>,
}

/// A parse failure together with the full original input and the unconsumed
/// remainder at the point where the failing token attempt began, so a caller
/// can render a "parsed up to here, expected one of ..." message.
#[derive(Clone, Debug, PartialEq, Eq)]
pub struct PrettyParseError {
    /// The failure itself.
    pub error: ParseError,
    /// The full original input.
    pub input: String,
    /// The unconsumed input from the start of the failing token attempt.
    pub remaining: String,
}

impl View for PrettyParseError {
    type V = PrettyParseErrorView;

    open spec fn view(&self) -> PrettyParseErrorView {
        PrettyParseErrorView {
            error: self.error@,
            input: self.input@,
            remaining: self.remaining@,
        }
    }
}

} // verus!
