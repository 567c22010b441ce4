//! The matcher-string parser: a state machine whose state records the
//! previous successfully parsed token, because legality of the next token
//! depends on exactly what came before.
//!
//! The transition table ([`transition_spec`]) is the single source of truth
//! for which token may follow which; the per-state alternative lists tried by
//! [`parse`] are derived from it, and [`lemma_step_obeys_transitions`] proves
//! the two halves agree: a token lexed in some state always transitions
//! legally out of that state.

use vstd::prelude::*;
use crate::error::{ExpectedToken, ParseError, ParseErrorView, ParserErrorReason, PrettyParseError,
    PrettyParseErrorView};
use crate::lexer::{capture, capture_spec, perr, query, query_spec,
    CaptureParse, CaptureSpecResult};
use crate::scan::{is_lit_char, lemma_run_len_bound, lit_char, lit_pred, run_len,
    scan_lit, FieldType};
use crate::tokens::{route_token_text, route_tokens_text, route_tokens_view, RouteParserToken,
    RouteTokenView};

verus! {

// ---------------------------------------------------------------------------
// Parser states and the transition table
// ---------------------------------------------------------------------------

/// Spec view of a parser state.
pub ghost enum ParserStateView {
    /// Nothing parsed yet.
    Start,
    /// Inside the path section.
    Path { prev_token: RouteTokenView },
    /// Inside the first query pair, or just after `?`.
    FirstQuery { prev_token: RouteTokenView },
    /// Inside a subsequent query pair, or just after `&`.
    NthQuery { prev_token: RouteTokenView },
    /// Inside the fragment section.
    Fragment { prev_token: RouteTokenView },
    /// The explicit terminator has been read; nothing may follow.
    End,
}

/// The states the parser can be in; each non-terminal state carries the
/// previous successfully parsed token.
pub enum ParserState {
    /// Nothing parsed yet.
    Start,
    /// Inside the path section.
    Path {
        /// The token parsed last.
        prev_token: RouteParserToken,
    },
    /// Inside the first query pair, or just after `?`.
    FirstQuery {
        /// The token parsed last.
        prev_token: RouteParserToken,
    },
    /// Inside a subsequent query pair, or just after `&`.
    NthQuery {
        /// The token parsed last.
        prev_token: RouteParserToken,
    },
    /// Inside the fragment section.
    Fragment {
        /// The token parsed last.
        prev_token: RouteParserToken,
    },
    /// The explicit terminator has been read; nothing may follow.
    End,
}

impl View for ParserState {
    type V = ParserStateView;

    open spec fn view(&self) -> ParserStateView {
        match self {
            ParserState::Start => ParserStateView::Start,
            ParserState::Path { prev_token } => ParserStateView::Path { prev_token: prev_token@ },
            ParserState::FirstQuery { prev_token } => ParserStateView::FirstQuery {
                prev_token: prev_token@,
            },
            ParserState::NthQuery { prev_token } => ParserStateView::NthQuery {
                prev_token: prev_token@,
            },
            ParserState::Fragment { prev_token } => ParserStateView::Fragment {
                prev_token: prev_token@,
            },
            ParserState::End => ParserStateView::End,
        }
    }
}

/// The valid state transition graph: which token may follow which, and the
/// state that results.  This table is the specification; the candidate lists
/// tried by the parser are an optimization of it.
pub open spec fn transition_spec(
    state: ParserStateView,
    token: RouteTokenView,
) -> Result<ParserStateView, ParserErrorReason> {
    match state {
        ParserStateView::Start => match token {
            RouteTokenView::Separator
            | RouteTokenView::Exact(_)
            | RouteTokenView::Capture(_) => Ok(ParserStateView::Path { prev_token: token }),
            RouteTokenView::QueryBegin => Ok(ParserStateView::FirstQuery { prev_token: token }),
            RouteTokenView::QuerySeparator
            | RouteTokenView::Query { .. } => Err(ParserErrorReason::NotAllowedStateTransition),
            RouteTokenView::FragmentBegin => Ok(ParserStateView::Fragment { prev_token: token }),
            RouteTokenView::End => Ok(ParserStateView::End),
        },
        ParserStateView::Path { prev_token } => match prev_token {
            RouteTokenView::Separator => match token {
                RouteTokenView::Exact(_)
                | RouteTokenView::Capture(_) => Ok(ParserStateView::Path { prev_token: token }),
                RouteTokenView::QueryBegin => Ok(ParserStateView::FirstQuery { prev_token: token }),
                RouteTokenView::FragmentBegin => Ok(ParserStateView::Fragment { prev_token: token }),
                RouteTokenView::End => Ok(ParserStateView::End),
                _ => Err(ParserErrorReason::NotAllowedStateTransition),
            },
            RouteTokenView::Exact(_) => match token {
                RouteTokenView::Separator
                | RouteTokenView::Capture(_) => Ok(ParserStateView::Path { prev_token: token }),
                RouteTokenView::QueryBegin => Ok(ParserStateView::FirstQuery { prev_token: token }),
                RouteTokenView::FragmentBegin => Ok(ParserStateView::Fragment { prev_token: token }),
                RouteTokenView::End => Ok(ParserStateView::End),
                _ => Err(ParserErrorReason::NotAllowedStateTransition),
            },
            RouteTokenView::Capture(_) => match token {
                RouteTokenView::Separator
                | RouteTokenView::Exact(_) => Ok(ParserStateView::Path { prev_token: token }),
                RouteTokenView::QueryBegin => Ok(ParserStateView::FirstQuery { prev_token: token }),
                RouteTokenView::FragmentBegin => Ok(ParserStateView::Fragment { prev_token: token }),
                RouteTokenView::End => Ok(ParserStateView::End),
                _ => Err(ParserErrorReason::NotAllowedStateTransition),
            },
            _ => Err(ParserErrorReason::InvalidState),
        },
        ParserStateView::FirstQuery { prev_token } => match prev_token {
            RouteTokenView::QueryBegin => match token {
                RouteTokenView::Query { .. } => Ok(ParserStateView::FirstQuery { prev_token: token }),
                _ => Err(ParserErrorReason::NotAllowedStateTransition),
            },
            RouteTokenView::Query { .. } => match token {
                RouteTokenView::QuerySeparator => Ok(ParserStateView::NthQuery { prev_token: token }),
                RouteTokenView::FragmentBegin => Ok(ParserStateView::Fragment { prev_token: token }),
                RouteTokenView::End => Ok(ParserStateView::End),
                _ => Err(ParserErrorReason::NotAllowedStateTransition),
            },
            _ => Err(ParserErrorReason::InvalidState),
        },
        ParserStateView::NthQuery { prev_token } => match prev_token {
            RouteTokenView::QuerySeparator => match token {
                RouteTokenView::Query { .. } => Ok(ParserStateView::NthQuery { prev_token: token }),
                _ => Err(ParserErrorReason::NotAllowedStateTransition),
            },
            RouteTokenView::Query { .. } => match token {
                RouteTokenView::QuerySeparator => Ok(ParserStateView::NthQuery { prev_token: token }),
                RouteTokenView::FragmentBegin => Ok(ParserStateView::Fragment { prev_token: token }),
                RouteTokenView::End => Ok(ParserStateView::End),
                _ => Err(ParserErrorReason::NotAllowedStateTransition),
            },
            _ => Err(ParserErrorReason::InvalidState),
        },
        ParserStateView::Fragment { prev_token } => match prev_token {
            RouteTokenView::FragmentBegin => match token {
                RouteTokenView::Exact(_)
                | RouteTokenView::Capture(_) => Ok(ParserStateView::Fragment { prev_token: token }),
                RouteTokenView::End => Ok(ParserStateView::End),
                _ => Err(ParserErrorReason::NotAllowedStateTransition),
            },
            RouteTokenView::Exact(_) => match token {
                RouteTokenView::Capture(_) => Ok(ParserStateView::Fragment { prev_token: token }),
                RouteTokenView::End => Ok(ParserStateView::End),
                _ => Err(ParserErrorReason::NotAllowedStateTransition),
            },
            RouteTokenView::Capture(_) => match token {
                RouteTokenView::Exact(_) => Ok(ParserStateView::Fragment { prev_token: token }),
                RouteTokenView::End => Ok(ParserStateView::End),
                _ => Err(ParserErrorReason::NotAllowedStateTransition),
            },
            _ => Err(ParserErrorReason::InvalidState),
        },
        ParserStateView::End => Err(ParserErrorReason::TokensAfterEndToken),
    }
}

impl ParserState {
    /// Given a new route parser token, transition to a new state, or report
    /// why the token is illegal here.  This function implements the valid
    /// state transition graph, [`transition_spec`].
    pub fn transition(self, token: RouteParserToken) -> (r: Result<Self, ParserErrorReason>)
        ensures
            match r {
                Ok(s2) => transition_spec(self@, token@) matches Ok(sv) && s2@ == sv,
                Err(reason) => transition_spec(self@, token@) matches Err(rv) && reason == rv,
            },
    {
        match self {
            ParserState::Start => match token {
                RouteParserToken::Separator
                | RouteParserToken::Exact(_)
                | RouteParserToken::Capture(_) => Ok(ParserState::Path { prev_token: token }),
                RouteParserToken::QueryBegin => Ok(ParserState::FirstQuery { prev_token: token }),
                RouteParserToken::QuerySeparator
                | RouteParserToken::Query { .. } => Err(ParserErrorReason::NotAllowedStateTransition),
                RouteParserToken::FragmentBegin => Ok(ParserState::Fragment { prev_token: token }),
                RouteParserToken::End => Ok(ParserState::End),
            },
            ParserState::Path { prev_token } => match prev_token {
                RouteParserToken::Separator => match token {
                    RouteParserToken::Exact(_) | RouteParserToken::Capture(_) => {
                        Ok(ParserState::Path { prev_token: token })
                    },
                    RouteParserToken::QueryBegin => Ok(ParserState::FirstQuery { prev_token: token }),
                    RouteParserToken::FragmentBegin => Ok(ParserState::Fragment { prev_token: token }),
                    RouteParserToken::End => Ok(ParserState::End),
                    _ => Err(ParserErrorReason::NotAllowedStateTransition),
                },
                RouteParserToken::Exact(_) => match token {
                    RouteParserToken::Separator | RouteParserToken::Capture(_) => {
                        Ok(ParserState::Path { prev_token: token })
                    },
                    RouteParserToken::QueryBegin => Ok(ParserState::FirstQuery { prev_token: token }),
                    RouteParserToken::FragmentBegin => Ok(ParserState::Fragment { prev_token: token }),
                    RouteParserToken::End => Ok(ParserState::End),
                    _ => Err(ParserErrorReason::NotAllowedStateTransition),
                },
                RouteParserToken::Capture(_) => match token {
                    RouteParserToken::Separator | RouteParserToken::Exact(_) => {
                        Ok(ParserState::Path { prev_token: token })
                    },
                    RouteParserToken::QueryBegin => Ok(ParserState::FirstQuery { prev_token: token }),
                    RouteParserToken::FragmentBegin => Ok(ParserState::Fragment { prev_token: token }),
                    RouteParserToken::End => Ok(ParserState::End),
                    _ => Err(ParserErrorReason::NotAllowedStateTransition),
                },
                _ => Err(ParserErrorReason::InvalidState),
            },
            ParserState::FirstQuery { prev_token } => match prev_token {
                RouteParserToken::QueryBegin => match token {
                    RouteParserToken::Query { .. } => Ok(ParserState::FirstQuery { prev_token: token }),
                    _ => Err(ParserErrorReason::NotAllowedStateTransition),
                },
                RouteParserToken::Query { .. } => match token {
                    RouteParserToken::QuerySeparator => Ok(ParserState::NthQuery { prev_token: token }),
                    RouteParserToken::FragmentBegin => Ok(ParserState::Fragment { prev_token: token }),
                    RouteParserToken::End => Ok(ParserState::End),
                    _ => Err(ParserErrorReason::NotAllowedStateTransition),
                },
                _ => Err(ParserErrorReason::InvalidState),
            },
            ParserState::NthQuery { prev_token } => match prev_token {
                RouteParserToken::QuerySeparator => match token {
                    RouteParserToken::Query { .. } => Ok(ParserState::NthQuery { prev_token: token }),
                    _ => Err(ParserErrorReason::NotAllowedStateTransition),
                },
                RouteParserToken::Query { .. } => match token {
                    RouteParserToken::QuerySeparator => Ok(ParserState::NthQuery { prev_token: token }),
                    RouteParserToken::FragmentBegin => Ok(ParserState::Fragment { prev_token: token }),
                    RouteParserToken::End => Ok(ParserState::End),
                    _ => Err(ParserErrorReason::NotAllowedStateTransition),
                },
                _ => Err(ParserErrorReason::InvalidState),
            },
            ParserState::Fragment { prev_token } => match prev_token {
                RouteParserToken::FragmentBegin => match token {
                    RouteParserToken::Exact(_) | RouteParserToken::Capture(_) => {
                        Ok(ParserState::Fragment { prev_token: token })
                    },
                    RouteParserToken::End => Ok(ParserState::End),
                    _ => Err(ParserErrorReason::NotAllowedStateTransition),
                },
                RouteParserToken::Exact(_) => match token {
                    RouteParserToken::Capture(_) => Ok(ParserState::Fragment { prev_token: token }),
                    RouteParserToken::End => Ok(ParserState::End),
                    _ => Err(ParserErrorReason::NotAllowedStateTransition),
                },
                RouteParserToken::Capture(_) => match token {
                    RouteParserToken::Exact(_) => Ok(ParserState::Fragment { prev_token: token }),
                    RouteParserToken::End => Ok(ParserState::End),
                    _ => Err(ParserErrorReason::NotAllowedStateTransition),
                },
                _ => Err(ParserErrorReason::InvalidState),
            },
            ParserState::End => Err(ParserErrorReason::TokensAfterEndToken),
        }
    }
}

// ---------------------------------------------------------------------------
// One parsing step
// ---------------------------------------------------------------------------

/// Token kinds acceptable at the very start, in the order they are tried.
pub open spec fn start_expected() -> Seq<ExpectedToken> {
    seq![
        ExpectedToken::Separator,
        ExpectedToken::QueryBegin,
        ExpectedToken::FragmentBegin,
        ExpectedToken::CaptureBegin,
        ExpectedToken::Literal,
        ExpectedToken::End,
    ]
}

/// Token kinds acceptable after a path separator.
pub open spec fn after_separator_expected() -> Seq<ExpectedToken> {
    seq![
        ExpectedToken::Literal,
        ExpectedToken::CaptureBegin,
        ExpectedToken::QueryBegin,
        ExpectedToken::FragmentBegin,
        ExpectedToken::End,
    ]
}

/// Token kinds acceptable after a path literal.
pub open spec fn after_exact_expected() -> Seq<ExpectedToken> {
    seq![
        ExpectedToken::Separator,
        ExpectedToken::CaptureBegin,
        ExpectedToken::QueryBegin,
        ExpectedToken::FragmentBegin,
        ExpectedToken::End,
    ]
}

/// Token kinds acceptable after a path capture.
pub open spec fn after_capture_expected() -> Seq<ExpectedToken> {
    seq![
        ExpectedToken::Separator,
        ExpectedToken::Literal,
        ExpectedToken::QueryBegin,
        ExpectedToken::FragmentBegin,
        ExpectedToken::End,
    ]
}

/// Token kinds acceptable after a complete query pair.
pub open spec fn after_query_expected() -> Seq<ExpectedToken> {
    seq![ExpectedToken::QuerySeparator, ExpectedToken::FragmentBegin, ExpectedToken::End]
}

/// Token kinds acceptable just after `#`.
pub open spec fn fragment_open_expected() -> Seq<ExpectedToken> {
    seq![ExpectedToken::Literal, ExpectedToken::CaptureBegin, ExpectedToken::End]
}

/// Token kinds acceptable after a fragment literal.
pub open spec fn fragment_after_exact_expected() -> Seq<ExpectedToken> {
    seq![ExpectedToken::CaptureBegin, ExpectedToken::End]
}

/// Token kinds acceptable after a fragment capture.
pub open spec fn fragment_after_capture_expected() -> Seq<ExpectedToken> {
    seq![ExpectedToken::Literal, ExpectedToken::End]
}

/// The diagnostic reason for a `&` where no query separator is legal yet.
pub open spec fn ampersand_reason(s: Seq<char>) -> Option<ParserErrorReason> {
    if s.len() > 0 && s[0] == '&' {
        Some(ParserErrorReason::AndBeforeQuestion)
    } else {
        None
    }
}

/// Overrides a query failure's reason when the offending character is a
/// second `?`.
pub open spec fn question_diag(e: ParseErrorView, s: Seq<char>) -> ParseErrorView {
    if s.len() > 0 && s[0] == '?' {
        perr(Some(ParserErrorReason::MultipleQuestions), e.expected, e.offset)
    } else {
        e
    }
}

/// The literal token at the head of `s` together with its length.
pub open spec fn lit_token(s: Seq<char>) -> (RouteTokenView, nat) {
    (RouteTokenView::Exact(s.take(run_len(s, lit_pred()) as int)), run_len(s, lit_pred()))
}

/// One step from the start state: separator, query begin, fragment begin,
/// capture, literal or terminator.
pub open spec fn step_start(s: Seq<char>, ft: FieldType, q: nat) -> Result<(RouteTokenView, nat), ParseErrorView> {
    if s.len() == 0 {
        Err(perr(None, start_expected(), q))
    } else if s[0] == '/' {
        Ok((RouteTokenView::Separator, 1))
    } else if s[0] == '?' {
        Ok((RouteTokenView::QueryBegin, 1))
    } else if s[0] == '#' {
        Ok((RouteTokenView::FragmentBegin, 1))
    } else if s[0] == '{' {
        match capture_spec(s, ft, false, q) {
            CaptureSpecResult::Token { cap, len } => Ok((RouteTokenView::Capture(cap), len)),
            CaptureSpecResult::Fail(e) => Err(e),
            // unreachable: the head of `s` is `{`
            CaptureSpecResult::NoMatch => Err(perr(None, Seq::empty(), q)),
        }
    } else if is_lit_char(s[0]) {
        Ok(lit_token(s))
    } else if s[0] == '!' {
        Ok((RouteTokenView::End, 1))
    } else {
        Err(perr(ampersand_reason(s), start_expected(), q))
    }
}

/// One step inside the path section, dispatching on the previous token.
pub open spec fn step_path(s: Seq<char>, prev: RouteTokenView, ft: FieldType, q: nat) -> Result<(RouteTokenView, nat), ParseErrorView> {
    match prev {
        RouteTokenView::Separator => if s.len() == 0 {
            Err(perr(None, after_separator_expected(), q))
        } else if is_lit_char(s[0]) {
            Ok(lit_token(s))
        } else if s[0] == '{' {
            match capture_spec(s, ft, false, q) {
                CaptureSpecResult::Token { cap, len } => Ok((RouteTokenView::Capture(cap), len)),
                CaptureSpecResult::Fail(e) => Err(e),
                CaptureSpecResult::NoMatch => Err(perr(None, Seq::empty(), q)),
            }
        } else if s[0] == '?' {
            Ok((RouteTokenView::QueryBegin, 1))
        } else if s[0] == '#' {
            Ok((RouteTokenView::FragmentBegin, 1))
        } else if s[0] == '!' {
            Ok((RouteTokenView::End, 1))
        } else if s[0] == '/' {
            Err(perr(Some(ParserErrorReason::DoubleSlash), after_separator_expected(), q))
        } else {
            Err(perr(ampersand_reason(s), after_separator_expected(), q))
        },
        RouteTokenView::Exact(_) => if s.len() == 0 {
            Err(perr(None, after_exact_expected(), q))
        } else if s[0] == '/' {
            Ok((RouteTokenView::Separator, 1))
        } else if s[0] == '{' {
            match capture_spec(s, ft, false, q) {
                CaptureSpecResult::Token { cap, len } => Ok((RouteTokenView::Capture(cap), len)),
                CaptureSpecResult::Fail(e) => Err(e),
                CaptureSpecResult::NoMatch => Err(perr(None, Seq::empty(), q)),
            }
        } else if s[0] == '?' {
            Ok((RouteTokenView::QueryBegin, 1))
        } else if s[0] == '#' {
            Ok((RouteTokenView::FragmentBegin, 1))
        } else if s[0] == '!' {
            Ok((RouteTokenView::End, 1))
        } else {
            Err(perr(ampersand_reason(s), after_exact_expected(), q))
        },
        RouteTokenView::Capture(_) => if s.len() == 0 {
            Err(perr(None, after_capture_expected(), q))
        } else if s[0] == '/' {
            Ok((RouteTokenView::Separator, 1))
        } else if is_lit_char(s[0]) {
            Ok(lit_token(s))
        } else if s[0] == '?' {
            Ok((RouteTokenView::QueryBegin, 1))
        } else if s[0] == '#' {
            Ok((RouteTokenView::FragmentBegin, 1))
        } else if s[0] == '!' {
            Ok((RouteTokenView::End, 1))
        } else if capture_spec(s, ft, false, q) is Token {
            Err(perr(Some(ParserErrorReason::AdjacentCaptures), after_capture_expected(), q))
        } else {
            Err(perr(ampersand_reason(s), after_capture_expected(), q))
        },
        _ => Err(perr(Some(ParserErrorReason::InvalidState), Seq::empty(), q)),
    }
}

/// One step inside a query section.  `first` distinguishes the section
/// opened by `?` from those opened by `&`.
pub open spec fn step_query(s: Seq<char>, prev: RouteTokenView, ft: FieldType, q: nat, first: bool) -> Result<(RouteTokenView, nat), ParseErrorView> {
    if (first && prev is QueryBegin) || (!first && prev is QuerySeparator) {
        match query_spec(s, ft, q) {
            Ok(r) => Ok(r),
            Err(e) => Err(question_diag(e, s)),
        }
    } else if prev is Query {
        if s.len() == 0 {
            Err(perr(None, after_query_expected(), q))
        } else if s[0] == '&' {
            Ok((RouteTokenView::QuerySeparator, 1))
        } else if s[0] == '#' {
            Ok((RouteTokenView::FragmentBegin, 1))
        } else if s[0] == '!' {
            Ok((RouteTokenView::End, 1))
        } else if s[0] == '?' {
            Err(perr(Some(ParserErrorReason::MultipleQuestions), after_query_expected(), q))
        } else {
            Err(perr(None, after_query_expected(), q))
        }
    } else {
        Err(perr(Some(ParserErrorReason::InvalidState), Seq::empty(), q))
    }
}

/// One step inside the fragment section: literals and single-section
/// captures may alternate, and neither may repeat.
pub open spec fn step_fragment(s: Seq<char>, prev: RouteTokenView, ft: FieldType, q: nat) -> Result<(RouteTokenView, nat), ParseErrorView> {
    match prev {
        RouteTokenView::FragmentBegin => if s.len() == 0 {
            Err(perr(None, fragment_open_expected(), q))
        } else if is_lit_char(s[0]) {
            Ok(lit_token(s))
        } else if s[0] == '{' {
            match capture_spec(s, ft, true, q) {
                CaptureSpecResult::Token { cap, len } => Ok((RouteTokenView::Capture(cap), len)),
                CaptureSpecResult::Fail(e) => Err(e),
                CaptureSpecResult::NoMatch => Err(perr(None, Seq::empty(), q)),
            }
        } else if s[0] == '!' {
            Ok((RouteTokenView::End, 1))
        } else {
            Err(perr(None, fragment_open_expected(), q))
        },
        RouteTokenView::Exact(_) => if s.len() == 0 {
            Err(perr(None, fragment_after_exact_expected(), q))
        } else if s[0] == '{' {
            match capture_spec(s, ft, true, q) {
                CaptureSpecResult::Token { cap, len } => Ok((RouteTokenView::Capture(cap), len)),
                CaptureSpecResult::Fail(e) => Err(e),
                CaptureSpecResult::NoMatch => Err(perr(None, Seq::empty(), q)),
            }
        } else if s[0] == '!' {
            Ok((RouteTokenView::End, 1))
        } else {
            Err(perr(None, fragment_after_exact_expected(), q))
        },
        RouteTokenView::Capture(_) => if s.len() == 0 {
            Err(perr(None, fragment_after_capture_expected(), q))
        } else if is_lit_char(s[0]) {
            Ok(lit_token(s))
        } else if s[0] == '!' {
            Ok((RouteTokenView::End, 1))
        } else {
            Err(perr(None, fragment_after_capture_expected(), q))
        },
        _ => Err(perr(Some(ParserErrorReason::InvalidState), Seq::empty(), q)),
    }
}

/// One parsing step: the state determines the candidate sub-parsers, and a
/// failure is classified by secondary diagnostic checks where one applies.
/// `s` is the remaining input and `q` its absolute offset.
pub open spec fn step_spec(s: Seq<char>, state: ParserStateView, ft: FieldType, q: nat) -> Result<(RouteTokenView, nat), ParseErrorView> {
    match state {
        ParserStateView::Start => step_start(s, ft, q),
        ParserStateView::Path { prev_token } => step_path(s, prev_token, ft, q),
        ParserStateView::FirstQuery { prev_token } => step_query(s, prev_token, ft, q, true),
        ParserStateView::NthQuery { prev_token } => step_query(s, prev_token, ft, q, false),
        ParserStateView::Fragment { prev_token } => step_fragment(s, prev_token, ft, q),
        ParserStateView::End => Err(perr(Some(ParserErrorReason::TokensAfterEndToken), Seq::empty(), q)),
    }
}

/// A successful step consumes at least one character and no more than
/// remain: the state machine always makes progress.
pub proof fn lemma_step_bounds(s: Seq<char>, state: ParserStateView, ft: FieldType, q: nat)
    ensures
        step_spec(s, state, ft, q) matches Ok(r) ==> 1 <= r.1 <= s.len(),
{
    lemma_run_len_bound(s, lit_pred());
    crate::lexer::lemma_capture_bounds(s, ft, false, q);
    crate::lexer::lemma_capture_bounds(s, ft, true, q);
    crate::lexer::lemma_query_bounds(s, ft, q);
}

/// The two halves of the state machine agree: any token the candidate
/// sub-parsers produce in some state transitions legally out of that state.
pub proof fn lemma_step_obeys_transitions(s: Seq<char>, state: ParserStateView, ft: FieldType, q: nat)
    ensures
        step_spec(s, state, ft, q) matches Ok(r) ==> transition_spec(state, r.0) is Ok,
{
}

// ---------------------------------------------------------------------------
// The full parse, spec level
// ---------------------------------------------------------------------------

/// Parses the remaining input `s` (at absolute offset `q`) to the end,
/// starting in `state`; `input` is the full input, carried along for error
/// reports.  Each iteration lexes one token, feeds it through the transition
/// table, and stops when the input is exhausted.
pub open spec fn parse_rest(
    s: Seq<char>,
    state: ParserStateView,
    ft: FieldType,
    q: nat,
    input: Seq<char>,
) -> Result<Seq<RouteTokenView>, PrettyParseErrorView>
    decreases s.len(),
    via parse_rest_decreases
{
    match step_spec(s, state, ft, q) {
        Err(e) => Err(PrettyParseErrorView { error: e, input, remaining: s }),
        Ok((tok, n)) => match transition_spec(state, tok) {
            Err(reason) => Err(PrettyParseErrorView {
                error: perr(Some(reason), Seq::empty(), q + n),
                input,
                remaining: s.skip(n as int),
            }),
            Ok(st2) => if n == s.len() {
                Ok(seq![tok])
            } else {
                match parse_rest(s.skip(n as int), st2, ft, q + n, input) {
                    Ok(ts) => Ok(seq![tok] + ts),
                    Err(e) => Err(e),
                }
            },
        },
    }
}

#[via_fn]
proof fn parse_rest_decreases(
    s: Seq<char>,
    state: ParserStateView,
    ft: FieldType,
    q: nat,
    input: Seq<char>,
) {
    lemma_step_bounds(s, state, ft, q);
}

/// Parses a whole matcher string into its token sequence, or the structured
/// error describing the first point of failure.
pub open spec fn parse_spec(input: Seq<char>, ft: FieldType) -> Result<Seq<RouteTokenView>, PrettyParseErrorView> {
    parse_rest(input, ParserStateView::Start, ft, 0, input)
}

// ---------------------------------------------------------------------------
// Laws of the parse
// ---------------------------------------------------------------------------

/// A successful step's token reads back as exactly the text it consumed.
proof fn lemma_step_text(s: Seq<char>, state: ParserStateView, ft: FieldType, q: nat)
    ensures
        step_spec(s, state, ft, q) matches Ok(r) ==> route_token_text(r.0) == s.take(r.1 as int),
{
    crate::lexer::lemma_capture_text(s, ft, false, q);
    crate::lexer::lemma_capture_text(s, ft, true, q);
    crate::lexer::lemma_query_text(s, ft, q);
    lemma_run_len_bound(s, lit_pred());
    if s.len() > 0 {
        assert(s.take(1) =~= seq![s[0]]);
    }
}

/// Text preservation for the rest of a parse: the renderings of the tokens
/// concatenate back to the remaining input they came from.
#[verifier::rlimit(100)]
#[verifier::spinoff_prover]
proof fn lemma_parse_rest_text(
    s: Seq<char>,
    state: ParserStateView,
    ft: FieldType,
    q: nat,
    input: Seq<char>,
)
    ensures
        parse_rest(s, state, ft, q, input) matches Ok(ts) ==> route_tokens_text(ts) == s,
    decreases s.len(),
{
    lemma_step_bounds(s, state, ft, q);
    lemma_step_text(s, state, ft, q);
    match step_spec(s, state, ft, q) {
        Ok((tok, n)) => match transition_spec(state, tok) {
            Ok(st2) => {
                if n == s.len() {
                    assert(seq![tok][0] == tok);
                    assert(seq![tok].skip(1) =~= Seq::<RouteTokenView>::empty());
                    assert(route_tokens_text(seq![tok])
                        == route_token_text(tok) + route_tokens_text(Seq::empty()));
                    assert(route_token_text(tok) + Seq::<char>::empty() =~= route_token_text(tok));
                    assert(s.take(n as int) =~= s);
                } else {
                    lemma_parse_rest_text(s.skip(n as int), st2, ft, q + n, input);
                    match parse_rest(s.skip(n as int), st2, ft, q + n, input) {
                        Ok(ts2) => {
                            let ts = seq![tok] + ts2;
                            assert(ts[0] == tok);
                            assert(ts.skip(1) =~= ts2);
                            assert(route_tokens_text(ts)
                                == route_token_text(tok) + route_tokens_text(ts2));
                            assert(route_tokens_text(ts2) == s.skip(n as int));
                            assert(route_token_text(tok) == s.take(n as int));
                            assert(s.take(n as int) + s.skip(n as int) =~= s);
                            assert(route_tokens_text(ts) == s);
                        },
                        Err(_) => {},
                    }
                }
            },
            Err(_) => {},
        },
        Err(_) => {},
    }
}

/// Law (round-trip literal preservation, parser half): the source renderings
/// of the parsed tokens concatenate back to exactly the input string.
pub proof fn lemma_parse_preserves_text(input: Seq<char>, ft: FieldType)
    ensures
        parse_spec(input, ft) matches Ok(ts) ==> route_tokens_text(ts) == input,
{
    lemma_parse_rest_text(input, ParserStateView::Start, ft, 0, input);
}

/// The terminator, if present in a token sequence, stands only as its final
/// element.
pub open spec fn end_only_last(ts: Seq<RouteTokenView>) -> bool {
    forall|k: int| 0 <= k < ts.len() && (#[trigger] ts[k]) is End ==> k == ts.len() - 1
}

/// Shape of every successful parse: at least one token comes out, and the
/// terminator can only be the last of them.
proof fn lemma_parse_rest_shape(
    s: Seq<char>,
    state: ParserStateView,
    ft: FieldType,
    q: nat,
    input: Seq<char>,
)
    ensures
        parse_rest(s, state, ft, q, input) matches Ok(ts) ==> ts.len() >= 1 && end_only_last(ts),
    decreases s.len(),
{
    lemma_step_bounds(s, state, ft, q);
    match step_spec(s, state, ft, q) {
        Ok((tok, n)) => match transition_spec(state, tok) {
            Ok(st2) => {
                if n == s.len() {
                } else {
                    lemma_parse_rest_shape(s.skip(n as int), st2, ft, q + n, input);
                    match parse_rest(s.skip(n as int), st2, ft, q + n, input) {
                        Ok(ts2) => {
                            let ts = seq![tok] + ts2;
                            if tok is End {
                                // every state sends the terminator to the
                                // terminal state, where the next step fails
                                assert(st2 == ParserStateView::End);
                                assert(false);
                            }
                            assert(forall|k: int| 1 <= k < ts.len() ==> ts[k] == ts2[k - 1]);
                        },
                        Err(_) => {},
                    }
                }
            },
            Err(_) => {},
        },
        Err(_) => {},
    }
}

/// Law: a successful parse never yields an empty sequence, and the explicit
/// terminator, when present, is always the last token and therefore unique.
pub proof fn lemma_parse_end_is_final(input: Seq<char>, ft: FieldType)
    ensures
        parse_spec(input, ft) matches Ok(ts) ==> ts.len() >= 1 && end_only_last(ts),
{
    lemma_parse_rest_shape(input, ParserStateView::Start, ft, 0, input);
}

// ---------------------------------------------------------------------------
// The executable parser
// ---------------------------------------------------------------------------

fn start_expected_vec() -> (v: Vec<ExpectedToken>)
    ensures
        v@ == start_expected(),
{
    let mut v: Vec<ExpectedToken> = Vec::new();
    v.push(ExpectedToken::Separator);
    v.push(ExpectedToken::QueryBegin);
    v.push(ExpectedToken::FragmentBegin);
    v.push(ExpectedToken::CaptureBegin);
    v.push(ExpectedToken::Literal);
    v.push(ExpectedToken::End);
    proof { assert(v@ =~= start_expected()); }
    v
}

fn after_separator_expected_vec() -> (v: Vec<ExpectedToken>)
    ensures
        v@ == after_separator_expected(),
{
    let mut v: Vec<ExpectedToken> = Vec::new();
    v.push(ExpectedToken::Literal);
    v.push(ExpectedToken::CaptureBegin);
    v.push(ExpectedToken::QueryBegin);
    v.push(ExpectedToken::FragmentBegin);
    v.push(ExpectedToken::End);
    proof { assert(v@ =~= after_separator_expected()); }
    v
}

fn after_exact_expected_vec() -> (v: Vec<ExpectedToken>)
    ensures
        v@ == after_exact_expected(),
{
    let mut v: Vec<ExpectedToken> = Vec::new();
    v.push(ExpectedToken::Separator);
    v.push(ExpectedToken::CaptureBegin);
    v.push(ExpectedToken::QueryBegin);
    v.push(ExpectedToken::FragmentBegin);
    v.push(ExpectedToken::End);
    proof { assert(v@ =~= after_exact_expected()); }
    v
}

fn after_capture_expected_vec() -> (v: Vec<ExpectedToken>)
    ensures
        v@ == after_capture_expected(),
{
    let mut v: Vec<ExpectedToken> = Vec::new();
    v.push(ExpectedToken::Separator);
    v.push(ExpectedToken::Literal);
    v.push(ExpectedToken::QueryBegin);
    v.push(ExpectedToken::FragmentBegin);
    v.push(ExpectedToken::End);
    proof { assert(v@ =~= after_capture_expected()); }
    v
}

fn after_query_expected_vec() -> (v: Vec<ExpectedToken>)
    ensures
        v@ == after_query_expected(),
{
    let mut v: Vec<ExpectedToken> = Vec::new();
    v.push(ExpectedToken::QuerySeparator);
    v.push(ExpectedToken::FragmentBegin);
    v.push(ExpectedToken::End);
    proof { assert(v@ =~= after_query_expected()); }
    v
}

fn fragment_open_expected_vec() -> (v: Vec<ExpectedToken>)
    ensures
        v@ == fragment_open_expected(),
{
    let mut v: Vec<ExpectedToken> = Vec::new();
    v.push(ExpectedToken::Literal);
    v.push(ExpectedToken::CaptureBegin);
    v.push(ExpectedToken::End);
    proof { assert(v@ =~= fragment_open_expected()); }
    v
}

fn fragment_after_exact_expected_vec() -> (v: Vec<ExpectedToken>)
    ensures
        v@ == fragment_after_exact_expected(),
{
    let mut v: Vec<ExpectedToken> = Vec::new();
    v.push(ExpectedToken::CaptureBegin);
    v.push(ExpectedToken::End);
    proof { assert(v@ =~= fragment_after_exact_expected()); }
    v
}

fn fragment_after_capture_expected_vec() -> (v: Vec<ExpectedToken>)
    ensures
        v@ == fragment_after_capture_expected(),
{
    let mut v: Vec<ExpectedToken> = Vec::new();
    v.push(ExpectedToken::Literal);
    v.push(ExpectedToken::End);
    proof { assert(v@ =~= fragment_after_capture_expected()); }
    v
}

/// Lexes the literal run starting at `pos` as one token.
fn lex_exact(i: &str, pos: usize) -> (r: (RouteParserToken, usize))
    requires
        pos < i@.len(),
        is_lit_char(i@[pos as int]),
    ensures
        r.0@ == lit_token(i@.skip(pos as int)).0,
        r.1 == pos + lit_token(i@.skip(pos as int)).1,
        r.1 <= i@.len(),
{
    let end = scan_lit(i, pos);
    proof {
        let s = i@.skip(pos as int);
        assert(s[0] == i@[pos as int]);
        assert(run_len(s, lit_pred()) >= 1);
        assert(s.take((end - pos) as int) =~= i@.subrange(pos as int, end as int));
    }
    let text = i.substring_char(pos, end).to_owned();
    (RouteParserToken::Exact(text), end)
}

/// Tries the candidate sub-parsers for the current state at `pos`, in order;
/// on failure, performs the diagnostic sub-parses that classify the error.
#[verifier::rlimit(100)]
#[verifier::spinoff_prover]
fn parse_impl(i: &str, pos: usize, state: &ParserState, field_type: FieldType) -> (r: Result<(RouteParserToken, usize), ParseError>)
    requires
        pos <= i@.len(),
    ensures
        ({
            let sp = step_spec(i@.skip(pos as int), state@, field_type, pos as nat);
            match r {
                Ok((tok, end)) => {
                    &&& sp matches Ok(rr) && tok@ == rr.0 && end == pos + rr.1
                    &&& end <= i@.len()
                },
                Err(e) => sp matches Err(ev) && e@ == ev,
            }
        }),
{
    let ghost s = i@.skip(pos as int);
    let len = i.unicode_len();
    proof {
        if pos < len {
            assert(s[0] == i@[pos as int]);
        }
        crate::lexer::lemma_capture_bounds(s, field_type, false, pos as nat);
        crate::lexer::lemma_capture_bounds(s, field_type, true, pos as nat);
        crate::lexer::lemma_query_bounds(s, field_type, pos as nat);
        lemma_run_len_bound(s, lit_pred());
    }
    match state {
        ParserState::Start => {
            if pos == len {
                Err(ParseError { reason: None, expected: start_expected_vec(), offset: pos })
            } else {
                let c = i.get_char(pos);
                if c == '/' {
                    Ok((RouteParserToken::Separator, pos + 1))
                } else if c == '?' {
                    Ok((RouteParserToken::QueryBegin, pos + 1))
                } else if c == '#' {
                    Ok((RouteParserToken::FragmentBegin, pos + 1))
                } else if c == '{' {
                    match capture(i, pos, field_type, false) {
                        CaptureParse::Token { cap, end } => Ok((RouteParserToken::Capture(cap), end)),
                        CaptureParse::Fail(e) => Err(e),
                        CaptureParse::NoMatch => vstd::pervasive::unreached(),
                    }
                } else if lit_char(c) {
                    Ok(lex_exact(i, pos))
                } else if c == '!' {
                    Ok((RouteParserToken::End, pos + 1))
                } else {
                    let reason = if c == '&' {
                        Some(ParserErrorReason::AndBeforeQuestion)
                    } else {
                        None
                    };
                    Err(ParseError { reason, expected: start_expected_vec(), offset: pos })
                }
            }
        },
        ParserState::Path { prev_token } => match prev_token {
            RouteParserToken::Separator => {
                if pos == len {
                    Err(ParseError { reason: None, expected: after_separator_expected_vec(), offset: pos })
                } else {
                    let c = i.get_char(pos);
                    if lit_char(c) {
                        Ok(lex_exact(i, pos))
                    } else if c == '{' {
                        match capture(i, pos, field_type, false) {
                            CaptureParse::Token { cap, end } => Ok((RouteParserToken::Capture(cap), end)),
                            CaptureParse::Fail(e) => Err(e),
                            CaptureParse::NoMatch => vstd::pervasive::unreached(),
                        }
                    } else if c == '?' {
                        Ok((RouteParserToken::QueryBegin, pos + 1))
                    } else if c == '#' {
                        Ok((RouteParserToken::FragmentBegin, pos + 1))
                    } else if c == '!' {
                        Ok((RouteParserToken::End, pos + 1))
                    } else if c == '/' {
                        Err(ParseError {
                            reason: Some(ParserErrorReason::DoubleSlash),
                            expected: after_separator_expected_vec(),
                            offset: pos,
                        })
                    } else {
                        let reason = if c == '&' {
                            Some(ParserErrorReason::AndBeforeQuestion)
                        } else {
                            None
                        };
                        Err(ParseError { reason, expected: after_separator_expected_vec(), offset: pos })
                    }
                }
            },
            RouteParserToken::Exact(_) => {
                if pos == len {
                    Err(ParseError { reason: None, expected: after_exact_expected_vec(), offset: pos })
                } else {
                    let c = i.get_char(pos);
                    if c == '/' {
                        Ok((RouteParserToken::Separator, pos + 1))
                    } else if c == '{' {
                        match capture(i, pos, field_type, false) {
                            CaptureParse::Token { cap, end } => Ok((RouteParserToken::Capture(cap), end)),
                            CaptureParse::Fail(e) => Err(e),
                            CaptureParse::NoMatch => vstd::pervasive::unreached(),
                        }
                    } else if c == '?' {
                        Ok((RouteParserToken::QueryBegin, pos + 1))
                    } else if c == '#' {
                        Ok((RouteParserToken::FragmentBegin, pos + 1))
                    } else if c == '!' {
                        Ok((RouteParserToken::End, pos + 1))
                    } else {
                        let reason = if c == '&' {
                            Some(ParserErrorReason::AndBeforeQuestion)
                        } else {
                            None
                        };
                        Err(ParseError { reason, expected: after_exact_expected_vec(), offset: pos })
                    }
                }
            },
            RouteParserToken::Capture(_) => {
                if pos == len {
                    Err(ParseError { reason: None, expected: after_capture_expected_vec(), offset: pos })
                } else {
                    let c = i.get_char(pos);
                    if c == '/' {
                        Ok((RouteParserToken::Separator, pos + 1))
                    } else if lit_char(c) {
                        Ok(lex_exact(i, pos))
                    } else if c == '?' {
                        Ok((RouteParserToken::QueryBegin, pos + 1))
                    } else if c == '#' {
                        Ok((RouteParserToken::FragmentBegin, pos + 1))
                    } else if c == '!' {
                        Ok((RouteParserToken::End, pos + 1))
                    } else {
                        // no candidate matched: classify the failure
                        let adjacent = match capture(i, pos, field_type, false) {
                            CaptureParse::Token { .. } => true,
                            _ => false,
                        };
                        let reason = if adjacent {
                            Some(ParserErrorReason::AdjacentCaptures)
                        } else if c == '&' {
                            Some(ParserErrorReason::AndBeforeQuestion)
                        } else {
                            None
                        };
                        Err(ParseError { reason, expected: after_capture_expected_vec(), offset: pos })
                    }
                }
            },
            _ => Err(ParseError {
                reason: Some(ParserErrorReason::InvalidState),
                expected: Vec::new(),
                offset: pos,
            }),
        },
        ParserState::FirstQuery { prev_token } => match prev_token {
            RouteParserToken::QueryBegin => match query(i, pos, field_type) {
                Ok(r) => Ok(r),
                Err(mut e) => {
                    if pos < len && i.get_char(pos) == '?' {
                        e.reason = Some(ParserErrorReason::MultipleQuestions);
                    }
                    Err(e)
                },
            },
            RouteParserToken::Query { .. } => {
                if pos == len {
                    Err(ParseError { reason: None, expected: after_query_expected_vec(), offset: pos })
                } else {
                    let c = i.get_char(pos);
                    if c == '&' {
                        Ok((RouteParserToken::QuerySeparator, pos + 1))
                    } else if c == '#' {
                        Ok((RouteParserToken::FragmentBegin, pos + 1))
                    } else if c == '!' {
                        Ok((RouteParserToken::End, pos + 1))
                    } else {
                        let reason = if c == '?' {
                            Some(ParserErrorReason::MultipleQuestions)
                        } else {
                            None
                        };
                        Err(ParseError { reason, expected: after_query_expected_vec(), offset: pos })
                    }
                }
            },
            _ => Err(ParseError {
                reason: Some(ParserErrorReason::InvalidState),
                expected: Vec::new(),
                offset: pos,
            }),
        },
        ParserState::NthQuery { prev_token } => match prev_token {
            RouteParserToken::QuerySeparator => match query(i, pos, field_type) {
                Ok(r) => Ok(r),
                Err(mut e) => {
                    if pos < len && i.get_char(pos) == '?' {
                        e.reason = Some(ParserErrorReason::MultipleQuestions);
                    }
                    Err(e)
                },
            },
            RouteParserToken::Query { .. } => {
                if pos == len {
                    Err(ParseError { reason: None, expected: after_query_expected_vec(), offset: pos })
                } else {
                    let c = i.get_char(pos);
                    if c == '&' {
                        Ok((RouteParserToken::QuerySeparator, pos + 1))
                    } else if c == '#' {
                        Ok((RouteParserToken::FragmentBegin, pos + 1))
                    } else if c == '!' {
                        Ok((RouteParserToken::End, pos + 1))
                    } else {
                        let reason = if c == '?' {
                            Some(ParserErrorReason::MultipleQuestions)
                        } else {
                            None
                        };
                        Err(ParseError { reason, expected: after_query_expected_vec(), offset: pos })
                    }
                }
            },
            _ => Err(ParseError {
                reason: Some(ParserErrorReason::InvalidState),
                expected: Vec::new(),
                offset: pos,
            }),
        },
        ParserState::Fragment { prev_token } => match prev_token {
            RouteParserToken::FragmentBegin => {
                if pos == len {
                    Err(ParseError { reason: None, expected: fragment_open_expected_vec(), offset: pos })
                } else {
                    let c = i.get_char(pos);
                    if lit_char(c) {
                        Ok(lex_exact(i, pos))
                    } else if c == '{' {
                        match capture(i, pos, field_type, true) {
                            CaptureParse::Token { cap, end } => Ok((RouteParserToken::Capture(cap), end)),
                            CaptureParse::Fail(e) => Err(e),
                            CaptureParse::NoMatch => vstd::pervasive::unreached(),
                        }
                    } else if c == '!' {
                        Ok((RouteParserToken::End, pos + 1))
                    } else {
                        Err(ParseError { reason: None, expected: fragment_open_expected_vec(), offset: pos })
                    }
                }
            },
            RouteParserToken::Exact(_) => {
                if pos == len {
                    Err(ParseError { reason: None, expected: fragment_after_exact_expected_vec(), offset: pos })
                } else {
                    let c = i.get_char(pos);
                    if c == '{' {
                        match capture(i, pos, field_type, true) {
                            CaptureParse::Token { cap, end } => Ok((RouteParserToken::Capture(cap), end)),
                            CaptureParse::Fail(e) => Err(e),
                            CaptureParse::NoMatch => vstd::pervasive::unreached(),
                        }
                    } else if c == '!' {
                        Ok((RouteParserToken::End, pos + 1))
                    } else {
                        Err(ParseError { reason: None, expected: fragment_after_exact_expected_vec(), offset: pos })
                    }
                }
            },
            RouteParserToken::Capture(_) => {
                if pos == len {
                    Err(ParseError { reason: None, expected: fragment_after_capture_expected_vec(), offset: pos })
                } else {
                    let c = i.get_char(pos);
                    if lit_char(c) {
                        Ok(lex_exact(i, pos))
                    } else if c == '!' {
                        Ok((RouteParserToken::End, pos + 1))
                    } else {
                        Err(ParseError { reason: None, expected: fragment_after_capture_expected_vec(), offset: pos })
                    }
                }
            },
            _ => Err(ParseError {
                reason: Some(ParserErrorReason::InvalidState),
                expected: Vec::new(),
                offset: pos,
            }),
        },
        ParserState::End => Err(ParseError {
            reason: Some(ParserErrorReason::TokensAfterEndToken),
            expected: Vec::new(),
            offset: pos,
        }),
    }
}

/// Parses a matcher string into a vector of route tokens.
///
/// After each token is read it is fed into the state machine, which either
/// transitions to a new state or reports why the token is illegal where it
/// stands.  Parsing succeeds exactly when the whole input is consumed this
/// way; the result is [`parse_spec`] of the input.
#[verifier::rlimit(100)]
#[verifier::spinoff_prover]
pub fn parse(i: &str, field_type: FieldType) -> (r: Result<Vec<RouteParserToken>, PrettyParseError>)
    ensures
        match r {
            Ok(tokens) => {
                &&& parse_spec(i@, field_type) matches Ok(tv)
                    && route_tokens_view(tokens@) == tv
                &&& tokens@.len() >= 1
                &&& end_only_last(route_tokens_view(tokens@))
            },
            Err(e) => parse_spec(i@, field_type) matches Err(ev) && e@ == ev,
        },
{
    proof {
        lemma_parse_end_is_final(i@, field_type);
    }
    let mut tokens: Vec<RouteParserToken> = Vec::new();
    let mut state = ParserState::Start;
    let mut pos: usize = 0;
    let len = i.unicode_len();
    proof {
        assert(i@.skip(0) =~= i@);
        match parse_rest(i@, ParserStateView::Start, field_type, 0, i@) {
            Ok(ts) => {
                assert(route_tokens_view(tokens@) + ts =~= ts);
            },
            Err(_) => {},
        }
    }
    loop
        invariant_except_break
            ({
                let rest = parse_rest(i@.skip(pos as int), state@, field_type, pos as nat, i@);
                match rest {
                    Ok(ts) => parse_spec(i@, field_type)
                        == Ok::<Seq<RouteTokenView>, PrettyParseErrorView>(
                            route_tokens_view(tokens@) + ts,
                        ),
                    Err(e) => parse_spec(i@, field_type)
                        == Err::<Seq<RouteTokenView>, PrettyParseErrorView>(e),
                }
            }),
        invariant
            pos <= len,
            len == i@.len(),
        ensures
            parse_spec(i@, field_type)
                == Ok::<Seq<RouteTokenView>, PrettyParseErrorView>(route_tokens_view(tokens@)),
        decreases len - pos,
    {
        let ghost s = i@.skip(pos as int);
        let ghost q = pos as nat;
        let ghost state0 = state@;
        let ghost tokens0 = tokens@;
        proof {
            lemma_step_bounds(s, state0, field_type, q);
        }
        match parse_impl(i, pos, &state, field_type) {
            Err(e) => {
                let remaining = i.substring_char(pos, len).to_owned();
                proof { assert(remaining@ =~= s); }
                return Err(PrettyParseError { error: e, input: i.to_owned(), remaining });
            },
            Ok((token, end)) => {
                let stepped = state.transition(token.clone());
                match stepped {
                    Err(reason) => {
                        let remaining = i.substring_char(end, len).to_owned();
                        proof { assert(remaining@ =~= s.skip((end - pos) as int)); }
                        return Err(PrettyParseError {
                            error: ParseError::with0(Some(reason), end),
                            input: i.to_owned(),
                            remaining,
                        });
                    },
                    Ok(next) => {
                        state = next;
                    },
                }
                tokens.push(token);
                pos = end;
                proof {
                    assert(route_tokens_view(tokens@) =~= route_tokens_view(tokens0).push(token@));
                }
                if pos == len {
                    proof {
                        assert(route_tokens_view(tokens0) + seq![token@] =~= route_tokens_view(tokens@));
                    }
                    break;
                }
                proof {
                    let n = (end as nat - q) as nat;
                    assert(s.skip(n as int) =~= i@.skip(pos as int));
                    let rest0 = parse_rest(s, state0, field_type, q, i@);
                    let rest1 = parse_rest(i@.skip(pos as int), state@, field_type, pos as nat, i@);
                    match rest1 {
                        Ok(ts) => {
                            assert(rest0 == Ok::<Seq<RouteTokenView>, PrettyParseErrorView>(seq![token@] + ts));
                            assert(route_tokens_view(tokens0) + (seq![token@] + ts)
                                =~= route_tokens_view(tokens@) + ts);
                        },
                        Err(e) => {},
                    }
                }
            },
        }
    }
    Ok(tokens)
}

} // verus!
