//! Token vocabulary of the matcher language: the tokens produced directly by
//! parsing, the compacted tokens produced by the optimizer, and the spec-level
//! views and source renderings both are reasoned about with.

use vstd::prelude::*;
use crate::scan::dec_str;

verus! {

// ---------------------------------------------------------------------------
// Spec-level views
// ---------------------------------------------------------------------------

/// Spec view of a `{...}` capture body.
pub ghost enum CaptureView {
    Unnamed,
    ManyUnnamed,
    NumberedUnnamed { sections: nat },
    Named(Seq<char>),
    ManyNamed(Seq<char>),
    NumberedNamed { sections: nat, name: Seq<char> },
}

/// Spec view of a query value: either a literal or a capture.
pub ghost enum CaptureOrExactView {
    Exact(Seq<char>),
    Capture(CaptureView),
}

/// Spec view of one parsed route token.
pub ghost enum RouteTokenView {
    Separator,
    Exact(Seq<char>),
    Capture(CaptureView),
    QueryBegin,
    QuerySeparator,
    Query { ident: Seq<char>, value: CaptureOrExactView },
    FragmentBegin,
    End,
}

/// Spec view of one optimized matcher token.
pub ghost enum MatcherTokenView {
    Exact(Seq<char>),
    Capture(CaptureView),
    End,
}

// ---------------------------------------------------------------------------
// Source renderings
// ---------------------------------------------------------------------------

/// The source text of a capture body, without the surrounding brackets.
pub open spec fn capture_body_text(c: CaptureView) -> Seq<char> {
    match c {
        CaptureView::Unnamed => Seq::empty(),
        CaptureView::ManyUnnamed => seq!['*'],
        CaptureView::NumberedUnnamed { sections } => dec_str(sections),
        CaptureView::Named(name) => name,
        CaptureView::ManyNamed(name) => seq!['*', ':'] + name,
        CaptureView::NumberedNamed { sections, name } => dec_str(sections) + seq![':'] + name,
    }
}

/// The source text of a capture, brackets included.
pub open spec fn capture_text(c: CaptureView) -> Seq<char> {
    seq!['{'] + capture_body_text(c) + seq!['}']
}

/// Whether a route token renders to literal text on its own: these are the
/// tokens the optimizer folds into runs.
pub open spec fn is_literal_token(t: RouteTokenView) -> bool {
    match t {
        RouteTokenView::Separator => true,
        RouteTokenView::Exact(_) => true,
        RouteTokenView::QueryBegin => true,
        RouteTokenView::QuerySeparator => true,
        RouteTokenView::FragmentBegin => true,
        _ => false,
    }
}

/// The literal rendering of a literal-producing token.
pub open spec fn literal_text(t: RouteTokenView) -> Seq<char>
    recommends
        is_literal_token(t),
{
    match t {
        RouteTokenView::Separator => seq!['/'],
        RouteTokenView::Exact(s) => s,
        RouteTokenView::QueryBegin => seq!['?'],
        RouteTokenView::QuerySeparator => seq!['&'],
        RouteTokenView::FragmentBegin => seq!['#'],
        _ => Seq::empty(),
    }
}

/// The exact source text a route token was parsed from.
pub open spec fn route_token_text(t: RouteTokenView) -> Seq<char> {
    match t {
        RouteTokenView::Separator => seq!['/'],
        RouteTokenView::Exact(s) => s,
        RouteTokenView::Capture(c) => capture_text(c),
        RouteTokenView::QueryBegin => seq!['?'],
        RouteTokenView::QuerySeparator => seq!['&'],
        RouteTokenView::Query { ident, value } => ident + seq!['='] + match value {
            CaptureOrExactView::Exact(s) => s,
            CaptureOrExactView::Capture(c) => capture_text(c),
        },
        RouteTokenView::FragmentBegin => seq!['#'],
        RouteTokenView::End => seq!['!'],
    }
}

/// The concatenated source text of a token sequence.
pub open spec fn route_tokens_text(ts: Seq<RouteTokenView>) -> Seq<char>
    decreases ts.len(),
{
    if ts.len() == 0 {
        Seq::empty()
    } else {
        route_token_text(ts[0]) + route_tokens_text(ts.skip(1))
    }
}

/// The text a matcher token stands for.
pub open spec fn matcher_token_text(t: MatcherTokenView) -> Seq<char> {
    match t {
        MatcherTokenView::Exact(s) => s,
        MatcherTokenView::Capture(c) => capture_text(c),
        MatcherTokenView::End => seq!['!'],
    }
}

/// The concatenated text of an optimized token sequence.
pub open spec fn matcher_tokens_text(ts: Seq<MatcherTokenView>) -> Seq<char>
    decreases ts.len(),
{
    if ts.len() == 0 {
        Seq::empty()
    } else {
        matcher_token_text(ts[0]) + matcher_tokens_text(ts.skip(1))
    }
}

// ---------------------------------------------------------------------------
// Executable token types
// ---------------------------------------------------------------------------

/// A capture variant as written in the matcher string.
///
/// Unnamed variants capture and discard; named variants capture and store
/// under the given name.  (The historical name distinguishes this parse-time
/// type from the [`CaptureVariant`] the optimizer hands out.)
#[derive(Debug, PartialEq, Eq)]
pub enum RefCaptureVariant {
    /// `{}`
    Unnamed,
    /// `{*}`
    ManyUnnamed,
    /// `{4}`
    NumberedUnnamed {
        /// Number of sections to match.
        sections: usize,
    },
    /// `{name}` - captures one section under the given name.
    Named(String),
    /// `{*:name}` - captures the remaining sections under the given name.
    ManyNamed(String),
    /// `{2:name}` - captures a fixed number of sections under the given name.
    NumberedNamed {
        /// Number of sections to match.
        sections: usize,
        /// The name the sections are stored under.
        name: String,
    },
}

/// A capture variant owned by the optimizer's output.
#[derive(Debug, PartialEq, Eq)]
pub enum CaptureVariant {
    /// `{}`
    Unnamed,
    /// `{*}`
    ManyUnnamed,
    /// `{4}`
    NumberedUnnamed {
        /// Number of sections to match.
        sections: usize,
    },
    /// `{name}` - captures one section under the given name.
    Named(String),
    /// `{*:name}` - captures the remaining sections under the given name.
    ManyNamed(String),
    /// `{2:name}` - captures a fixed number of sections under the given name.
    NumberedNamed {
        /// Number of sections to match.
        sections: usize,
        /// The name the sections are stored under.
        name: String,
    },
}

/// Either a literal or a capture; appears as the value of a query pair.
#[derive(Debug, PartialEq, Eq)]
pub enum CaptureOrExact {
    /// Match a specific string.
    Exact(String),
    /// Match a capture variant.
    Capture(RefCaptureVariant),
}

/// One token produced by parsing a route matcher string.
#[derive(Debug, PartialEq, Eq)]
pub enum RouteParserToken {
    /// Match `/`.
    Separator,
    /// Match a specific string.
    Exact(String),
    /// Match `{...}`; see [`RefCaptureVariant`].
    Capture(RefCaptureVariant),
    /// Match `?`.
    QueryBegin,
    /// Match `&`.
    QuerySeparator,
    /// Match `key=value`.
    Query {
        /// The query key.
        ident: String,
        /// The value: a literal or a capture.
        capture_or_exact: CaptureOrExact,
    },
    /// Match `#`.
    FragmentBegin,
    /// Match `!`: the explicit terminator.
    End,
}

/// One token of the optimizer's output: literal runs are merged, captures and
/// the terminator are kept individually.
#[derive(Debug, PartialEq, Eq)]
pub enum MatcherToken {
    /// Match a literal; possibly empty.
    Exact(String),
    /// Match a capture.
    Capture(CaptureVariant),
    /// The explicit terminator.
    End,
}

impl View for RefCaptureVariant {
    type V = CaptureView;

    open spec fn view(&self) -> CaptureView {
        match self {
            RefCaptureVariant::Unnamed => CaptureView::Unnamed,
            RefCaptureVariant::ManyUnnamed => CaptureView::ManyUnnamed,
            RefCaptureVariant::NumberedUnnamed { sections } => CaptureView::NumberedUnnamed {
                sections: *sections as nat,
            },
            RefCaptureVariant::Named(name) => CaptureView::Named(name@),
            RefCaptureVariant::ManyNamed(name) => CaptureView::ManyNamed(name@),
            RefCaptureVariant::NumberedNamed { sections, name } => CaptureView::NumberedNamed {
                sections: *sections as nat,
                name: name@,
            },
        }
    }
}

impl View for CaptureVariant {
    type V = CaptureView;

    open spec fn view(&self) -> CaptureView {
        match self {
            CaptureVariant::Unnamed => CaptureView::Unnamed,
            CaptureVariant::ManyUnnamed => CaptureView::ManyUnnamed,
            CaptureVariant::NumberedUnnamed { sections } => CaptureView::NumberedUnnamed {
                sections: *sections as nat,
            },
            CaptureVariant::Named(name) => CaptureView::Named(name@),
            CaptureVariant::ManyNamed(name) => CaptureView::ManyNamed(name@),
            CaptureVariant::NumberedNamed { sections, name } => CaptureView::NumberedNamed {
                sections: *sections as nat,
                name: name@,
            },
        }
    }
}

impl View for CaptureOrExact {
    type V = CaptureOrExactView;

    open spec fn view(&self) -> CaptureOrExactView {
        match self {
            CaptureOrExact::Exact(s) => CaptureOrExactView::Exact(s@),
            CaptureOrExact::Capture(c) => CaptureOrExactView::Capture(c@),
        }
    }
}

impl View for RouteParserToken {
    type V = RouteTokenView;

    open spec fn view(&self) -> RouteTokenView {
        match self {
            RouteParserToken::Separator => RouteTokenView::Separator,
            RouteParserToken::Exact(s) => RouteTokenView::Exact(s@),
            RouteParserToken::Capture(c) => RouteTokenView::Capture(c@),
            RouteParserToken::QueryBegin => RouteTokenView::QueryBegin,
            RouteParserToken::QuerySeparator => RouteTokenView::QuerySeparator,
            RouteParserToken::Query { ident, capture_or_exact } => RouteTokenView::Query {
                ident: ident@,
                value: capture_or_exact@,
            },
            RouteParserToken::FragmentBegin => RouteTokenView::FragmentBegin,
            RouteParserToken::End => RouteTokenView::End,
        }
    }
}

impl View for MatcherToken {
    type V = MatcherTokenView;

    open spec fn view(&self) -> MatcherTokenView {
        match self {
            MatcherToken::Exact(s) => MatcherTokenView::Exact(s@),
            MatcherToken::Capture(c) => MatcherTokenView::Capture(c@),
            MatcherToken::End => MatcherTokenView::End,
        }
    }
}

/// The views of a sequence of parsed tokens.
pub open spec fn route_tokens_view(ts: Seq<RouteParserToken>) -> Seq<RouteTokenView> {
    ts.map_values(|t: RouteParserToken| t@)
}

/// The views of a sequence of matcher tokens.
pub open spec fn matcher_tokens_view(ts: Seq<MatcherToken>) -> Seq<MatcherTokenView> {
    ts.map_values(|t: MatcherToken| t@)
}

impl Clone for RefCaptureVariant {
    fn clone(&self) -> (res: Self)
        ensures
            res == self,
    {
        match self {
            RefCaptureVariant::Unnamed => RefCaptureVariant::Unnamed,
            RefCaptureVariant::ManyUnnamed => RefCaptureVariant::ManyUnnamed,
            RefCaptureVariant::NumberedUnnamed { sections } => RefCaptureVariant::NumberedUnnamed {
                sections: *sections,
            },
            RefCaptureVariant::Named(name) => RefCaptureVariant::Named(name.clone()),
            RefCaptureVariant::ManyNamed(name) => RefCaptureVariant::ManyNamed(name.clone()),
            RefCaptureVariant::NumberedNamed { sections, name } => RefCaptureVariant::NumberedNamed {
                sections: *sections,
                name: name.clone(),
            },
        }
    }
}

impl Clone for CaptureOrExact {
    fn clone(&self) -> (res: Self)
        ensures
            res == self,
    {
        match self {
            CaptureOrExact::Exact(s) => CaptureOrExact::Exact(s.clone()),
            CaptureOrExact::Capture(c) => CaptureOrExact::Capture(c.clone()),
        }
    }
}

impl Clone for RouteParserToken {
    fn clone(&self) -> (res: Self)
        ensures
            res == self,
    {
        match self {
            RouteParserToken::Separator => RouteParserToken::Separator,
            RouteParserToken::Exact(s) => RouteParserToken::Exact(s.clone()),
            RouteParserToken::Capture(c) => RouteParserToken::Capture(c.clone()),
            RouteParserToken::QueryBegin => RouteParserToken::QueryBegin,
            RouteParserToken::QuerySeparator => RouteParserToken::QuerySeparator,
            RouteParserToken::Query { ident, capture_or_exact } => RouteParserToken::Query {
                ident: ident.clone(),
                capture_or_exact: capture_or_exact.clone(),
            },
            RouteParserToken::FragmentBegin => RouteParserToken::FragmentBegin,
            RouteParserToken::End => RouteParserToken::End,
        }
    }
}

impl RouteParserToken {
    /// The literal rendering of a literal-producing token; captures, query
    /// pairs and the terminator have no such rendering.
    pub fn as_str(&self) -> (r: &str)
        requires
            is_literal_token(self@),
        ensures
            r@ == literal_text(self@),
    {
        match self {
            RouteParserToken::Separator => {
                proof { reveal_strlit("/"); }
                let r = "/";
                proof { assert(r@ =~= literal_text(self@)); }
                r
            },
            RouteParserToken::Exact(literal) => literal.as_str(),
            RouteParserToken::QueryBegin => {
                proof { reveal_strlit("?"); }
                let r = "?";
                proof { assert(r@ =~= literal_text(self@)); }
                r
            },
            RouteParserToken::QuerySeparator => {
                proof { reveal_strlit("&"); }
                let r = "&";
                proof { assert(r@ =~= literal_text(self@)); }
                r
            },
            RouteParserToken::FragmentBegin => {
                proof { reveal_strlit("#"); }
                let r = "#";
                proof { assert(r@ =~= literal_text(self@)); }
                r
            },
            RouteParserToken::Capture(_) => vstd::pervasive::unreached(),
            RouteParserToken::Query { .. } => vstd::pervasive::unreached(),
            RouteParserToken::End => vstd::pervasive::unreached(),
        }
    }
}

impl From<RefCaptureVariant> for CaptureVariant {
    fn from(v: RefCaptureVariant) -> (res: Self) {
        match v {
            RefCaptureVariant::Named(s) => CaptureVariant::Named(s),
            RefCaptureVariant::ManyNamed(s) => CaptureVariant::ManyNamed(s),
            RefCaptureVariant::NumberedNamed { sections, name } => CaptureVariant::NumberedNamed {
                sections,
                name,
            },
            RefCaptureVariant::Unnamed => CaptureVariant::Unnamed,
            RefCaptureVariant::ManyUnnamed => CaptureVariant::ManyUnnamed,
            RefCaptureVariant::NumberedUnnamed { sections } => CaptureVariant::NumberedUnnamed {
                sections,
            },
        }
    }
}

impl vstd::std_specs::convert::FromSpecImpl<RefCaptureVariant> for CaptureVariant {
    open spec fn obeys_from_spec() -> bool {
        true
    }

    open spec fn from_spec(v: RefCaptureVariant) -> CaptureVariant {
        match v {
            RefCaptureVariant::Named(s) => CaptureVariant::Named(s),
            RefCaptureVariant::ManyNamed(s) => CaptureVariant::ManyNamed(s),
            RefCaptureVariant::NumberedNamed { sections, name } => CaptureVariant::NumberedNamed {
                sections,
                name,
            },
            RefCaptureVariant::Unnamed => CaptureVariant::Unnamed,
            RefCaptureVariant::ManyUnnamed => CaptureVariant::ManyUnnamed,
            RefCaptureVariant::NumberedUnnamed { sections } => CaptureVariant::NumberedUnnamed {
                sections,
            },
        }
    }
}

impl From<CaptureOrExact> for MatcherToken {
    fn from(value: CaptureOrExact) -> (res: Self) {
        match value {
            CaptureOrExact::Exact(m) => MatcherToken::Exact(m),
            CaptureOrExact::Capture(v) => MatcherToken::Capture(CaptureVariant::from(v)),
        }
    }
}

impl vstd::std_specs::convert::FromSpecImpl<CaptureOrExact> for MatcherToken {
    open spec fn obeys_from_spec() -> bool {
        true
    }

    open spec fn from_spec(value: CaptureOrExact) -> MatcherToken {
        match value {
            CaptureOrExact::Exact(m) => MatcherToken::Exact(m),
            CaptureOrExact::Capture(v) => MatcherToken::Capture(
                <CaptureVariant as vstd::std_specs::convert::FromSpec<RefCaptureVariant>>::from_spec(v),
            ),
        }
    }
}

} // verus!
