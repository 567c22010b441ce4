//! A small compiler for a route-matcher mini-language.
//!
//! A matcher string describes URL path segments, query parameters, a fragment,
//! capture placeholders and an optional explicit terminator.  [`parser::parse`]
//! turns such a string into a validated token sequence and reports why and
//! where invalid strings are rejected; [`optimizer::convert_tokens`] compacts
//! that sequence by folding consecutive literal-producing tokens into single
//! literal tokens, suitable for fast matching against concrete URLs.

pub mod error;
pub mod lexer;
pub mod optimizer;
pub mod parser;
pub mod route;
pub mod scan;
pub mod tokens;

pub use error::{ExpectedToken, ParseError, ParserErrorReason, PrettyParseError};
pub use optimizer::{convert_tokens, parse_str_and_optimize_tokens};
pub use parser::parse;
pub use route::{format_route_string, Route};
pub use scan::FieldType;
pub use tokens::{CaptureOrExact, CaptureVariant, MatcherToken, RefCaptureVariant, RouteParserToken};
