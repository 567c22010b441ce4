//! Sub-parsers for the composite lexemes of the matcher grammar: `{...}`
//! captures and `key=value` query pairs.
//!
//! Each sub-parser is written twice: a spec-level decision tree over the
//! remaining characters, which is the authoritative definition of the lexeme
//! grammar, and an executable scanner proved to agree with it.  Positions in
//! errors are absolute character offsets into the full input.

use vstd::prelude::*;
use crate::error::{ExpectedToken, ParseError, ParseErrorView, ParserErrorReason};
use crate::scan::{
    digit_pred, digit_char_test, digit_val, digit_value, digits_val, ident_char, ident_pred,
    is_canonical_digits, is_digit_char, is_ident_start, is_lit_char,
    lemma_digits_val_prefix, lemma_run_len_chars, lit_char, lit_pred, run_len, scan_digits,
    scan_ident, scan_lit, FieldType,
};
use crate::tokens::{capture_text, route_token_text, CaptureOrExact, CaptureOrExactView,
    CaptureView, RefCaptureVariant, RouteParserToken, RouteTokenView};

verus! {

/// Shorthand for building a spec-level parse error.
pub open spec fn perr(
    reason: Option<ParserErrorReason>,
    expected: Seq<ExpectedToken>,
    offset: nat,
) -> ParseErrorView {
    ParseErrorView { reason, expected, offset }
}

/// Result of trying to lex a capture at the head of the remaining input.
pub ghost enum CaptureSpecResult {
    /// The remaining input does not begin with `{`; other alternatives may
    /// still apply.
    NoMatch,
    /// The opening bracket was present but the body is ill-formed; this
    /// failure is final.
    Fail(ParseErrorView),
    /// A well-formed capture of `len` characters, brackets included.
    Token { cap: CaptureView, len: nat },
}

/// Lexes an identifier followed by `}` at the head of `s`; `q` is the
/// absolute offset of `s`.  Returns the name and the number of characters
/// consumed, closing bracket included.
pub open spec fn name_then_close_spec(s: Seq<char>, q: nat) -> Result<(Seq<char>, nat), ParseErrorView> {
    if s.len() == 0 {
        Err(perr(None, seq![ExpectedToken::Ident], q))
    } else if !is_ident_start(s[0]) {
        Err(perr(Some(ParserErrorReason::BadRustIdent(s[0])), seq![ExpectedToken::Ident], q))
    } else {
        let n = run_len(s, ident_pred());
        if n < s.len() && s[n as int] == '}' {
            Ok((s.take(n as int), n + 1))
        } else if n == s.len() {
            Err(perr(None, seq![ExpectedToken::CloseBracket, ExpectedToken::Ident], q + n))
        } else {
            Err(perr(
                Some(ParserErrorReason::BadRustIdent(s[n as int])),
                seq![ExpectedToken::CloseBracket, ExpectedToken::Ident],
                q + n,
            ))
        }
    }
}

/// The token kinds acceptable right after `{` or `{*`/`{N` when the mode
/// requires a name.
pub open spec fn colon_or_close_expected(ft: FieldType) -> Seq<ExpectedToken> {
    if ft == FieldType::Named {
        seq![ExpectedToken::Colon]
    } else {
        seq![ExpectedToken::Colon, ExpectedToken::CloseBracket]
    }
}

/// Lexes a `{...}` capture at the head of `s`; `q` is the absolute offset of
/// `s`.  The body grammar is `"*" | "*:" ident | digits | digits ":" ident |
/// ident | ""`, where the unnamed forms require [`FieldType::Unnamed`], the
/// multi-section forms are unavailable when `single` is set (fragment
/// captures match within one section), and a section count is written in
/// canonical decimal and must fit in `usize`.
pub open spec fn capture_spec(s: Seq<char>, ft: FieldType, single: bool, q: nat) -> CaptureSpecResult {
    if s.len() == 0 || s[0] != '{' {
        CaptureSpecResult::NoMatch
    } else {
        let body = s.skip(1);
        if body.len() == 0 {
            CaptureSpecResult::Fail(perr(
                None,
                if ft == FieldType::Named {
                    seq![ExpectedToken::Ident]
                } else {
                    seq![ExpectedToken::CloseBracket, ExpectedToken::Ident]
                },
                q + 1,
            ))
        } else if body[0] == '}' {
            if ft == FieldType::Unnamed {
                CaptureSpecResult::Token { cap: CaptureView::Unnamed, len: 2 }
            } else {
                CaptureSpecResult::Fail(perr(None, seq![ExpectedToken::Ident], q + 1))
            }
        } else if body[0] == '*' && !single {
            if body.len() == 1 {
                CaptureSpecResult::Fail(perr(None, colon_or_close_expected(ft), q + 2))
            } else if body[1] == '}' {
                if ft == FieldType::Unnamed {
                    CaptureSpecResult::Token { cap: CaptureView::ManyUnnamed, len: 3 }
                } else {
                    CaptureSpecResult::Fail(perr(None, seq![ExpectedToken::Colon], q + 2))
                }
            } else if body[1] == ':' {
                match name_then_close_spec(body.skip(2), q + 3) {
                    Ok((name, l)) => CaptureSpecResult::Token {
                        cap: CaptureView::ManyNamed(name),
                        len: 3 + l,
                    },
                    Err(e) => CaptureSpecResult::Fail(e),
                }
            } else {
                CaptureSpecResult::Fail(perr(None, colon_or_close_expected(ft), q + 2))
            }
        } else if is_digit_char(body[0]) && !single {
            let m = if body[0] == '0' { 1nat } else { run_len(body, digit_pred()) };
            let ds = body.take(m as int);
            if digits_val(ds) > usize::MAX as nat {
                CaptureSpecResult::Fail(perr(None, Seq::empty(), q + 1))
            } else if m == body.len() {
                CaptureSpecResult::Fail(perr(None, colon_or_close_expected(ft), q + 1 + m))
            } else if body[m as int] == '}' {
                if ft == FieldType::Unnamed {
                    CaptureSpecResult::Token {
                        cap: CaptureView::NumberedUnnamed { sections: digits_val(ds) },
                        len: m + 2,
                    }
                } else {
                    CaptureSpecResult::Fail(perr(None, seq![ExpectedToken::Colon], q + 1 + m))
                }
            } else if body[m as int] == ':' {
                match name_then_close_spec(body.skip(m as int + 1), q + 2 + m) {
                    Ok((name, l)) => CaptureSpecResult::Token {
                        cap: CaptureView::NumberedNamed { sections: digits_val(ds), name },
                        len: m + 2 + l,
                    },
                    Err(e) => CaptureSpecResult::Fail(e),
                }
            } else {
                CaptureSpecResult::Fail(perr(None, colon_or_close_expected(ft), q + 1 + m))
            }
        } else if is_ident_start(body[0]) {
            match name_then_close_spec(body, q + 1) {
                Ok((name, l)) => CaptureSpecResult::Token {
                    cap: CaptureView::Named(name),
                    len: 1 + l,
                },
                Err(e) => CaptureSpecResult::Fail(e),
            }
        } else {
            CaptureSpecResult::Fail(perr(
                Some(ParserErrorReason::BadRustIdent(body[0])),
                if ft == FieldType::Named {
                    seq![ExpectedToken::Ident]
                } else {
                    seq![ExpectedToken::CloseBracket, ExpectedToken::Ident]
                },
                q + 1,
            ))
        }
    }
}

/// Lexes a `key=value` query pair at the head of `s`; `q` is the absolute
/// offset of `s`.  The key is an identifier; the value is a literal run or a
/// capture.
pub open spec fn query_spec(s: Seq<char>, ft: FieldType, q: nat) -> Result<(RouteTokenView, nat), ParseErrorView> {
    if s.len() == 0 {
        Err(perr(None, seq![ExpectedToken::Ident], q))
    } else if !is_ident_start(s[0]) {
        Err(perr(None, seq![ExpectedToken::Ident], q))
    } else {
        let n = run_len(s, ident_pred());
        let key = s.take(n as int);
        if n == s.len() {
            Err(perr(None, seq![ExpectedToken::Equals], q + n))
        } else if s[n as int] != '=' {
            Err(perr(
                Some(ParserErrorReason::BadRustIdent(s[n as int])),
                seq![ExpectedToken::Equals, ExpectedToken::Ident],
                q + n,
            ))
        } else {
            let v = s.skip(n as int + 1);
            if v.len() == 0 {
                Err(perr(None, seq![ExpectedToken::Literal, ExpectedToken::CaptureBegin], q + n + 1))
            } else if is_lit_char(v[0]) {
                let m = run_len(v, lit_pred());
                Ok((
                    RouteTokenView::Query {
                        ident: key,
                        value: CaptureOrExactView::Exact(v.take(m as int)),
                    },
                    n + 1 + m,
                ))
            } else if v[0] == '{' {
                match capture_spec(v, ft, false, q + n + 1) {
                    CaptureSpecResult::Token { cap, len } => Ok((
                        RouteTokenView::Query {
                            ident: key,
                            value: CaptureOrExactView::Capture(cap),
                        },
                        n + 1 + len,
                    )),
                    CaptureSpecResult::Fail(e) => Err(e),
                    // unreachable: the head of `v` is `{`
                    CaptureSpecResult::NoMatch => Err(perr(None, Seq::empty(), 0)),
                }
            } else {
                Err(perr(None, seq![ExpectedToken::Literal, ExpectedToken::CaptureBegin], q + n + 1))
            }
        }
    }
}

/// A successful name lexeme consumes at least the closing bracket and no
/// more than the remaining input.
pub proof fn lemma_name_bounds(s: Seq<char>, q: nat)
    ensures
        name_then_close_spec(s, q) matches Ok(r) ==> 1 <= r.1 <= s.len(),
{
    crate::scan::lemma_run_len_bound(s, ident_pred());
}

/// A successful capture consumes at least its two brackets and no more than
/// the remaining input.
pub proof fn lemma_capture_bounds(s: Seq<char>, ft: FieldType, single: bool, q: nat)
    ensures
        capture_spec(s, ft, single, q) matches CaptureSpecResult::Token { cap, len }
            ==> 2 <= len <= s.len(),
{
    if s.len() > 0 && s[0] == '{' {
        let body = s.skip(1);
        if body.len() > 0 {
            lemma_name_bounds(body, q + 1);
            lemma_name_bounds(body.skip(2), q + 3);
            crate::scan::lemma_run_len_bound(body, digit_pred());
            if is_digit_char(body[0]) && !single {
                let m = if body[0] == '0' { 1nat } else { run_len(body, digit_pred()) };
                if m < body.len() && body[m as int] == ':' {
                    lemma_name_bounds(body.skip(m as int + 1), q + 2 + m);
                }
            }
        }
    }
}

/// A successful query pair consumes at least its key, `=` and value, and no
/// more than the remaining input.
pub proof fn lemma_query_bounds(s: Seq<char>, ft: FieldType, q: nat)
    ensures
        query_spec(s, ft, q) matches Ok(r) ==> 1 <= r.1 <= s.len(),
{
    crate::scan::lemma_run_len_bound(s, ident_pred());
    let n = run_len(s, ident_pred());
    if s.len() > 0 && is_ident_start(s[0]) && n < s.len() && s[n as int] == '=' {
        let v = s.skip(n as int + 1);
        crate::scan::lemma_run_len_bound(v, lit_pred());
        lemma_capture_bounds(v, ft, false, q + n + 1);
    }
}

/// A successful name lexeme reads back as the name followed by `}`.
pub proof fn lemma_name_text(s: Seq<char>, q: nat)
    ensures
        name_then_close_spec(s, q) matches Ok(r) ==> r.0 + seq!['}'] == s.take(r.1 as int),
{
    crate::scan::lemma_run_len_bound(s, ident_pred());
    if s.len() > 0 && is_ident_start(s[0]) {
        let n = run_len(s, ident_pred());
        if n < s.len() && s[n as int] == '}' {
            assert(s.take(n as int) + seq!['}'] =~= s.take(n as int + 1));
        }
    }
}

/// A successful capture reads back as exactly the text it consumed.
#[verifier::rlimit(100)]
pub proof fn lemma_capture_text(s: Seq<char>, ft: FieldType, single: bool, q: nat)
    ensures
        capture_spec(s, ft, single, q) matches CaptureSpecResult::Token { cap, len }
            ==> capture_text(cap) == s.take(len as int),
{
    if s.len() > 0 && s[0] == '{' {
        let body = s.skip(1);
        if body.len() > 0 {
            if body[0] == '}' {
                assert(capture_text(CaptureView::Unnamed) =~= s.take(2)) by {
                    assert(body[0] == s[1]);
                }
            } else if body[0] == '*' && !single {
                if body.len() > 1 && body[1] == '}' {
                    assert(capture_text(CaptureView::ManyUnnamed) =~= s.take(3)) by {
                        assert(body[0] == s[1]);
                        assert(body[1] == s[2]);
                    }
                } else if body.len() > 1 && body[1] == ':' {
                    lemma_name_text(body.skip(2), q + 3);
                    crate::scan::lemma_run_len_bound(body.skip(2), ident_pred());
                    match name_then_close_spec(body.skip(2), q + 3) {
                        Ok((name, l)) => {
                            assert(name + seq!['}'] == body.skip(2).take(l as int));
                            assert(capture_text(CaptureView::ManyNamed(name)) =~= s.take(3 + l as int)) by {
                                assert(forall|j: int| 0 <= j < l ==> body.skip(2).take(l as int)[j]
                                    == s[j + 3]);
                            }
                        },
                        Err(_) => {},
                    }
                }
            } else if is_digit_char(body[0]) && !single {
                let m = if body[0] == '0' { 1nat } else { run_len(body, digit_pred()) };
                let ds = body.take(m as int);
                crate::scan::lemma_run_len_chars(body, digit_pred());
                assert(is_canonical_digits(ds)) by {
                    assert(forall|k: int| 0 <= k < m ==> is_digit_char(#[trigger] ds[k]));
                }
                crate::scan::lemma_canonical_digits_round_trip(ds);
                let v = digits_val(ds);
                if v <= usize::MAX as nat && m < body.len() {
                    if body[m as int] == '}' && ft == FieldType::Unnamed {
                        assert(capture_text(CaptureView::NumberedUnnamed { sections: v })
                            =~= s.take(m as int + 2)) by {
                            assert(forall|j: int| 0 <= j < m ==> ds[j] == s[j + 1]);
                            assert(body[m as int] == s[m as int + 1]);
                        }
                    } else if body[m as int] == ':' {
                        lemma_name_text(body.skip(m as int + 1), q + 2 + m);
                        crate::scan::lemma_run_len_bound(body.skip(m as int + 1), ident_pred());
                        match name_then_close_spec(body.skip(m as int + 1), q + 2 + m) {
                            Ok((name, l)) => {
                                assert(name + seq!['}'] == body.skip(m as int + 1).take(l as int));
                                assert(capture_text(CaptureView::NumberedNamed { sections: v, name })
                                    =~= s.take(m as int + 2 + l as int)) by {
                                    assert(forall|j: int| 0 <= j < m ==> ds[j] == s[j + 1]);
                                    assert(body[m as int] == s[m as int + 1]);
                                    assert(forall|j: int| 0 <= j < l
                                        ==> #[trigger] body.skip(m as int + 1).take(l as int)[j]
                                            == s[j + m + 2]);
                                }
                            },
                            Err(_) => {},
                        }
                    }
                }
            } else if is_ident_start(body[0]) {
                lemma_name_text(body, q + 1);
                crate::scan::lemma_run_len_bound(body, ident_pred());
                match name_then_close_spec(body, q + 1) {
                    Ok((name, l)) => {
                        assert(name + seq!['}'] == body.take(l as int));
                        assert(capture_text(CaptureView::Named(name)) =~= s.take(1 + l as int)) by {
                            assert(forall|j: int| 0 <= j < l ==> body.take(l as int)[j] == s[j + 1]);
                        }
                    },
                    Err(_) => {},
                }
            }
        }
    }
}

/// A successful query pair reads back as exactly the text it consumed.
pub proof fn lemma_query_text(s: Seq<char>, ft: FieldType, q: nat)
    ensures
        query_spec(s, ft, q) matches Ok(r) ==> route_token_text(r.0) == s.take(r.1 as int),
{
    crate::scan::lemma_run_len_bound(s, ident_pred());
    if s.len() > 0 && is_ident_start(s[0]) {
        let n = run_len(s, ident_pred());
        let key = s.take(n as int);
        if n < s.len() && s[n as int] == '=' {
            let v = s.skip(n as int + 1);
            crate::scan::lemma_run_len_bound(v, lit_pred());
            if v.len() > 0 && is_lit_char(v[0]) {
                let m = run_len(v, lit_pred());
                assert(key + seq!['='] + v.take(m as int) =~= s.take(n as int + 1 + m as int)) by {
                    assert(forall|j: int| 0 <= j < m ==> v.take(m as int)[j] == s[j + n + 1]);
                }
            } else if v.len() > 0 && v[0] == '{' {
                lemma_capture_text(v, ft, false, q + n + 1);
                lemma_capture_bounds(v, ft, false, q + n + 1);
                match capture_spec(v, ft, false, q + n + 1) {
                    CaptureSpecResult::Token { cap, len } => {
                        assert(capture_text(cap) == v.take(len as int));
                        assert(key + seq!['='] + v.take(len as int) =~= s.take(n as int + 1 + len as int)) by {
                            assert(forall|j: int| 0 <= j < len ==> v.take(len as int)[j]
                                == s[j + n + 1]);
                        }
                    },
                    _ => {},
                }
            }
        }
    }
}

/// Executable mirror of [`is_ident_start`].
pub fn ident_start_char(c: char) -> (r: bool)
    ensures
        r == is_ident_start(c),
{
    ident_char(c) && !digit_char_test(c)
}

/// Executable result of trying to lex a capture; mirrors
/// [`CaptureSpecResult`].
pub enum CaptureParse {
    /// No `{` at the scan position.
    NoMatch,
    /// `{` was present but the body is ill-formed.
    Fail(ParseError),
    /// A capture whose last character sits just before `end`.
    Token { cap: RefCaptureVariant, end: usize },
}

/// Lexes an identifier followed by `}` starting at `pos`.
pub fn name_then_close(i: &str, pos: usize) -> (r: Result<(String, usize), ParseError>)
    requires
        pos <= i@.len(),
    ensures
        ({
            let sp = name_then_close_spec(i@.skip(pos as int), pos as nat);
            match r {
                Ok((name, end)) => {
                    &&& sp matches Ok((nv, l)) && name@ == nv && end == pos + l
                    &&& end <= i@.len()
                },
                Err(e) => sp matches Err(ev) && e@ == ev,
            }
        }),
{
    let ghost s = i@.skip(pos as int);
    let len = i.unicode_len();
    if pos == len {
        Err(ParseError::with1(None, ExpectedToken::Ident, pos))
    } else {
        let c0 = i.get_char(pos);
        proof { assert(s[0] == i@[pos as int]); }
        if !ident_start_char(c0) {
            Err(ParseError::with1(
                Some(ParserErrorReason::BadRustIdent(c0)),
                ExpectedToken::Ident,
                pos,
            ))
        } else {
            let end = scan_ident(i, pos);
            proof {
                assert(run_len(s, ident_pred()) == end - pos);
            }
            if end < len {
                let cn = i.get_char(end);
                proof { assert(s[end - pos] == i@[end as int]); }
                if cn == '}' {
                    let name = i.substring_char(pos, end).to_owned();
                    proof { assert(name@ =~= s.take(end - pos)); }
                    Ok((name, end + 1))
                } else {
                    Err(ParseError::with2(
                        Some(ParserErrorReason::BadRustIdent(cn)),
                        ExpectedToken::CloseBracket,
                        ExpectedToken::Ident,
                        end,
                    ))
                }
            } else {
                Err(ParseError::with2(
                    None,
                    ExpectedToken::CloseBracket,
                    ExpectedToken::Ident,
                    end,
                ))
            }
        }
    }
}

/// Builds the failure used when a section count must be followed by `:` or,
/// in the positional mode, `}`.
fn fail_colon_or_close(field_type: FieldType, offset: usize) -> (r: ParseError)
    ensures
        r@ == perr(None, colon_or_close_expected(field_type), offset as nat),
{
    match field_type {
        FieldType::Named => ParseError::with1(None, ExpectedToken::Colon, offset),
        FieldType::Unnamed => ParseError::with2(
            None,
            ExpectedToken::Colon,
            ExpectedToken::CloseBracket,
            offset,
        ),
    }
}

/// Lexes a `{...}` capture starting at `pos`; see [`capture_spec`] for the
/// grammar.  With `single` set, only the one-section forms are available.
#[verifier::loop_isolation(false)]
#[verifier::rlimit(100)]
#[verifier::spinoff_prover]
pub fn capture(i: &str, pos: usize, field_type: FieldType, single: bool) -> (r: CaptureParse)
    requires
        pos <= i@.len(),
    ensures
        ({
            let sp = capture_spec(i@.skip(pos as int), field_type, single, pos as nat);
            match r {
                CaptureParse::NoMatch => sp is NoMatch,
                CaptureParse::Fail(e) => sp matches CaptureSpecResult::Fail(ev) && e@ == ev,
                CaptureParse::Token { cap, end } => {
                    &&& sp matches CaptureSpecResult::Token { cap: cv, len }
                        && cap@ == cv && end == pos + len
                    &&& end <= i@.len()
                },
            }
        }),
{
    let ghost s = i@.skip(pos as int);
    let ghost body = s.skip(1);
    let len = i.unicode_len();
    proof {
        if pos < len {
            assert(body =~= i@.skip(pos + 1));
        }
    }
    if pos == len || i.get_char(pos) != '{' {
        proof {
            if pos < len {
                assert(s[0] == i@[pos as int]);
            }
        }
        CaptureParse::NoMatch
    } else if pos + 1 == len {
        CaptureParse::Fail(
            match field_type {
                FieldType::Named => ParseError::with1(None, ExpectedToken::Ident, pos + 1),
                FieldType::Unnamed => ParseError::with2(
                    None,
                    ExpectedToken::CloseBracket,
                    ExpectedToken::Ident,
                    pos + 1,
                ),
            },
        )
    } else {
        let b0 = i.get_char(pos + 1);
        proof {
            assert(s[0] == i@[pos as int]);
            assert(body[0] == i@[pos + 1]);
        }
        if b0 == '}' {
            match field_type {
                FieldType::Unnamed => CaptureParse::Token {
                    cap: RefCaptureVariant::Unnamed,
                    end: pos + 2,
                },
                FieldType::Named => CaptureParse::Fail(
                    ParseError::with1(None, ExpectedToken::Ident, pos + 1),
                ),
            }
        } else if b0 == '*' && !single {
            if pos + 2 == len {
                CaptureParse::Fail(fail_colon_or_close(field_type, pos + 2))
            } else {
                let b1 = i.get_char(pos + 2);
                proof { assert(body[1] == i@[pos + 2]); }
                if b1 == '}' {
                    match field_type {
                        FieldType::Unnamed => CaptureParse::Token {
                            cap: RefCaptureVariant::ManyUnnamed,
                            end: pos + 3,
                        },
                        FieldType::Named => CaptureParse::Fail(
                            ParseError::with1(None, ExpectedToken::Colon, pos + 2),
                        ),
                    }
                } else if b1 == ':' {
                    proof { assert(body.skip(2) =~= i@.skip(pos + 3)); }
                    match name_then_close(i, pos + 3) {
                        Ok((name, end)) => CaptureParse::Token {
                            cap: RefCaptureVariant::ManyNamed(name),
                            end,
                        },
                        Err(e) => CaptureParse::Fail(e),
                    }
                } else {
                    CaptureParse::Fail(fail_colon_or_close(field_type, pos + 2))
                }
            }
        } else if digit_char_test(b0) && !single {
            let dstart = pos + 1;
            let dend = if b0 == '0' {
                dstart + 1
            } else {
                scan_digits(i, dstart)
            };
            let ghost m = (dend - dstart) as nat;
            let ghost ds = body.take(m as int);
            proof {
                assert(body == i@.skip(dstart as int));
                if b0 == '0' {
                    assert(m == 1);
                    assert(is_digit_char(i@[dstart as int]));
                } else {
                    assert(run_len(body, digit_pred()) == dend - dstart);
                    lemma_run_len_chars(body, digit_pred());
                    assert(forall|k: int| dstart <= k < dend ==> digit_pred()(#[trigger] body[k - dstart]));
                    assert(forall|k: int| dstart <= k < dend ==> body[k - dstart] == #[trigger] i@[k]);
                }
                assert(forall|k: int| dstart <= k < dend ==> is_digit_char(#[trigger] i@[k]));
                assert(ds =~= i@.subrange(dstart as int, dend as int));
            }
            let mut value: usize = 0;
            let mut k = dstart;
            while k < dend
                invariant
                    dstart <= k <= dend <= i@.len(),
                    pos + 1 == dstart,
                    value == digits_val(i@.subrange(dstart as int, k as int)),
                    forall|j: int| dstart <= j < dend ==> is_digit_char(#[trigger] i@[j]),
                    ds == i@.subrange(dstart as int, dend as int),
                    ds == body.take(m as int),
                    body == i@.skip(dstart as int),
                    m == dend - dstart,
                decreases dend - k,
            {
                let d = digit_value(i.get_char(k));
                proof {
                    let shorter = i@.subrange(dstart as int, k as int);
                    let longer = i@.subrange(dstart as int, k + 1);
                    assert(longer.drop_last() =~= shorter);
                    assert(longer.last() == i@[k as int]);
                    assert(digits_val(longer) == digits_val(shorter) * 10 + digit_val(i@[k as int]));
                }
                let v10 = match value.checked_mul(10) {
                    Some(v) => v,
                    None => {
                        proof {
                            lemma_digits_val_prefix(ds, (k + 1 - dstart) as nat);
                            assert(ds.take(k + 1 - dstart) =~= i@.subrange(dstart as int, k + 1));
                        }
                        return CaptureParse::Fail(ParseError::with0(None, dstart));
                    },
                };
                let v = match v10.checked_add(d) {
                    Some(v) => v,
                    None => {
                        proof {
                            lemma_digits_val_prefix(ds, (k + 1 - dstart) as nat);
                            assert(ds.take(k + 1 - dstart) =~= i@.subrange(dstart as int, k + 1));
                        }
                        return CaptureParse::Fail(ParseError::with0(None, dstart));
                    },
                };
                value = v;
                k = k + 1;
            }
            proof {
                assert(value == digits_val(ds));
            }
            if dend == len {
                CaptureParse::Fail(fail_colon_or_close(field_type, dend))
            } else {
                let cn = i.get_char(dend);
                proof { assert(body[m as int] == i@[dend as int]); }
                if cn == '}' {
                    match field_type {
                        FieldType::Unnamed => CaptureParse::Token {
                            cap: RefCaptureVariant::NumberedUnnamed { sections: value },
                            end: dend + 1,
                        },
                        FieldType::Named => CaptureParse::Fail(
                            ParseError::with1(None, ExpectedToken::Colon, dend),
                        ),
                    }
                } else if cn == ':' {
                    proof { assert(body.skip(m as int + 1) =~= i@.skip(dend + 1)); }
                    match name_then_close(i, dend + 1) {
                        Ok((name, end)) => CaptureParse::Token {
                            cap: RefCaptureVariant::NumberedNamed { sections: value, name },
                            end,
                        },
                        Err(e) => CaptureParse::Fail(e),
                    }
                } else {
                    CaptureParse::Fail(fail_colon_or_close(field_type, dend))
                }
            }
        } else if ident_start_char(b0) {
            match name_then_close(i, pos + 1) {
                Ok((name, end)) => CaptureParse::Token {
                    cap: RefCaptureVariant::Named(name),
                    end,
                },
                Err(e) => CaptureParse::Fail(e),
            }
        } else {
            CaptureParse::Fail(
                match field_type {
                    FieldType::Named => ParseError::with1(
                        Some(ParserErrorReason::BadRustIdent(b0)),
                        ExpectedToken::Ident,
                        pos + 1,
                    ),
                    FieldType::Unnamed => ParseError::with2(
                        Some(ParserErrorReason::BadRustIdent(b0)),
                        ExpectedToken::CloseBracket,
                        ExpectedToken::Ident,
                        pos + 1,
                    ),
                },
            )
        }
    }
}

/// Lexes a `key=value` query pair starting at `pos`; see [`query_spec`].
pub fn query(i: &str, pos: usize, field_type: FieldType) -> (r: Result<(RouteParserToken, usize), ParseError>)
    requires
        pos <= i@.len(),
    ensures
        ({
            let sp = query_spec(i@.skip(pos as int), field_type, pos as nat);
            match r {
                Ok((tok, end)) => {
                    &&& sp matches Ok((tv, l)) && tok@ == tv && end == pos + l
                    &&& end <= i@.len()
                },
                Err(e) => sp matches Err(ev) && e@ == ev,
            }
        }),
{
    let ghost s = i@.skip(pos as int);
    let len = i.unicode_len();
    if pos == len {
        Err(ParseError::with1(None, ExpectedToken::Ident, pos))
    } else {
        let c0 = i.get_char(pos);
        proof { assert(s[0] == i@[pos as int]); }
        if !ident_start_char(c0) {
            Err(ParseError::with1(None, ExpectedToken::Ident, pos))
        } else {
            let nend = scan_ident(i, pos);
            proof { assert(run_len(s, ident_pred()) == nend - pos); }
            if nend == len {
                Err(ParseError::with1(None, ExpectedToken::Equals, nend))
            } else {
                let ceq = i.get_char(nend);
                proof { assert(s[nend - pos] == i@[nend as int]); }
                if ceq != '=' {
                    Err(ParseError::with2(
                        Some(ParserErrorReason::BadRustIdent(ceq)),
                        ExpectedToken::Equals,
                        ExpectedToken::Ident,
                        nend,
                    ))
                } else {
                    let vstart = nend + 1;
                    let ghost v = s.skip(nend - pos + 1);
                    proof { assert(v =~= i@.skip(vstart as int)); }
                    if vstart == len {
                        Err(ParseError::with2(
                            None,
                            ExpectedToken::Literal,
                            ExpectedToken::CaptureBegin,
                            vstart,
                        ))
                    } else {
                        let cv = i.get_char(vstart);
                        proof { assert(v[0] == i@[vstart as int]); }
                        if lit_char(cv) {
                            let vend = scan_lit(i, vstart);
                            let key = i.substring_char(pos, nend).to_owned();
                            let val = i.substring_char(vstart, vend).to_owned();
                            proof {
                                assert(key@ =~= s.take(nend - pos));
                                assert(val@ =~= v.take(vend - vstart));
                            }
                            Ok((
                                RouteParserToken::Query {
                                    ident: key,
                                    capture_or_exact: CaptureOrExact::Exact(val),
                                },
                                vend,
                            ))
                        } else if cv == '{' {
                            match capture(i, vstart, field_type, false) {
                                CaptureParse::Token { cap, end } => {
                                    let key = i.substring_char(pos, nend).to_owned();
                                    proof { assert(key@ =~= s.take(nend - pos)); }
                                    Ok((
                                        RouteParserToken::Query {
                                            ident: key,
                                            capture_or_exact: CaptureOrExact::Capture(cap),
                                        },
                                        end,
                                    ))
                                },
                                CaptureParse::Fail(e) => Err(e),
                                CaptureParse::NoMatch => vstd::pervasive::unreached(),
                            }
                        } else {
                            Err(ParseError::with2(
                                None,
                                ExpectedToken::Literal,
                                ExpectedToken::CaptureBegin,
                                vstart,
                            ))
                        }
                    }
                }
            }
        }
    }
}

} // verus!
