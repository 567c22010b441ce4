//! The optimizer: folds consecutive literal-producing route tokens into
//! single `Exact` matcher tokens, leaving captures and the terminator
//! untouched, so that a matching engine can compare long literal stretches at
//! once.

use vstd::prelude::*;
use crate::error::PrettyParseError;
use crate::parser::{parse, parse_spec};
use crate::scan::FieldType;
use crate::tokens::{literal_text, matcher_token_text, matcher_tokens_text, matcher_tokens_view,
    route_token_text, route_tokens_text, route_tokens_view, CaptureVariant, MatcherToken,
    MatcherTokenView, RouteParserToken, RouteTokenView};

verus! {

// ---------------------------------------------------------------------------
// The fold, spec level
// ---------------------------------------------------------------------------

/// The optimizer's fold.  `run` is the literal text accumulated so far,
/// `started` whether any token has contributed to it (a run of tokens can
/// render to empty text), and `acc` the output built so far.
///
/// A literal-rendering token extends the run; a capture flushes the run as
/// one `Exact` token (even when empty) and emits the capture; a query pair
/// contributes `key=value` to the run, or flushes `key=` when its value is a
/// capture; the terminator flushes and emits `End`.  A trailing run is
/// flushed only if some token started it.
pub open spec fn convert_loop(
    ts: Seq<RouteTokenView>,
    run: Seq<char>,
    started: bool,
    acc: Seq<MatcherTokenView>,
) -> Seq<MatcherTokenView>
    decreases ts.len(),
{
    if ts.len() == 0 {
        if started {
            acc.push(MatcherTokenView::Exact(run))
        } else {
            acc
        }
    } else {
        let rest = ts.skip(1);
        match ts[0] {
            RouteTokenView::Separator
            | RouteTokenView::Exact(_)
            | RouteTokenView::QueryBegin
            | RouteTokenView::QuerySeparator
            | RouteTokenView::FragmentBegin => convert_loop(
                rest,
                run + literal_text(ts[0]),
                true,
                acc,
            ),
            RouteTokenView::Capture(c) => convert_loop(
                rest,
                Seq::empty(),
                false,
                acc.push(MatcherTokenView::Exact(run)).push(MatcherTokenView::Capture(c)),
            ),
            RouteTokenView::Query { ident, value } => match value {
                crate::tokens::CaptureOrExactView::Exact(s) => convert_loop(
                    rest,
                    run + ident + seq!['='] + s,
                    true,
                    acc,
                ),
                crate::tokens::CaptureOrExactView::Capture(c) => convert_loop(
                    rest,
                    Seq::empty(),
                    false,
                    acc.push(MatcherTokenView::Exact(run + ident + seq!['='])).push(
                        MatcherTokenView::Capture(c),
                    ),
                ),
            },
            RouteTokenView::End => convert_loop(
                rest,
                Seq::empty(),
                false,
                acc.push(MatcherTokenView::Exact(run)).push(MatcherTokenView::End),
            ),
        }
    }
}

/// What [`convert_tokens`] computes.
pub open spec fn convert_spec(ts: Seq<RouteTokenView>) -> Seq<MatcherTokenView> {
    convert_loop(ts, Seq::empty(), false, Seq::empty())
}

// ---------------------------------------------------------------------------
// The fold, executable
// ---------------------------------------------------------------------------

/// The view of `CaptureVariant::from` agrees with the view of its argument.
proof fn lemma_from_preserves_view(c: crate::tokens::RefCaptureVariant)
    ensures
        <CaptureVariant as vstd::std_specs::convert::FromSpec<
            crate::tokens::RefCaptureVariant,
        >>::from_spec(c)@ == c@,
{
}

/// Converts route tokens into matcher tokens, condensing every run of
/// literal-rendering tokens into a single `Exact` token.
#[verifier::rlimit(100)]
#[verifier::spinoff_prover]
pub fn convert_tokens(tokens: &Vec<RouteParserToken>) -> (r: Vec<MatcherToken>)
    ensures
        matcher_tokens_view(r@) == convert_spec(route_tokens_view(tokens@)),
        no_adjacent_exacts(matcher_tokens_view(r@)),
{
    proof {
        lemma_optimized_no_adjacent_exacts(route_tokens_view(tokens@));
    }
    let mut new_tokens: Vec<MatcherToken> = Vec::new();
    // The accumulated literal text, and whether any token has contributed to
    // it; a contributing run may still render to the empty string.
    let mut run = String::new();
    let mut run_has_tokens = false;
    let mut idx: usize = 0;
    let ghost all = route_tokens_view(tokens@);
    proof {
        assert(all.skip(0) =~= all);
        assert(matcher_tokens_view(new_tokens@) =~= Seq::<MatcherTokenView>::empty());
    }
    while idx < tokens.len()
        invariant
            idx <= tokens.len(),
            all == route_tokens_view(tokens@),
            convert_spec(all) == convert_loop(
                all.skip(idx as int),
                run@,
                run_has_tokens,
                matcher_tokens_view(new_tokens@),
            ),
        decreases tokens.len() - idx,
    {
        let ghost rest0 = all.skip(idx as int);
        let ghost acc0 = matcher_tokens_view(new_tokens@);
        let ghost run0 = run@;
        let ghost started0 = run_has_tokens;
        proof {
            assert(rest0[0] == tokens@[idx as int]@);
            assert(rest0.skip(1) =~= all.skip(idx as int + 1));
        }
        let token = &tokens[idx];
        match token {
            RouteParserToken::Separator
            | RouteParserToken::Exact(_)
            | RouteParserToken::QueryBegin
            | RouteParserToken::QuerySeparator
            | RouteParserToken::FragmentBegin => {
                run.append(token.as_str());
                run_has_tokens = true;
            },
            RouteParserToken::Capture(cap) => {
                new_tokens.push(MatcherToken::Exact(run));
                run = String::new();
                run_has_tokens = false;
                let owned = CaptureVariant::from(cap.clone());
                proof { lemma_from_preserves_view(*cap); }
                new_tokens.push(MatcherToken::Capture(owned));
                proof {
                    assert(matcher_tokens_view(new_tokens@) =~= acc0.push(
                        MatcherTokenView::Exact(run0),
                    ).push(MatcherTokenView::Capture(cap@)));
                }
            },
            RouteParserToken::Query { ident, capture_or_exact } => match capture_or_exact {
                crate::tokens::CaptureOrExact::Exact(s) => {
                    run.append(ident.as_str());
                    run.append("=");
                    run.append(s.as_str());
                    run_has_tokens = true;
                    proof {
                        reveal_strlit("=");
                        assert(run@ =~= run0 + ident@ + seq!['='] + s@);
                    }
                },
                crate::tokens::CaptureOrExact::Capture(cap) => {
                    run.append(ident.as_str());
                    run.append("=");
                    proof {
                        reveal_strlit("=");
                        assert(run@ =~= run0 + ident@ + seq!['=']);
                    }
                    new_tokens.push(MatcherToken::Exact(run));
                    run = String::new();
                    run_has_tokens = false;
                    let owned = CaptureVariant::from(cap.clone());
                    proof { lemma_from_preserves_view(*cap); }
                    new_tokens.push(MatcherToken::Capture(owned));
                    proof {
                        reveal_strlit("=");
                        assert(matcher_tokens_view(new_tokens@) =~= acc0.push(
                            MatcherTokenView::Exact(run0 + ident@ + seq!['=']),
                        ).push(MatcherTokenView::Capture(cap@)));
                    }
                },
            },
            RouteParserToken::End => {
                new_tokens.push(MatcherToken::Exact(run));
                run = String::new();
                run_has_tokens = false;
                new_tokens.push(MatcherToken::End);
                proof {
                    assert(matcher_tokens_view(new_tokens@) =~= acc0.push(
                        MatcherTokenView::Exact(run0),
                    ).push(MatcherTokenView::End));
                }
            },
        }
        idx = idx + 1;
        proof {
            assert(convert_spec(all) == convert_loop(
                all.skip(idx as int),
                run@,
                run_has_tokens,
                matcher_tokens_view(new_tokens@),
            ));
        }
    }
    proof {
        assert(all.skip(tokens@.len() as int).len() == 0);
    }
    if run_has_tokens {
        new_tokens.push(MatcherToken::Exact(run));
        proof {
            assert(matcher_tokens_view(new_tokens@) =~= convert_spec(all));
        }
    }
    new_tokens
}

// ---------------------------------------------------------------------------
// Laws of the fold
// ---------------------------------------------------------------------------

/// No two adjacent `Exact` tokens.
pub open spec fn no_adjacent_exacts(ms: Seq<MatcherTokenView>) -> bool {
    forall|k: int| 0 <= k < ms.len() - 1 ==> !((#[trigger] ms[k]) is Exact && ms[k + 1] is Exact)
}

/// The shape of every optimizer output: literals never stand side by side,
/// and every capture and terminator stands directly behind the `Exact` token
/// its run was flushed into.
pub open spec fn optimized_form(ms: Seq<MatcherTokenView>) -> bool {
    &&& no_adjacent_exacts(ms)
    &&& forall|k: int| 0 <= k < ms.len() && ((#[trigger] ms[k]) is Capture || ms[k] is End)
        ==> k > 0 && ms[k - 1] is Exact
}

proof fn lemma_convert_loop_form(
    ts: Seq<RouteTokenView>,
    run: Seq<char>,
    started: bool,
    acc: Seq<MatcherTokenView>,
)
    requires
        optimized_form(acc),
        acc.len() > 0 ==> !(acc.last() is Exact),
    ensures
        optimized_form(convert_loop(ts, run, started, acc)),
    decreases ts.len(),
{
    if ts.len() == 0 {
        if started {
            let out = acc.push(MatcherTokenView::Exact(run));
            assert(forall|k: int| 0 <= k < acc.len() ==> out[k] == acc[k]);
            assert(optimized_form(out));
        }
    } else {
        let rest = ts.skip(1);
        match ts[0] {
            RouteTokenView::Separator
            | RouteTokenView::Exact(_)
            | RouteTokenView::QueryBegin
            | RouteTokenView::QuerySeparator
            | RouteTokenView::FragmentBegin => {
                lemma_convert_loop_form(rest, run + literal_text(ts[0]), true, acc);
            },
            RouteTokenView::Capture(c) => {
                let acc2 = acc.push(MatcherTokenView::Exact(run)).push(
                    MatcherTokenView::Capture(c),
                );
                assert(forall|k: int| 0 <= k < acc.len() ==> acc2[k] == acc[k]);
                assert(acc2[acc.len() as int] is Exact);
                assert(acc2.last() is Capture);
                lemma_convert_loop_form(rest, Seq::empty(), false, acc2);
            },
            RouteTokenView::Query { ident, value } => match value {
                crate::tokens::CaptureOrExactView::Exact(s) => {
                    lemma_convert_loop_form(rest, run + ident + seq!['='] + s, true, acc);
                },
                crate::tokens::CaptureOrExactView::Capture(c) => {
                    let acc2 = acc.push(MatcherTokenView::Exact(run + ident + seq!['='])).push(
                        MatcherTokenView::Capture(c),
                    );
                    assert(forall|k: int| 0 <= k < acc.len() ==> acc2[k] == acc[k]);
                    assert(acc2[acc.len() as int] is Exact);
                    assert(acc2.last() is Capture);
                    lemma_convert_loop_form(rest, Seq::empty(), false, acc2);
                },
            },
            RouteTokenView::End => {
                let acc2 = acc.push(MatcherTokenView::Exact(run)).push(MatcherTokenView::End);
                assert(forall|k: int| 0 <= k < acc.len() ==> acc2[k] == acc[k]);
                assert(acc2[acc.len() as int] is Exact);
                assert(acc2.last() is End);
                lemma_convert_loop_form(rest, Seq::empty(), false, acc2);
            },
        }
    }
}

/// Law: whatever tokens go in, the optimized sequence never holds two
/// adjacent `Exact` tokens; every capture and terminator is flushed in
/// directly behind one `Exact` token.
pub proof fn lemma_optimized_no_adjacent_exacts(ts: Seq<RouteTokenView>)
    ensures
        no_adjacent_exacts(convert_spec(ts)),
        optimized_form(convert_spec(ts)),
{
    lemma_convert_loop_form(ts, Seq::empty(), false, Seq::empty());
}

/// Reads matcher tokens back into the parser's token vocabulary, so the fold
/// can be applied to its own output.
pub open spec fn reembed(ms: Seq<MatcherTokenView>) -> Seq<RouteTokenView> {
    ms.map_values(|m: MatcherTokenView| match m {
        MatcherTokenView::Exact(s) => RouteTokenView::Exact(s),
        MatcherTokenView::Capture(c) => RouteTokenView::Capture(c),
        MatcherTokenView::End => RouteTokenView::End,
    })
}

#[verifier::rlimit(100)]
#[verifier::spinoff_prover]
proof fn lemma_reconvert_loop(ms: Seq<MatcherTokenView>, acc: Seq<MatcherTokenView>)
    requires
        optimized_form(ms),
    ensures
        convert_loop(reembed(ms), Seq::empty(), false, acc) == acc + ms,
    decreases ms.len(),
{
    if ms.len() == 0 {
        assert(reembed(ms).len() == 0);
        assert(acc + ms =~= acc);
    } else {
        // the first element cannot be a capture or the terminator, so it is
        // a literal
        assert(!(ms[0] is Capture) && !(ms[0] is End));
        let s0 = ms[0]->Exact_0;
        assert(ms[0] == MatcherTokenView::Exact(s0));
        let em = reembed(ms);
        assert(em[0] == RouteTokenView::Exact(s0));
        assert(em.skip(1) =~= reembed(ms.skip(1)));
        assert(Seq::<char>::empty() + s0 =~= s0);
        let rest1 = em.skip(1);
        assert(convert_loop(em, Seq::empty(), false, acc)
            == convert_loop(rest1, Seq::empty() + s0, true, acc));
        if ms.len() == 1 {
            assert(rest1.len() == 0);
            assert(convert_loop(rest1, s0, true, acc) == acc.push(MatcherTokenView::Exact(s0)));
            assert(acc.push(ms[0]) =~= acc + ms);
        } else {
            assert(!(ms[1] is Exact));
            assert(rest1[0] == em[1]);
            assert(rest1.skip(1) =~= reembed(ms.skip(2)));
            let suffix = ms.skip(2);
            assert(optimized_form(suffix)) by {
                assert(forall|k: int| 0 <= k < suffix.len() ==> suffix[k] == ms[k + 2]);
                if suffix.len() > 0 && (suffix[0] is Capture || suffix[0] is End) {
                    assert(ms[1] is Exact);
                }
            }
            match ms[1] {
                MatcherTokenView::Capture(c) => {
                    assert(em[1] == RouteTokenView::Capture(c));
                    let acc2 = acc.push(MatcherTokenView::Exact(s0)).push(
                        MatcherTokenView::Capture(c),
                    );
                    assert(convert_loop(rest1, s0, true, acc)
                        == convert_loop(rest1.skip(1), Seq::empty(), false, acc2));
                    lemma_reconvert_loop(suffix, acc2);
                    assert(acc2 + suffix =~= acc + ms);
                },
                MatcherTokenView::End => {
                    assert(em[1] == RouteTokenView::End);
                    let acc2 = acc.push(MatcherTokenView::Exact(s0)).push(MatcherTokenView::End);
                    assert(convert_loop(rest1, s0, true, acc)
                        == convert_loop(rest1.skip(1), Seq::empty(), false, acc2));
                    lemma_reconvert_loop(suffix, acc2);
                    assert(acc2 + suffix =~= acc + ms);
                },
                MatcherTokenView::Exact(_) => {
                    assert(false);
                },
            }
        }
    }
}

/// Law: the fold is idempotent on its own output vocabulary.  Reading an
/// already-optimized sequence back as route tokens and folding again changes
/// nothing.
pub proof fn lemma_optimize_idempotent(ts: Seq<RouteTokenView>)
    ensures
        convert_spec(reembed(convert_spec(ts))) == convert_spec(ts),
{
    lemma_optimized_no_adjacent_exacts(ts);
    lemma_reconvert_loop(convert_spec(ts), Seq::empty());
    assert(Seq::<MatcherTokenView>::empty() + convert_spec(ts) =~= convert_spec(ts));
}

proof fn lemma_matcher_text_push(acc: Seq<MatcherTokenView>, x: MatcherTokenView)
    ensures
        matcher_tokens_text(acc.push(x)) == matcher_tokens_text(acc) + matcher_token_text(x),
    decreases acc.len(),
{
    if acc.len() == 0 {
        assert(acc.push(x)[0] == x);
        assert(acc.push(x).skip(1) =~= Seq::<MatcherTokenView>::empty());
        assert(matcher_tokens_text(acc.push(x))
            == matcher_token_text(x) + matcher_tokens_text(Seq::empty()));
        assert(matcher_token_text(x) + Seq::<char>::empty() =~= matcher_token_text(x));
        assert(matcher_tokens_text(acc) + matcher_token_text(x) =~= matcher_token_text(x));
    } else {
        assert(acc.push(x)[0] == acc[0]);
        assert(acc.push(x).skip(1) =~= acc.skip(1).push(x));
        assert(matcher_tokens_text(acc.push(x))
            == matcher_token_text(acc[0]) + matcher_tokens_text(acc.skip(1).push(x)));
        lemma_matcher_text_push(acc.skip(1), x);
        assert(matcher_tokens_text(acc)
            == matcher_token_text(acc[0]) + matcher_tokens_text(acc.skip(1)));
        assert(matcher_token_text(acc[0]) + (matcher_tokens_text(acc.skip(1)) + matcher_token_text(x))
            =~= (matcher_token_text(acc[0]) + matcher_tokens_text(acc.skip(1))) + matcher_token_text(x));
    }
}

#[verifier::rlimit(100)]
#[verifier::spinoff_prover]
proof fn lemma_convert_loop_text(
    ts: Seq<RouteTokenView>,
    run: Seq<char>,
    started: bool,
    acc: Seq<MatcherTokenView>,
)
    requires
        !started ==> run == Seq::<char>::empty(),
    ensures
        matcher_tokens_text(convert_loop(ts, run, started, acc))
            == matcher_tokens_text(acc) + run + route_tokens_text(ts),
    decreases ts.len(),
{
    let a = matcher_tokens_text(acc);
    if ts.len() == 0 {
        if started {
            lemma_matcher_text_push(acc, MatcherTokenView::Exact(run));
            assert(a + run + route_tokens_text(ts) =~= a + run);
        } else {
            assert(a + run + route_tokens_text(ts) =~= a);
        }
    } else {
        let rest = ts.skip(1);
        let t0 = route_token_text(ts[0]);
        assert(route_tokens_text(ts) == t0 + route_tokens_text(rest));
        match ts[0] {
            RouteTokenView::Separator
            | RouteTokenView::Exact(_)
            | RouteTokenView::QueryBegin
            | RouteTokenView::QuerySeparator
            | RouteTokenView::FragmentBegin => {
                lemma_convert_loop_text(rest, run + literal_text(ts[0]), true, acc);
                assert(a + (run + t0) + route_tokens_text(rest)
                    =~= a + run + (t0 + route_tokens_text(rest)));
            },
            RouteTokenView::Capture(c) => {
                let acc2 = acc.push(MatcherTokenView::Exact(run)).push(
                    MatcherTokenView::Capture(c),
                );
                lemma_matcher_text_push(acc, MatcherTokenView::Exact(run));
                lemma_matcher_text_push(acc.push(MatcherTokenView::Exact(run)),
                    MatcherTokenView::Capture(c));
                lemma_convert_loop_text(rest, Seq::empty(), false, acc2);
                assert(((a + run) + t0) + Seq::<char>::empty() + route_tokens_text(rest)
                    =~= a + run + (t0 + route_tokens_text(rest)));
            },
            RouteTokenView::Query { ident, value } => match value {
                crate::tokens::CaptureOrExactView::Exact(s) => {
                    lemma_convert_loop_text(rest, run + ident + seq!['='] + s, true, acc);
                    assert(a + (run + ident + seq!['='] + s) + route_tokens_text(rest)
                        =~= a + run + (t0 + route_tokens_text(rest)));
                },
                crate::tokens::CaptureOrExactView::Capture(c) => {
                    let flushed = run + ident + seq!['='];
                    let acc2 = acc.push(MatcherTokenView::Exact(flushed)).push(
                        MatcherTokenView::Capture(c),
                    );
                    lemma_matcher_text_push(acc, MatcherTokenView::Exact(flushed));
                    lemma_matcher_text_push(acc.push(MatcherTokenView::Exact(flushed)),
                        MatcherTokenView::Capture(c));
                    lemma_convert_loop_text(rest, Seq::empty(), false, acc2);
                    assert(((a + flushed) + crate::tokens::capture_text(c)) + Seq::<char>::empty()
                        + route_tokens_text(rest)
                        =~= a + run + (t0 + route_tokens_text(rest)));
                },
            },
            RouteTokenView::End => {
                let acc2 = acc.push(MatcherTokenView::Exact(run)).push(MatcherTokenView::End);
                lemma_matcher_text_push(acc, MatcherTokenView::Exact(run));
                lemma_matcher_text_push(acc.push(MatcherTokenView::Exact(run)),
                    MatcherTokenView::End);
                lemma_convert_loop_text(rest, Seq::empty(), false, acc2);
                assert(((a + run) + seq!['!']) + Seq::<char>::empty() + route_tokens_text(rest)
                    =~= a + run + (t0 + route_tokens_text(rest)));
            },
        }
    }
}

/// Law (round-trip literal preservation, optimizer half): the fold preserves
/// the concatenated text of the tokens exactly; together with the parser's
/// half, the optimized tokens of a successful parse spell out the input.
pub proof fn lemma_optimize_preserves_text(ts: Seq<RouteTokenView>)
    ensures
        matcher_tokens_text(convert_spec(ts)) == route_tokens_text(ts),
{
    lemma_convert_loop_text(ts, Seq::empty(), false, Seq::empty());
    assert(matcher_tokens_text(Seq::empty()) + Seq::<char>::empty() + route_tokens_text(ts)
        =~= route_tokens_text(ts));
}

/// The terminator, if present in an optimized sequence, stands only as its
/// final element.
pub open spec fn end_only_last_matcher(ms: Seq<MatcherTokenView>) -> bool {
    forall|k: int| 0 <= k < ms.len() && (#[trigger] ms[k]) is End ==> k == ms.len() - 1
}

proof fn lemma_convert_loop_end(
    ts: Seq<RouteTokenView>,
    run: Seq<char>,
    started: bool,
    acc: Seq<MatcherTokenView>,
)
    requires
        crate::parser::end_only_last(ts),
        forall|k: int| 0 <= k < acc.len() ==> !((#[trigger] acc[k]) is End),
    ensures
        end_only_last_matcher(convert_loop(ts, run, started, acc)),
    decreases ts.len(),
{
    if ts.len() == 0 {
        if started {
            let out = acc.push(MatcherTokenView::Exact(run));
            assert(forall|k: int| 0 <= k < acc.len() ==> out[k] == acc[k]);
        }
    } else {
        let rest = ts.skip(1);
        assert(forall|k: int| 0 <= k < rest.len() ==> rest[k] == ts[k + 1]);
        match ts[0] {
            RouteTokenView::Separator
            | RouteTokenView::Exact(_)
            | RouteTokenView::QueryBegin
            | RouteTokenView::QuerySeparator
            | RouteTokenView::FragmentBegin => {
                lemma_convert_loop_end(rest, run + literal_text(ts[0]), true, acc);
            },
            RouteTokenView::Capture(c) => {
                let acc2 = acc.push(MatcherTokenView::Exact(run)).push(
                    MatcherTokenView::Capture(c),
                );
                assert(forall|k: int| 0 <= k < acc.len() ==> acc2[k] == acc[k]);
                lemma_convert_loop_end(rest, Seq::empty(), false, acc2);
            },
            RouteTokenView::Query { ident, value } => match value {
                crate::tokens::CaptureOrExactView::Exact(s) => {
                    lemma_convert_loop_end(rest, run + ident + seq!['='] + s, true, acc);
                },
                crate::tokens::CaptureOrExactView::Capture(c) => {
                    let acc2 = acc.push(MatcherTokenView::Exact(run + ident + seq!['='])).push(
                        MatcherTokenView::Capture(c),
                    );
                    assert(forall|k: int| 0 <= k < acc.len() ==> acc2[k] == acc[k]);
                    lemma_convert_loop_end(rest, Seq::empty(), false, acc2);
                },
            },
            RouteTokenView::End => {
                // the terminator is the last input token, so the fold ends
                // right after emitting it
                assert(ts.len() == 1);
                let acc2 = acc.push(MatcherTokenView::Exact(run)).push(MatcherTokenView::End);
                assert(rest.len() == 0);
                assert(convert_loop(ts, run, started, acc)
                    == convert_loop(rest, Seq::empty(), false, acc2));
                assert(convert_loop(rest, Seq::empty(), false, acc2) == acc2);
                assert(forall|k: int| 0 <= k < acc.len() ==> acc2[k] == acc[k]);
                assert(end_only_last_matcher(acc2));
            },
        }
    }
}

/// Law: if the terminator is only ever the last route token, it is also only
/// ever the last matcher token, and therefore unique in both sequences.
pub proof fn lemma_optimize_end_is_final(ts: Seq<RouteTokenView>)
    requires
        crate::parser::end_only_last(ts),
    ensures
        end_only_last_matcher(convert_spec(ts)),
{
    lemma_convert_loop_end(ts, Seq::empty(), false, Seq::empty());
}

/// Law: for every matcher string the parser accepts, parsing followed by
/// optimizing yields a sequence with no two adjacent `Exact` tokens, whose
/// concatenated text spells out the input exactly, and whose terminator, if
/// any, is the unique final element.
pub proof fn lemma_parse_then_optimize(input: Seq<char>, ft: FieldType)
    ensures
        parse_spec(input, ft) matches Ok(ts) ==> {
            &&& no_adjacent_exacts(convert_spec(ts))
            &&& matcher_tokens_text(convert_spec(ts)) == input
            &&& end_only_last_matcher(convert_spec(ts))
        },
{
    match parse_spec(input, ft) {
        Ok(ts) => {
            lemma_optimized_no_adjacent_exacts(ts);
            crate::parser::lemma_parse_preserves_text(input, ft);
            lemma_optimize_preserves_text(ts);
            crate::parser::lemma_parse_end_is_final(input, ft);
            lemma_optimize_end_is_final(ts);
        },
        Err(_) => {},
    }
}

/// Parses the given matcher string and then optimizes the tokens.
pub fn parse_str_and_optimize_tokens(i: &str, field_type: FieldType) -> (r: Result<Vec<MatcherToken>, PrettyParseError>)
    ensures
        match r {
            Ok(mt) => {
                &&& parse_spec(i@, field_type) matches Ok(tv)
                    && matcher_tokens_view(mt@) == convert_spec(tv)
                &&& no_adjacent_exacts(matcher_tokens_view(mt@))
                &&& matcher_tokens_text(matcher_tokens_view(mt@)) == i@
            },
            Err(e) => parse_spec(i@, field_type) matches Err(ev) && e@ == ev,
        },
{
    proof {
        lemma_parse_then_optimize(i@, field_type);
    }
    match parse(i, field_type) {
        Ok(tokens) => Ok(convert_tokens(&tokens)),
        Err(e) => Err(e),
    }
}

} // verus!
