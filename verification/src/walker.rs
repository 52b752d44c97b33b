use vstd::prelude::*;

use crate::builder::build_args;
use crate::builder::prepend_macro_arg_to_group;
use crate::scanner::boundary_length;
use crate::scanner::expression_length;
use crate::scanner::lemma_boundary_length_bounds;
use crate::token::RewriteError;
use crate::token::Spacing;
use crate::token::Tok;
use crate::token::Token;
use crate::token::copy_token;
use crate::token::lemma_view_tokens_index;
use crate::token::lemma_view_tokens_len;
use crate::token::lemma_view_tokens_subrange;
use crate::token::view_token;
use crate::token::view_tokens;

verus! {

broadcast use lemma_view_tokens_len, lemma_view_tokens_index;

/// The number of tokens in a token tree, the group shells included.
pub open spec fn tok_size(t: Tok) -> nat
    decreases t, 0int,
{
    match t {
        Tok::Group(_, inner) => 1 + toks_size_from(inner, 0),
        _ => 1,
    }
}

/// The number of tokens held in `s[i..]`, recursively.
pub open spec fn toks_size_from(s: Seq<Tok>, i: int) -> nat
    decreases s, s.len() - i + 1,
{
    if i < 0 || i >= s.len() {
        0
    } else {
        tok_size(s[i]) + toks_size_from(s, i + 1)
    }
}

/// The number of tokens in a token sequence, recursively.
pub open spec fn toks_size(s: Seq<Tok>) -> nat {
    toks_size_from(s, 0)
}

/// Each element's size is bounded by the size of the whole sequence.
proof fn lemma_toks_size_elem(s: Seq<Tok>, j: int, i: int)
    requires
        0 <= j <= i < s.len(),
    ensures
        tok_size(s[i]) <= toks_size_from(s, j),
    decreases i - j,
{
    if j < i {
        lemma_toks_size_elem(s, j + 1, i);
    }
}

/// Whether the last three emitted tokens form the trigger pattern
/// `. name !` that, followed by a group, marks a postfix macro call.
pub open spec fn is_trigger_tail(out: Seq<Tok>) -> bool {
    &&& out.len() >= 3
    &&& out[out.len() - 3] == Tok::Punct('.', Spacing::Alone)
    &&& out[out.len() - 2] is Ident
    &&& out[out.len() - 1] == Tok::Punct('!', Spacing::Alone)
}

/// One left-to-right pass over `s` from position `i` on, with `out` holding
/// what was already emitted. Each group token is first checked against the
/// trailing trigger window of `out`; on a match the receiver run is cut out
/// of `out` and folded into the group, the separating dot is dropped, and
/// the macro name and bang are re-emitted; otherwise the group is emitted
/// unchanged. Group inners are rewritten depth-first in both cases.
pub open spec fn walk(s: Seq<Tok>, i: int, out: Seq<Tok>) -> Result<Seq<Tok>, RewriteError>
    decreases s, s.len() - i,
{
    if i < 0 || i >= s.len() {
        Ok(out)
    } else {
        match s[i] {
            Tok::Group(d, inner) => {
                if is_trigger_tail(out) {
                    let base = out.subrange(0, out.len() - 3);
                    match boundary_length(base) {
                        Err(e) => Err(e),
                        Ok(el) => {
                            if el == 0 {
                                Err(RewriteError::EmptyReceiver)
                            } else {
                                match walk(inner, 0, Seq::empty()) {
                                    Err(e) => Err(e),
                                    Ok(inner_rw) => {
                                        let kept = base.subrange(0, base.len() - el);
                                        let receiver = base.subrange(
                                            base.len() - el,
                                            base.len() as int,
                                        );
                                        let rebuilt = Tok::Group(d, build_args(receiver, inner_rw));
                                        walk(
                                            s,
                                            i + 1,
                                            kept + seq![
                                                out[out.len() - 2],
                                                out[out.len() - 1],
                                                rebuilt,
                                            ],
                                        )
                                    },
                                }
                            }
                        },
                    }
                } else {
                    match walk(inner, 0, Seq::empty()) {
                        Err(e) => Err(e),
                        Ok(inner_rw) => walk(s, i + 1, out.push(Tok::Group(d, inner_rw))),
                    }
                }
            },
            t => walk(s, i + 1, out.push(t)),
        }
    }
}

/// The whole rewrite of a token sequence: every trigger site rewritten,
/// or the first fatal condition reported.
pub open spec fn rewrite_spec(s: Seq<Tok>) -> Result<Seq<Tok>, RewriteError> {
    walk(s, 0, Seq::empty())
}

/// Rewrites every postfix macro call `RECEIVER.NAME!(ARGS)` in `input`
/// (at any nesting depth, innermost first) into `NAME!(RECEIVER, ARGS)`,
/// or reports the first fatal condition of unsupported input.
pub fn rewrite(input: &Vec<Token>) -> (r: Result<Vec<Token>, RewriteError>)
    ensures
        match r {
            Ok(v) => rewrite_spec(view_tokens(input@)) == Ok::<Seq<Tok>, RewriteError>(
                view_tokens(v@),
            ),
            Err(e) => rewrite_spec(view_tokens(input@)) == Err::<Seq<Tok>, RewriteError>(e),
        },
    decreases toks_size(view_tokens(input@)),
{
    let ghost v0 = view_tokens(input@);
    let mut out: Vec<Token> = Vec::new();
    let mut i: usize = 0;
    while i < input.len()
        invariant
            v0 == view_tokens(input@),
            v0.len() == input@.len(),
            i <= input.len(),
            walk(v0, i as int, view_tokens(out@)) == walk(v0, 0, Seq::empty()),
        decreases input.len() - i,
    {
        let ghost out_v = view_tokens(out@);
        proof {
            assert(v0[i as int] == view_token(input@[i as int]));
        }
        match &input[i] {
            Token::Group { delim, inner } => {
                let ghost d = *delim;
                let ghost inner_v = view_tokens(inner@);
                proof {
                    assert(v0[i as int] == Tok::Group(d, inner_v));
                    lemma_toks_size_elem(v0, 0, i as int);
                    assert(toks_size(inner_v) < toks_size(v0));
                }
                let n = out.len();
                let mut trig = false;
                if n >= 3 {
                    let t3 = &out[n - 3];
                    let t2 = &out[n - 2];
                    let t1 = &out[n - 1];
                    let p3 = match t3 {
                        Token::Punct { ch, spacing } => *ch == '.' && *spacing == Spacing::Alone,
                        _ => false,
                    };
                    let p2 = matches!(t2, Token::Ident { .. });
                    let p1 = match t1 {
                        Token::Punct { ch, spacing } => *ch == '!' && *spacing == Spacing::Alone,
                        _ => false,
                    };
                    trig = p3 && p2 && p1;
                }
                proof {
                    assert(trig == is_trigger_tail(out_v));
                }
                if trig {
                    let ghost pre_pop = out@;
                    let bang = out.pop().unwrap();
                    let name = out.pop().unwrap();
                    let _dot = out.pop().unwrap();
                    let ghost base = out_v.subrange(0, out_v.len() - 3);
                    proof {
                        assert(view_token(bang) == out_v[out_v.len() - 1]);
                        assert(view_token(name) == out_v[out_v.len() - 2]);
                        assert(out@ =~= pre_pop.subrange(0, pre_pop.len() - 3));
                        lemma_view_tokens_subrange(pre_pop, 0, pre_pop.len() - 3);
                        assert(view_tokens(out@) =~= base);
                    }
                    let el = match expression_length(&out) {
                        Ok(el) => el,
                        Err(e) => {
                            proof {
                                assert(walk(v0, i as int, out_v) == Err::<Seq<Tok>, RewriteError>(
                                    e,
                                ));
                            }
                            return Err(e);
                        },
                    };
                    if el == 0 {
                        proof {
                            assert(walk(v0, i as int, out_v) == Err::<Seq<Tok>, RewriteError>(
                                RewriteError::EmptyReceiver,
                            ));
                        }
                        return Err(RewriteError::EmptyReceiver);
                    }
                    proof {
                        lemma_boundary_length_bounds(base);
                    }
                    let inner_rw = match rewrite(inner) {
                        Ok(v) => v,
                        Err(e) => {
                            proof {
                                assert(walk(v0, i as int, out_v) == Err::<Seq<Tok>, RewriteError>(
                                    e,
                                ));
                            }
                            return Err(e);
                        },
                    };
                    let ghost inner_rw_v = view_tokens(inner_rw@);
                    let ghost kept = base.subrange(0, base.len() - el);
                    let ghost recv = base.subrange(base.len() - el, base.len() as int);
                    let ghost pre_split = out@;
                    let receiver = out.split_off(out.len() - el);
                    proof {
                        lemma_view_tokens_subrange(pre_split, 0, pre_split.len() - el);
                        lemma_view_tokens_subrange(
                            pre_split,
                            pre_split.len() - el,
                            pre_split.len() as int,
                        );
                        assert(view_tokens(out@) =~= kept);
                        assert(view_tokens(receiver@) =~= recv);
                    }
                    let built = prepend_macro_arg_to_group(receiver, *delim, inner_rw);
                    let ghost rebuilt = Tok::Group(d, build_args(recv, inner_rw_v));
                    proof {
                        assert(view_token(built) == rebuilt);
                    }
                    let ghost pre_push = out@;
                    out.push(name);
                    out.push(bang);
                    out.push(built);
                    proof {
                        assert(out@ =~= pre_push.push(name).push(bang).push(built));
                        assert(view_tokens(out@) =~= kept + seq![
                            out_v[out_v.len() - 2],
                            out_v[out_v.len() - 1],
                            rebuilt,
                        ]);
                        assert(walk(v0, i as int, out_v) == walk(
                            v0,
                            i + 1,
                            view_tokens(out@),
                        ));
                    }
                } else {
                    let inner_rw = match rewrite(inner) {
                        Ok(v) => v,
                        Err(e) => {
                            proof {
                                assert(walk(v0, i as int, out_v) == Err::<Seq<Tok>, RewriteError>(
                                    e,
                                ));
                            }
                            return Err(e);
                        },
                    };
                    let ghost inner_rw_v = view_tokens(inner_rw@);
                    out.push(Token::Group { delim: *delim, inner: inner_rw });
                    proof {
                        assert(view_tokens(out@) =~= out_v.push(Tok::Group(d, inner_rw_v)));
                        assert(walk(v0, i as int, out_v) == walk(v0, i + 1, view_tokens(out@)));
                    }
                }
            },
            _ => {
                let c = copy_token(&input[i]);
                out.push(c);
                proof {
                    assert(view_tokens(out@) =~= out_v.push(v0[i as int]));
                    assert(walk(v0, i as int, out_v) == walk(v0, i + 1, view_tokens(out@)));
                }
            },
        }
        i = i + 1;
    }
    proof {
        assert(walk(v0, i as int, view_tokens(out@)) == Ok::<Seq<Tok>, RewriteError>(
            view_tokens(out@),
        ));
    }
    Ok(out)
}

} // verus!
