use vstd::prelude::*;

use crate::builder::build_args;
use crate::builder::receiver_arg;
use crate::scanner::boundary_length;
use crate::scanner::lemma_boundary_length_bounds;
use crate::token::Delim;
use crate::token::RewriteError;
use crate::token::Spacing;
use crate::token::Tok;
use crate::walker::is_trigger_tail;
use crate::walker::rewrite_spec;
use crate::walker::walk;

verus! {

/// Whether a trigger pattern ends just before position `k` of `s`:
/// the three tokens before `s[k]` are `. name !` and `s[k]` is a group.
pub open spec fn trigger_at(s: Seq<Tok>, k: int) -> bool {
    &&& 3 <= k < s.len()
    &&& s[k] is Group
    &&& s[k - 3] == Tok::Punct('.', Spacing::Alone)
    &&& s[k - 2] is Ident
    &&& s[k - 1] == Tok::Punct('!', Spacing::Alone)
}

/// No trigger pattern occurs at or after position `i` of `s`,
/// nor anywhere inside a group standing at or after `i`.
pub open spec fn trigger_free_from(s: Seq<Tok>, i: int) -> bool
    decreases s, s.len() - i,
{
    if i < 0 || i >= s.len() {
        true
    } else {
        let head_ok = match s[i] {
            Tok::Group(_, inner) => !trigger_at(s, i) && trigger_free_from(inner, 0),
            _ => !trigger_at(s, i),
        };
        head_ok && trigger_free_from(s, i + 1)
    }
}

/// No trigger pattern occurs anywhere in `s`, at any nesting depth.
pub open spec fn trigger_free(s: Seq<Tok>) -> bool {
    trigger_free_from(s, 0)
}

proof fn lemma_walk_identity(s: Seq<Tok>, i: int)
    requires
        0 <= i <= s.len(),
        trigger_free_from(s, i),
    ensures
        walk(s, i, s.subrange(0, i)) == Ok::<Seq<Tok>, RewriteError>(s),
    decreases s, s.len() - i,
{
    if i == s.len() {
        assert(s.subrange(0, i) =~= s);
    } else {
        let out = s.subrange(0, i);
        match s[i] {
            Tok::Group(d, inner) => {
                assert(!is_trigger_tail(out)) by {
                    if is_trigger_tail(out) {
                        assert(trigger_at(s, i));
                    }
                }
                lemma_walk_identity(inner, 0);
                assert(inner.subrange(0, 0) =~= Seq::<Tok>::empty());
                lemma_walk_identity(s, i + 1);
                assert(out.push(Tok::Group(d, inner)) =~= s.subrange(0, i + 1));
            },
            _ => {
                lemma_walk_identity(s, i + 1);
                assert(out.push(s[i]) =~= s.subrange(0, i + 1));
            },
        }
    }
}

/// LAW: a sequence in which no trigger pattern is present, at any nesting
/// depth, is rewritten to itself, structurally identical.
pub proof fn lemma_rewrite_identity(s: Seq<Tok>)
    requires
        trigger_free(s),
    ensures
        rewrite_spec(s) == Ok::<Seq<Tok>, RewriteError>(s),
{
    lemma_walk_identity(s, 0);
    assert(s.subrange(0, 0) =~= Seq::<Tok>::empty());
}

/// LAW: a trigger standing at the very start of the sequence, with no
/// token before it to serve as receiver, fails fatally.
pub proof fn lemma_empty_receiver_fatal(s: Seq<Tok>)
    requires
        s.len() >= 4,
        s[0] == Tok::Punct('.', Spacing::Alone),
        s[1] is Ident,
        s[2] == Tok::Punct('!', Spacing::Alone),
        s[3] is Group,
    ensures
        rewrite_spec(s) == Err::<Seq<Tok>, RewriteError>(RewriteError::EmptyReceiver),
{
    let e = Seq::<Tok>::empty();
    let out3 = e.push(s[0]).push(s[1]).push(s[2]);
    assert(walk(s, 0, e) == walk(s, 1, e.push(s[0])));
    assert(walk(s, 1, e.push(s[0])) == walk(s, 2, e.push(s[0]).push(s[1])));
    assert(walk(s, 2, e.push(s[0]).push(s[1])) == walk(s, 3, out3));
    assert(is_trigger_tail(out3));
    assert(out3.subrange(0, 0) =~= Seq::<Tok>::empty());
    assert(walk(s, 3, out3) == Err::<Seq<Tok>, RewriteError>(RewriteError::EmptyReceiver));
}

/// No trigger pattern occurs at positions `i` up to `j` of `s`,
/// nor inside a group standing there.
pub open spec fn trigger_free_between(s: Seq<Tok>, i: int, j: int) -> bool
    decreases s, j - i,
{
    if i < 0 || i >= j || i >= s.len() {
        true
    } else {
        let head_ok = match s[i] {
            Tok::Group(_, inner) => !trigger_at(s, i) && trigger_free_from(inner, 0),
            _ => !trigger_at(s, i),
        };
        head_ok && trigger_free_between(s, i + 1, j)
    }
}

proof fn lemma_between_concat(s: Seq<Tok>, i: int, j: int, k: int)
    requires
        0 <= i <= j <= k,
        trigger_free_between(s, i, j),
        trigger_free_between(s, j, k),
    ensures
        trigger_free_between(s, i, k),
    decreases j - i,
{
    if i < j && i < s.len() {
        lemma_between_concat(s, i + 1, j, k);
    }
}

proof fn lemma_between_from_prefix(s: Seq<Tok>, pre: Seq<Tok>, i: int)
    requires
        pre.len() <= s.len(),
        forall|k: int| 0 <= k < pre.len() ==> s[k] == pre[k],
        0 <= i <= pre.len(),
        trigger_free_from(pre, i),
    ensures
        trigger_free_between(s, i, pre.len() as int),
    decreases pre.len() - i,
{
    if i < pre.len() {
        lemma_between_from_prefix(s, pre, i + 1);
        assert(s[i] == pre[i]);
        if 3 <= i {
            assert(s[i - 3] == pre[i - 3] && s[i - 2] == pre[i - 2] && s[i - 1] == pre[i - 1]);
        }
    }
}

proof fn lemma_walk_advance(s: Seq<Tok>, i: int, j: int)
    requires
        0 <= i <= j <= s.len(),
        trigger_free_between(s, i, j),
    ensures
        walk(s, i, s.subrange(0, i)) == walk(s, j, s.subrange(0, j)),
    decreases j - i,
{
    if i < j {
        let out = s.subrange(0, i);
        match s[i] {
            Tok::Group(d, inner) => {
                assert(!is_trigger_tail(out)) by {
                    if is_trigger_tail(out) {
                        assert(trigger_at(s, i));
                    }
                }
                lemma_walk_identity(inner, 0);
                assert(inner.subrange(0, 0) =~= Seq::<Tok>::empty());
                assert(out.push(Tok::Group(d, inner)) =~= s.subrange(0, i + 1));
                lemma_walk_advance(s, i + 1, j);
            },
            _ => {
                assert(out.push(s[i]) =~= s.subrange(0, i + 1));
                lemma_walk_advance(s, i + 1, j);
            },
        }
    }
}

/// LAW: token conservation at a rewrite site. With a trigger-free prefix
/// whose boundary scan yields a nonempty receiver run, and trigger-free
/// argument tokens, the rewrite of `PRE . NAME ! ( ARGS )` keeps the part
/// of the prefix outside the receiver run unchanged, drops the separating
/// dot, re-emits the name and the bang, and folds the receiver run and the
/// argument tokens into the rebuilt group: no other token is added,
/// dropped or reordered.
pub proof fn lemma_single_rewrite_site(pre: Seq<Tok>, name: Tok, d: Delim, args: Seq<Tok>, el: int)
    requires
        trigger_free(pre),
        trigger_free(args),
        name is Ident,
        boundary_length(pre) == Ok::<int, RewriteError>(el),
        0 < el,
    ensures
        el <= pre.len(),
        rewrite_spec(
            pre + seq![
                Tok::Punct('.', Spacing::Alone),
                name,
                Tok::Punct('!', Spacing::Alone),
                Tok::Group(d, args),
            ],
        ) == Ok::<Seq<Tok>, RewriteError>(
            pre.subrange(0, pre.len() - el) + seq![
                name,
                Tok::Punct('!', Spacing::Alone),
                Tok::Group(d, build_args(pre.subrange(pre.len() - el, pre.len() as int), args)),
            ],
        ),
{
    lemma_boundary_length_bounds(pre);
    let dot = Tok::Punct('.', Spacing::Alone);
    let bang = Tok::Punct('!', Spacing::Alone);
    let grp = Tok::Group(d, args);
    let s = pre + seq![dot, name, bang, grp];
    let n = pre.len() as int;
    lemma_between_from_prefix(s, pre, 0);
    assert(s.len() == n + 4);
    assert(s[n] == dot && s[n + 1] == name && s[n + 2] == bang && s[n + 3] == grp);
    assert(trigger_free_between(s, n + 3, n + 3));
    assert(trigger_free_between(s, n + 2, n + 3));
    assert(trigger_free_between(s, n + 1, n + 3));
    assert(trigger_free_between(s, n, n + 3));
    lemma_between_concat(s, 0, n, n + 3);
    lemma_walk_advance(s, 0, n + 3);
    assert(s.subrange(0, 0) =~= Seq::<Tok>::empty());
    let out = s.subrange(0, n + 3);
    assert(is_trigger_tail(out));
    let base = out.subrange(0, n);
    assert(base =~= pre);
    lemma_walk_identity(args, 0);
    assert(args.subrange(0, 0) =~= Seq::<Tok>::empty());
    let kept = base.subrange(0, base.len() - el);
    let recv = base.subrange(base.len() - el, base.len() as int);
    let new_out = kept + seq![name, bang, Tok::Group(d, build_args(recv, args))];
    assert(out[out.len() - 2] == name);
    assert(out[out.len() - 1] == bang);
    assert(walk(s, n + 3, out) == walk(s, n + 4, new_out));
    assert(walk(s, n + 4, new_out) == Ok::<Seq<Tok>, RewriteError>(new_out));
    assert(kept =~= pre.subrange(0, pre.len() - el));
    assert(recv =~= pre.subrange(pre.len() - el, pre.len() as int));
}

/// LAW: a receiver run of length one that is an identifier or a literal is
/// passed to the macro unwrapped; every other run is wrapped in one
/// brace-delimited group. The separating comma is inserted exactly when the
/// original call had argument tokens, so the rebuilt argument list is the
/// receiver argument alone, or the receiver argument, one comma, and the
/// original argument tokens unchanged.
pub proof fn lemma_receiver_wrapping(receiver: Seq<Tok>, args: Seq<Tok>)
    ensures
        (receiver.len() == 1 && (receiver[0] is Ident || receiver[0] is Literal)) ==> build_args(
            receiver,
            args,
        )[0] == receiver[0],
        !(receiver.len() == 1 && (receiver[0] is Ident || receiver[0] is Literal)) ==> build_args(
            receiver,
            args,
        )[0] == Tok::Group(Delim::Brace, receiver),
        args.len() == 0 ==> build_args(receiver, args) == seq![receiver_arg(receiver)],
        args.len() > 0 ==> build_args(receiver, args) == seq![
            receiver_arg(receiver),
            Tok::Punct(',', Spacing::Alone),
        ] + args,
{
}

} // verus!
