use vstd::prelude::*;

use crate::token::Delim;
use crate::token::Spacing;
use crate::token::Tok;
use crate::token::Token;
use crate::token::lemma_view_tokens_add;
use crate::token::lemma_view_tokens_index;
use crate::token::lemma_view_tokens_len;
use crate::token::view_token;
use crate::token::view_tokens;

verus! {

broadcast use lemma_view_tokens_len, lemma_view_tokens_index;

/// The argument token inserted in front of the macro's own arguments.
///
/// A receiver run of exactly one identifier or literal is passed as it is;
/// every other run is wrapped in a brace-delimited group, so that the
/// rewritten call groups the receiver correctly whatever operators it holds.
pub open spec fn receiver_arg(receiver: Seq<Tok>) -> Tok {
    if receiver.len() == 1 && (receiver[0] is Ident || receiver[0] is Literal) {
        receiver[0]
    } else {
        Tok::Group(Delim::Brace, receiver)
    }
}

/// The inner token sequence of the rewritten argument group: the receiver
/// argument, then — only if the original call had arguments — a separating
/// comma and the original argument tokens.
pub open spec fn build_args(receiver: Seq<Tok>, args: Seq<Tok>) -> Seq<Tok> {
    if args.len() == 0 {
        seq![receiver_arg(receiver)]
    } else {
        seq![receiver_arg(receiver), Tok::Punct(',', Spacing::Alone)] + args
    }
}

/// Builds the rewritten argument group of a postfix macro call: the
/// receiver run is folded in front of the call's own argument tokens,
/// under the call group's original delimiter shape.
pub fn prepend_macro_arg_to_group(tokens: Vec<Token>, delim: Delim, stream: Vec<Token>) -> (r:
    Token)
    ensures
        view_token(r) == Tok::Group(delim, build_args(view_tokens(tokens@), view_tokens(stream@))),
{
    let ghost rec = view_tokens(tokens@);
    let ghost args = view_tokens(stream@);
    let single = tokens.len() == 1 && (matches!(&tokens[0], Token::Ident { .. }) || matches!(
        &tokens[0],
        Token::Literal { .. },
    ));
    let mut res: Vec<Token> = Vec::new();
    if single {
        let mut tokens = tokens;
        let first = tokens.pop().unwrap();
        proof {
            assert(view_token(first) == rec[0]);
            assert(rec[0] is Ident || rec[0] is Literal);
        }
        res.push(first);
    } else {
        res.push(Token::Group { delim: Delim::Brace, inner: tokens });
    }
    proof {
        assert(view_tokens(res@) =~= seq![receiver_arg(rec)]);
    }
    if stream.len() > 0 {
        res.push(Token::Punct { ch: ',', spacing: Spacing::Alone });
        let mut stream = stream;
        let ghost res_before = res@;
        let ghost stream_before = stream@;
        res.append(&mut stream);
        proof {
            lemma_view_tokens_add(res_before, stream_before);
        }
    }
    proof {
        assert(view_tokens(res@) =~= build_args(rec, args));
    }
    Token::Group { delim, inner: res }
}

} // verus!
