use vstd::prelude::*;

use crate::token::RewriteError;
use crate::token::Spacing;
use crate::token::Delim;
use crate::token::Token;
use crate::token::Tok;
use crate::token::lemma_view_tokens_index;
use crate::token::lemma_view_tokens_len;
use crate::token::view_token;
use crate::token::view_tokens;

verus! {

broadcast use lemma_view_tokens_len, lemma_view_tokens_index;

/// The text of the one keyword that may always be absorbed into a receiver:
/// `mut`, because prefixes such as `&mut x` are legal expressions.
pub open spec fn mut_text() -> Seq<char> {
    seq!['m', 'u', 't']
}

/// What the backward search for a binary-operator partner concluded.
/// The search starts just behind an ambiguous `&`, `*` or `-` and walks
/// further back; `offs` counts the tokens it passed over.
pub enum BinopOutcome {
    /// No partner can exist: the operator chain is a run of unary prefixes.
    Unary { offs: int },
    /// The token behind the passed-over chain is the partner of a binary use.
    Partner { offs: int },
    /// A token outside the supported grammar was encountered.
    Fail { err: RewriteError },
}

/// The backward search for the other operand of a possibly-binary
/// `&`, `*` or `-`. The operator stands at position `bl` of `tts`;
/// the search inspects `tts[bl - 1 - offs]`, walking backward.
///
/// A brace group, or a `;`/`,`/`=`, cannot precede a binary operand here, so
/// everything passed over was a unary prefix. A parenthesis or bracket group,
/// an identifier other than `mut`, or a literal is the partner of a binary
/// use. Further `&`/`*`/`-` (and the keyword `mut`) are inconclusive and are
/// passed over. Reaching the start of the input without resolving means no
/// partner exists, so the whole chain was unary.
pub open spec fn binop_search(tts: Seq<Tok>, bl: int, offs: int) -> BinopOutcome
    decreases bl - offs,
{
    if offs < 0 || bl > tts.len() || offs >= bl {
        BinopOutcome::Unary { offs }
    } else {
        match tts[bl - 1 - offs] {
            Tok::Group(d, _) => {
                if d == Delim::Brace {
                    BinopOutcome::Unary { offs }
                } else if d == Delim::NoDelim {
                    BinopOutcome::Fail { err: RewriteError::UnsupportedDelimiter }
                } else {
                    BinopOutcome::Partner { offs }
                }
            },
            Tok::Ident(text) => {
                if text == mut_text() {
                    binop_search(tts, bl, offs + 1)
                } else {
                    BinopOutcome::Partner { offs }
                }
            },
            Tok::Punct(c, _) => {
                if c == ';' || c == ',' || c == '=' {
                    BinopOutcome::Unary { offs }
                } else if c == '&' || c == '*' || c == '-' {
                    binop_search(tts, bl, offs + 1)
                } else {
                    BinopOutcome::Fail { err: RewriteError::UnsupportedPunctuation(c) }
                }
            },
            Tok::Literal(_) => BinopOutcome::Partner { offs },
        }
    }
}

/// Whether `c` is a punctuation character that unconditionally terminates
/// a receiver expression: no bare receiver can contain it at this level.
pub open spec fn terminator_char(c: char) -> bool {
    c == ',' || c == ';' || c == '+' || c == '/' || c == '%' || c == '=' || c == '<' || c == '>'
        || c == '|' || c == '^'
}

/// The backward boundary scan, having already accumulated `expr_len`
/// trailing tokens of `tts` into the receiver; `last_was_punct` tells
/// whether the previously scanned token (or the trigger itself, at the
/// start) was punctuation or a group.
///
/// `Ok(n)` means the trailing `n` tokens of `tts` form the receiver.
pub open spec fn scan_from(tts: Seq<Tok>, expr_len: int, last_was_punct: bool) -> Result<
    int,
    RewriteError,
>
    decreases tts.len() - expr_len,
{
    if expr_len < 0 || expr_len >= tts.len() {
        Ok(expr_len)
    } else {
        match tts[tts.len() - 1 - expr_len] {
            Tok::Group(_, _) => scan_from(tts, expr_len + 1, true),
            Tok::Ident(text) => {
                if last_was_punct || text == mut_text() {
                    scan_from(tts, expr_len + 1, false)
                } else {
                    Ok(expr_len)
                }
            },
            Tok::Literal(_) => scan_from(tts, expr_len + 1, false),
            Tok::Punct(c, sp) => {
                if c == '.' && sp == Spacing::Alone {
                    scan_from(tts, expr_len + 1, true)
                } else if c == '?' || c == '!' {
                    scan_from(tts, expr_len + 1, true)
                } else if (c == '.' || c == '&') && sp == Spacing::Joint {
                    Ok(expr_len)
                } else if terminator_char(c) {
                    Ok(expr_len)
                } else if c == '&' || c == '*' || c == '-' {
                    let bl = tts.len() - 1 - expr_len;
                    match binop_search(tts, bl, 0) {
                        BinopOutcome::Fail { err } => Err(err),
                        BinopOutcome::Unary { offs } => Ok(expr_len + offs + 1),
                        BinopOutcome::Partner { offs } => {
                            if offs == 0 {
                                Ok(expr_len)
                            } else {
                                match tts[bl - offs] {
                                    Tok::Ident(_) => Err(RewriteError::MalformedBinopStart),
                                    Tok::Punct(c1, s1) => {
                                        let and_and = c1 == '&' && s1 == Spacing::Joint
                                            && (match tts[bl - offs + 1] {
                                            Tok::Punct(c2, _) => c2 == '&',
                                            _ => false,
                                        });
                                        if and_and {
                                            Ok(expr_len + offs - 1)
                                        } else {
                                            Ok(expr_len + offs)
                                        }
                                    },
                                    _ => Ok(expr_len + offs),
                                }
                            }
                        },
                    }
                } else {
                    Err(RewriteError::UnsupportedPunctuation(c))
                }
            },
        }
    }
}

/// The boundary scan of a whole prefix: how many trailing tokens of `tts`
/// form the receiver expression of a trigger that follows them.
pub open spec fn boundary_length(tts: Seq<Tok>) -> Result<int, RewriteError> {
    scan_from(tts, 0, true)
}

/// The binop-partner search never walks past the front of the input:
/// whatever it concludes, the offset stays within the searched range.
pub proof fn lemma_binop_search_bounds(tts: Seq<Tok>, bl: int, offs: int)
    requires
        0 <= offs <= bl <= tts.len(),
    ensures
        match binop_search(tts, bl, offs) {
            BinopOutcome::Unary { offs: o } => offs <= o <= bl,
            BinopOutcome::Partner { offs: o } => offs <= o < bl,
            BinopOutcome::Fail { .. } => true,
        },
    decreases bl - offs,
{
    if offs < bl {
        match tts[bl - 1 - offs] {
            Tok::Ident(text) => {
                if text == mut_text() {
                    lemma_binop_search_bounds(tts, bl, offs + 1);
                }
            },
            Tok::Punct(c, _) => {
                if !(c == ';' || c == ',' || c == '=') && (c == '&' || c == '*' || c == '-') {
                    lemma_binop_search_bounds(tts, bl, offs + 1);
                }
            },
            _ => {},
        }
    }
}

/// A successful boundary scan yields a length between the already
/// accumulated run and the whole prefix.
pub proof fn lemma_scan_from_bounds(tts: Seq<Tok>, expr_len: int, last_was_punct: bool)
    requires
        0 <= expr_len <= tts.len(),
    ensures
        match scan_from(tts, expr_len, last_was_punct) {
            Ok(n) => expr_len <= n <= tts.len(),
            Err(_) => true,
        },
    decreases tts.len() - expr_len,
{
    if expr_len < tts.len() {
        match tts[tts.len() - 1 - expr_len] {
            Tok::Group(_, _) => lemma_scan_from_bounds(tts, expr_len + 1, true),
            Tok::Ident(text) => {
                if last_was_punct || text == mut_text() {
                    lemma_scan_from_bounds(tts, expr_len + 1, false);
                }
            },
            Tok::Literal(_) => lemma_scan_from_bounds(tts, expr_len + 1, false),
            Tok::Punct(c, sp) => {
                if c == '.' && sp == Spacing::Alone {
                    lemma_scan_from_bounds(tts, expr_len + 1, true);
                } else if c == '?' || c == '!' {
                    lemma_scan_from_bounds(tts, expr_len + 1, true);
                } else if (c == '.' || c == '&') && sp == Spacing::Joint {
                } else if terminator_char(c) {
                } else if c == '&' || c == '*' || c == '-' {
                    lemma_binop_search_bounds(tts, tts.len() - 1 - expr_len, 0);
                }
            },
        }
    }
}

/// A successful boundary scan of the whole prefix stays within it.
pub proof fn lemma_boundary_length_bounds(tts: Seq<Tok>)
    ensures
        match boundary_length(tts) {
            Ok(n) => 0 <= n <= tts.len(),
            Err(_) => true,
        },
{
    lemma_scan_from_bounds(tts, 0, true);
}

/// Whether this identifier is the keyword `mut`.
fn is_mut_ident(text: &String) -> (r: bool)
    ensures
        r == (text@ == mut_text()),
{
    let s = text.as_str();
    let r = s.unicode_len() == 3 && s.get_char(0) == 'm' && s.get_char(1) == 'u' && s.get_char(2)
        == 't';
    proof {
        if r {
            assert(text@ =~= mut_text());
        } else {
            if text@ == mut_text() {
                assert(text@.len() == 3);
                assert(text@[0] == 'm' && text@[1] == 'u' && text@[2] == 't');
            }
        }
    }
    r
}

/// Walks the chain of trailing tokens of `tts` that form the expression a
/// postfix macro call would attach to, and returns how many tokens belong
/// to it. Unsupported punctuation or delimiter shapes are rejected.
pub fn expression_length(tts: &Vec<Token>) -> (r: Result<usize, RewriteError>)
    ensures
        match r {
            Ok(n) => boundary_length(view_tokens(tts@)) == Ok::<int, RewriteError>(n as int),
            Err(e) => boundary_length(view_tokens(tts@)) == Err::<int, RewriteError>(e),
        },
{
    let ghost v = view_tokens(tts@);
    let mut expr_len: usize = 0;
    let mut lwp: bool = true;
    while expr_len < tts.len()
        invariant
            v == view_tokens(tts@),
            v.len() == tts@.len(),
            expr_len <= tts.len(),
            scan_from(v, expr_len as int, lwp) == scan_from(v, 0, true),
        decreases tts.len() - expr_len,
    {
        let idx = tts.len() - 1 - expr_len;
        proof {
            assert(v[idx as int] == view_token(tts@[idx as int]));
        }
        match &tts[idx] {
            Token::Group { .. } => {
                lwp = true;
                expr_len = expr_len + 1;
            },
            Token::Ident { text } => {
                if !lwp && !is_mut_ident(text) {
                    return Ok(expr_len);
                }
                lwp = false;
                expr_len = expr_len + 1;
            },
            Token::Literal { .. } => {
                lwp = false;
                expr_len = expr_len + 1;
            },
            Token::Punct { ch, spacing } => {
                let c = *ch;
                let sp = *spacing;
                if c == '.' && sp == Spacing::Alone {
                    lwp = true;
                    expr_len = expr_len + 1;
                } else if c == '?' || c == '!' {
                    lwp = true;
                    expr_len = expr_len + 1;
                } else if (c == '.' || c == '&') && sp == Spacing::Joint {
                    return Ok(expr_len);
                } else if c == ',' || c == ';' || c == '+' || c == '/' || c == '%' || c == '='
                    || c == '<' || c == '>' || c == '|' || c == '^' {
                    return Ok(expr_len);
                } else if c == '&' || c == '*' || c == '-' {
                    let bl = idx;
                    let mut offs: usize = 0;
                    let mut partner: bool = false;
                    while offs < bl && !partner
                        invariant
                            v == view_tokens(tts@),
                            v.len() == tts@.len(),
                            expr_len < tts.len(),
                            bl == tts.len() - 1 - expr_len,
                            offs <= bl,
                            scan_from(v, expr_len as int, lwp) == scan_from(v, 0, true),
                            v[bl as int] == Tok::Punct(c, sp),
                            c == '&' || c == '*' || c == '-',
                            !(c == '&' && sp == Spacing::Joint),
                            !partner ==> binop_search(v, bl as int, offs as int) == binop_search(
                                v,
                                bl as int,
                                0,
                            ),
                            partner ==> binop_search(v, bl as int, 0)
                                == (BinopOutcome::Partner { offs: offs as int }),
                        decreases bl - offs + (if partner { 0int } else { 1int }),
                    {
                        let j = bl - 1 - offs;
                        proof {
                            assert(v[j as int] == view_token(tts@[j as int]));
                        }
                        match &tts[j] {
                            Token::Group { delim, .. } => {
                                if *delim == Delim::Brace {
                                    return Ok(expr_len + offs + 1);
                                } else if *delim == Delim::NoDelim {
                                    return Err(RewriteError::UnsupportedDelimiter);
                                } else {
                                    partner = true;
                                }
                            },
                            Token::Ident { text } => {
                                if is_mut_ident(text) {
                                    offs = offs + 1;
                                } else {
                                    partner = true;
                                }
                            },
                            Token::Punct { ch: c2, .. } => {
                                let cc = *c2;
                                if cc == ';' || cc == ',' || cc == '=' {
                                    return Ok(expr_len + offs + 1);
                                } else if cc == '&' || cc == '*' || cc == '-' {
                                    offs = offs + 1;
                                } else {
                                    return Err(RewriteError::UnsupportedPunctuation(cc));
                                }
                            },
                            Token::Literal { .. } => {
                                partner = true;
                            },
                        }
                    }
                    if !partner {
                        // The search reached the start of the input: no binop
                        // partner exists, so the whole chain was unary.
                        return Ok(expr_len + offs + 1);
                    }
                    if offs == 0 {
                        return Ok(expr_len);
                    }
                    proof {
                        assert(v[(bl - offs) as int] == view_token(tts@[(bl - offs) as int]));
                        assert(v[(bl - offs + 1) as int] == view_token(
                            tts@[(bl - offs + 1) as int],
                        ));
                    }
                    match &tts[bl - offs] {
                        Token::Ident { .. } => {
                            return Err(RewriteError::MalformedBinopStart);
                        },
                        Token::Punct { ch: c1, spacing: s1 } => {
                            let mut and_and = false;
                            if *c1 == '&' && *s1 == Spacing::Joint {
                                if let Token::Punct { ch: c2, .. } = &tts[bl - offs + 1] {
                                    if *c2 == '&' {
                                        and_and = true;
                                    }
                                }
                            }
                            if and_and {
                                return Ok(expr_len + offs - 1);
                            } else {
                                return Ok(expr_len + offs);
                            }
                        },
                        _ => {
                            return Ok(expr_len + offs);
                        },
                    }
                } else {
                    return Err(RewriteError::UnsupportedPunctuation(c));
                }
            },
        }
    }
    Ok(expr_len)
}

} // verus!
