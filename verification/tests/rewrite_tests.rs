use postfix_rewrite::builder::prepend_macro_arg_to_group;
use postfix_rewrite::scanner::expression_length;
use postfix_rewrite::token::token_eq;
use postfix_rewrite::token::tokens_eq;
use postfix_rewrite::token::Delim;
use postfix_rewrite::token::RewriteError;
use postfix_rewrite::token::Spacing;
use postfix_rewrite::token::Token;
use postfix_rewrite::walker::rewrite;

fn ident(s: &str) -> Token {
    Token::Ident { text: s.to_string() }
}

fn lit(s: &str) -> Token {
    Token::Literal { text: s.to_string() }
}

fn punct(c: char) -> Token {
    Token::Punct { ch: c, spacing: Spacing::Alone }
}

fn punct_joint(c: char) -> Token {
    Token::Punct { ch: c, spacing: Spacing::Joint }
}

fn paren(inner: Vec<Token>) -> Token {
    Token::Group { delim: Delim::Parenthesis, inner }
}

fn brace(inner: Vec<Token>) -> Token {
    Token::Group { delim: Delim::Brace, inner }
}

fn rewritten(input: Vec<Token>) -> Vec<Token> {
    match rewrite(&input) {
        Ok(output) => output,
        Err(e) => panic!("rewrite failed: {:?}", e),
    }
}

fn expect_failure(input: &Vec<Token>) -> RewriteError {
    match rewrite(input) {
        Ok(_) => panic!("rewrite unexpectedly succeeded"),
        Err(e) => e,
    }
}

#[test]
fn no_trigger_is_identity() {
    let input = vec![ident("a"), punct('+'), ident("b"), paren(vec![ident("c")])];
    let output = rewritten(vec![ident("a"), punct('+'), ident("b"), paren(vec![ident("c")])]);
    assert!(tokens_eq(&output, &input));
}

#[test]
fn empty_input_is_identity() {
    let output = rewritten(vec![]);
    assert!(tokens_eq(&output, &vec![]));
}

#[test]
fn empty_args_no_trailing_comma() {
    // a.f!() becomes f!(a)
    let input = vec![ident("a"), punct('.'), ident("f"), punct('!'), paren(vec![])];
    let expected = vec![ident("f"), punct('!'), paren(vec![ident("a")])];
    assert!(tokens_eq(&rewritten(input), &expected));
}

#[test]
fn nonempty_args_get_separator() {
    // a.f!(1, 2) becomes f!(a, 1, 2)
    let input = vec![
        ident("a"),
        punct('.'),
        ident("f"),
        punct('!'),
        paren(vec![lit("1"), punct(','), lit("2")]),
    ];
    let expected = vec![
        ident("f"),
        punct('!'),
        paren(vec![ident("a"), punct(','), lit("1"), punct(','), lit("2")]),
    ];
    assert!(tokens_eq(&rewritten(input), &expected));
}

#[test]
fn nested_triggers_innermost_first() {
    // a.f!(b.g!()) becomes f!(a, g!(b))
    let input = vec![
        ident("a"),
        punct('.'),
        ident("f"),
        punct('!'),
        paren(vec![ident("b"), punct('.'), ident("g"), punct('!'), paren(vec![])]),
    ];
    let expected = vec![
        ident("f"),
        punct('!'),
        paren(vec![ident("a"), punct(','), ident("g"), punct('!'), paren(vec![ident("b")])]),
    ];
    assert!(tokens_eq(&rewritten(input), &expected));
}

#[test]
fn chained_triggers_compose() {
    // a.f!().g!() becomes g!(f!(a))
    let input = vec![
        ident("a"),
        punct('.'),
        ident("f"),
        punct('!'),
        paren(vec![]),
        punct('.'),
        ident("g"),
        punct('!'),
        paren(vec![]),
    ];
    // The receiver run f!(a) is three tokens long, so it is brace-wrapped.
    let expected = vec![
        ident("g"),
        punct('!'),
        paren(vec![brace(vec![ident("f"), punct('!'), paren(vec![ident("a")])])]),
    ];
    assert!(tokens_eq(&rewritten(input), &expected));
}

#[test]
fn binary_star_keeps_left_operand_out() {
    // y * x.f!() keeps the receiver to x alone
    let input = vec![
        ident("y"),
        punct('*'),
        ident("x"),
        punct('.'),
        ident("f"),
        punct('!'),
        paren(vec![]),
    ];
    let expected = vec![ident("y"), punct('*'), ident("f"), punct('!'), paren(vec![ident("x")])];
    assert!(tokens_eq(&rewritten(input), &expected));
}

#[test]
fn unary_star_is_absorbed() {
    // *x.f!() has no binop partner, so the receiver is *x
    let input = vec![punct('*'), ident("x"), punct('.'), ident("f"), punct('!'), paren(vec![])];
    let expected = vec![
        ident("f"),
        punct('!'),
        paren(vec![brace(vec![punct('*'), ident("x")])]),
    ];
    assert!(tokens_eq(&rewritten(input), &expected));
}

#[test]
fn and_and_consumes_both_amp_tokens() {
    // a && b.f!() yields receiver b only
    let input = vec![
        ident("a"),
        punct_joint('&'),
        punct('&'),
        ident("b"),
        punct('.'),
        ident("f"),
        punct('!'),
        paren(vec![]),
    ];
    let expected = vec![
        ident("a"),
        punct_joint('&'),
        punct('&'),
        ident("f"),
        punct('!'),
        paren(vec![ident("b")]),
    ];
    assert!(tokens_eq(&rewritten(input), &expected));
}

#[test]
fn single_literal_receiver_is_not_wrapped() {
    let input = vec![lit("1"), punct('.'), ident("f"), punct('!'), paren(vec![])];
    let expected = vec![ident("f"), punct('!'), paren(vec![lit("1")])];
    assert!(tokens_eq(&rewritten(input), &expected));
}

#[test]
fn single_group_receiver_is_wrapped() {
    // (a).f!() wraps the parenthesised receiver in braces
    let input = vec![paren(vec![ident("a")]), punct('.'), ident("f"), punct('!'), paren(vec![])];
    let expected = vec![
        ident("f"),
        punct('!'),
        paren(vec![brace(vec![paren(vec![ident("a")])])]),
    ];
    assert!(tokens_eq(&rewritten(input), &expected));
}

#[test]
fn amp_mut_prefix_is_absorbed() {
    // &mut x.f!() takes the whole prefix as receiver
    let input = vec![
        punct('&'),
        ident("mut"),
        ident("x"),
        punct('.'),
        ident("f"),
        punct('!'),
        paren(vec![]),
    ];
    let expected = vec![
        ident("f"),
        punct('!'),
        paren(vec![brace(vec![punct('&'), ident("mut"), ident("x")])]),
    ];
    assert!(tokens_eq(&rewritten(input), &expected));
}

#[test]
fn assignment_makes_prefix_unary() {
    // a = &mut x.f!() absorbs &mut into the receiver
    let input = vec![
        ident("a"),
        punct('='),
        punct('&'),
        ident("mut"),
        ident("x"),
        punct('.'),
        ident("f"),
        punct('!'),
        paren(vec![]),
    ];
    let expected = vec![
        ident("a"),
        punct('='),
        ident("f"),
        punct('!'),
        paren(vec![brace(vec![punct('&'), ident("mut"), ident("x")])]),
    ];
    assert!(tokens_eq(&rewritten(input), &expected));
}

#[test]
fn brace_block_behind_operator_means_unary() {
    // {} &x.f!() treats & as unary; the block stays outside the receiver
    let input = vec![
        brace(vec![]),
        punct('&'),
        ident("x"),
        punct('.'),
        ident("f"),
        punct('!'),
        paren(vec![]),
    ];
    let expected = vec![
        brace(vec![]),
        ident("f"),
        punct('!'),
        paren(vec![brace(vec![punct('&'), ident("x")])]),
    ];
    assert!(tokens_eq(&rewritten(input), &expected));
}

#[test]
fn plus_terminates_receiver() {
    let input = vec![
        ident("a"),
        punct('+'),
        ident("b"),
        punct('.'),
        ident("f"),
        punct('!'),
        paren(vec![]),
    ];
    let expected = vec![ident("a"), punct('+'), ident("f"), punct('!'), paren(vec![ident("b")])];
    assert!(tokens_eq(&rewritten(input), &expected));
}

#[test]
fn question_mark_chains_into_receiver() {
    // a?.f!() takes a? as the receiver
    let input = vec![ident("a"), punct('?'), punct('.'), ident("f"), punct('!'), paren(vec![])];
    let expected = vec![
        ident("f"),
        punct('!'),
        paren(vec![brace(vec![ident("a"), punct('?')])]),
    ];
    assert!(tokens_eq(&rewritten(input), &expected));
}

#[test]
fn joint_dot_terminates_receiver() {
    let input = vec![
        ident("x"),
        punct_joint('.'),
        ident("y"),
        punct('.'),
        ident("f"),
        punct('!'),
        paren(vec![]),
    ];
    let expected = vec![
        ident("x"),
        punct_joint('.'),
        ident("f"),
        punct('!'),
        paren(vec![ident("y")]),
    ];
    assert!(tokens_eq(&rewritten(input), &expected));
}

#[test]
fn trigger_inside_plain_group_is_rewritten() {
    // { a.f!() } becomes { f!(a) }: groups are walked depth-first
    let input = vec![brace(vec![
        ident("a"),
        punct('.'),
        ident("f"),
        punct('!'),
        paren(vec![]),
    ])];
    let expected = vec![brace(vec![ident("f"), punct('!'), paren(vec![ident("a")])])];
    assert!(tokens_eq(&rewritten(input), &expected));
}

#[test]
fn joint_amp_terminates_receiver() {
    let input = vec![
        ident("x"),
        punct_joint('&'),
        ident("y"),
        punct('.'),
        ident("f"),
        punct('!'),
        paren(vec![]),
    ];
    let expected = vec![
        ident("x"),
        punct_joint('&'),
        ident("f"),
        punct('!'),
        paren(vec![ident("y")]),
    ];
    assert!(tokens_eq(&rewritten(input), &expected));
}

#[test]
fn trigger_at_start_fails() {
    let input = vec![punct('.'), ident("f"), punct('!'), paren(vec![])];
    assert_eq!(expect_failure(&input), RewriteError::EmptyReceiver);
}

#[test]
fn unsupported_punctuation_fails() {
    let input = vec![
        ident("a"),
        punct('#'),
        ident("b"),
        punct('.'),
        ident("f"),
        punct('!'),
        paren(vec![]),
    ];
    assert_eq!(expect_failure(&input), RewriteError::UnsupportedPunctuation('#'));
}

#[test]
fn unsupported_delimiter_fails() {
    let input = vec![
        Token::Group { delim: Delim::NoDelim, inner: vec![] },
        punct('-'),
        ident("x"),
        punct('.'),
        ident("f"),
        punct('!'),
        paren(vec![]),
    ];
    assert_eq!(expect_failure(&input), RewriteError::UnsupportedDelimiter);
}

#[test]
fn malformed_binop_start_fails() {
    // y mut -x.f!(): the resolved chain would start with an identifier
    let input = vec![
        ident("y"),
        ident("mut"),
        punct('-'),
        ident("x"),
        punct('.'),
        ident("f"),
        punct('!'),
        paren(vec![]),
    ];
    assert_eq!(expect_failure(&input), RewriteError::MalformedBinopStart);
}

#[test]
fn fatal_error_inside_nested_group_propagates() {
    let inner = vec![punct('.'), ident("f"), punct('!'), paren(vec![])];
    let input = vec![ident("a"), brace(inner)];
    assert_eq!(expect_failure(&input), RewriteError::EmptyReceiver);
}

#[test]
fn expression_length_stops_at_binary_operator() {
    let prefix = vec![ident("a"), punct('+'), ident("b")];
    assert_eq!(expression_length(&prefix), Ok(1));
}

#[test]
fn expression_length_takes_whole_prefix() {
    let prefix = vec![ident("a"), punct('.'), ident("b")];
    assert_eq!(expression_length(&prefix), Ok(3));
}

#[test]
fn expression_length_of_two_idents_stops() {
    let prefix = vec![ident("if"), ident("cond")];
    assert_eq!(expression_length(&prefix), Ok(1));
}

#[test]
fn builder_keeps_delimiter_shape() {
    let receiver = vec![ident("a")];
    let stream = vec![lit("1")];
    let built = prepend_macro_arg_to_group(receiver, Delim::Bracket, stream);
    let expected = Token::Group {
        delim: Delim::Bracket,
        inner: vec![ident("a"), punct(','), lit("1")],
    };
    assert!(token_eq(&built, &expected));
}
