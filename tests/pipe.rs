use core::str::FromStr;

use proc_macro2::{Delimiter as PmDelimiter, Group, Ident, Literal, Punct, Spacing as PmSpacing, Span, TokenStream, TokenTree};

use timrs_pipe::error::{unexpected_end_of_stream_message, unexpected_token_message, ParseError};
use timrs_pipe::grammar::{FunctionToken, OperandToken, OperationToken};
use timrs_pipe::marker::{InsertToken, OperatorToken};
use timrs_pipe::parse::{accumulate_while, lookahead, LookaheadToken};
use timrs_pipe::expr::is_host_form;
use timrs_pipe::pipe::{pipe, rewrite, InputToken, PipeToken};
use timrs_pipe::text::render;
use timrs_pipe::token::{copy_range, Delimiter, Spacing, Token};

fn convert(stream: TokenStream) -> Vec<Token> {
    stream
        .into_iter()
        .map(|tree| match tree {
            TokenTree::Group(g) => {
                let d = match g.delimiter() {
                    PmDelimiter::Parenthesis => Delimiter::Parenthesis,
                    PmDelimiter::Brace => Delimiter::Brace,
                    PmDelimiter::Bracket => Delimiter::Bracket,
                    PmDelimiter::None => Delimiter::Invisible,
                };
                Token::Group(d, convert(g.stream()))
            }
            TokenTree::Ident(i) => Token::Ident(i.to_string()),
            TokenTree::Punct(p) => Token::Punct(
                p.as_char(),
                match p.spacing() {
                    PmSpacing::Alone => Spacing::Alone,
                    PmSpacing::Joint => Spacing::Joint,
                },
            ),
            TokenTree::Literal(l) => Token::Literal(l.to_string()),
        })
        .collect()
}

fn unconvert(tokens: &[Token]) -> TokenStream {
    tokens
        .iter()
        .map(|token| -> TokenTree {
            match token {
                Token::Group(d, inner) => {
                    let d = match d {
                        Delimiter::Parenthesis => PmDelimiter::Parenthesis,
                        Delimiter::Brace => PmDelimiter::Brace,
                        Delimiter::Bracket => PmDelimiter::Bracket,
                        Delimiter::Invisible => PmDelimiter::None,
                    };
                    Group::new(d, unconvert(inner)).into()
                }
                Token::Ident(s) => Ident::new(s, Span::call_site()).into(),
                Token::Punct(c, s) => Punct::new(
                    *c,
                    match s {
                        Spacing::Alone => PmSpacing::Alone,
                        Spacing::Joint => PmSpacing::Joint,
                    },
                )
                .into(),
                Token::Literal(s) => Literal::from_str(s).unwrap().into(),
            }
        })
        .collect()
}

fn build_tokens(input: &str) -> Vec<Token> {
    convert(TokenStream::from_str(input).unwrap())
}

fn show(tokens: &[Token]) -> String {
    unconvert(tokens).to_string()
}

fn normalized(input: &str) -> String {
    TokenStream::from_str(input).unwrap().to_string()
}

fn pipe_text(input: &str) -> Result<String, String> {
    pipe(&build_tokens(input)).map(|out| show(&out)).map_err(|e| e.message())
}

fn operand_text(operand: &OperandToken) -> String {
    match operand {
        OperandToken::Function(f) => show(&f.value),
        _ => panic!("Unexpected `OperandToken` variant"),
    }
}

#[test]
fn should_generate_correct_unexpected_end_of_stream_message() {
    assert_eq!(
        unexpected_end_of_stream_message(),
        "Unexpected End of Stream",
        "Testing `unexpected_end_of_stream_message` error message formatting.",
    )
}

#[test]
fn should_generate_correct_unexpected_token_message() {
    let expected = "`A`";
    let got = "`B`";

    assert_eq!(
        unexpected_token_message(expected, got),
        format!("Unexpected Token: Expected {expected}, Got {got}"),
        "Testing `unexpected_token_message` error message formatting.",
    )
}

#[test]
fn should_correctly_parse_after_operator_token() {
    let output = OperatorToken::parse(&build_tokens("<|"), 0).map_err(|e| e.message()).unwrap();

    assert_eq!(output, (OperatorToken::After, 2), "Testing `OperatorToken` successful parsing: `After`");
}

#[test]
fn should_correctly_parse_before_operator_token() {
    let output = OperatorToken::parse(&build_tokens("|>"), 0).map_err(|e| e.message()).unwrap();

    assert_eq!(output, (OperatorToken::Before, 2), "Testing `OperatorToken` successful parsing: `Before`");
}

#[test]
fn should_correctly_fail_parsing_operator_token() {
    let expected_token = "`Operator (<| or |>)`";
    let got_token = "INVALID_INPUT";
    let output = OperatorToken::parse(&build_tokens(got_token), 0).unwrap_err();

    assert_eq!(
        output.message(),
        unexpected_token_message(expected_token, got_token),
        "Testing `OperatorToken` unsuccessful parsing"
    );
}

#[test]
fn should_have_the_correct_lookahead_token_size_for_operator_token() {
    assert_eq!(OperatorToken::size(), 2_usize)
}

#[test]
fn should_correctly_parse_function_token() {
    let input_closure = "| x | x + 1";
    let input_identifier = "a";
    let input_parenthesized = "(a)";
    let output_closure = FunctionToken::parse(&build_tokens(input_closure)).unwrap();
    let output_identifier = FunctionToken::parse(&build_tokens(input_identifier)).unwrap();
    let output_parenthesized = FunctionToken::parse(&build_tokens(input_parenthesized)).unwrap();

    assert_eq!(show(&output_closure.value), input_closure, "Testing `FunctionToken` successful parsing: Closure");
    assert_eq!(
        show(&output_identifier.value),
        input_identifier,
        "Testing `FunctionToken` successful parsing: Identifier"
    );
    assert_eq!(
        show(&output_parenthesized.value),
        input_parenthesized,
        "Testing `FunctionToken` successful parsing: Parenthesized"
    );
}

#[test]
fn should_correctly_fail_parsing_function_token() {
    let output_not_expression = FunctionToken::parse(&build_tokens("+")).unwrap_err();

    assert_eq!(
        output_not_expression.message(),
        "expected an expression",
        "Testing `FunctionToken` unsuccessful parsing: Not an expression"
    );

    let output_eof = FunctionToken::parse(&build_tokens("")).unwrap_err();

    assert_eq!(
        output_eof.message(),
        "unexpected end of input, expected an expression",
        "Testing `FunctionToken` unsuccessful parsing: End of file"
    );
}

#[test]
fn should_correctly_parse_function_operand_token() {
    let input = "| x | x + 1";
    let output = OperandToken::parse(&build_tokens(input)).unwrap();

    assert_eq!(operand_text(&output), input, "Testing `OperandToken` successful parsing: `Function`");
}

#[test]
fn should_correctly_parse_operation_operand_token() {
    let operand = "| x | x + 1";

    for (operator, expected_operator) in [("<|", OperatorToken::After), ("|>", OperatorToken::Before)] {
        let input = format!("{operand} {operator} {operand}");
        match OperandToken::parse(&build_tokens(&input)).unwrap() {
            OperandToken::Operation(op) => {
                assert_eq!(
                    (operand_text(&op.lhs), op.operator, operand_text(&op.rhs)),
                    (operand.to_owned(), expected_operator, operand.to_owned()),
                    "Testing `OperandToken` successful parsing: `OperationToken`"
                );
            }
            _ => panic!("Unexpected `OperandToken` variant"),
        }
    }
}

#[test]
fn should_correctly_parse_parenthesized_operand_token() {
    match OperandToken::parse(&build_tokens("(| x | x + 1)")).unwrap() {
        OperandToken::Parenthesized(_) => {}
        _ => panic!("Unexpected `OperandToken` variant"),
    }
}

#[test]
fn should_correctly_parse_insert_token() {
    let output = InsertToken::parse(&build_tokens("->>"), 0).map_err(|e| e.message()).unwrap();

    assert_eq!(output, (InsertToken {}, 3), "Testing `InsertToken` successful parsing");
}

#[test]
fn should_correctly_fail_parsing_insert_token() {
    let expected_token = "`Insert (->>)`";
    let got_token = "INVALID_INPUT";
    let output = InsertToken::parse(&build_tokens(got_token), 0).unwrap_err();

    assert_eq!(
        output.message(),
        unexpected_token_message(expected_token, got_token),
        "Testing `InsertToken` unsuccessful parsing"
    );
}

#[test]
fn should_have_the_correct_lookahead_token_size_for_insert_token() {
    assert_eq!(InsertToken::size(), 3_usize)
}

#[test]
fn should_correctly_parse_input_token() {
    for expected in ["{ let x = 1 ; x }", "a", "(a)"] {
        let tokens = build_tokens(&format!("{expected} ->>"));
        let (input, next) = InputToken::parse(&tokens).map_err(|e| e.message()).unwrap();
        let insert = InsertToken::parse(&tokens, next).map_err(|e| e.message()).unwrap();

        assert_eq!(show(&input.value), expected, "Testing `InputToken` successful parsing");
        assert_eq!(insert, (InsertToken {}, tokens.len()));
    }
}

#[test]
fn should_correctly_fail_parsing_input_token() {
    let output_not_expression = InputToken::parse(&build_tokens("+ ->>")).unwrap_err();

    assert_eq!(
        output_not_expression.message(),
        "expected an expression",
        "Testing `InputToken` unsuccessful parsing: Not an expression"
    );

    let output_eof = InputToken::parse(&build_tokens("")).unwrap_err();

    assert_eq!(
        output_eof.message(),
        unexpected_end_of_stream_message(),
        "Testing `InputToken` unsuccessful parsing: End of file"
    );
}

fn check_resolutions(operations: [&str; 4], expected: [&str; 4]) {
    let input = "1";
    for (operation, expected) in operations.iter().zip(expected.iter()) {
        let simple = format!("{input} ->> {operation}");
        let parenthesized = format!("{input} ->> ({operation})");

        assert_eq!(pipe_text(&simple), Ok(normalized(expected)), "Resolving `{simple}`");
        assert_eq!(pipe_text(&parenthesized), Ok(normalized(expected)), "Resolving `{parenthesized}`");
    }
}

#[test]
fn should_generate_correct_pipe_resolution_for_after() {
    check_resolutions(
        ["g <| f", "|x| x.to_string() <| |x| x + 1", "h <| g <| f", "(i <| h) <| (g <| f)"],
        [
            "(g) ((f) (1))",
            "(| x | x . to_string ()) ((| x | x + 1) (1))",
            "(h) ((g) ((f) (1)))",
            "(i) ((h) ((g) ((f) (1))))",
        ],
    );
}

#[test]
fn should_generate_correct_pipe_resolution_for_before() {
    check_resolutions(
        ["f |> g", "|x| x + 1 |> |x| x.to_string()", "f |> g |> h", "(f |> g) |> (h |> i)"],
        [
            "(g) ((f) (1))",
            "(| x | x . to_string ()) ((| x | x + 1) (1))",
            "(h) ((g) ((f) (1)))",
            "(i) ((h) ((g) ((f) (1))))",
        ],
    );
}

#[test]
fn should_accumulate_into_a_token_stream_and_move_the_cursor() {
    let value = "ARBITRARY_VALUE";
    let tokens = build_tokens(value);
    let n = tokens.len();
    let (output, next) = accumulate_while(&tokens, 0, |i| i < n).map_err(|e| e.message()).unwrap();

    assert_eq!(show(&output), value, "Testing `accumulate_while` parsing and cursor updates.");
    assert_eq!(next, 1);
}

#[test]
fn should_fail_when_accumulation_ends_before_predicate_returns_false() {
    let tokens = build_tokens("ARBITRARY_VALUE");
    let output = accumulate_while(&tokens, 0, |_| true).unwrap_err();

    assert_eq!(
        output.message(),
        unexpected_end_of_stream_message(),
        "Testing `accumulate_while` accumulation failures."
    );
}

#[test]
fn should_parse_valid_lookahead_token_and_move_the_cursor() {
    let tokens = build_tokens("first ->> second");
    let (token, next) = lookahead::<InsertToken>(&tokens, 1).map_err(|e| e.message()).unwrap();

    assert_eq!(token, InsertToken);
    assert_eq!(next, 4);
    assert_eq!(show(&tokens[next..]), "second");
    let error = lookahead::<InsertToken>(&tokens, 0).unwrap_err();
    assert_eq!(error.message(), unexpected_token_message("`Insert (->>)`", "first ->"));
    assert_eq!(error.at(), 0);
    assert_eq!(lookahead::<InsertToken>(&tokens, 3).unwrap_err(), ParseError::UnexpectedEndOfStream { at: 5 });
}

#[test]
fn single_function_operand_applies_the_callable() {
    let operand = OperandToken::parse(&build_tokens("f")).unwrap();
    let output = OperandToken::resolve(operand, build_tokens("x"));

    assert_eq!(show(&output), normalized("(f)(x)"));
}

#[test]
fn single_function_pipe_applies_the_callable() {
    assert_eq!(pipe_text("x ->> f"), Ok(normalized("(f)(x)")));
    assert_eq!(pipe_text("X ->> |x| x + 1"), Ok(normalized("(| x | x + 1)(X)")));
    assert_eq!(pipe_text("x ->> (f)"), Ok(normalized("(f)(x)")));
}

#[test]
fn long_after_and_before_chains_nest_alike() {
    assert_eq!(pipe_text("X ->> e <| d <| c <| b <| a"), Ok(normalized("(e)((d)((c)((b)((a)(X)))))")));
    assert_eq!(pipe_text("X ->> a |> b |> c |> d |> e"), Ok(normalized("(e)((d)((c)((b)((a)(X)))))")));
}

#[test]
fn mixed_operators_compose_by_their_own_order() {
    assert_eq!(pipe_text("1 ->> a <| b |> c"), Ok(normalized("(a)((c)((b)(1)))")));
    assert_eq!(pipe_text("1 ->> a |> b <| c"), Ok(normalized("(b)((c)((a)(1)))")));
}

#[test]
fn parentheses_around_operands_change_nothing() {
    let plain = pipe_text("1 ->> h <| g <| f");
    assert_eq!(pipe_text("1 ->> (h) <| g <| f"), plain);
    assert_eq!(pipe_text("1 ->> h <| (g <| f)"), plain);
    assert_eq!(pipe_text("1 ->> h <| ((g) <| (f))"), plain);
    assert_eq!(pipe_text("1 ->> (h <| (g <| f))"), plain);
}

#[test]
fn nested_parentheses_of_every_depth_resolve_alike() {
    let plain = OperandToken::resolve(OperandToken::parse(&build_tokens("g <| f")).unwrap(), build_tokens("x"));
    for depth in 1..=5 {
        let source = format!("{}g <| f{}", "(".repeat(depth), ")".repeat(depth));
        let wrapped = OperandToken::resolve(OperandToken::parse(&build_tokens(&source)).unwrap(), build_tokens("x"));
        assert_eq!(wrapped, plain, "depth {depth}");
        assert_eq!(show(&wrapped), normalized("(g)((f)(x))"));
    }
}

#[test]
fn malformed_operator_reports_what_stood_there() {
    let output = lookahead::<OperatorToken>(&build_tokens("a <> b"), 1).unwrap_err();
    assert_eq!(
        output,
        ParseError::UnexpectedToken { expected: "`Operator (<| or |>)`".to_owned(), got: "<>".to_owned(), at: 1 }
    );
    let output = OperatorToken::parse(&build_tokens("> |"), 0).unwrap_err();
    assert_eq!(output.message(), unexpected_token_message("`Operator (<| or |>)`", "> |"));
    assert_eq!(output.at(), 0);
}

#[test]
fn empty_sequence_ends_the_insert_scan() {
    let empty: Vec<Token> = Vec::new();
    assert_eq!(InputToken::parse(&empty).unwrap_err(), ParseError::UnexpectedEndOfStream { at: 0 });
    assert_eq!(lookahead::<InsertToken>(&empty, 0).unwrap_err(), ParseError::UnexpectedEndOfStream { at: 0 });
    assert_eq!(pipe(&empty).unwrap_err(), ParseError::UnexpectedEndOfStream { at: 0 });
}

fn insert_expected_at(got: &str, at: usize) -> ParseError {
    ParseError::UnexpectedToken { expected: "`Insert (->>)`".to_owned(), got: got.to_owned(), at }
}

#[test]
fn missing_insert_marker_is_reported_where_it_was_expected() {
    assert_eq!(pipe(&build_tokens("1 g |> f")).unwrap_err(), insert_expected_at("g |> f", 1));
    assert_eq!(pipe(&build_tokens("a + b c")).unwrap_err(), insert_expected_at("c", 3));
    assert_eq!(pipe(&build_tokens("+ g <| f")).unwrap_err(), insert_expected_at("+ g <| f", 0));
    assert_eq!(pipe(&build_tokens("a + b")).unwrap_err(), ParseError::UnexpectedEndOfStream { at: 3 });
}

#[test]
fn operation_without_operator_ends_the_stream() {
    assert_eq!(OperationToken::parse(&build_tokens("f g")).unwrap_err(), ParseError::UnexpectedEndOfStream { at: 2 });
    assert_eq!(OperationToken::parse(&build_tokens("(f)")).unwrap_err(), ParseError::UnexpectedEndOfStream { at: 1 });
}

#[test]
fn invalid_operand_reports_the_expression_error() {
    assert_eq!(pipe_text("1 ->> + <| f"), Err("expected an expression".to_owned()));
    assert_eq!(pipe_text("1 ->> f <|"), Err("unexpected end of input, expected an expression".to_owned()));
    assert_eq!(pipe(&build_tokens("1 ->> + <| f")).unwrap_err().at(), 4);
    assert_eq!(pipe(&build_tokens("1 ->> f <| +")).unwrap_err().at(), 7);
    assert_eq!(pipe(&build_tokens("+ ->> f")).unwrap_err().at(), 0);
}

#[test]
fn parenthesized_operation_that_does_not_parse_falls_through() {
    assert!(matches!(pipe(&build_tokens("1 ->> (+ <| f)")).unwrap_err(), ParseError::Syntax { at: 4, .. }));
    assert_eq!(OperationToken::parse(&build_tokens("(+ <| f)")).unwrap_err(), ParseError::UnexpectedEndOfStream { at: 1 });
}

#[test]
fn parenthesized_non_operation_is_a_function() {
    assert_eq!(pipe_text("1 ->> (a, b) <| f"), Ok(normalized("((a, b))((f)(1))")));
}

#[test]
fn expression_check_sees_tokens_not_text() {
    let tokens = vec![Token::Punct('#', Spacing::Joint), Token::Punct('!', Spacing::Alone), Token::Ident("x".to_owned())];
    assert!(matches!(FunctionToken::parse(&tokens).unwrap_err(), ParseError::Syntax { at: 0, .. }));
    let invisible = vec![Token::Group(Delimiter::Invisible, build_tokens("a + b")), Token::Punct('*', Spacing::Alone), Token::Ident("c".to_owned())];
    assert!(FunctionToken::parse(&invisible).is_ok());
    assert_eq!(FunctionToken::parse(&vec![Token::Ident("r#type".to_owned())]).unwrap().value.len(), 1);
}

#[test]
fn rendering_keeps_joint_punctuation_together() {
    assert_eq!(render(&build_tokens("a -> b")), "a -> b");
    assert_eq!(render(&build_tokens("x ->> { y } [z]")), "x ->> { y } [z]");
    assert_eq!(render(&build_tokens("{}")), "{ }");
    assert_eq!(render(&build_tokens("{ let x = 1 ; x }")), normalized("{ let x = 1 ; x }"));
    assert_eq!(render(&Vec::new()), "");
}

#[test]
fn copies_are_deep_and_exact() {
    let tokens = build_tokens("f(a, [b]) ->> g");
    assert_eq!(copy_range(&tokens, 0, tokens.len()), tokens);
    assert_eq!(copy_range(&tokens, 1, 2), vec![tokens[1].duplicate()]);
}

#[test]
fn parsed_pipe_keeps_input_and_operation() {
    let parsed = PipeToken::parse(&build_tokens("v ->> f |> g")).unwrap();
    assert_eq!(show(&parsed.input.value), "v");
    match parsed.operation {
        OperandToken::Operation(op) => assert_eq!(op.operator, OperatorToken::Before),
        _ => panic!("Unexpected `OperandToken` variant"),
    }
}

#[test]
fn operator_composes_rewrites_in_its_order() {
    let wrap = |name: &'static str| move |x: Vec<Token>| FunctionToken::resolve(FunctionToken { value: build_tokens(name) }, x);
    let after = OperatorToken::resolve(OperatorToken::After, wrap("l"), wrap("r"), build_tokens("x"));
    let before = OperatorToken::resolve(OperatorToken::Before, wrap("l"), wrap("r"), build_tokens("x"));

    assert_eq!(show(&after), normalized("(l)((r)(x))"));
    assert_eq!(show(&before), normalized("(r)((l)(x))"));
}

#[test]
fn markers_are_read_whatever_their_spacing() {
    assert_eq!(pipe_text("1 - > > g < | f"), Ok(normalized("(g)((f)(1))")));
    assert_eq!(pipe_text("1 ->> f | > g"), Ok(normalized("(g)((f)(1))")));
}

#[test]
fn unicode_identifiers_are_accepted() {
    assert_eq!(pipe_text("1 ->> café"), Ok(normalized("(café)(1)")));
    assert_eq!(pipe_text("größe ->> f |> ñ"), Ok(normalized("(ñ)((f)(größe))")));
}

#[test]
fn host_form_follows_the_host_identifier_rules() {
    assert!(is_host_form(&build_tokens("café ->> _x |> r#type |> (a, [b])")));
    assert!(!is_host_form(&vec![Token::Ident("1a".to_owned())]));
    assert!(!is_host_form(&vec![Token::Ident(String::new())]));
    assert!(!is_host_form(&vec![Token::Ident("r#self".to_owned())]));
    assert!(!is_host_form(&vec![Token::Ident("a-b".to_owned())]));
    assert!(!is_host_form(&vec![Token::Punct('a', Spacing::Alone)]));
    assert!(!is_host_form(&vec![Token::Group(Delimiter::Parenthesis, vec![Token::Punct('`', Spacing::Alone)])]));
    assert_eq!(rewrite(&vec![Token::Ident("1a".to_owned())]), None);
    assert_eq!(rewrite(&build_tokens("1 ->> f")).map(|r| r.map(|out| show(&out))), Some(Ok(normalized("(f)(1)"))));
}

#[test]
fn parentheses_around_any_inner_operand_change_nothing() {
    let plain = pipe_text("1 ->> h <| g |> f");
    for depth in 1..=5 {
        let (open, close) = ("(".repeat(depth), ")".repeat(depth));
        assert_eq!(pipe_text(&format!("1 ->> h <| {open}g{close} |> f")), plain, "depth {depth}");
        assert_eq!(pipe_text(&format!("1 ->> h <| {open}g |> f{close}")), plain, "depth {depth}");
        assert_eq!(pipe_text(&format!("1 ->> {open}h{close} <| g |> {open}f{close}")), plain, "depth {depth}");
    }
}
