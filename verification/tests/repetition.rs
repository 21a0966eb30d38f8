use macrogen::parser::{parse, parse_classified, SyntaxError, SyntaxErrorKind};
use macrogen::lexical::IntLiteral;
use macrogen::repeat;
use macrogen::{Delimiter, Identifier, SourceSpan, TemplateSpec, Token};
use proc_macro2::{TokenStream, TokenTree};

fn span_of(span: proc_macro2::Span) -> SourceSpan {
    let start = span.start();
    let end = span.end();
    SourceSpan::new(start.line, start.column, end.line, end.column)
}

fn tokens_of(stream: TokenStream) -> Vec<Token> {
    let mut out = Vec::new();
    for tree in stream {
        out.push(match tree {
            TokenTree::Group(group) => Token::Group {
                delimiter: match group.delimiter() {
                    proc_macro2::Delimiter::Parenthesis => Delimiter::Parenthesis,
                    proc_macro2::Delimiter::Brace => Delimiter::Brace,
                    proc_macro2::Delimiter::Bracket => Delimiter::Bracket,
                    proc_macro2::Delimiter::None => Delimiter::Invisible,
                },
                children: tokens_of(group.stream()),
                position: span_of(group.span()),
            },
            TokenTree::Ident(ident) => Token::Identifier {
                text: ident.to_string(),
                position: span_of(ident.span()),
            },
            TokenTree::Literal(literal) => Token::Literal {
                text: literal.to_string(),
                position: span_of(literal.span()),
            },
            TokenTree::Punct(punct) => Token::Punctuation {
                character: punct.as_char(),
                position: span_of(punct.span()),
            },
        });
    }
    out
}

fn read(source: &str) -> Vec<Token> {
    tokens_of(source.parse::<TokenStream>().unwrap())
}

/// The tokens as text, each kind marked, without their positions.
fn shape(tokens: &[Token]) -> String {
    let mut out = String::new();
    for token in tokens {
        if !out.is_empty() {
            out.push(' ');
        }
        match token {
            Token::Group { delimiter, children, .. } => {
                let (open, close) = match delimiter {
                    Delimiter::Parenthesis => ("(", ")"),
                    Delimiter::Brace => ("{", "}"),
                    Delimiter::Bracket => ("[", "]"),
                    Delimiter::Invisible => ("<", ">"),
                };
                out.push_str(open);
                out.push_str(&shape(children));
                out.push_str(close);
            }
            Token::Identifier { text, .. } => out.push_str(&format!("id:{}", text)),
            Token::Literal { text, .. } => out.push_str(&format!("lit:{}", text)),
            Token::Punctuation { character, .. } => out.push_str(&format!("p:{}", character)),
        }
    }
    out
}

fn template(variable: &str, start: i64, end: i64, body: &str) -> TemplateSpec {
    TemplateSpec {
        variable: Identifier { text: variable.to_string(), position: SourceSpan::call_site() },
        start,
        end,
        body: read(body),
    }
}

fn error_of(source: &str) -> SyntaxError {
    match parse(read(source)) {
        Ok(_) => panic!("`{}` was accepted", source),
        Err(error) => error,
    }
}

#[test]
fn paste_makes_one_identifier_per_value() {
    let out = repeat::seq(read("N in 0..3 { fn f~N() {} }")).unwrap();
    assert_eq!(shape(&out), "id:fn id:f0 () {} id:fn id:f1 () {} id:fn id:f2 () {}");
    assert_eq!(shape(&out), shape(&read("fn f0() {} fn f1() {} fn f2() {}")));
    let names: Vec<&Token> = vec![&out[1], &out[5], &out[9]];
    for (value, token) in names.iter().enumerate() {
        match token {
            Token::Identifier { text, .. } => {
                assert_eq!(text, &format!("f{}", value));
                assert_ne!(text, &format!("{}", value));
            }
            other => panic!("not an identifier: {:?}", other),
        }
    }
    assert_ne!(out[1], out[5]);
    assert_ne!(out[5], out[9]);
    assert_ne!(out[1], out[9]);
}

#[test]
fn pasted_identifier_keeps_the_position_of_its_prefix() {
    let body = read("fn f~N() {}");
    let prefix_position = body[1].position();
    let out = template("N", 0, 1, "").expand(&body, 4);
    assert_eq!(out.len(), 4);
    assert_eq!(
        out[1],
        Token::Identifier { text: "f4".to_string(), position: prefix_position }
    );
}

#[test]
fn bare_variable_becomes_a_literal() {
    let out = repeat::seq(read("N in 0..2 { let x = N; }")).unwrap();
    assert_eq!(
        shape(&out),
        "id:let id:x p:= lit:0 p:; id:let id:x p:= lit:1 p:;"
    );
    assert_eq!(shape(&out), shape(&read("let x = 0; let x = 1;")));
    assert_eq!(
        out[3],
        Token::Literal { text: "0".to_string(), position: SourceSpan::call_site() }
    );
    assert_eq!(
        out[8],
        Token::Literal { text: "1".to_string(), position: SourceSpan::call_site() }
    );
}

#[test]
fn one_expansion_for_each_value_in_ascending_order() {
    let spec = template("I", 2, 6, "a I");
    let out = spec.emit();
    assert_eq!(shape(&out), "id:a lit:2 id:a lit:3 id:a lit:4 id:a lit:5");
    let mut joined = Vec::new();
    for n in 2..6 {
        joined.extend(spec.expand(&spec.body, n));
    }
    assert_eq!(out, joined);
    assert_eq!(out.len(), (6 - 2) * 2);
}

#[test]
fn empty_range_gives_no_tokens() {
    assert_eq!(repeat::seq(read("N in 3..3 { fn f~N() {} }")), Ok(vec![]));
    assert_eq!(template("N", 0, 0, "x N y").emit(), vec![]);
    assert_eq!(template("N", -4, -4, "x N y").emit(), vec![]);
}

#[test]
fn range_that_ends_before_it_starts_is_an_error() {
    let tokens = read("N in 3..1 { x }");
    let position = tokens[5].position();
    let expected =
        SyntaxError { kind: SyntaxErrorKind::ReversedRange, index: 5, position: Some(position) };
    assert_eq!(parse(read("N in 3..1 { x }")), Err(expected));
    assert_eq!(repeat::seq(tokens), Err(expected));
    assert_eq!(expected.message(), "range ends before it starts");
    assert_eq!(error_of("N in 5..2 { N }").kind, SyntaxErrorKind::ReversedRange);
    assert_eq!(error_of("N in 1..0 {}").index, 5);
    assert!(parse(read("N in 1..1 {}")).is_ok());
    assert!(parse(read("N in 0..1 {}")).is_ok());
}

#[test]
fn reversed_range_comes_after_the_size_and_before_what_follows() {
    let error = error_of("N in 99999999999999999999..2 {}");
    assert_eq!((error.kind, error.index), (SyntaxErrorKind::IntegerOutOfRange, 2));
    let error = error_of("N in 3..1 {} extra");
    assert_eq!((error.kind, error.index), (SyntaxErrorKind::ReversedRange, 5));
    let error = error_of("N in 3..1 (x)");
    assert_eq!((error.kind, error.index), (SyntaxErrorKind::ExpectedBraces, 6));
    let reversed = parse_classified(
        read("N in 0..2 { N }"),
        true,
        IntLiteral::Value(3),
        IntLiteral::Value(1),
    )
    .unwrap_err();
    assert_eq!((reversed.kind, reversed.index), (SyntaxErrorKind::ReversedRange, 5));
}

#[test]
fn parsed_ranges_are_in_order() {
    for source in ["N in 0..0 {}", "N in 0..9 {}", "N in 7..7 { N }", "N in 0x10..17 {}"] {
        let parsed = parse(read(source)).unwrap();
        assert!(parsed.start <= parsed.end);
    }
    let mut tokens = read("N in 5..7 { N }");
    let position = tokens[5].position();
    tokens[5] = Token::Literal { text: "-5".to_string(), position };
    assert_eq!(parse(tokens).unwrap_err().kind, SyntaxErrorKind::ReversedRange);
}

#[test]
fn template_put_together_out_of_order_holds_no_value() {
    assert_eq!(template("N", 1, -1, "N").emit(), vec![]);
}

#[test]
fn body_without_the_variable_is_repeated_unchanged() {
    let body = "struct S { a: [u8; 4], b: (i32, M) }";
    let spec = template("N", 0, 3, body);
    assert_eq!(spec.expand(&spec.body, 7), read(body));
    let out = spec.emit();
    let once = shape(&read(body));
    assert_eq!(shape(&out), format!("{} {} {}", once, once, once));
}

#[test]
fn gap_before_the_paste_character_prevents_the_paste() {
    let spec = template("N", 0, 2, "f ~N");
    assert_eq!(shape(&spec.expand(&spec.body, 0)), "id:f p:~ lit:0");
    assert_eq!(shape(&spec.expand(&spec.body, 1)), "id:f p:~ lit:1");
    let body = read("f ~N");
    for n in 0..5 {
        let out = spec.expand(&body, n);
        assert_eq!(out[0], body[0]);
        assert_eq!(out[1], body[1]);
    }
}

#[test]
fn gap_after_the_paste_character_prevents_the_paste() {
    let spec = template("N", 0, 1, "f~ N");
    assert_eq!(shape(&spec.expand(&spec.body, 3)), "id:f p:~ lit:3");
    let spec = template("N", 0, 1, "f ~ N");
    assert_eq!(shape(&spec.expand(&spec.body, 3)), "id:f p:~ lit:3");
}

#[test]
fn token_between_prefix_and_variable_prevents_the_paste() {
    let spec = template("N", 0, 1, "f~+N g~(N) h~M");
    assert_eq!(
        shape(&spec.expand(&spec.body, 2)),
        "id:f p:~ p:+ lit:2 id:g p:~ (lit:2) id:h p:~ id:M"
    );
}

#[test]
fn equal_text_with_a_gap_is_not_adjacent() {
    let here = SourceSpan::new(1, 0, 1, 1);
    let apart = SourceSpan::new(1, 5, 1, 6);
    let body = vec![
        Token::Identifier { text: "f".to_string(), position: here },
        Token::Punctuation { character: '~', position: apart },
        Token::Identifier { text: "N".to_string(), position: SourceSpan::new(1, 6, 1, 7) },
    ];
    let out = template("N", 0, 1, "").expand(&body, 9);
    assert_eq!(shape(&out), "id:f p:~ lit:9");
    let touching = vec![
        Token::Identifier { text: "f".to_string(), position: here },
        Token::Punctuation { character: '~', position: SourceSpan::new(1, 1, 1, 2) },
        Token::Identifier { text: "N".to_string(), position: SourceSpan::new(1, 2, 1, 3) },
    ];
    let out = template("N", 0, 1, "").expand(&touching, 9);
    assert_eq!(out, vec![Token::Identifier { text: "f9".to_string(), position: here }]);
}

#[test]
fn paste_is_tried_before_substitution() {
    let spec = template("N", 0, 1, "N~N");
    assert_eq!(shape(&spec.expand(&spec.body, 5)), "id:N5");
    let spec = template("N", 0, 1, "a~N~N");
    assert_eq!(shape(&spec.expand(&spec.body, 5)), "id:a5 p:~ lit:5");
}

#[test]
fn paste_needs_three_tokens() {
    let spec = template("N", 0, 1, "f~");
    assert_eq!(shape(&spec.expand(&spec.body, 1)), "id:f p:~");
    let spec = template("N", 0, 1, "(f~) N");
    assert_eq!(shape(&spec.expand(&spec.body, 1)), "(id:f p:~) lit:1");
}

#[test]
fn other_punctuation_does_not_paste() {
    let spec = template("N", 0, 1, "f#N f!N");
    assert_eq!(shape(&spec.expand(&spec.body, 1)), "id:f p:# lit:1 id:f p:! lit:1");
}

#[test]
fn groups_keep_their_delimiters_and_positions() {
    let source = "(N) [N] {N} ((f~N, [N; N]))";
    let body = read(source);
    let spec = template("N", 0, 3, source);
    for n in 0..3 {
        let out = spec.expand(&body, n);
        assert_eq!(
            shape(&out),
            format!(
                "(lit:{n}) [lit:{n}] {{lit:{n}}} ((id:f{n} p:, [lit:{n} p:; lit:{n}]))",
                n = n
            )
        );
        assert_eq!(out.len(), body.len());
        for (before, after) in body.iter().zip(out.iter()) {
            match (before, after) {
                (
                    Token::Group { delimiter: opened, position: placed, .. },
                    Token::Group { delimiter: reopened, position: replaced, .. },
                ) => {
                    assert_eq!(opened, reopened);
                    assert_eq!(placed, replaced);
                }
                other => panic!("not two groups: {:?}", other),
            }
        }
    }
}

#[test]
fn invisible_group_is_kept() {
    let body = vec![Token::Group {
        delimiter: Delimiter::Invisible,
        children: vec![Token::Identifier {
            text: "N".to_string(),
            position: SourceSpan::new(2, 4, 2, 5),
        }],
        position: SourceSpan::new(2, 4, 2, 5),
    }];
    let out = template("N", 0, 1, "").expand(&body, 8);
    assert_eq!(shape(&out), "<lit:8>");
}

#[test]
fn expanding_twice_gives_the_same_tokens() {
    let spec = template("N", 0, 4, "fn f~N(x: [u8; N]) -> u32 { N + g~N(N) }");
    let first = spec.expand(&spec.body, 3);
    let second = spec.expand(&spec.body, 3);
    assert_eq!(first, second);
    let early = spec.expand(&spec.body, 1);
    let _ = spec.expand(&spec.body, 2);
    let _ = spec.expand(&spec.body, 0);
    assert_eq!(spec.expand(&spec.body, 1), early);
    assert_eq!(spec.emit(), spec.emit());
}

#[test]
fn expansion_does_not_depend_on_the_range() {
    let narrow = template("N", 2, 3, "a~N N");
    let wide = template("N", -10, 10, "a~N N");
    assert_eq!(narrow.emit(), wide.expand(&wide.body, 2));
}

#[test]
fn negative_values_are_written_with_a_sign() {
    let spec = template("N", -2, 1, "N");
    assert_eq!(shape(&spec.emit()), "lit:-2 lit:-1 lit:0");
    let spec = template("N", -1, 0, "f~N");
    assert_eq!(shape(&spec.emit()), "id:f-1");
}

#[test]
fn variable_is_found_by_name_not_by_position() {
    let parsed = parse(read("N in 0..1 { N }")).unwrap();
    let elsewhere = read("\n\n      N   M");
    assert_eq!(shape(&parsed.expand(&elsewhere, 6)), "lit:6 id:M");
}

#[test]
fn parse_reads_variable_range_and_body() {
    let tokens = read("N in 1..4 { fn f~N() {} }");
    let variable_position = tokens[0].position();
    let parsed = parse(tokens).unwrap();
    assert_eq!(parsed.variable.text, "N");
    assert_eq!(parsed.variable.position, variable_position);
    assert_eq!(parsed.start, 1);
    assert_eq!(parsed.end, 4);
    assert_eq!(shape(&parsed.body), "id:fn id:f p:~ id:N () {}");
}

#[test]
fn parse_keeps_the_positions_of_the_body() {
    let tokens = read("N in 1..4 { fn f~N() {} }");
    let body = match &tokens[6] {
        Token::Group { children, .. } => children.clone(),
        other => panic!("not a group: {:?}", other),
    };
    assert_eq!(parse(tokens).unwrap().body, body);
}

#[test]
fn bounds_in_other_bases_and_with_suffixes() {
    let parsed = parse(read("N in 0x10..0b10011 {}")).unwrap();
    assert_eq!((parsed.start, parsed.end), (16, 19));
    let parsed = parse(read("N in 0o17..1_000u32 {}")).unwrap();
    assert_eq!((parsed.start, parsed.end), (15, 1000));
    let parsed = parse(read("N in 0..9223372036854775807 {}")).unwrap();
    assert_eq!((parsed.start, parsed.end), (0, i64::MAX));
}

#[test]
fn bound_written_as_a_signed_literal_token() {
    let mut tokens = read("N in 5..7 { N }");
    let position = tokens[2].position();
    tokens[2] = Token::Literal { text: "-5".to_string(), position };
    let parsed = parse(tokens).unwrap();
    assert_eq!((parsed.start, parsed.end), (-5, 7));
    assert_eq!(parsed.emit().len(), 12);
}

#[test]
fn missing_name_is_an_error() {
    let tokens = read("3 in 0..2 {}");
    let position = tokens[0].position();
    assert_eq!(
        parse(tokens),
        Err(SyntaxError {
            kind: SyntaxErrorKind::ExpectedIdentifier,
            index: 0,
            position: Some(position),
        })
    );
    assert_eq!(error_of("(N) in 0..2 {}").kind, SyntaxErrorKind::ExpectedIdentifier);
}

#[test]
fn reserved_word_is_not_a_name() {
    assert_eq!(error_of("fn in 0..2 {}").kind, SyntaxErrorKind::ExpectedIdentifier);
    assert_eq!(error_of("in in 0..2 {}").kind, SyntaxErrorKind::ExpectedIdentifier);
    assert_eq!(error_of("_ in 0..2 {}").kind, SyntaxErrorKind::ExpectedIdentifier);
    assert_eq!(error_of("self in 0..2 {}").index, 0);
    assert!(parse(read("r#fn in 0..2 {}")).is_ok());
    assert!(parse(read("function in 0..2 {}")).is_ok());
}

#[test]
fn missing_in_is_an_error() {
    let tokens = read("N of 0..2 {}");
    let position = tokens[1].position();
    assert_eq!(
        parse(tokens),
        Err(SyntaxError { kind: SyntaxErrorKind::ExpectedIn, index: 1, position: Some(position) })
    );
    assert_eq!(error_of("N 0..2 {}").kind, SyntaxErrorKind::ExpectedIn);
    assert_eq!(error_of("N In 0..2 {}").kind, SyntaxErrorKind::ExpectedIn);
}

#[test]
fn bound_that_is_no_integer_is_an_error() {
    let tokens = read("N in a..2 {}");
    let position = tokens[2].position();
    assert_eq!(
        parse(tokens),
        Err(SyntaxError {
            kind: SyntaxErrorKind::ExpectedInteger,
            index: 2,
            position: Some(position),
        })
    );
    let tokens = read("N in 0..\"2\" {}");
    let position = tokens[5].position();
    assert_eq!(
        parse(tokens),
        Err(SyntaxError {
            kind: SyntaxErrorKind::ExpectedInteger,
            index: 5,
            position: Some(position),
        })
    );
    assert_eq!(error_of("N in 'a'..2 {}").kind, SyntaxErrorKind::ExpectedInteger);
    assert_eq!(error_of("N in 0..2.5 {}").kind, SyntaxErrorKind::ExpectedInteger);
    assert_eq!(error_of("N in 0..1e3 {}").index, 5);
    assert_eq!(error_of("N in 0..b {}").index, 5);
    assert_eq!(error_of("N in 0..(2) {}").index, 5);
}

#[test]
fn sign_before_a_bound_is_a_token_of_its_own() {
    let tokens = read("N in -1..2 {}");
    let position = tokens[2].position();
    assert_eq!(
        parse(tokens),
        Err(SyntaxError {
            kind: SyntaxErrorKind::ExpectedInteger,
            index: 2,
            position: Some(position),
        })
    );
}

#[test]
fn missing_range_operator_is_an_error() {
    let tokens = read("N in 0 3 { x }");
    let position = tokens[3].position();
    assert_eq!(
        parse(tokens),
        Err(SyntaxError {
            kind: SyntaxErrorKind::ExpectedRange,
            index: 3,
            position: Some(position),
        })
    );
    assert_eq!(
        repeat::seq(read("N in 0 3 { x }")),
        Err(SyntaxError {
            kind: SyntaxErrorKind::ExpectedRange,
            index: 3,
            position: Some(position),
        })
    );
    assert_eq!(error_of("N in 0,3 { x }").kind, SyntaxErrorKind::ExpectedRange);
    assert_eq!(error_of("N in 0 .= 3 { x }").kind, SyntaxErrorKind::ExpectedRange);
    assert_eq!(error_of("N in 0 .= 3 { x }").index, 3);
}

#[test]
fn dots_with_a_gap_are_no_range_operator() {
    let error = error_of("N in 0 . . 3 { x }");
    assert_eq!((error.kind, error.index), (SyntaxErrorKind::ExpectedRange, 3));
    assert!(parse(read("N in 0 .. 3 { x }")).is_ok());
    let error = error_of("N in 0...3 { x }");
    assert_eq!((error.kind, error.index), (SyntaxErrorKind::ExpectedInteger, 5));
}

#[test]
fn non_integer_bound_gives_no_tokens() {
    let result = repeat::seq(read("N in zero..3 { fn f~N() {} }"));
    assert_eq!(result.unwrap_err().kind, SyntaxErrorKind::ExpectedInteger);
    let result = repeat::seq(read("N in 0..three { fn f~N() {} }"));
    assert_eq!(result.unwrap_err().index, 5);
}

#[test]
fn body_must_be_in_braces() {
    let tokens = read("N in 0..2 (x)");
    let position = tokens[6].position();
    assert_eq!(
        parse(tokens),
        Err(SyntaxError {
            kind: SyntaxErrorKind::ExpectedBraces,
            index: 6,
            position: Some(position),
        })
    );
    assert_eq!(error_of("N in 0..2 [x]").kind, SyntaxErrorKind::ExpectedBraces);
    assert_eq!(error_of("N in 0..2 x").kind, SyntaxErrorKind::ExpectedBraces);
}

#[test]
fn bound_that_does_not_fit_is_an_error() {
    let tokens = read("N in 0..9223372036854775808 {}");
    let position = tokens[5].position();
    assert_eq!(
        parse(tokens),
        Err(SyntaxError {
            kind: SyntaxErrorKind::IntegerOutOfRange,
            index: 5,
            position: Some(position),
        })
    );
    let error = error_of("N in 99999999999999999999..99999999999999999999 {}");
    assert_eq!((error.kind, error.index), (SyntaxErrorKind::IntegerOutOfRange, 2));
}

#[test]
fn shape_is_checked_before_the_size_of_the_bounds() {
    let error = error_of("N in 99999999999999999999..2 (x)");
    assert_eq!((error.kind, error.index), (SyntaxErrorKind::ExpectedBraces, 6));
    let error = error_of("N in 99999999999999999999..2 {} extra");
    assert_eq!((error.kind, error.index), (SyntaxErrorKind::IntegerOutOfRange, 2));
}

#[test]
fn tokens_after_the_body_are_an_error() {
    let tokens = read("N in 0..2 {} ;");
    let position = tokens[7].position();
    assert_eq!(
        parse(tokens),
        Err(SyntaxError {
            kind: SyntaxErrorKind::UnexpectedToken,
            index: 7,
            position: Some(position),
        })
    );
    assert_eq!(error_of("N in 0..2 {} {}").kind, SyntaxErrorKind::UnexpectedToken);
}

#[test]
fn input_that_ends_early_has_no_position() {
    let expected = [
        SyntaxErrorKind::ExpectedIdentifier,
        SyntaxErrorKind::ExpectedIn,
        SyntaxErrorKind::ExpectedInteger,
        SyntaxErrorKind::ExpectedRange,
        SyntaxErrorKind::ExpectedRange,
        SyntaxErrorKind::ExpectedInteger,
        SyntaxErrorKind::ExpectedBraces,
    ];
    let whole = read("N in 0..2 {}");
    for cut in 0..7 {
        let error = parse(whole[..cut].to_vec()).unwrap_err();
        assert_eq!(error.kind, expected[cut]);
        if cut == 4 {
            assert_eq!(error.index, 3);
            assert_eq!(error.position, Some(whole[3].position()));
        } else {
            assert_eq!(error.index, cut);
            assert_eq!(error.position, None);
        }
    }
    assert!(parse(whole).is_ok());
}

#[test]
fn messages_name_what_was_expected() {
    let at = |kind| SyntaxError { kind, index: 0, position: Some(SourceSpan::call_site()) };
    assert_eq!(at(SyntaxErrorKind::ExpectedIdentifier).message(), "expected identifier");
    assert_eq!(at(SyntaxErrorKind::ExpectedIn).message(), "expected `in`");
    assert_eq!(at(SyntaxErrorKind::ExpectedInteger).message(), "expected integer literal");
    assert_eq!(at(SyntaxErrorKind::ExpectedRange).message(), "expected `..`");
    assert_eq!(at(SyntaxErrorKind::ExpectedBraces).message(), "expected curly braces");
    assert_eq!(at(SyntaxErrorKind::IntegerOutOfRange).message(), "integer literal out of range");
    assert_eq!(at(SyntaxErrorKind::ReversedRange).message(), "range ends before it starts");
    assert_eq!(at(SyntaxErrorKind::UnexpectedToken).message(), "unexpected token");
    let ended = SyntaxError { kind: SyntaxErrorKind::ExpectedRange, index: 3, position: None };
    assert_eq!(ended.message(), "unexpected end of input, expected `..`");
}

#[test]
fn classified_parse_goes_by_what_it_is_told() {
    let tokens = || read("N in 0..2 { N }");
    let parsed =
        parse_classified(tokens(), true, IntLiteral::Value(10), IntLiteral::Value(12)).unwrap();
    assert_eq!((parsed.start, parsed.end), (10, 12));
    let error =
        parse_classified(tokens(), false, IntLiteral::Value(0), IntLiteral::Value(2)).unwrap_err();
    assert_eq!((error.kind, error.index), (SyntaxErrorKind::ExpectedIdentifier, 0));
    let error = parse_classified(tokens(), true, IntLiteral::NotInteger, IntLiteral::Value(2))
        .unwrap_err();
    assert_eq!((error.kind, error.index), (SyntaxErrorKind::ExpectedInteger, 2));
    let error = parse_classified(tokens(), true, IntLiteral::Value(0), IntLiteral::NotInteger)
        .unwrap_err();
    assert_eq!((error.kind, error.index), (SyntaxErrorKind::ExpectedInteger, 5));
    let error = parse_classified(tokens(), true, IntLiteral::OutOfRange, IntLiteral::OutOfRange)
        .unwrap_err();
    assert_eq!((error.kind, error.index), (SyntaxErrorKind::IntegerOutOfRange, 2));
    let error = parse_classified(tokens(), true, IntLiteral::Value(0), IntLiteral::OutOfRange)
        .unwrap_err();
    assert_eq!((error.kind, error.index), (SyntaxErrorKind::IntegerOutOfRange, 5));
}

#[test]
fn nested_repetition_body_is_kept_opaque() {
    let parsed = parse(read("N in 0..2 { M in 0..2 { N M } }")).unwrap();
    assert_eq!(
        shape(&parsed.emit()),
        "id:M id:in lit:0 p:. p:. lit:2 {lit:0 id:M} id:M id:in lit:0 p:. p:. lit:2 {lit:1 id:M}"
    );
}
