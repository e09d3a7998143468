use sid::{parse_str, DataValue, ParseError, ProgramValue, Template, TemplateValue};

pub struct ParseTestFixture {
    pub input: &'static str,
    pub expected_output: Vec<TemplateValue>,
    pub expected_consumed: usize,
}

impl ParseTestFixture {
    pub fn test(&self) {
        let (out, consumed) = parse_str(self.input).expect("parse failed");
        assert_eq!(
            self.expected_output, out,
            "Parsed template didn't match expectations"
        );
        assert_eq!(
            self.expected_consumed, consumed,
            "Parsed template consumes unexpected amount of stack entries."
        );
    }
}

fn float(text: &str, value: f64) -> TemplateValue {
    assert_eq!(text.parse::<f64>().unwrap(), value);
    DataValue::Float(text.to_owned()).into()
}

#[test]
fn char_parse_char() {
    ParseTestFixture {
        input: "'H' '👮‍♀️'",
        expected_output: vec![
            DataValue::Char("H".to_owned()).into(),
            DataValue::Char("👮‍♀️".to_owned()).into(),
        ],
        expected_consumed: 0,
    }
    .test();
}

#[test]
fn parse_comments() {
    ParseTestFixture {
        input: "\"hi\" #not\n \"there\"\n#more comments",
        expected_output: vec![
            DataValue::Str("hi".to_owned()).into(),
            DataValue::Str("there".to_owned()).into(),
        ],
        expected_consumed: 0,
    }
    .test();
}

#[test]
fn parse_comptime_substack() {
    ParseTestFixture {
        input: "@(5 \"hi\")",
        expected_output: vec![Template::substack((
            vec![
                DataValue::Int(5).into(),
                DataValue::Str("hi".to_owned()).into(),
            ],
            0,
        ))
        .mark_comptime()
        .into()],
        expected_consumed: 0,
    }
    .test();
}

#[test]
fn parse_comptime_list() {
    ParseTestFixture {
        input: "@[1, 2, 3]",
        expected_output: vec![Template::list((
            vec![
                DataValue::Int(1).into(),
                DataValue::Int(2).into(),
                DataValue::Int(3).into(),
            ],
            0,
        ))
        .mark_comptime()
        .into()],
        expected_consumed: 0,
    }
    .test();
}

#[test]
fn parse_comptime_set() {
    ParseTestFixture {
        input: "@{1, 2}",
        expected_output: vec![Template::set((
            vec![DataValue::Int(1).into(), DataValue::Int(2).into()],
            0,
        ))
        .mark_comptime()
        .into()],
        expected_consumed: 0,
    }
    .test();
}

#[test]
fn parse_comptime_map() {
    ParseTestFixture {
        input: "@{x: 1, y: 2}",
        expected_output: vec![Template::map(
            vec![
                (
                    DataValue::Label("x".to_owned()).into(),
                    DataValue::Int(1).into(),
                ),
                (
                    DataValue::Label("y".to_owned()).into(),
                    DataValue::Int(2).into(),
                ),
            ],
            0,
        )
        .mark_comptime()
        .into()],
        expected_consumed: 0,
    }
    .test();
}

#[test]
fn parse_comptime_script() {
    ParseTestFixture {
        input: "@<5 \"hi\">",
        expected_output: vec![Template::script((
            vec![
                DataValue::Int(5).into(),
                DataValue::Str("hi".to_owned()).into(),
            ],
            0,
        ))
        .mark_comptime()
        .into()],
        expected_consumed: 0,
    }
    .test();
}

#[test]
fn comptime_invoke_not_affected() {
    ParseTestFixture {
        input: "@!",
        expected_output: vec![ProgramValue::ComptimeInvoke.into()],
        expected_consumed: 0,
    }
    .test();
}

#[test]
fn parse_comptime_substack_with_parent_ref() {
    ParseTestFixture {
        input: "@($1 5)",
        expected_output: vec![Template::substack((
            vec![TemplateValue::ParentStackMove(1), DataValue::Int(5).into()],
            1,
        ))
        .mark_comptime()
        .into()],
        expected_consumed: 0,
    }
    .test();
}

#[test]
fn parse_invalid_at_token() {
    assert!(
        parse_str("@x").is_err(),
        "@ followed by non-template non-! should be a parse error"
    );
}

#[test]
fn invoke_parse_invoke() {
    ParseTestFixture {
        input: "(5)!",
        expected_output: vec![
            Template::substack((vec![DataValue::Int(5).into()], 0)).into(),
            ProgramValue::Invoke.into(),
        ],
        expected_consumed: 0,
    }
    .test();
}

#[test]
fn parse_comptime_invoke() {
    ParseTestFixture {
        input: "(5)@!",
        expected_output: vec![
            Template::substack((vec![DataValue::Int(5).into()], 0)).into(),
            ProgramValue::ComptimeInvoke.into(),
        ],
        expected_consumed: 0,
    }
    .test();
}

#[test]
fn label_parse_label() {
    ParseTestFixture {
        input: "Hello, world",
        expected_output: vec![
            DataValue::Label("Hello".to_owned()).into(),
            DataValue::Label("world".to_owned()).into(),
        ],
        expected_consumed: 0,
    }
    .test();
}

#[test]
fn label_parse_bool() {
    ParseTestFixture {
        input: "true false",
        expected_output: vec![DataValue::Bool(true).into(), DataValue::Bool(false).into()],
        expected_consumed: 0,
    }
    .test();
}

#[test]
fn number_parse_integer() {
    ParseTestFixture {
        input: "-10 500000",
        expected_output: vec![DataValue::Int(-10).into(), DataValue::Int(500000).into()],
        expected_consumed: 0,
    }
    .test();
}

#[test]
fn number_parse_float() {
    ParseTestFixture {
        input: "-10.5 0.66",
        expected_output: vec![float("-10.5", -10.5), float("0.66", 0.66)],
        expected_consumed: 0,
    }
    .test();
}

#[test]
fn string_parse_string() {
    ParseTestFixture {
        input: "\"hi\" \"there\"",
        expected_output: vec![
            DataValue::Str("hi".to_owned()).into(),
            DataValue::Str("there".to_owned()).into(),
        ],
        expected_consumed: 0,
    }
    .test();
}

#[test]
fn template_parse_with_stack_template() {
    ParseTestFixture {
        input: "$3",
        expected_output: vec![TemplateValue::ParentStackMove(3)],
        expected_consumed: 3,
    }
    .test();
}

#[test]
fn template_parse_with_parent_label() {
    ParseTestFixture {
        input: "$label_name",
        expected_output: vec![TemplateValue::ParentLabel("label_name".to_owned())],
        expected_consumed: 0,
    }
    .test();
}

#[test]
fn template_parse_substack() {
    ParseTestFixture {
        input: "(\"data\" 5 $1)",
        expected_output: vec![Template::substack((
            vec![
                DataValue::Str("data".to_owned()).into(),
                DataValue::Int(5).into(),
                TemplateValue::ParentStackMove(1),
            ],
            1,
        ))
        .into()],
        expected_consumed: 0,
    }
    .test();
}

#[test]
fn parse_script() {
    ParseTestFixture {
        input: "<\"hi\" 5>",
        expected_output: vec![Template::script((
            vec![
                DataValue::Str("hi".to_owned()).into(),
                DataValue::Int(5).into(),
            ],
            0,
        ))
        .into()],
        expected_consumed: 0,
    }
    .test();
}

#[test]
fn parse_list() {
    ParseTestFixture {
        input: "[\"data\" 5 $1]",
        expected_output: vec![Template::list((
            vec![
                DataValue::Str("data".to_owned()).into(),
                DataValue::Int(5).into(),
                TemplateValue::ParentStackMove(1),
            ],
            1,
        ))
        .into()],
        expected_consumed: 0,
    }
    .test();
}

#[test]
fn parse_set() {
    ParseTestFixture {
        input: "{1, 2, 3}",
        expected_output: vec![Template::set((
            vec![
                DataValue::Int(1).into(),
                DataValue::Int(2).into(),
                DataValue::Int(3).into(),
            ],
            0,
        ))
        .into()],
        expected_consumed: 0,
    }
    .test();
}

#[test]
fn parse_map() {
    ParseTestFixture {
        input: "{x: 1, y: 2}",
        expected_output: vec![Template::map(
            vec![
                (
                    DataValue::Label("x".to_owned()).into(),
                    DataValue::Int(1).into(),
                ),
                (
                    DataValue::Label("y".to_owned()).into(),
                    DataValue::Int(2).into(),
                ),
            ],
            0,
        )
        .into()],
        expected_consumed: 0,
    }
    .test();
}

#[test]
fn parse_errors_name_the_failing_construct() {
    assert_eq!(parse_str(")"), Err(ParseError::UnexpectedDelimiter { at: 0 }));
    assert_eq!(parse_str("1 :"), Err(ParseError::UnexpectedDelimiter { at: 2 }));
    assert_eq!(parse_str(" \"open"), Err(ParseError::UnterminatedString { at: 1 }));
    assert_eq!(parse_str("'ab'"), Err(ParseError::BadCharLiteral { at: 0 }));
    assert_eq!(parse_str("'a"), Err(ParseError::BadCharLiteral { at: 0 }));
    assert_eq!(parse_str("(1 2"), Err(ParseError::RanOutOfInput { at: 4 }));
    assert_eq!(parse_str("1.2.3"), Err(ParseError::InvalidNumber { at: 3 }));
    assert_eq!(parse_str("1-2"), Err(ParseError::InvalidNumber { at: 1 }));
    assert_eq!(parse_str("12a"), Err(ParseError::InvalidNumber { at: 2 }));
    assert_eq!(parse_str("-"), Err(ParseError::InvalidNumber { at: 0 }));
    assert_eq!(parse_str("-."), Err(ParseError::InvalidNumber { at: 0 }));
    assert_eq!(
        parse_str("9223372036854775808"),
        Err(ParseError::NumberOutOfRange { at: 0 })
    );
    assert_eq!(
        parse_str("-9223372036854775809"),
        Err(ParseError::NumberOutOfRange { at: 0 })
    );
    assert_eq!(parse_str("$"), Err(ParseError::BadParentAccess { at: 0 }));
    assert_eq!(
        parse_str("$99999999999999999999999999"),
        Err(ParseError::BadParentAccess { at: 0 })
    );
    assert_eq!(parse_str("@x"), Err(ParseError::BadAt { at: 0 }));
    assert_eq!(parse_str("@"), Err(ParseError::BadAt { at: 0 }));
    assert_eq!(parse_str("{a: 1, b 2}"), Err(ParseError::MissingColon { at: 9 }));
}

#[test]
fn integers_at_the_edges_of_the_range() {
    ParseTestFixture {
        input: "9223372036854775807 -9223372036854775808 -0 007",
        expected_output: vec![
            DataValue::Int(i64::MAX).into(),
            DataValue::Int(i64::MIN).into(),
            DataValue::Int(0).into(),
            DataValue::Int(7).into(),
        ],
        expected_consumed: 0,
    }
    .test();
}

#[test]
fn nested_literals_keep_their_own_counts() {
    ParseTestFixture {
        input: "$2 ($5 [$1]) {$3: $4}",
        expected_output: vec![
            TemplateValue::ParentStackMove(2),
            Template::substack((
                vec![
                    TemplateValue::ParentStackMove(5),
                    Template::list((vec![TemplateValue::ParentStackMove(1)], 1)).into(),
                ],
                5,
            ))
            .into(),
            Template::map(
                vec![(
                    TemplateValue::ParentStackMove(3),
                    TemplateValue::ParentStackMove(4),
                )],
                4,
            )
            .into(),
        ],
        expected_consumed: 2,
    }
    .test();
}

#[test]
fn a_colon_inside_a_string_or_a_nested_literal_makes_no_map() {
    ParseTestFixture {
        input: "{\"a:b\" ':' {x: 1} # c: d\n}",
        expected_output: vec![Template::set((
            vec![
                DataValue::Str("a:b".to_owned()).into(),
                DataValue::Char(":".to_owned()).into(),
                Template::map(
                    vec![(
                        DataValue::Label("x".to_owned()).into(),
                        DataValue::Int(1).into(),
                    )],
                    0,
                )
                .into(),
            ],
            0,
        ))
        .into()],
        expected_consumed: 0,
    }
    .test();
}

#[test]
fn whitespace_before_a_closing_delimiter_and_windows_line_ends() {
    ParseTestFixture {
        input: "( 1 )\r\n#note\r\n[ ]\t2",
        expected_output: vec![
            Template::substack((vec![DataValue::Int(1).into()], 0)).into(),
            Template::list((vec![], 0)).into(),
            DataValue::Int(2).into(),
        ],
        expected_consumed: 0,
    }
    .test();
}

#[test]
fn an_unterminated_string_says_so() {
    assert_eq!(
        sid::ParseStringError::UnterminatedString.message(),
        "String doesn't end before the source code does."
    );
    let input = vec!["\"".to_owned(), "a".to_owned()];
    assert_eq!(
        sid::parse::parse_string(&input, 0),
        Err(sid::ParseStringError::UnterminatedString)
    );
    let input = vec!["\"".to_owned(), "a".to_owned(), "b".to_owned(), "\"".to_owned()];
    assert_eq!(sid::parse::parse_string(&input, 0), Ok(("ab".to_owned(), 4)));
    assert_eq!(sid::parse::parse_char(&input, 1), Err(ParseError::BadCharLiteral { at: 1 }));
    assert!(sid::parse::is_key_char(")"));
    assert!(sid::parse::is_key_char("\r\n"));
    assert!(!sid::parse::is_key_char("("));
    assert!(!sid::parse::is_key_char("ab"));
}
