use sid::{parse_str, DataValue, ProgramValue, Template, TemplateValue};

pub fn parse_test_fixture(
    input: &str,
    expected_output_template: Vec<TemplateValue>,
    expected_output_stack_entries_consumed: usize,
) {
    let output = parse_str(input).expect("parse failed");
    assert_eq!(
        expected_output_template, output.0,
        "Parsed template didn't match expectations"
    );
    assert_eq!(
        expected_output_stack_entries_consumed, output.1,
        "Parsed template consumes unexpected amount of stack entries."
    );
}

fn float(text: &str, value: f64) -> TemplateValue {
    assert_eq!(text.parse::<f64>().unwrap(), value);
    DataValue::Float(text.to_owned()).into()
}

#[test]
fn parse_parse_string() {
    parse_test_fixture(
        "\"hi\" \"there\"",
        vec![
            DataValue::Str("hi".to_owned()).into(),
            DataValue::Str("there".to_owned()).into(),
        ],
        0,
    )
}

#[test]
fn parse_parse_label() {
    parse_test_fixture(
        "Hello, world",
        vec![
            DataValue::Label("Hello".to_owned()).into(),
            DataValue::Label("world".to_owned()).into(),
        ],
        0,
    )
}

#[test]
fn parse_parse_bool() {
    parse_test_fixture(
        "true false",
        vec![DataValue::Bool(true).into(), DataValue::Bool(false).into()],
        0,
    )
}

#[test]
fn parse_parse_integer() {
    parse_test_fixture(
        "-10 500000",
        vec![DataValue::Int(-10).into(), DataValue::Int(500000).into()],
        0,
    )
}

#[test]
fn parse_parse_float() {
    parse_test_fixture(
        "-10.5 0.66",
        vec![float("-10.5", -10.5), float("0.66", 0.66)],
        0,
    )
}

#[test]
fn parse_parse_with_stack_template() {
    parse_test_fixture("$3", vec![TemplateValue::ParentStackMove(3)], 3)
}

#[test]
fn parse_parse_with_parent_label() {
    parse_test_fixture(
        "$label_name",
        vec![TemplateValue::ParentLabel("label_name".to_owned())],
        0,
    )
}

#[test]
fn parse_parse_substack() {
    parse_test_fixture(
        "(\"data\" 5 $1)",
        vec![Template::substack((
            vec![
                DataValue::Str("data".to_owned()).into(),
                DataValue::Int(5).into(),
                TemplateValue::ParentStackMove(1),
            ],
            1,
        ))
        .into()],
        0,
    )
}

#[test]
fn parse_parse_invoke() {
    parse_test_fixture(
        "(5)!",
        vec![
            Template::substack((vec![DataValue::Int(5).into()], 0)).into(),
            ProgramValue::Invoke.into(),
        ],
        0,
    )
}
