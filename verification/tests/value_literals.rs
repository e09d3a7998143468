use sid::{interpret_str, BuiltIns, DataValue, TemplateValue};

fn run(script: &str) -> Vec<TemplateValue> {
    interpret_str(script, &BuiltIns::new(), 1000).unwrap()
}

#[test]
fn string() {
    assert_eq!(
        run("\"Hello, world!\""),
        vec![DataValue::Str("Hello, world!".to_owned()).into()],
    );
}

#[test]
fn label() {
    assert_eq!(
        run("Hello, world"),
        vec![
            DataValue::Label("Hello".to_owned()).into(),
            DataValue::Label("world".to_owned()).into(),
        ],
    );
}

#[test]
fn bool() {
    assert_eq!(
        run("true false"),
        vec![DataValue::Bool(true).into(), DataValue::Bool(false).into()],
    );
}

#[test]
fn integer() {
    assert_eq!(
        run("-10 500000"),
        vec![DataValue::Int(-10).into(), DataValue::Int(500000).into()],
    );
}

#[test]
fn float() {
    assert_eq!("-10.5".parse::<f64>().unwrap(), -10.5);
    assert_eq!("0.66".parse::<f64>().unwrap(), 0.66);
    assert_eq!(
        run("-10.5 0.66"),
        vec![
            DataValue::Float("-10.5".to_owned()).into(),
            DataValue::Float("0.66".to_owned()).into(),
        ],
    );
}
