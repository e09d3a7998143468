use sid::{
    comptime_pass, BuiltInError, BuiltIns, ComptimeError, DataValue, InterpretBuiltIn,
    ProgramValue, Scope, Template, TemplateValue,
};

/// arg=1, ret=1: doubles an Int.
#[derive(Debug)]
struct MockDouble;
impl InterpretBuiltIn for MockDouble {
    fn arg_count(&self) -> u8 {
        1
    }
    fn return_count(&self) -> u8 {
        1
    }
    fn execute(
        &self,
        arg: Option<DataValue>,
        _scope: &Scope,
    ) -> Result<Option<DataValue>, BuiltInError> {
        match arg {
            Some(DataValue::Int(n)) => Ok(Some(DataValue::Int(n * 2))),
            other => Err(BuiltInError {
                message: format!("MockDouble: expected Int, got {:?}", other),
            }),
        }
    }
}

/// arg=1, ret=0: drops its argument.
#[derive(Debug)]
struct MockDrop;
impl InterpretBuiltIn for MockDrop {
    fn arg_count(&self) -> u8 {
        1
    }
    fn return_count(&self) -> u8 {
        0
    }
    fn execute(
        &self,
        _arg: Option<DataValue>,
        _scope: &Scope,
    ) -> Result<Option<DataValue>, BuiltInError> {
        Ok(None)
    }
}

/// arg=0, ret=1: always pushes Int(42).
#[derive(Debug)]
struct MockConst;
impl InterpretBuiltIn for MockConst {
    fn arg_count(&self) -> u8 {
        0
    }
    fn return_count(&self) -> u8 {
        1
    }
    fn execute(
        &self,
        _arg: Option<DataValue>,
        _scope: &Scope,
    ) -> Result<Option<DataValue>, BuiltInError> {
        Ok(Some(DataValue::Int(42)))
    }
}

/// arg=0, ret=0, but gives a value all the same.
#[derive(Debug)]
struct MockChatty;
impl InterpretBuiltIn for MockChatty {
    fn arg_count(&self) -> u8 {
        0
    }
    fn return_count(&self) -> u8 {
        0
    }
    fn execute(
        &self,
        _arg: Option<DataValue>,
        _scope: &Scope,
    ) -> Result<Option<DataValue>, BuiltInError> {
        Ok(Some(DataValue::Int(1)))
    }
}

pub struct ComptimePassFixture {
    pub input: Vec<TemplateValue>,
    pub expected_output: Vec<TemplateValue>,
}

impl ComptimePassFixture {
    pub fn test(&self, builtins: &BuiltIns) {
        let result = comptime_pass(self.input.clone(), builtins, &Scope::new())
            .expect("comptime_pass failed unexpectedly");
        assert_eq!(
            result, self.expected_output,
            "comptime_pass output didn't match expectations"
        );
    }
}

pub struct ComptimeErrorFixture {
    pub input: Vec<TemplateValue>,
}

impl ComptimeErrorFixture {
    pub fn test(&self, builtins: &BuiltIns) -> ComptimeError {
        let result = comptime_pass(self.input.clone(), builtins, &Scope::new());
        assert!(
            result.is_err(),
            "expected comptime_pass to return Err but it succeeded"
        );
        result.unwrap_err()
    }
}

fn no_builtins<'a>() -> BuiltIns<'a> {
    BuiltIns::new()
}

fn comptime_invoke() -> TemplateValue {
    ProgramValue::ComptimeInvoke.into()
}

fn label(s: &str) -> TemplateValue {
    DataValue::Label(s.to_owned()).into()
}

#[test]
fn passthrough_plain_values() {
    ComptimePassFixture {
        input: vec![
            DataValue::Int(1).into(),
            DataValue::Str("hi".to_owned()).into(),
        ],
        expected_output: vec![
            DataValue::Int(1).into(),
            DataValue::Str("hi".to_owned()).into(),
        ],
    }
    .test(&no_builtins());
}

#[test]
fn passthrough_runtime_invoke() {
    ComptimePassFixture {
        input: vec![
            DataValue::Int(5).into(),
            label("something"),
            ProgramValue::Invoke.into(),
        ],
        expected_output: vec![
            DataValue::Int(5).into(),
            label("something"),
            ProgramValue::Invoke.into(),
        ],
    }
    .test(&no_builtins());
}

#[test]
fn passthrough_parent_refs() {
    ComptimePassFixture {
        input: vec![
            TemplateValue::ParentStackMove(1),
            TemplateValue::ParentLabel("foo".to_owned()),
        ],
        expected_output: vec![
            TemplateValue::ParentStackMove(1),
            TemplateValue::ParentLabel("foo".to_owned()),
        ],
    }
    .test(&no_builtins());
}

#[test]
fn comptime_invoke_one_arg_one_return() {
    let double = MockDouble;
    let mut builtins = BuiltIns::new();
    builtins.insert("double", &double);

    ComptimePassFixture {
        input: vec![DataValue::Int(5).into(), label("double"), comptime_invoke()],
        expected_output: vec![DataValue::Int(10).into()],
    }
    .test(&builtins);
}

#[test]
fn comptime_invoke_one_arg_zero_return() {
    let drop = MockDrop;
    let mut builtins = BuiltIns::new();
    builtins.insert("drop", &drop);

    ComptimePassFixture {
        input: vec![DataValue::Int(5).into(), label("drop"), comptime_invoke()],
        expected_output: vec![],
    }
    .test(&builtins);
}

#[test]
fn comptime_invoke_zero_arg_one_return() {
    let c = MockConst;
    let mut builtins = BuiltIns::new();
    builtins.insert("const", &c);

    ComptimePassFixture {
        input: vec![label("const"), comptime_invoke()],
        expected_output: vec![DataValue::Int(42).into()],
    }
    .test(&builtins);
}

#[test]
fn comptime_invoke_leaves_surrounding_stack_intact() {
    let double = MockDouble;
    let mut builtins = BuiltIns::new();
    builtins.insert("double", &double);

    ComptimePassFixture {
        input: vec![
            DataValue::Str("before".to_owned()).into(),
            DataValue::Int(3).into(),
            label("double"),
            comptime_invoke(),
            DataValue::Str("after".to_owned()).into(),
        ],
        expected_output: vec![
            DataValue::Str("before".to_owned()).into(),
            DataValue::Int(6).into(),
            DataValue::Str("after".to_owned()).into(),
        ],
    }
    .test(&builtins);
}

#[test]
fn recurses_into_substack_body() {
    let double = MockDouble;
    let mut builtins = BuiltIns::new();
    builtins.insert("double", &double);

    let input_body = Template::substack((
        vec![DataValue::Int(5).into(), label("double"), comptime_invoke()],
        0,
    ));
    let expected_body = Template::substack((vec![DataValue::Int(10).into()], 0));
    ComptimePassFixture {
        input: vec![TemplateValue::Literal(ProgramValue::Template(input_body))],
        expected_output: vec![TemplateValue::Literal(ProgramValue::Template(expected_body))],
    }
    .test(&builtins);
}

#[test]
fn recurses_into_list_body() {
    let double = MockDouble;
    let mut builtins = BuiltIns::new();
    builtins.insert("double", &double);

    let input_body = Template::list((
        vec![DataValue::Int(3).into(), label("double"), comptime_invoke()],
        0,
    ));
    let expected_body = Template::list((vec![DataValue::Int(6).into()], 0));
    ComptimePassFixture {
        input: vec![TemplateValue::Literal(ProgramValue::Template(input_body))],
        expected_output: vec![TemplateValue::Literal(ProgramValue::Template(expected_body))],
    }
    .test(&builtins);
}

#[test]
fn recurses_into_script_body() {
    let double = MockDouble;
    let mut builtins = BuiltIns::new();
    builtins.insert("double", &double);

    let input_body = Template::script((
        vec![DataValue::Int(7).into(), label("double"), comptime_invoke()],
        0,
    ));
    let expected_body = Template::script((vec![DataValue::Int(14).into()], 0));
    ComptimePassFixture {
        input: vec![TemplateValue::Literal(ProgramValue::Template(input_body))],
        expected_output: vec![TemplateValue::Literal(ProgramValue::Template(expected_body))],
    }
    .test(&builtins);
}

#[test]
fn error_comptime_invoke_unknown_function() {
    let error = ComptimeErrorFixture {
        input: vec![DataValue::Int(5).into(), label("nonexistent"), comptime_invoke()],
    }
    .test(&no_builtins());
    assert_eq!(error, ComptimeError::UnknownFunction { name: "nonexistent".to_owned() });
}

#[test]
fn error_comptime_invoke_unrendered_template_as_arg() {
    let double = MockDouble;
    let mut builtins = BuiltIns::new();
    builtins.insert("double", &double);

    let unrendered = Template::substack((vec![], 0));
    let error = ComptimeErrorFixture {
        input: vec![
            TemplateValue::Literal(ProgramValue::Template(unrendered)),
            label("double"),
            comptime_invoke(),
        ],
    }
    .test(&builtins);
    assert_eq!(error, ComptimeError::ArgumentIsTemplate { name: "double".to_owned() });
}

#[test]
fn error_comptime_invoke_parent_ref_as_arg() {
    let double = MockDouble;
    let mut builtins = BuiltIns::new();
    builtins.insert("double", &double);

    let error = ComptimeErrorFixture {
        input: vec![
            TemplateValue::ParentStackMove(1),
            label("double"),
            comptime_invoke(),
        ],
    }
    .test(&builtins);
    assert_eq!(error, ComptimeError::ArgumentNotConcrete { name: "double".to_owned() });
}

#[test]
fn a_builtin_without_argument_takes_only_its_name() {
    let c = MockConst;
    let mut builtins = BuiltIns::new();
    builtins.insert("const", &c);

    ComptimePassFixture {
        input: vec![
            TemplateValue::ParentStackMove(1),
            DataValue::Int(7).into(),
            label("const"),
            comptime_invoke(),
        ],
        expected_output: vec![
            TemplateValue::ParentStackMove(1),
            DataValue::Int(7).into(),
            DataValue::Int(42).into(),
        ],
    }
    .test(&builtins);
}

#[test]
fn a_result_that_was_not_declared_is_not_pushed() {
    let chatty = MockChatty;
    let mut builtins = BuiltIns::new();
    builtins.insert("chatty", &chatty);

    ComptimePassFixture {
        input: vec![DataValue::Int(7).into(), label("chatty"), comptime_invoke()],
        expected_output: vec![DataValue::Int(7).into()],
    }
    .test(&builtins);
}

#[test]
fn recurses_into_each_key_and_value_of_a_map() {
    let c = MockConst;
    let mut builtins = BuiltIns::new();
    builtins.insert("const", &c);

    let inner = Template::list((vec![label("const"), comptime_invoke()], 0));
    let passed_inner = Template::list((vec![DataValue::Int(42).into()], 0));
    ComptimePassFixture {
        input: vec![Template::map(vec![(label("k"), inner.into())], 0).into()],
        expected_output: vec![Template::map(vec![(label("k"), passed_inner.into())], 0).into()],
    }
    .test(&builtins);
}

#[test]
fn the_other_comptime_failures() {
    let double = MockDouble;
    let mut builtins = BuiltIns::new();
    builtins.insert("double", &double);

    assert_eq!(
        ComptimeErrorFixture { input: vec![comptime_invoke()] }.test(&builtins),
        ComptimeError::InvokeOnEmptyStack
    );
    assert_eq!(
        ComptimeErrorFixture { input: vec![DataValue::Int(1).into(), comptime_invoke()] }
            .test(&builtins),
        ComptimeError::InvokeOnNonLabel
    );
    assert_eq!(
        ComptimeErrorFixture { input: vec![label("double"), comptime_invoke()] }.test(&builtins),
        ComptimeError::MissingArgument { name: "double".to_owned() }
    );
    assert!(matches!(
        ComptimeErrorFixture {
            input: vec![DataValue::Bool(true).into(), label("double"), comptime_invoke()],
        }
        .test(&builtins),
        ComptimeError::BuiltIn(_)
    ));
    assert_eq!(
        ComptimeErrorFixture {
            input: vec![Template::map(vec![(comptime_invoke(), label("v"))], 0).into()],
        }
        .test(&builtins),
        ComptimeError::InvokeOnEmptyStack
    );
}
