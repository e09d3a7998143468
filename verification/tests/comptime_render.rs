use sid::{
    comptime_pass, BuiltIns, ComptimeError, DataValue, ProgramValue, RenderError, Scope, Template,
    TemplateValue,
};

pub struct ComptimePassFixture {
    pub input: Vec<TemplateValue>,
    pub expected_output: Vec<TemplateValue>,
}

impl ComptimePassFixture {
    pub fn test(&self, builtins: &BuiltIns) {
        let result = comptime_pass(self.input.clone(), builtins, &Scope::new())
            .expect("comptime_pass failed unexpectedly");
        assert_eq!(
            result, self.expected_output,
            "comptime_pass output didn't match expectations"
        );
    }
}

pub struct ComptimeErrorFixture {
    pub input: Vec<TemplateValue>,
}

impl ComptimeErrorFixture {
    pub fn test(&self, builtins: &BuiltIns) -> ComptimeError {
        let result = comptime_pass(self.input.clone(), builtins, &Scope::new());
        assert!(
            result.is_err(),
            "expected comptime_pass to return Err but it succeeded"
        );
        result.unwrap_err()
    }
}

fn no_builtins<'a>() -> BuiltIns<'a> {
    BuiltIns::new()
}

#[test]
fn passthrough_runtime_template_unchanged() {
    let substack = Template::substack((
        vec![DataValue::Int(5).into(), DataValue::Int(3).into()],
        0,
    ));
    ComptimePassFixture {
        input: vec![TemplateValue::Literal(ProgramValue::Template(substack.clone()))],
        expected_output: vec![TemplateValue::Literal(ProgramValue::Template(substack))],
    }
    .test(&no_builtins());
}

#[test]
fn comptime_substack_rendered_eagerly() {
    let ct = Template::substack((vec![DataValue::Int(7).into()], 0)).mark_comptime();
    ComptimePassFixture {
        input: vec![TemplateValue::Literal(ProgramValue::Template(ct))],
        expected_output: vec![TemplateValue::from(DataValue::Substack(vec![
            ProgramValue::Data(DataValue::Int(7)),
        ]))],
    }
    .test(&no_builtins());
}

#[test]
fn comptime_list_rendered_eagerly() {
    let ct = Template::list((
        vec![DataValue::Int(1).into(), DataValue::Int(2).into()],
        0,
    ))
    .mark_comptime();
    ComptimePassFixture {
        input: vec![TemplateValue::Literal(ProgramValue::Template(ct))],
        expected_output: vec![TemplateValue::from(DataValue::List(vec![
            DataValue::Int(1),
            DataValue::Int(2),
        ]))],
    }
    .test(&no_builtins());
}

#[test]
fn error_comptime_template_consumes_parent_stack_move() {
    let ct = Template::substack((vec![], 1)).mark_comptime();
    let error = ComptimeErrorFixture {
        input: vec![
            TemplateValue::ParentStackMove(1),
            TemplateValue::Literal(ProgramValue::Template(ct)),
        ],
    }
    .test(&no_builtins());
    assert_eq!(error, ComptimeError::TemplateConsumesNonConcrete);
}

#[test]
fn error_comptime_template_consumes_unrendered_template() {
    let inner = Template::substack((vec![], 0));
    let ct = Template::substack((vec![], 1)).mark_comptime();
    let error = ComptimeErrorFixture {
        input: vec![
            TemplateValue::Literal(ProgramValue::Template(inner)),
            TemplateValue::Literal(ProgramValue::Template(ct)),
        ],
    }
    .test(&no_builtins());
    assert_eq!(error, ComptimeError::TemplateConsumesTemplate);
}

#[test]
fn comptime_template_takes_what_stands_before_it() {
    let ct = Template::list((vec![TemplateValue::ParentStackMove(1)], 2)).mark_comptime();
    ComptimePassFixture {
        input: vec![
            DataValue::Int(1).into(),
            DataValue::Int(2).into(),
            DataValue::Int(3).into(),
            TemplateValue::Literal(ProgramValue::Template(ct)),
            ProgramValue::Invoke.into(),
        ],
        expected_output: vec![
            DataValue::Int(1).into(),
            DataValue::Int(2).into(),
            DataValue::List(vec![DataValue::Int(3)]).into(),
            ProgramValue::Invoke.into(),
        ],
    }
    .test(&no_builtins());
}

#[test]
fn comptime_template_failures() {
    let needs_two = Template::substack((vec![], 2)).mark_comptime();
    assert_eq!(
        ComptimeErrorFixture {
            input: vec![
                DataValue::Int(1).into(),
                TemplateValue::Literal(ProgramValue::Template(needs_two)),
            ],
        }
        .test(&no_builtins()),
        ComptimeError::TemplateNeedsStack { needed: 2, available: 1 }
    );
    let undefined = Template::substack((vec![TemplateValue::ParentLabel("x".to_owned())], 0))
        .mark_comptime();
    assert_eq!(
        ComptimeErrorFixture {
            input: vec![TemplateValue::Literal(ProgramValue::Template(undefined))],
        }
        .test(&no_builtins()),
        ComptimeError::Render(RenderError::UndefinedLabel { name: "x".to_owned() })
    );
}

#[test]
fn comptime_template_reads_the_scope_of_the_pass() {
    let mut scope = Scope::new();
    scope.insert("x".to_owned(), DataValue::Int(9));
    let ct = Template::list((vec![TemplateValue::ParentLabel("x".to_owned())], 0))
        .mark_comptime();
    let result = comptime_pass(
        vec![TemplateValue::Literal(ProgramValue::Template(ct))],
        &no_builtins(),
        &scope,
    )
    .unwrap();
    assert_eq!(result, vec![DataValue::List(vec![DataValue::Int(9)]).into()]);
}
