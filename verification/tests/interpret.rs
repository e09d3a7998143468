use std::cell::RefCell;

use sid::{
    interpret, interpret_one, interpret_str, invoke, BuiltInError, BuiltIns, DataValue, ExeState,
    Halt, InterpretBuiltIn, ParseError, ProgramValue, RenderError, RuntimeError, Scope, SidError,
    Template, TemplateValue,
};

/// arg=1, ret=0: keeps what it is given.
struct MockPrint {
    calls: RefCell<Vec<DataValue>>,
}

impl InterpretBuiltIn for MockPrint {
    fn arg_count(&self) -> u8 {
        1
    }
    fn return_count(&self) -> u8 {
        0
    }
    fn execute(
        &self,
        arg: Option<DataValue>,
        _scope: &Scope,
    ) -> Result<Option<DataValue>, BuiltInError> {
        match arg {
            Some(value) => {
                self.calls.borrow_mut().push(value);
                Ok(None)
            }
            None => Err(BuiltInError { message: "nothing to print".to_owned() }),
        }
    }
}

/// arg=0, ret=1: gives what the global scope binds to `answer`.
struct MockAnswer;

impl InterpretBuiltIn for MockAnswer {
    fn arg_count(&self) -> u8 {
        0
    }
    fn return_count(&self) -> u8 {
        1
    }
    fn execute(
        &self,
        _arg: Option<DataValue>,
        scope: &Scope,
    ) -> Result<Option<DataValue>, BuiltInError> {
        match scope.get("answer") {
            Some(value) => Ok(Some(value.clone())),
            None => Err(BuiltInError { message: "no answer".to_owned() }),
        }
    }
}

fn whole(n: i64) -> TemplateValue {
    DataValue::Int(n).into()
}

fn label(name: &str) -> TemplateValue {
    DataValue::Label(name.to_owned()).into()
}

fn state(program: Vec<ProgramValue>, data: Vec<TemplateValue>) -> ExeState {
    ExeState {
        program_stack: program,
        data_stack: data,
        local_scope: Scope::new(),
        global_scope: Scope::new(),
    }
}

fn invoke_error(data: Vec<TemplateValue>, builtins: &BuiltIns) -> RuntimeError {
    let mut data_stack = data;
    let mut program_stack = vec![];
    invoke(&mut data_stack, &mut program_stack, &Scope::new(), &Scope::new(), builtins)
        .expect_err("the invoke went through")
}

#[test]
fn print() {
    let printer = MockPrint { calls: RefCell::new(Vec::new()) };
    let mut builtins = BuiltIns::new();
    builtins.insert("print", &printer);
    let stack = interpret_str("\"Hello, world!\" print!", &builtins, 1000).unwrap();
    assert_eq!(
        *printer.calls.borrow(),
        vec![DataValue::Str("Hello, world!".to_owned())],
    );
    assert_eq!(stack, vec![]);
}

#[test]
fn substack() {
    let printer = MockPrint { calls: RefCell::new(Vec::new()) };
    let mut builtins = BuiltIns::new();
    builtins.insert("print", &printer);
    let stack = interpret_str("1 2 3 ($1 $2 $3)", &builtins, 1000).unwrap();
    assert!(printer.calls.borrow().is_empty());
    assert_eq!(
        stack,
        vec![DataValue::Substack(vec![
            DataValue::Int(3).into(),
            DataValue::Int(2).into(),
            DataValue::Int(1).into(),
        ])
        .into()]
    );
}

#[test]
fn an_invoked_substack_runs_in_place() {
    let stack = interpret_str("1 2 3 ($1 $2 $3)! 4", &BuiltIns::new(), 1000).unwrap();
    assert_eq!(stack, vec![whole(3), whole(2), whole(1), whole(4)]);
}

#[test]
fn the_first_instruction_of_a_substack_runs_first() {
    let mut data_stack = vec![DataValue::Substack(vec![
        ProgramValue::Data(DataValue::Int(1)),
        ProgramValue::Data(DataValue::Int(2)),
    ])
    .into()];
    let mut program_stack = vec![ProgramValue::Data(DataValue::Int(9))];
    invoke(
        &mut data_stack,
        &mut program_stack,
        &Scope::new(),
        &Scope::new(),
        &BuiltIns::new(),
    )
    .unwrap();
    assert_eq!(data_stack, vec![]);
    assert_eq!(
        program_stack,
        vec![
            ProgramValue::Data(DataValue::Int(9)),
            ProgramValue::Data(DataValue::Int(2)),
            ProgramValue::Data(DataValue::Int(1)),
        ]
    );
}

#[test]
fn an_unbound_label_cannot_be_invoked() {
    assert_eq!(
        invoke_error(vec![label("nothing")], &BuiltIns::new()),
        RuntimeError::UndefinedLabel { name: "nothing".to_owned() }
    );
    assert_eq!(
        interpret_str("nothing!", &BuiltIns::new(), 1000),
        Err(SidError::Runtime(RuntimeError::UndefinedLabel { name: "nothing".to_owned() }))
    );
}

#[test]
fn a_label_is_looked_up_locally_then_globally_then_among_the_builtins() {
    let answer = MockAnswer;
    let mut builtins = BuiltIns::new();
    builtins.insert("x", &answer);
    let mut global = Scope::new();
    global.insert("answer".to_owned(), DataValue::Int(42));

    let mut machine = ExeState {
        program_stack: vec![ProgramValue::Invoke],
        data_stack: vec![label("x")],
        local_scope: Scope::new(),
        global_scope: global,
    };
    interpret_one(&mut machine, &builtins).unwrap();
    assert_eq!(machine.data_stack, vec![whole(42)]);

    machine.global_scope.insert(
        "x".to_owned(),
        DataValue::Substack(vec![ProgramValue::Data(DataValue::Int(2))]),
    );
    machine.program_stack = vec![ProgramValue::Invoke];
    machine.data_stack = vec![label("x")];
    assert_eq!(interpret_one(&mut machine, &builtins), Ok(()));
    assert_eq!(machine.program_stack, vec![ProgramValue::Data(DataValue::Int(2))]);

    machine.local_scope.insert(
        "x".to_owned(),
        DataValue::Substack(vec![ProgramValue::Data(DataValue::Int(1))]),
    );
    machine.program_stack = vec![ProgramValue::Invoke];
    machine.data_stack = vec![label("x")];
    assert_eq!(interpret_one(&mut machine, &builtins), Ok(()));
    assert_eq!(machine.program_stack, vec![ProgramValue::Data(DataValue::Int(1))]);
}

#[test]
fn one_step_at_a_time() {
    let template = Template::list((vec![TemplateValue::ParentStackMove(1)], 1));
    let mut machine = state(
        vec![
            ProgramValue::ComptimeInvoke,
            ProgramValue::Template(template),
            ProgramValue::Data(DataValue::Int(5)),
        ],
        vec![whole(1)],
    );
    let builtins = BuiltIns::new();
    assert_eq!(interpret_one(&mut machine, &builtins), Ok(()));
    assert_eq!(machine.data_stack, vec![whole(1), whole(5)]);
    assert_eq!(machine.program_stack.len(), 2);
    assert_eq!(interpret_one(&mut machine, &builtins), Ok(()));
    assert_eq!(
        machine.data_stack,
        vec![whole(1), DataValue::List(vec![DataValue::Int(5)]).into()]
    );
    assert_eq!(interpret_one(&mut machine, &builtins), Err(RuntimeError::InvalidInvoke));
    assert_eq!(machine.data_stack, vec![whole(1)]);
    assert!(machine.program_stack.is_empty());
}

#[test]
fn a_failed_render_leaves_the_data_stack() {
    let template = Template::list((vec![TemplateValue::ParentStackMove(1)], 2));
    let mut machine = state(vec![ProgramValue::Template(template)], vec![whole(1)]);
    assert_eq!(
        interpret_one(&mut machine, &BuiltIns::new()),
        Err(RuntimeError::Render(RenderError::StackTooShort { needed: 2, available: 1 }))
    );
    assert_eq!(machine.data_stack, vec![whole(1)]);
    assert!(machine.program_stack.is_empty());
}

#[test]
fn each_invoke_failure() {
    let printer = MockPrint { calls: RefCell::new(Vec::new()) };
    let mut builtins = BuiltIns::new();
    builtins.insert("print", &printer);

    assert_eq!(invoke_error(vec![], &builtins), RuntimeError::EmptyDataStack);
    assert_eq!(
        invoke_error(vec![TemplateValue::ParentStackMove(1)], &builtins),
        RuntimeError::NotConcrete
    );
    assert_eq!(
        invoke_error(vec![ProgramValue::Invoke.into()], &builtins),
        RuntimeError::NotConcrete
    );
    assert_eq!(invoke_error(vec![whole(1)], &builtins), RuntimeError::InvalidInvoke);
    assert_eq!(
        invoke_error(vec![DataValue::Script(vec![]).into()], &builtins),
        RuntimeError::InvalidInvoke
    );
    assert_eq!(
        invoke_error(vec![DataValue::BuiltIn("gone".to_owned()).into()], &builtins),
        RuntimeError::UnknownBuiltIn { name: "gone".to_owned() }
    );
    assert_eq!(
        invoke_error(vec![label("print")], &builtins),
        RuntimeError::MissingArgument { name: "print".to_owned() }
    );
    assert_eq!(
        invoke_error(vec![TemplateValue::ParentLabel("x".to_owned()), label("print")], &builtins),
        RuntimeError::ArgumentNotConcrete { name: "print".to_owned() }
    );
    let answer = MockAnswer;
    builtins.insert("answer", &answer);
    assert_eq!(
        invoke_error(vec![label("answer")], &builtins),
        RuntimeError::BuiltIn(BuiltInError { message: "no answer".to_owned() })
    );
}

#[test]
fn a_run_stops_when_its_steps_are_used_up() {
    let mut global = Scope::new();
    global.insert(
        "again".to_owned(),
        DataValue::Substack(vec![
            ProgramValue::Data(DataValue::Label("again".to_owned())),
            ProgramValue::Invoke,
        ]),
    );
    let (machine, halted) = interpret(
        vec![ProgramValue::Invoke],
        vec![label("again")],
        global,
        &BuiltIns::new(),
        1000,
    );
    assert_eq!(halted, Ok(Halt::OutOfSteps));
    assert_eq!(machine.program_stack, vec![ProgramValue::Invoke]);
    assert_eq!(machine.data_stack, vec![label("again")]);
}

#[test]
fn a_run_ends_with_an_empty_program() {
    let (machine, halted) = interpret(
        vec![ProgramValue::Data(DataValue::Int(2)), ProgramValue::Data(DataValue::Int(1))],
        vec![whole(0)],
        Scope::new(),
        &BuiltIns::new(),
        2,
    );
    assert_eq!(halted, Ok(Halt::Finished));
    assert_eq!(machine.data_stack, vec![whole(0), whole(1), whole(2)]);
    let (machine, halted) = interpret(vec![], vec![], Scope::new(), &BuiltIns::new(), 0);
    assert_eq!(halted, Ok(Halt::Finished));
    assert!(machine.data_stack.is_empty());
}

#[test]
fn a_text_that_does_not_run() {
    assert_eq!(
        interpret_str("(", &BuiltIns::new(), 10),
        Err(SidError::Parse(ParseError::RanOutOfInput { at: 1 }))
    );
    assert_eq!(
        interpret_str("$1", &BuiltIns::new(), 10),
        Err(SidError::Render(RenderError::StackTooShort { needed: 1, available: 0 }))
    );
    assert_eq!(interpret_str("1", &BuiltIns::new(), 1), Err(SidError::OutOfSteps));
    assert_eq!(interpret_str("1", &BuiltIns::new(), 2), Ok(vec![whole(1)]));
}
