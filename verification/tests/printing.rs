use sid::to_syntax::{int_to_text, list_to_syntax, natural_to_text};
use sid::{
    get_compile_builtins, get_comptime_builtins, get_interpret_builtins, parse_str, Arity,
    BuiltInError, BuiltIns, DataValue, InterpretBuiltIn, ProgramValue, Scope, SidType, Template,
    TemplateValue, ToSyntax,
};

struct Declares(u8, u8);

impl InterpretBuiltIn for Declares {
    fn arg_count(&self) -> u8 {
        self.0
    }
    fn return_count(&self) -> u8 {
        self.1
    }
    fn execute(
        &self,
        _arg: Option<DataValue>,
        _scope: &Scope,
    ) -> Result<Option<DataValue>, BuiltInError> {
        Ok(None)
    }
}

#[test]
fn numbers_in_base_ten() {
    assert_eq!(natural_to_text(0), "0");
    assert_eq!(natural_to_text(9), "9");
    assert_eq!(natural_to_text(10), "10");
    assert_eq!(natural_to_text(u64::MAX), "18446744073709551615");
    assert_eq!(int_to_text(0), "0");
    assert_eq!(int_to_text(-7), "-7");
    assert_eq!(int_to_text(1234567890), "1234567890");
    assert_eq!(int_to_text(i64::MIN), "-9223372036854775808");
    assert_eq!(int_to_text(i64::MAX), "9223372036854775807");
}

#[test]
fn items_between_delimiters() {
    assert_eq!(list_to_syntax(&vec![], "[", "]"), "[\n] ");
    assert_eq!(
        list_to_syntax(&vec!["a".to_owned(), "b".to_owned()], "(", ")"),
        "(\n a \n b \n) "
    );
}

#[test]
fn data_values_as_they_are_written() {
    assert_eq!(DataValue::Bool(true).to_syntax(), "true");
    assert_eq!(DataValue::Bool(false).to_syntax(), "false");
    assert_eq!(DataValue::Int(-12).to_syntax(), "-12");
    assert_eq!(DataValue::Float("0.50".to_owned()).to_syntax(), "0.50");
    assert_eq!(DataValue::Str("hi".to_owned()).to_syntax(), "\"hi\"");
    assert_eq!(DataValue::Char("👮‍♀️".to_owned()).to_syntax(), "'👮‍♀️'");
    assert_eq!(DataValue::Label("add".to_owned()).to_syntax(), "add");
    assert_eq!(DataValue::BuiltIn("print".to_owned()).to_syntax(), "print");
    assert_eq!(
        DataValue::Substack(vec![ProgramValue::Data(DataValue::Int(1)), ProgramValue::Invoke])
            .to_syntax(),
        "(\n 1 \n ! \n) "
    );
    assert_eq!(
        DataValue::Script(vec![ProgramValue::ComptimeInvoke]).to_syntax(),
        "<\n @! \n> "
    );
    assert_eq!(
        DataValue::List(vec![DataValue::Int(1), DataValue::List(vec![])]).to_syntax(),
        "[\n 1 \n [\n]  \n] "
    );
    assert_eq!(DataValue::SetOf(vec![DataValue::Int(1)]).to_syntax(), "{\n 1 \n} ");
    assert_eq!(
        DataValue::Struct(vec![
            ("a".to_owned(), DataValue::Int(1)),
            ("b".to_owned(), DataValue::Bool(true)),
        ])
        .to_syntax(),
        "{a: 1, b: true}"
    );
    assert_eq!(DataValue::Struct(vec![]).to_syntax(), "{}");
    assert_eq!(
        DataValue::Dict(vec![(DataValue::Str("k".to_owned()), DataValue::Int(1))]).to_syntax(),
        "{\"k\": 1}"
    );
    assert_eq!(DataValue::Type(SidType::Int).to_syntax(), "int");
}

#[test]
fn templates_as_they_are_written() {
    let body = vec![
        TemplateValue::ParentStackMove(12),
        TemplateValue::ParentLabel("x".to_owned()),
        DataValue::Int(1).into(),
    ];
    assert_eq!(
        ProgramValue::Template(Template::substack((body.clone(), 12))).to_syntax(),
        "(#Template\n $12 \n $x \n 1 \n) "
    );
    assert_eq!(
        Template::script((body.clone(), 12)).data.to_syntax(),
        "<#Template\n $12 \n $x \n 1 \n> "
    );
    assert_eq!(Template::list((vec![], 0)).data.to_syntax(), "[#Template\n] ");
    assert_eq!(Template::set((vec![], 0)).data.to_syntax(), "{#Template\n} ");
    assert_eq!(
        Template::map(vec![(DataValue::Label("k".to_owned()).into(), DataValue::Int(1).into())], 0)
            .data
            .to_syntax(),
        "{#Template\n k: 1 \n}"
    );
}

#[test]
fn types_as_they_are_written() {
    assert_eq!(SidType::Bool.to_syntax(), "bool");
    assert_eq!(SidType::Float.to_syntax(), "float");
    assert_eq!(SidType::Char.to_syntax(), "char");
    assert_eq!(SidType::Str.to_syntax(), "str");
    assert_eq!(SidType::Label.to_syntax(), "label");
    assert_eq!(SidType::Any.to_syntax(), "Any");
    assert_eq!(SidType::List(Box::new(SidType::Int)).to_syntax(), "int list @!");
    assert_eq!(
        SidType::Dict { key: Box::new(SidType::Str), value: Box::new(SidType::Int) }.to_syntax(),
        "str int map @!"
    );
    assert_eq!(
        SidType::Fn { args: Box::new(SidType::Int), ret: Box::new(SidType::Bool) }.to_syntax(),
        "int bool fn_type @!"
    );
    assert_eq!(
        SidType::Union(vec![SidType::Int, SidType::Str]).to_syntax(),
        "{int, str}"
    );
    assert_eq!(
        SidType::Struct(vec![("a".to_owned(), SidType::Int)]).to_syntax(),
        "{a: int}"
    );
    assert_eq!(
        SidType::Literal(Box::new(DataValue::Str("yes".to_owned()))).to_syntax(),
        "\"yes\""
    );
}

#[test]
fn a_rendered_value_reads_back_as_it_was_written() {
    let source = "1 \"two\" 'c' true (4 five)";
    let (values, consumes) = parse_str(source).unwrap();
    let mut stack = vec![];
    let rendered = sid::render_template(
        Template::list((values[..4].to_vec(), consumes)),
        &mut stack,
        &Scope::new(),
        &Scope::new(),
    )
    .unwrap();
    let printed = rendered[0].to_syntax();
    assert_eq!(printed, "[\n 1 \n \"two\" \n 'c' \n true \n] ");
    let (again, _) = parse_str(&printed).unwrap();
    assert_eq!(again, vec![Template::list((values[..4].to_vec(), 0)).into()]);
}

#[test]
fn copies_are_equal() {
    let value = DataValue::Dict(vec![(
        DataValue::Type(SidType::Union(vec![SidType::Literal(Box::new(DataValue::Int(1)))])),
        DataValue::Substack(vec![ProgramValue::Template(Template::map(
            vec![(TemplateValue::ParentStackMove(1), DataValue::Str("x".to_owned()).into())],
            1,
        ))]),
    )]);
    assert_eq!(value.clone(), value);
}

#[test]
fn registries() {
    assert_eq!(get_interpret_builtins().arity("print"), None);
    assert_eq!(get_comptime_builtins().arity("print"), None);
    assert!(get_compile_builtins().is_empty());

    let first = Declares(1, 0);
    let second = Declares(0, 1);
    let mut builtins = BuiltIns::new();
    assert!(!builtins.contains_key("a"));
    builtins.insert("a", &first);
    builtins.insert("b", &second);
    assert_eq!(builtins.arity("a"), Some(Arity { arg_count: 1, return_count: 0 }));
    assert_eq!(builtins.arity("b"), Some(Arity { arg_count: 0, return_count: 1 }));
    assert_eq!(builtins.arity("c"), None);
    builtins.insert("a", &second);
    assert_eq!(builtins.arity("a"), Some(Arity { arg_count: 0, return_count: 1 }));
    assert!(builtins.contains_key("b"));
    assert_eq!(builtins.execute("a", None, &Scope::new()), Ok(None));
    builtins.register("c", Arity { arg_count: 1, return_count: 1 }, &first);
    assert_eq!(builtins.arity("c"), Some(Arity { arg_count: 1, return_count: 1 }));
    assert_eq!(builtins.arity("b"), Some(Arity { arg_count: 0, return_count: 1 }));
}

#[test]
fn scopes() {
    let mut scope = Scope::new();
    assert!(!scope.contains_key("x"));
    assert_eq!(scope.get("x"), None);
    scope.insert("x".to_owned(), DataValue::Int(1));
    scope.insert("x".to_owned(), DataValue::Int(2));
    assert!(scope.contains_key("x"));
    assert_eq!(scope.get("x"), Some(&DataValue::Int(2)));
    scope.insert("y".to_owned(), DataValue::Int(3));
    assert_eq!(scope.names(), vec!["x".to_owned(), "y".to_owned()]);
}
