use sid::{
    render_template, DataValue, ProgramValue, RenderError, Scope, Template, TemplateValue,
};

pub fn render_test_fixture(
    template: Template,
    mut parent_stack: Vec<TemplateValue>,
    parent_scope: Scope,
    global_scope: Scope,
    expected_parent_stack: Vec<TemplateValue>,
    expected_rendered_stack: Vec<DataValue>,
) {
    let rendered_stack =
        render_template(template, &mut parent_stack, &parent_scope, &global_scope)
            .expect("render failed");
    assert_eq!(
        parent_stack, expected_parent_stack,
        "Parent stack after render wasn't as expected"
    );
    assert_eq!(
        rendered_stack, expected_rendered_stack,
        "Rendered stack wasn't as expected."
    );
}

fn render_error(template: Template, stack: Vec<TemplateValue>) -> RenderError {
    let mut parent_stack = stack.clone();
    let error = render_template(template, &mut parent_stack, &Scope::new(), &Scope::new())
        .expect_err("render succeeded");
    assert_eq!(parent_stack, stack, "a failed render changed the stack");
    error
}

fn whole(n: i64) -> TemplateValue {
    DataValue::Int(n).into()
}

#[test]
fn render_empty_substack() {
    render_test_fixture(
        Template::substack((vec![], 0)),
        vec![],
        Scope::new(),
        Scope::new(),
        vec![],
        vec![DataValue::Substack(vec![])],
    )
}

#[test]
fn render_substack() {
    let mut global = Scope::new();
    global.insert("one".to_string(), DataValue::Int(1));
    render_test_fixture(
        Template::substack((
            vec![
                TemplateValue::ParentStackMove(1),
                TemplateValue::ParentLabel("one".to_string()),
                DataValue::Label("add".to_string()).into(),
                ProgramValue::Invoke.into(),
            ],
            1,
        )),
        vec![DataValue::Bool(true).into(), DataValue::Int(2).into()],
        Scope::new(),
        global,
        vec![DataValue::Bool(true).into()],
        vec![DataValue::Substack(vec![
            DataValue::Int(2).into(),
            DataValue::Int(1).into(),
            DataValue::Label("add".to_string()).into(),
            ProgramValue::Invoke,
        ])],
    )
}

#[test]
fn every_slot_claimed_leaves_only_the_rendered_value() {
    render_test_fixture(
        Template::substack((
            vec![
                TemplateValue::ParentStackMove(1),
                TemplateValue::ParentStackMove(2),
                TemplateValue::ParentStackMove(3),
            ],
            3,
        )),
        vec![whole(1), whole(2), whole(3)],
        Scope::new(),
        Scope::new(),
        vec![],
        vec![DataValue::Substack(vec![
            DataValue::Int(3).into(),
            DataValue::Int(2).into(),
            DataValue::Int(1).into(),
        ])],
    )
}

#[test]
fn unclaimed_slots_are_handed_back_in_order_ahead_of_the_value() {
    render_test_fixture(
        Template::list((vec![TemplateValue::ParentStackMove(2)], 4)),
        vec![whole(0), whole(1), whole(2), whole(3), whole(4)],
        Scope::new(),
        Scope::new(),
        vec![whole(0)],
        vec![
            DataValue::Int(1),
            DataValue::Int(2),
            DataValue::Int(4),
            DataValue::List(vec![DataValue::Int(3)]),
        ],
    )
}

#[test]
fn a_short_stack_fails_and_is_left_alone() {
    assert_eq!(
        render_error(
            Template::substack((vec![TemplateValue::ParentStackMove(1)], 3)),
            vec![whole(1), whole(2)],
        ),
        RenderError::StackTooShort { needed: 3, available: 2 }
    );
}

#[test]
fn the_parent_scope_comes_before_the_global_scope() {
    let mut parent = Scope::new();
    parent.insert("x".to_string(), DataValue::Int(1));
    let mut global = Scope::new();
    global.insert("x".to_string(), DataValue::Int(2));
    global.insert("y".to_string(), DataValue::Int(3));
    render_test_fixture(
        Template::set((
            vec![
                TemplateValue::ParentLabel("x".to_string()),
                TemplateValue::ParentLabel("y".to_string()),
            ],
            0,
        )),
        vec![],
        parent,
        global,
        vec![],
        vec![DataValue::SetOf(vec![DataValue::Int(1), DataValue::Int(3)])],
    )
}

#[test]
fn a_map_resolves_keys_and_values() {
    render_test_fixture(
        Template::map(
            vec![
                (DataValue::Label("a".to_string()).into(), TemplateValue::ParentStackMove(1)),
                (TemplateValue::ParentStackMove(2), DataValue::Bool(false).into()),
            ],
            2,
        ),
        vec![whole(7), whole(8)],
        Scope::new(),
        Scope::new(),
        vec![],
        vec![DataValue::Dict(vec![
            (DataValue::Label("a".to_string()), DataValue::Int(8)),
            (DataValue::Int(7), DataValue::Bool(false)),
        ])],
    )
}

#[test]
fn a_script_keeps_nested_templates_unrendered() {
    let inner = Template::list((vec![TemplateValue::ParentStackMove(1)], 1));
    render_test_fixture(
        Template::script((vec![inner.clone().into(), ProgramValue::Invoke.into()], 0)),
        vec![whole(1)],
        Scope::new(),
        Scope::new(),
        vec![whole(1)],
        vec![DataValue::Script(vec![
            ProgramValue::Template(inner),
            ProgramValue::Invoke,
        ])],
    )
}

#[test]
fn each_render_failure() {
    assert_eq!(
        render_error(Template::substack((vec![TemplateValue::ParentStackMove(0)], 0)), vec![]),
        RenderError::IndexZero
    );
    assert_eq!(
        render_error(
            Template::substack((vec![TemplateValue::ParentStackMove(2)], 1)),
            vec![whole(1), whole(2)],
        ),
        RenderError::IndexOutOfRange { index: 2 }
    );
    assert_eq!(
        render_error(
            Template::substack((
                vec![TemplateValue::ParentStackMove(1), TemplateValue::ParentStackMove(1)],
                1,
            )),
            vec![whole(1)],
        ),
        RenderError::TakenTwice { index: 1 }
    );
    assert_eq!(
        render_error(
            Template::substack((vec![TemplateValue::ParentLabel("nope".to_string())], 0)),
            vec![],
        ),
        RenderError::UndefinedLabel { name: "nope".to_string() }
    );
    assert_eq!(
        render_error(
            Template::substack((vec![TemplateValue::ParentStackMove(1)], 1)),
            vec![TemplateValue::ParentStackMove(4)],
        ),
        RenderError::SlotNotConcrete { index: 1 }
    );
    assert_eq!(
        render_error(
            Template::substack((vec![], 1)),
            vec![ProgramValue::Invoke.into()],
        ),
        RenderError::SlotNotConcrete { index: 1 }
    );
    assert_eq!(
        render_error(
            Template::list((vec![whole(1), ProgramValue::Invoke.into()], 0)),
            vec![],
        ),
        RenderError::ElementNotConcrete { position: 1 }
    );
    assert_eq!(
        render_error(
            Template::set((vec![Template::substack((vec![], 0)).into()], 0)),
            vec![],
        ),
        RenderError::ElementNotConcrete { position: 0 }
    );
}
