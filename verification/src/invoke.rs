//! The stack machine: running a rendered instruction sequence.
//!
//! The machine keeps a program stack of instructions, of which the last is
//! the next to run, and a data stack. Invoking a substack puts its
//! instructions onto the program stack, first instruction on top: the body
//! runs in place, with the scopes of its caller, and the host's call stack
//! does not grow.
use crate::built_in::{outcome_view, Arity, BuiltInError, BuiltInFailure, BuiltIns, Outcome};
use crate::render::{render, render_template, RenderError, RenderFailure};
use crate::scope::Scope;
use crate::types::{
    data_views, lemma_data_view, literal, literals, program_views, template_views, DataModel,
    DataValue, ProgramModel, ProgramValue, TemplateValue, TemplateValueModel,
};
use vstd::prelude::*;

verus! {

/// Why the machine stopped.
#[derive(Debug, PartialEq)]
pub enum RuntimeError {
    /// An invoke with an empty data stack.
    EmptyDataStack,
    /// An invoke of a label that no scope binds and no builtin bears.
    UndefinedLabel { name: String },
    /// An invoke of something that is not concrete data.
    NotConcrete,
    /// An invoke of a value that cannot be invoked.
    InvalidInvoke,
    /// An invoke of a builtin that the registry does not know.
    UnknownBuiltIn { name: String },
    /// The builtin takes an argument and the data stack holds none.
    MissingArgument { name: String },
    /// The argument of the builtin is not concrete data.
    ArgumentNotConcrete { name: String },
    /// Rendering a template failed.
    Render(RenderError),
    /// The builtin failed.
    BuiltIn(BuiltInError),
}

/// The model of a [`RuntimeError`].
pub enum RuntimeFailure {
    EmptyDataStack,
    UndefinedLabel { name: Seq<char> },
    NotConcrete,
    InvalidInvoke,
    UnknownBuiltIn { name: Seq<char> },
    MissingArgument { name: Seq<char> },
    ArgumentNotConcrete { name: Seq<char> },
    Render(RenderFailure),
    BuiltIn(BuiltInFailure),
}

impl View for RuntimeError {
    type V = RuntimeFailure;

    open spec fn view(&self) -> RuntimeFailure {
        match self {
            RuntimeError::EmptyDataStack => RuntimeFailure::EmptyDataStack,
            RuntimeError::UndefinedLabel { name } => RuntimeFailure::UndefinedLabel { name: name@ },
            RuntimeError::NotConcrete => RuntimeFailure::NotConcrete,
            RuntimeError::InvalidInvoke => RuntimeFailure::InvalidInvoke,
            RuntimeError::UnknownBuiltIn { name } => RuntimeFailure::UnknownBuiltIn { name: name@ },
            RuntimeError::MissingArgument { name } => RuntimeFailure::MissingArgument {
                name: name@,
            },
            RuntimeError::ArgumentNotConcrete { name } => RuntimeFailure::ArgumentNotConcrete {
                name: name@,
            },
            RuntimeError::Render(error) => RuntimeFailure::Render(error@),
            RuntimeError::BuiltIn(error) => RuntimeFailure::BuiltIn(error@),
        }
    }
}

/// The view of what a step gives.
pub open spec fn step_result_view(result: Result<(), RuntimeError>) -> Result<(), RuntimeFailure> {
    match result {
        Ok(()) => Ok(()),
        Err(error) => Err(error@),
    }
}

/// The state of the machine.
pub struct ExeState {
    /// The instructions still to run. The last is the next.
    pub program_stack: Vec<ProgramValue>,
    pub data_stack: Vec<TemplateValue>,
    pub local_scope: Scope,
    pub global_scope: Scope,
}

/// The model of an [`ExeState`].
pub struct StateModel {
    pub program_stack: Seq<ProgramModel>,
    pub data_stack: Seq<TemplateValueModel>,
    pub local_scope: Map<Seq<char>, DataModel>,
    pub global_scope: Map<Seq<char>, DataModel>,
}

impl View for ExeState {
    type V = StateModel;

    open spec fn view(&self) -> StateModel {
        StateModel {
            program_stack: program_views(self.program_stack@),
            data_stack: template_views(self.data_stack@),
            local_scope: self.local_scope@,
            global_scope: self.global_scope@,
        }
    }
}

/// What the value on top of the data stack stands for when it is invoked.
/// A label stands for what the local scope binds to it, else for what the
/// global scope binds to it, else for the builtin of that name.
pub open spec fn resolve_invoked(
    top: TemplateValueModel,
    local: Map<Seq<char>, DataModel>,
    global: Map<Seq<char>, DataModel>,
    registry: Map<Seq<char>, Arity>,
) -> Result<DataModel, RuntimeFailure> {
    match top {
        TemplateValueModel::Literal(ProgramModel::Data(DataModel::Label(name))) => {
            if local.contains_key(name) {
                Ok(local[name])
            } else if global.contains_key(name) {
                Ok(global[name])
            } else if registry.contains_key(name) {
                Ok(DataModel::BuiltIn(name))
            } else {
                Err(RuntimeFailure::UndefinedLabel { name })
            }
        },
        TemplateValueModel::Literal(ProgramModel::Data(value)) => Ok(value),
        _ => Err(RuntimeFailure::NotConcrete),
    }
}

/// What an invoke comes to before any builtin runs.
pub enum Invocation {
    /// The invoke is over: the stacks as it leaves them, and how it ended.
    Done {
        data_stack: Seq<TemplateValueModel>,
        program_stack: Seq<ProgramModel>,
        result: Result<(), RuntimeFailure>,
    },
    /// The builtin `name` is to run on `argument`; `data_stack` is what is
    /// left of the data stack.
    Call {
        name: Seq<char>,
        arity: Arity,
        argument: Option<DataModel>,
        data_stack: Seq<TemplateValueModel>,
    },
}

/// What invoking the top of `data_stack` comes to.
pub open spec fn plan_invoke(
    data_stack: Seq<TemplateValueModel>,
    program_stack: Seq<ProgramModel>,
    local: Map<Seq<char>, DataModel>,
    global: Map<Seq<char>, DataModel>,
    registry: Map<Seq<char>, Arity>,
) -> Invocation {
    if data_stack.len() == 0 {
        Invocation::Done {
            data_stack,
            program_stack,
            result: Err(RuntimeFailure::EmptyDataStack),
        }
    } else {
        let below = data_stack.drop_last();
        match resolve_invoked(data_stack.last(), local, global, registry) {
            Err(failure) => Invocation::Done {
                data_stack: below,
                program_stack,
                result: Err(failure),
            },
            Ok(DataModel::Substack(body)) => Invocation::Done {
                data_stack: below,
                program_stack: program_stack + body.reverse(),
                result: Ok(()),
            },
            Ok(DataModel::BuiltIn(name)) => if !registry.contains_key(name) {
                Invocation::Done {
                    data_stack: below,
                    program_stack,
                    result: Err(RuntimeFailure::UnknownBuiltIn { name }),
                }
            } else if registry[name].arg_count != 1 {
                Invocation::Call { name, arity: registry[name], argument: None, data_stack: below }
            } else if below.len() == 0 {
                Invocation::Done {
                    data_stack: below,
                    program_stack,
                    result: Err(RuntimeFailure::MissingArgument { name }),
                }
            } else {
                match below.last() {
                    TemplateValueModel::Literal(ProgramModel::Data(value)) => Invocation::Call {
                        name,
                        arity: registry[name],
                        argument: Some(value),
                        data_stack: below.drop_last(),
                    },
                    _ => Invocation::Done {
                        data_stack: below,
                        program_stack,
                        result: Err(RuntimeFailure::ArgumentNotConcrete { name }),
                    },
                }
            },
            Ok(_) => Invocation::Done {
                data_stack: below,
                program_stack,
                result: Err(RuntimeFailure::InvalidInvoke),
            },
        }
    }
}

/// The data stack after a builtin has run, and how the invoke ended: the
/// result is pushed if the builtin gave one.
pub open spec fn finish_call(data_stack: Seq<TemplateValueModel>, outcome: Outcome) -> (
    Seq<TemplateValueModel>,
    Result<(), RuntimeFailure>,
) {
    match outcome {
        Err(failure) => (data_stack, Err(RuntimeFailure::BuiltIn(failure))),
        Ok(Some(value)) => (data_stack.push(literal(value)), Ok(())),
        Ok(None) => (data_stack, Ok(())),
    }
}

/// What one step of the machine comes to before any builtin runs.
pub enum Step {
    /// The step is over: the state as it leaves it, and how it ended.
    Done { state: StateModel, result: Result<(), RuntimeFailure> },
    /// The builtin `name` is to run on `argument`; `state` is the state
    /// without the instruction, the name and the argument.
    Call { name: Seq<char>, arity: Arity, argument: Option<DataModel>, state: StateModel },
}

/// What running the next instruction of `state` comes to.
pub open spec fn step(state: StateModel, registry: Map<Seq<char>, Arity>) -> Step {
    let rest = state.program_stack.drop_last();
    match state.program_stack.last() {
        ProgramModel::Data(value) => Step::Done {
            state: StateModel {
                program_stack: rest,
                data_stack: state.data_stack.push(literal(value)),
                ..state
            },
            result: Ok(()),
        },
        ProgramModel::Template(template) => match render(
            template,
            state.data_stack,
            state.local_scope,
            state.global_scope,
        ) {
            Ok(rendered) => Step::Done {
                state: StateModel {
                    program_stack: rest,
                    data_stack: rendered.stack + literals(rendered.output),
                    ..state
                },
                result: Ok(()),
            },
            Err(failure) => Step::Done {
                state: StateModel { program_stack: rest, ..state },
                result: Err(RuntimeFailure::Render(failure)),
            },
        },
        _ => match plan_invoke(
            state.data_stack,
            rest,
            state.local_scope,
            state.global_scope,
            registry,
        ) {
            Invocation::Done { data_stack, program_stack, result } => Step::Done {
                state: StateModel { program_stack, data_stack, ..state },
                result,
            },
            Invocation::Call { name, arity, argument, data_stack } => Step::Call {
                name,
                arity,
                argument,
                state: StateModel { program_stack: rest, data_stack, ..state },
            },
        },
    }
}

/// The state after the builtin of a step has run, and how the step ended.
pub open spec fn finish_step(state: StateModel, outcome: Outcome) -> (
    StateModel,
    Result<(), RuntimeFailure>,
) {
    let (data_stack, result) = finish_call(state.data_stack, outcome);
    (StateModel { data_stack, ..state }, result)
}

/// Invoking a label that neither scope binds and that names no builtin
/// fails, and says which label it was. The label is gone from the data stack
/// and the program is as it was.
pub proof fn lemma_unbound_label_fails(
    data_stack: Seq<TemplateValueModel>,
    program_stack: Seq<ProgramModel>,
    local: Map<Seq<char>, DataModel>,
    global: Map<Seq<char>, DataModel>,
    registry: Map<Seq<char>, Arity>,
    name: Seq<char>,
)
    requires
        data_stack.len() > 0,
        data_stack.last() == literal(DataModel::Label(name)),
        !local.contains_key(name),
        !global.contains_key(name),
        !registry.contains_key(name),
    ensures
        plan_invoke(data_stack, program_stack, local, global, registry) == (Invocation::Done {
            data_stack: data_stack.drop_last(),
            program_stack,
            result: Err(RuntimeFailure::UndefinedLabel { name }),
        }),
{
}

/// A call of a builtin that an invoke asks for.
#[derive(Debug, PartialEq)]
pub struct PendingCall {
    pub name: String,
    pub arity: Arity,
    pub argument: Option<DataValue>,
}

/// The view of an argument that may be missing.
pub open spec fn pending_argument(argument: Option<DataValue>) -> Option<DataModel> {
    match argument {
        Some(value) => Some(value@),
        None => None,
    }
}

/// Whether `result` and the stacks are what `plan` says of an invoke.
pub open spec fn meets_plan(
    plan: Invocation,
    result: Result<Option<PendingCall>, RuntimeError>,
    data_stack: Seq<TemplateValueModel>,
    program_stack: Seq<ProgramModel>,
    program_before: Seq<ProgramModel>,
) -> bool {
    match plan {
        Invocation::Done { data_stack: data_after, program_stack: program_after, result: end } => {
            &&& data_stack == data_after
            &&& program_stack == program_after
            &&& match result {
                Ok(None) => end is Ok,
                Ok(Some(_)) => false,
                Err(error) => end == Err::<(), RuntimeFailure>(error@),
            }
        },
        Invocation::Call { name, arity, argument, data_stack: data_after } => {
            &&& data_stack == data_after
            &&& program_stack == program_before
            &&& result matches Ok(Some(call))
            &&& call.name@ == name
            &&& call.arity == arity
            &&& pending_argument(call.argument) == argument
        },
    }
}

/// Puts the instructions of a substack onto the program stack, the first
/// of them on top.
fn splice(program_stack: &mut Vec<ProgramValue>, body: Vec<ProgramValue>)
    ensures
        program_views(final(program_stack)@) == program_views(old(program_stack)@)
            + program_views(body@).reverse(),
{
    let ghost before = program_views(program_stack@);
    let ghost full = program_views(body@);
    let mut body = body;
    proof {
        assert(before + full.reverse().take(0) =~= before);
        assert(full.take(full.len() as int) =~= full);
    }
    while body.len() > 0
        invariant
            body@.len() <= full.len(),
            program_views(body@) == full.take(body@.len() as int),
            program_views(program_stack@) == before + full.reverse().take(
                full.len() - body@.len(),
            ),
        decreases body.len(),
    {
        let ghost remaining = body@;
        let ghost stack_before = program_stack@;
        match body.pop() {
            Some(instruction) => {
                proof {
                    let n = remaining.len() as int;
                    assert(instruction@ == full.take(n)[n - 1]);
                    assert(program_views(body@) =~= full.take(n - 1));
                    assert(program_views(stack_before.push(instruction)) =~= program_views(
                        stack_before,
                    ).push(instruction@));
                    assert(before + full.reverse().take(full.len() - n + 1) =~= (before
                        + full.reverse().take(full.len() - n)).push(instruction@));
                }
                program_stack.push(instruction);
            },
            None => {},
        }
    }
    proof {
        assert(full.reverse().take(full.len() as int) =~= full.reverse());
    }
}

/// Takes off the data stack what an invoke calls, and splices a substack
/// into the program. Where a builtin is to run, the call is handed back
/// with its argument taken off the data stack.
pub fn prepare_invoke(
    data_stack: &mut Vec<TemplateValue>,
    program_stack: &mut Vec<ProgramValue>,
    local_scope: &Scope,
    global_scope: &Scope,
    builtins: &BuiltIns,
) -> (result: Result<Option<PendingCall>, RuntimeError>)
    ensures
        meets_plan(
            plan_invoke(
                template_views(old(data_stack)@),
                program_views(old(program_stack)@),
                local_scope@,
                global_scope@,
                builtins@,
            ),
            result,
            template_views(final(data_stack)@),
            program_views(final(program_stack)@),
            program_views(old(program_stack)@),
        ),
{
    let ghost data_before = template_views(data_stack@);
    let top = match data_stack.pop() {
        None => {
            return Err(RuntimeError::EmptyDataStack);
        },
        Some(top) => top,
    };
    proof {
        assert(template_views(data_stack@) =~= data_before.drop_last());
        assert(top@ == data_before.last());
    }
    let value = match top {
        TemplateValue::Literal(ProgramValue::Data(DataValue::Label(name))) => {
            match local_scope.get(name.as_str()) {
                Some(bound) => bound.clone(),
                None => match global_scope.get(name.as_str()) {
                    Some(bound) => bound.clone(),
                    None => {
                        if builtins.contains_key(name.as_str()) {
                            DataValue::BuiltIn(name)
                        } else {
                            return Err(RuntimeError::UndefinedLabel { name });
                        }
                    },
                },
            }
        },
        TemplateValue::Literal(ProgramValue::Data(value)) => value,
        _ => {
            return Err(RuntimeError::NotConcrete);
        },
    };
    proof {
        lemma_data_view(value);
        assert(resolve_invoked(data_before.last(), local_scope@, global_scope@, builtins@)
            == Ok::<DataModel, RuntimeFailure>(value@));
    }
    match value {
        DataValue::Substack(body) => {
            splice(program_stack, body);
            Ok(None)
        },
        DataValue::BuiltIn(name) => {
            let arity = match builtins.arity(name.as_str()) {
                Some(arity) => arity,
                None => {
                    return Err(RuntimeError::UnknownBuiltIn { name });
                },
            };
            if arity.arg_count != 1 {
                return Ok(Some(PendingCall { name, arity, argument: None }));
            }
            let height = data_stack.len();
            if height == 0 {
                return Err(RuntimeError::MissingArgument { name });
            }
            let ghost below = template_views(data_stack@);
            match &data_stack[height - 1] {
                TemplateValue::Literal(ProgramValue::Data(_)) => {},
                _ => {
                    return Err(RuntimeError::ArgumentNotConcrete { name });
                },
            }
            match data_stack.pop() {
                Some(TemplateValue::Literal(ProgramValue::Data(argument))) => {
                    proof {
                        assert(template_views(data_stack@) =~= below.drop_last());
                    }
                    Ok(Some(PendingCall { name, arity, argument: Some(argument) }))
                },
                _ => Err(RuntimeError::ArgumentNotConcrete { name }),
            }
        },
        _ => Err(RuntimeError::InvalidInvoke),
    }
}

/// Puts what a builtin gave onto the data stack: its result, if it gave
/// one. Where the builtin failed, the failure is passed on.
pub fn finish_builtin_call(
    data_stack: &mut Vec<TemplateValue>,
    outcome: Result<Option<DataValue>, BuiltInError>,
) -> (result: Result<(), RuntimeError>)
    ensures
        finish_call(template_views(old(data_stack)@), outcome_view(outcome)) == (
            template_views(final(data_stack)@),
            step_result_view(result),
        ),
{
    match outcome {
        Err(error) => Err(RuntimeError::BuiltIn(error)),
        Ok(Some(value)) => {
            proof {
                assert(template_views(
                    data_stack@.push(TemplateValue::Literal(ProgramValue::Data(value))),
                ) =~= template_views(data_stack@).push(literal(value@)));
            }
            data_stack.push(TemplateValue::Literal(ProgramValue::Data(value)));
            Ok(())
        },
        Ok(None) => Ok(()),
    }
}

/// Invokes the value on top of the data stack.
///
/// A label is resolved first: through the local scope, then the global
/// scope, then the builtins. A substack is spliced into the program. A
/// builtin is run on the next entry of the data stack, if it takes an
/// argument, and on the global scope; what it gives is pushed. Anything
/// else cannot be invoked. What the invoke comes to is settled up to the
/// point where a builtin runs; from there it goes by what the builtin gave.
pub fn invoke(
    data_stack: &mut Vec<TemplateValue>,
    program_stack: &mut Vec<ProgramValue>,
    local_scope: &Scope,
    global_scope: &Scope,
    builtins: &BuiltIns,
) -> (result: Result<(), RuntimeError>)
    ensures
        match plan_invoke(
            template_views(old(data_stack)@),
            program_views(old(program_stack)@),
            local_scope@,
            global_scope@,
            builtins@,
        ) {
            Invocation::Done { data_stack: data_after, program_stack: program_after, result: end } => {
                &&& template_views(final(data_stack)@) == data_after
                &&& program_views(final(program_stack)@) == program_after
                &&& step_result_view(result) == end
            },
            Invocation::Call { name, arity, argument, data_stack: data_after } => {
                &&& program_views(final(program_stack)@) == program_views(old(program_stack)@)
                &&& exists|outcome: Outcome|
                    finish_call(data_after, outcome) == (
                        template_views(final(data_stack)@),
                        step_result_view(result),
                    )
            },
        },
{
    match prepare_invoke(data_stack, program_stack, local_scope, global_scope, builtins) {
        Err(error) => Err(error),
        Ok(None) => Ok(()),
        Ok(Some(call)) => {
            let ghost data_after = template_views(data_stack@);
            let outcome = builtins.execute(call.name.as_str(), call.argument, global_scope);
            let ghost given = outcome_view(outcome);
            let result = finish_builtin_call(data_stack, outcome);
            proof {
                assert(finish_call(data_after, given) == (
                    template_views(data_stack@),
                    step_result_view(result),
                ));
            }
            result
        },
    }
}

/// What running the next instruction of `state` comes to, where the
/// builtin, if one runs, gives `outcome`.
pub open spec fn step_with(state: StateModel, registry: Map<Seq<char>, Arity>, outcome: Outcome)
    -> (StateModel, Result<(), RuntimeFailure>) {
    match step(state, registry) {
        Step::Done { state: after, result } => (after, result),
        Step::Call { state: after, .. } => finish_step(after, outcome),
    }
}

/// Pushes concrete values onto a stack, in order.
fn push_literals(stack: &mut Vec<TemplateValue>, values: Vec<DataValue>)
    ensures
        template_views(final(stack)@) == template_views(old(stack)@) + literals(
            data_views(values@),
        ),
{
    let ghost kept = template_views(stack@);
    let ghost all = literals(data_views(values@));
    let mut i: usize = 0;
    proof {
        assert(kept + all.take(0) =~= kept);
    }
    while i < values.len()
        invariant
            i <= values@.len(),
            all == literals(data_views(values@)),
            template_views(stack@) == kept + all.take(i as int),
        decreases values.len() - i,
    {
        let value = values[i].clone();
        proof {
            let pushed = TemplateValue::Literal(ProgramValue::Data(value));
            assert(template_views(stack@.push(pushed)) =~= template_views(stack@).push(
                literal(values@[i as int]@),
            ));
            assert(kept + all.take(i + 1) =~= (kept + all.take(i as int)).push(
                literal(values@[i as int]@),
            ));
        }
        stack.push(TemplateValue::Literal(ProgramValue::Data(value)));
        i += 1;
    }
    proof {
        assert(all.take(values@.len() as int) =~= all);
    }
}

/// Runs the next instruction, and notes what the builtin gave if one ran.
fn step_machine(state: &mut ExeState, builtins: &BuiltIns) -> (result: (
    Result<(), RuntimeError>,
    Ghost<Outcome>,
))
    requires
        old(state).program_stack@.len() > 0,
    ensures
        step_with(old(state)@, builtins@, result.1@) == (
            final(state)@,
            step_result_view(result.0),
        ),
{
    let ghost before = state@;
    let instruction = match state.program_stack.pop() {
        Some(instruction) => instruction,
        None => {
            return (Ok(()), Ghost(Ok(None)));
        },
    };
    proof {
        assert(program_views(state.program_stack@) =~= before.program_stack.drop_last());
        assert(instruction@ == before.program_stack.last());
    }
    match instruction {
        ProgramValue::Data(value) => {
            proof {
                assert(template_views(
                    state.data_stack@.push(TemplateValue::Literal(ProgramValue::Data(value))),
                ) =~= template_views(state.data_stack@).push(literal(value@)));
            }
            state.data_stack.push(TemplateValue::Literal(ProgramValue::Data(value)));
            (Ok(()), Ghost(Ok(None)))
        },
        ProgramValue::Template(template) => {
            match render_template(
                template,
                &mut state.data_stack,
                &state.local_scope,
                &state.global_scope,
            ) {
                Err(error) => (Err(RuntimeError::Render(error)), Ghost(Ok(None))),
                Ok(output) => {
                    push_literals(&mut state.data_stack, output);
                    (Ok(()), Ghost(Ok(None)))
                },
            }
        },
        ProgramValue::Invoke | ProgramValue::ComptimeInvoke => {
            let ghost rest = before.program_stack.drop_last();
            let ghost plan = plan_invoke(
                before.data_stack,
                rest,
                before.local_scope,
                before.global_scope,
                builtins@,
            );
            match prepare_invoke(
                &mut state.data_stack,
                &mut state.program_stack,
                &state.local_scope,
                &state.global_scope,
                builtins,
            ) {
                Err(error) => (Err(error), Ghost(Ok(None))),
                Ok(None) => (Ok(()), Ghost(Ok(None))),
                Ok(Some(call)) => {
                    let ghost waiting = state@;
                    proof {
                        assert(plan is Call);
                        assert(step(before, builtins@) == (Step::Call {
                            name: plan->Call_name,
                            arity: plan->Call_arity,
                            argument: plan->Call_argument,
                            state: waiting,
                        }));
                    }
                    let outcome = builtins.execute(
                        call.name.as_str(),
                        call.argument,
                        &state.global_scope,
                    );
                    let ghost given = outcome_view(outcome);
                    let result = finish_builtin_call(&mut state.data_stack, outcome);
                    proof {
                        assert(finish_step(waiting, given) == (state@, step_result_view(result)));
                    }
                    (result, Ghost(given))
                },
            }
        },
    }
}

/// Runs the next instruction of `state`.
///
/// A data instruction pushes its value. A template is rendered against the
/// data stack and the two scopes, and what rendering leaves takes the place
/// of the entries it referred to. An invoke, of either kind, invokes the top
/// of the data stack. The instruction is gone from the program afterwards,
/// however the step ends. Where a builtin runs, the step goes by what it gave.
pub fn interpret_one(state: &mut ExeState, builtins: &BuiltIns) -> (result: Result<
    (),
    RuntimeError,
>)
    requires
        old(state).program_stack@.len() > 0,
    ensures
        exists|outcome: Outcome|
            #[trigger] step_with(old(state)@, builtins@, outcome) == (
                final(state)@,
                step_result_view(result),
            ),
{
    let ghost before = state@;
    let (result, Ghost(outcome)) = step_machine(state, builtins);
    proof {
        assert(step_with(before, builtins@, outcome) == (state@, step_result_view(result)));
    }
    result
}

/// How a run of the machine ended without a failure.
#[derive(Debug, PartialEq, Eq, Clone, Copy)]
pub enum Halt {
    /// The program stack is empty.
    Finished,
    /// The allowed number of steps is used up and instructions are left.
    OutOfSteps,
}

/// The view of what a run gives.
pub open spec fn run_result_view(result: Result<Halt, RuntimeError>) -> Result<
    Halt,
    RuntimeFailure,
> {
    match result {
        Ok(halt) => Ok(halt),
        Err(error) => Err(error@),
    }
}

/// Where a run of at most `fuel` steps from `state` ends, and how, where
/// the builtin that runs in the step with number `at + i`, if one does,
/// gives `outcomes[at + i]`.
pub open spec fn run_from(
    state: StateModel,
    registry: Map<Seq<char>, Arity>,
    outcomes: Seq<Outcome>,
    at: nat,
    fuel: nat,
) -> (StateModel, Result<Halt, RuntimeFailure>)
    decreases fuel,
{
    if state.program_stack.len() == 0 {
        (state, Ok(Halt::Finished))
    } else if fuel == 0 {
        (state, Ok(Halt::OutOfSteps))
    } else {
        match step_with(state, registry, outcomes[at as int]) {
            (after, Err(failure)) => (after, Err(failure)),
            (after, Ok(())) => run_from(after, registry, outcomes, at + 1, (fuel - 1) as nat),
        }
    }
}

/// Where a run of at most `fuel` steps from `state` ends, and how, where
/// the builtins give what `outcomes` holds, step by step.
pub open spec fn run(
    state: StateModel,
    registry: Map<Seq<char>, Arity>,
    outcomes: Seq<Outcome>,
    fuel: nat,
) -> (StateModel, Result<Halt, RuntimeFailure>) {
    run_from(state, registry, outcomes, 0, fuel)
}

/// Runs the machine, and notes what the builtins gave, step by step.
fn run_machine(state: &mut ExeState, builtins: &BuiltIns, max_steps: usize) -> (result: (
    Result<Halt, RuntimeError>,
    Ghost<Seq<Outcome>>,
))
    ensures
        run(old(state)@, builtins@, result.1@, max_steps as nat) == (
            final(state)@,
            run_result_view(result.0),
        ),
{
    let ghost start = state@;
    let ghost mut outcomes: Seq<Outcome> = Seq::empty();
    let mut done: usize = 0;
    while state.program_stack.len() > 0
        invariant
            done <= max_steps,
            start == old(state)@,
            outcomes.len() == done,
            forall|rest: Seq<Outcome>|
                #[trigger] run_from(start, builtins@, outcomes + rest, 0, max_steps as nat)
                    == run_from(
                    state@,
                    builtins@,
                    outcomes + rest,
                    done as nat,
                    (max_steps - done) as nat,
                ),
        decreases max_steps - done,
    {
        if done == max_steps {
            proof {
                assert(outcomes + Seq::<Outcome>::empty() =~= outcomes);
            }
            return (Ok(Halt::OutOfSteps), Ghost(outcomes));
        }
        let ghost before = state@;
        let ghost so_far = outcomes;
        let (stepped, Ghost(outcome)) = step_machine(state, builtins);
        proof {
            outcomes = so_far.push(outcome);
            assert forall|rest: Seq<Outcome>|
                #[trigger] run_from(
                    start,
                    builtins@,
                    outcomes + rest,
                    0,
                    max_steps as nat,
                ) == run_from(
                    before,
                    builtins@,
                    outcomes + rest,
                    done as nat,
                    (max_steps - done) as nat,
                ) by {
                assert(outcomes + rest =~= so_far + (seq![outcome] + rest));
            }
            assert forall|rest: Seq<Outcome>| (outcomes + rest)[done as int] == outcome by {}
        }
        match stepped {
            Err(error) => {
                proof {
                    assert(outcomes + Seq::<Outcome>::empty() =~= outcomes);
                }
                return (Err(error), Ghost(outcomes));
            },
            Ok(()) => {},
        }
        done += 1;
    }
    proof {
        assert(outcomes + Seq::<Outcome>::empty() =~= outcomes);
    }
    (Ok(Halt::Finished), Ghost(outcomes))
}

/// Runs `state` until its program stack is empty, a step fails or
/// `max_steps` steps are done. Where the run ends is what the steps make of
/// the state and of what the builtins gave.
pub fn interpret_steps(state: &mut ExeState, builtins: &BuiltIns, max_steps: usize) -> (result:
    Result<Halt, RuntimeError>)
    ensures
        exists|outcomes: Seq<Outcome>|
            #[trigger] run(old(state)@, builtins@, outcomes, max_steps as nat) == (
                final(state)@,
                run_result_view(result),
            ),
{
    let ghost before = state@;
    let (result, Ghost(outcomes)) = run_machine(state, builtins, max_steps);
    proof {
        assert(run(before, builtins@, outcomes, max_steps as nat) == (
            state@,
            run_result_view(result),
        ));
    }
    result
}

/// The state in which a program starts to run on a data stack.
pub open spec fn starting_state(
    program: Seq<ProgramModel>,
    data_stack: Seq<TemplateValueModel>,
    global_scope: Map<Seq<char>, DataModel>,
) -> StateModel {
    StateModel { program_stack: program, data_stack, local_scope: Map::empty(), global_scope }
}

/// Runs `program` on `data_stack` with an empty local scope, for at most
/// `max_steps` steps, and hands back the state in which the run ended.
pub fn interpret(
    program: Vec<ProgramValue>,
    data_stack: Vec<TemplateValue>,
    global_scope: Scope,
    builtins: &BuiltIns,
    max_steps: usize,
) -> (ended: (ExeState, Result<Halt, RuntimeError>))
    ensures
        exists|outcomes: Seq<Outcome>|
            #[trigger] run(
                starting_state(
                    program_views(program@),
                    template_views(data_stack@),
                    global_scope@,
                ),
                builtins@,
                outcomes,
                max_steps as nat,
            ) == (ended.0@, run_result_view(ended.1)),
{
    let ghost start = starting_state(
        program_views(program@),
        template_views(data_stack@),
        global_scope@,
    );
    let mut state = ExeState {
        program_stack: program,
        data_stack,
        local_scope: Scope::new(),
        global_scope,
    };
    proof {
        assert(state@ == start);
    }
    let (result, Ghost(outcomes)) = run_machine(&mut state, builtins, max_steps);
    proof {
        assert(run(start, builtins@, outcomes, max_steps as nat) == (
            state@,
            run_result_view(result),
        ));
    }
    (state, result)
}

} // verus!
