//! The preparation pass: evaluating, before a program runs, what it marks
//! for early evaluation.
//!
//! The pass walks a parsed sequence from left to right and keeps a working
//! stack of what it has passed. A template marked for early rendering is
//! rendered against that stack at once. A comptime invoke takes a label off
//! the stack and calls the builtin of that name. Templates that are not marked
//! are searched for such sites in their bodies. All else passes through.
use crate::built_in::{outcome_view, Arity, BuiltInError, BuiltInFailure, BuiltIns, Outcome};
use crate::render::{render, render_template, RenderError, RenderFailure};
use crate::scope::Scope;
use crate::types::{
    data_views, literal, literals, lemma_template_data_view, template_pair_views, template_views,
    DataModel, DataValue, ProgramModel, ProgramValue, Template, TemplateData, TemplateDataModel,
    TemplateModel, TemplateValue, TemplateValueModel,
};
use vstd::prelude::*;

verus! {

/// Why the preparation pass gave up.
#[derive(Debug, PartialEq)]
pub enum ComptimeError {
    /// A comptime invoke with nothing before it.
    InvokeOnEmptyStack,
    /// A comptime invoke of something that is not a label.
    InvokeOnNonLabel,
    /// A comptime invoke of a name that the registry does not know.
    UnknownFunction { name: String },
    /// The function takes an argument and nothing stands before its name.
    MissingArgument { name: String },
    /// The argument is a template that has not been rendered. A template
    /// marked for early rendering may have been meant.
    ArgumentIsTemplate { name: String },
    /// The argument is a reference to the surroundings.
    ArgumentNotConcrete { name: String },
    /// A template marked for early rendering refers to more entries than
    /// stand before it.
    TemplateNeedsStack { needed: usize, available: usize },
    /// A template marked for early rendering refers to a template that has
    /// not been rendered. A template that is rendered when the program runs
    /// may have been meant.
    TemplateConsumesTemplate,
    /// A template marked for early rendering refers to something that is not
    /// concrete.
    TemplateConsumesNonConcrete,
    /// A key or a value of a map did not come out of the pass as one entry.
    MapEntryCount,
    /// Rendering failed.
    Render(RenderError),
    /// The builtin failed.
    BuiltIn(BuiltInError),
}

/// The model of a [`ComptimeError`].
pub enum ComptimeFailure {
    InvokeOnEmptyStack,
    InvokeOnNonLabel,
    UnknownFunction { name: Seq<char> },
    MissingArgument { name: Seq<char> },
    ArgumentIsTemplate { name: Seq<char> },
    ArgumentNotConcrete { name: Seq<char> },
    TemplateNeedsStack { needed: nat, available: nat },
    TemplateConsumesTemplate,
    TemplateConsumesNonConcrete,
    MapEntryCount,
    Render(RenderFailure),
    BuiltIn(BuiltInFailure),
}

impl View for ComptimeError {
    type V = ComptimeFailure;

    open spec fn view(&self) -> ComptimeFailure {
        match self {
            ComptimeError::InvokeOnEmptyStack => ComptimeFailure::InvokeOnEmptyStack,
            ComptimeError::InvokeOnNonLabel => ComptimeFailure::InvokeOnNonLabel,
            ComptimeError::UnknownFunction { name } => ComptimeFailure::UnknownFunction {
                name: name@,
            },
            ComptimeError::MissingArgument { name } => ComptimeFailure::MissingArgument {
                name: name@,
            },
            ComptimeError::ArgumentIsTemplate { name } => ComptimeFailure::ArgumentIsTemplate {
                name: name@,
            },
            ComptimeError::ArgumentNotConcrete { name } => ComptimeFailure::ArgumentNotConcrete {
                name: name@,
            },
            ComptimeError::TemplateNeedsStack { needed, available } => {
                ComptimeFailure::TemplateNeedsStack {
                    needed: *needed as nat,
                    available: *available as nat,
                }
            },
            ComptimeError::TemplateConsumesTemplate => ComptimeFailure::TemplateConsumesTemplate,
            ComptimeError::TemplateConsumesNonConcrete => {
                ComptimeFailure::TemplateConsumesNonConcrete
            },
            ComptimeError::MapEntryCount => ComptimeFailure::MapEntryCount,
            ComptimeError::Render(error) => ComptimeFailure::Render(error@),
            ComptimeError::BuiltIn(error) => ComptimeFailure::BuiltIn(error@),
        }
    }
}

/// A call that a comptime invoke asks for.
#[derive(Debug, PartialEq)]
pub struct ComptimeCall {
    pub name: String,
    pub arity: Arity,
    pub argument: Option<DataValue>,
}

/// The model of a [`ComptimeCall`], together with the working stack as the
/// call leaves it.
pub struct PreparedCall {
    pub name: Seq<char>,
    pub arity: Arity,
    pub argument: Option<DataModel>,
    pub rest: Seq<TemplateValueModel>,
}

/// What a comptime invoke takes off the working stack: the label on top,
/// which has to name a known function, and below it one concrete argument if
/// the function takes one.
pub open spec fn prepare_invoke(stack: Seq<TemplateValueModel>, registry: Map<Seq<char>, Arity>)
    -> Result<PreparedCall, ComptimeFailure> {
    if stack.len() == 0 {
        Err(ComptimeFailure::InvokeOnEmptyStack)
    } else {
        match stack.last() {
            TemplateValueModel::Literal(ProgramModel::Data(DataModel::Label(name))) => {
                let below = stack.drop_last();
                if !registry.contains_key(name) {
                    Err(ComptimeFailure::UnknownFunction { name })
                } else if registry[name].arg_count != 1 {
                    Ok(PreparedCall { name, arity: registry[name], argument: None, rest: below })
                } else if below.len() == 0 {
                    Err(ComptimeFailure::MissingArgument { name })
                } else {
                    match below.last() {
                        TemplateValueModel::Literal(ProgramModel::Data(value)) => Ok(
                            PreparedCall {
                                name,
                                arity: registry[name],
                                argument: Some(value),
                                rest: below.drop_last(),
                            },
                        ),
                        TemplateValueModel::Literal(ProgramModel::Template(_)) => Err(
                            ComptimeFailure::ArgumentIsTemplate { name },
                        ),
                        _ => Err(ComptimeFailure::ArgumentNotConcrete { name }),
                    }
                }
            },
            _ => Err(ComptimeFailure::InvokeOnNonLabel),
        }
    }
}

/// The working stack after a call: the result is pushed if the function
/// declared one and gave one.
pub open spec fn finish_invoke(rest: Seq<TemplateValueModel>, arity: Arity, outcome: Outcome)
    -> Result<Seq<TemplateValueModel>, ComptimeFailure> {
    match outcome {
        Err(failure) => Err(ComptimeFailure::BuiltIn(failure)),
        Ok(Some(value)) => if arity.return_count == 1 {
            Ok(rest.push(literal(value)))
        } else {
            Ok(rest)
        },
        Ok(None) => Ok(rest),
    }
}

/// The first of the lowest `m` among the `declared` topmost entries of
/// `stack` that is not concrete, as the failure it causes.
pub open spec fn consumed_failure(stack: Seq<TemplateValueModel>, declared: nat, m: int) -> Option<
    ComptimeFailure,
>
    decreases m,
{
    if m <= 0 {
        None
    } else {
        match consumed_failure(stack, declared, m - 1) {
            Some(failure) => Some(failure),
            None => match stack[stack.len() - declared + (m - 1)] {
                TemplateValueModel::Literal(ProgramModel::Data(_)) => None,
                TemplateValueModel::Literal(ProgramModel::Template(_)) => Some(
                    ComptimeFailure::TemplateConsumesTemplate,
                ),
                _ => Some(ComptimeFailure::TemplateConsumesNonConcrete),
            },
        }
    }
}

/// The working stack after a template marked for early rendering: the
/// entries it refers to, all of which have to be concrete, give way to what
/// rendering leaves. The scope of the pass serves as parent and global scope.
pub open spec fn render_early(
    template: TemplateModel,
    stack: Seq<TemplateValueModel>,
    scope: Map<Seq<char>, DataModel>,
) -> Result<Seq<TemplateValueModel>, ComptimeFailure> {
    let declared = template.consumes_stack_entries;
    if declared > stack.len() {
        Err(ComptimeFailure::TemplateNeedsStack { needed: declared, available: stack.len() })
    } else {
        match consumed_failure(stack, declared, declared as int) {
            Some(failure) => Err(failure),
            None => match render(template, stack, scope, scope) {
                Err(failure) => Err(ComptimeFailure::Render(failure)),
                Ok(rendered) => Ok(rendered.stack + literals(rendered.output)),
            },
        }
    }
}

/// What the builtins gave in the course of a pass, entry by entry. For
/// an entry that is a comptime invoke, `outcome` is what the builtin gave.
/// For an entry that is a template, `inner` holds the same for each entry of
/// its body; the key and the value of the `i`-th pair of a map stand at
/// `2 * i` and `2 * i + 1`. For any other entry nothing of it is read.
pub struct Trace {
    pub outcome: Outcome,
    pub inner: Seq<Trace>,
}

/// What a pass gives: the working stack it ends with, or a failure.
pub type Passed = Result<Seq<TemplateValueModel>, ComptimeFailure>;

/// What the pass makes of the first `k` entries of `values`, where the
/// builtins give what `traces` holds.
pub open spec fn pass_prefix(
    values: Seq<TemplateValueModel>,
    k: int,
    registry: Map<Seq<char>, Arity>,
    scope: Map<Seq<char>, DataModel>,
    traces: Seq<Trace>,
) -> Passed
    decreases values, k,
{
    if k <= 0 || k > values.len() {
        Ok(Seq::empty())
    } else {
        match pass_prefix(values, k - 1, registry, scope, traces) {
            Err(failure) => Err(failure),
            Ok(stack) => pass_entry(values[k - 1], stack, registry, scope, traces[k - 1]),
        }
    }
}

/// What the pass makes of the working stack at one entry.
pub open spec fn pass_entry(
    entry: TemplateValueModel,
    stack: Seq<TemplateValueModel>,
    registry: Map<Seq<char>, Arity>,
    scope: Map<Seq<char>, DataModel>,
    trace: Trace,
) -> Passed
    decreases entry, 0int,
{
    match entry {
        TemplateValueModel::Literal(ProgramModel::Template(template)) => if template.comptime {
            render_early(template, stack, scope)
        } else {
            match pass_data(template.data, registry, scope, trace.inner) {
                Err(failure) => Err(failure),
                Ok(data) => Ok(
                    stack.push(
                        TemplateValueModel::Literal(
                            ProgramModel::Template(TemplateModel { data, ..template }),
                        ),
                    ),
                ),
            }
        },
        TemplateValueModel::Literal(ProgramModel::ComptimeInvoke) => match prepare_invoke(
            stack,
            registry,
        ) {
            Err(failure) => Err(failure),
            Ok(call) => finish_invoke(call.rest, call.arity, trace.outcome),
        },
        _ => Ok(stack.push(entry)),
    }
}

/// What the pass makes of the body of a template that is not marked.
pub open spec fn pass_data(
    data: TemplateDataModel,
    registry: Map<Seq<char>, Arity>,
    scope: Map<Seq<char>, DataModel>,
    traces: Seq<Trace>,
) -> Result<TemplateDataModel, ComptimeFailure>
    decreases data, 0int,
{
    match data {
        TemplateDataModel::Substack(body) => match pass_prefix(
            body,
            body.len() as int,
            registry,
            scope,
            traces,
        ) {
            Err(failure) => Err(failure),
            Ok(passed) => Ok(TemplateDataModel::Substack(passed)),
        },
        TemplateDataModel::Script(body) => match pass_prefix(
            body,
            body.len() as int,
            registry,
            scope,
            traces,
        ) {
            Err(failure) => Err(failure),
            Ok(passed) => Ok(TemplateDataModel::Script(passed)),
        },
        TemplateDataModel::List(body) => match pass_prefix(
            body,
            body.len() as int,
            registry,
            scope,
            traces,
        ) {
            Err(failure) => Err(failure),
            Ok(passed) => Ok(TemplateDataModel::List(passed)),
        },
        TemplateDataModel::SetOf(body) => match pass_prefix(
            body,
            body.len() as int,
            registry,
            scope,
            traces,
        ) {
            Err(failure) => Err(failure),
            Ok(passed) => Ok(TemplateDataModel::SetOf(passed)),
        },
        TemplateDataModel::Dict(pairs) => match pass_pairs(
            pairs,
            pairs.len() as int,
            registry,
            scope,
            traces,
        ) {
            Err(failure) => Err(failure),
            Ok(passed) => Ok(TemplateDataModel::Dict(passed)),
        },
    }
}

/// What the pass makes of one key or value of a map: it is passed on its
/// own, and has to come out as exactly one entry.
pub open spec fn pass_single(
    entry: TemplateValueModel,
    registry: Map<Seq<char>, Arity>,
    scope: Map<Seq<char>, DataModel>,
    trace: Trace,
) -> Result<TemplateValueModel, ComptimeFailure>
    decreases entry, 1int,
{
    match pass_entry(entry, Seq::empty(), registry, scope, trace) {
        Err(failure) => Err(failure),
        Ok(passed) => if passed.len() == 1 {
            Ok(passed[0])
        } else {
            Err(ComptimeFailure::MapEntryCount)
        },
    }
}

/// What the pass makes of the first `k` pairs of a map body. The value of
/// a pair is passed only where its key came through.
pub open spec fn pass_pairs(
    pairs: Seq<(TemplateValueModel, TemplateValueModel)>,
    k: int,
    registry: Map<Seq<char>, Arity>,
    scope: Map<Seq<char>, DataModel>,
    traces: Seq<Trace>,
) -> Result<Seq<(TemplateValueModel, TemplateValueModel)>, ComptimeFailure>
    decreases pairs, k,
{
    if k <= 0 || k > pairs.len() {
        Ok(Seq::empty())
    } else {
        match pass_pairs(pairs, k - 1, registry, scope, traces) {
            Err(failure) => Err(failure),
            Ok(done) => match pass_single(
                pairs[k - 1].0,
                registry,
                scope,
                traces[2 * (k - 1)],
            ) {
                Err(failure) => Err(failure),
                Ok(key) => match pass_single(
                    pairs[k - 1].1,
                    registry,
                    scope,
                    traces[2 * (k - 1) + 1],
                ) {
                    Err(failure) => Err(failure),
                    Ok(value) => Ok(done.push((key, value))),
                },
            },
        }
    }
}

/// What the pass makes of `values`, where the builtins give what
/// `traces` holds.
pub open spec fn pass(
    values: Seq<TemplateValueModel>,
    registry: Map<Seq<char>, Arity>,
    scope: Map<Seq<char>, DataModel>,
    traces: Seq<Trace>,
) -> Passed {
    pass_prefix(values, values.len() as int, registry, scope, traces)
}

/// The view of an argument that may be missing.
pub open spec fn argument_view(argument: Option<DataValue>) -> Option<DataModel> {
    match argument {
        Some(value) => Some(value@),
        None => None,
    }
}

/// The view of what the pass gives.
pub open spec fn pass_result_view(result: Result<Vec<TemplateValue>, ComptimeError>) -> Result<
    Seq<TemplateValueModel>,
    ComptimeFailure,
> {
    match result {
        Ok(values) => Ok(template_views(values@)),
        Err(error) => Err(error@),
    }
}

/// The view of a body that came out of the pass.
pub open spec fn data_result_view(result: Result<TemplateData, ComptimeError>) -> Result<
    TemplateDataModel,
    ComptimeFailure,
> {
    match result {
        Ok(data) => Ok(data@),
        Err(error) => Err(error@),
    }
}

/// Once the pass has failed, the failure is what it gives for the rest
/// of the sequence.
pub proof fn lemma_pass_settled(
    values: Seq<TemplateValueModel>,
    k: int,
    m: int,
    registry: Map<Seq<char>, Arity>,
    scope: Map<Seq<char>, DataModel>,
    traces: Seq<Trace>,
)
    requires
        0 <= k <= m <= values.len(),
        pass_prefix(values, k, registry, scope, traces) is Err,
    ensures
        pass_prefix(values, m, registry, scope, traces) == pass_prefix(
            values,
            k,
            registry,
            scope,
            traces,
        ),
    decreases m - k,
{
    if k < m {
        lemma_pass_settled(values, k, m - 1, registry, scope, traces);
    }
}

/// Once the pass over the pairs of a map has failed, the failure is what
/// it gives for the rest of the pairs.
pub proof fn lemma_pass_pairs_settled(
    pairs: Seq<(TemplateValueModel, TemplateValueModel)>,
    k: int,
    m: int,
    registry: Map<Seq<char>, Arity>,
    scope: Map<Seq<char>, DataModel>,
    traces: Seq<Trace>,
)
    requires
        0 <= k <= m <= pairs.len(),
        pass_pairs(pairs, k, registry, scope, traces) is Err,
    ensures
        pass_pairs(pairs, m, registry, scope, traces) == pass_pairs(
            pairs,
            k,
            registry,
            scope,
            traces,
        ),
    decreases m - k,
{
    if k < m {
        lemma_pass_pairs_settled(pairs, k, m - 1, registry, scope, traces);
    }
}

/// What the pass makes of the first `k` entries goes by what the
/// builtins gave at those entries alone.
pub proof fn lemma_pass_reads_its_own_traces(
    values: Seq<TemplateValueModel>,
    k: int,
    registry: Map<Seq<char>, Arity>,
    scope: Map<Seq<char>, DataModel>,
    traces: Seq<Trace>,
    others: Seq<Trace>,
)
    requires
        forall|i: int| 0 <= i < k ==> traces[i] == others[i],
    ensures
        pass_prefix(values, k, registry, scope, traces) == pass_prefix(
            values,
            k,
            registry,
            scope,
            others,
        ),
    decreases k,
{
    if 0 < k <= values.len() {
        lemma_pass_reads_its_own_traces(values, k - 1, registry, scope, traces, others);
    }
}

/// What the pass makes of the first `k` pairs goes by what the builtins
/// gave at those pairs alone.
pub proof fn lemma_pass_pairs_reads_its_own_traces(
    pairs: Seq<(TemplateValueModel, TemplateValueModel)>,
    k: int,
    registry: Map<Seq<char>, Arity>,
    scope: Map<Seq<char>, DataModel>,
    traces: Seq<Trace>,
    others: Seq<Trace>,
)
    requires
        forall|i: int| 0 <= i < 2 * k ==> traces[i] == others[i],
    ensures
        pass_pairs(pairs, k, registry, scope, traces) == pass_pairs(
            pairs,
            k,
            registry,
            scope,
            others,
        ),
    decreases k,
{
    if 0 < k <= pairs.len() {
        lemma_pass_pairs_reads_its_own_traces(pairs, k - 1, registry, scope, traces, others);
    }
}

/// What one step of the pass gave, as the rules speak of it.
pub open spec fn step_given(result: Result<(), ComptimeError>, stack: Seq<TemplateValueModel>)
    -> Passed {
    match result {
        Ok(()) => Ok(stack),
        Err(error) => Err(error@),
    }
}

/// The view of a key or value that came out of the pass.
pub open spec fn single_view(result: Result<TemplateValue, ComptimeError>) -> Result<
    TemplateValueModel,
    ComptimeFailure,
> {
    match result {
        Ok(value) => Ok(value@),
        Err(error) => Err(error@),
    }
}

/// No trace at all.
pub open spec fn no_trace() -> Trace {
    Trace { outcome: Ok(None), inner: Seq::empty() }
}

/// Takes off the working stack what a comptime invoke calls: the label on
/// top, which has to name a function of `builtins`, and one concrete argument
/// below it if that function declared one. On failure the stack is as it was.
pub fn prepare_comptime_invoke(stack: &mut Vec<TemplateValue>, builtins: &BuiltIns) -> (result:
    Result<ComptimeCall, ComptimeError>)
    ensures
        match result {
            Ok(call) => prepare_invoke(template_views(old(stack)@), builtins@) == Ok::<
                PreparedCall,
                ComptimeFailure,
            >(
                PreparedCall {
                    name: call.name@,
                    arity: call.arity,
                    argument: argument_view(call.argument),
                    rest: template_views(final(stack)@),
                },
            ),
            Err(error) => prepare_invoke(template_views(old(stack)@), builtins@) == Err::<
                PreparedCall,
                ComptimeFailure,
            >(error@) && *final(stack) == *old(stack),
        },
{
    let height = stack.len();
    if height == 0 {
        return Err(ComptimeError::InvokeOnEmptyStack);
    }
    let ghost before = template_views(stack@);
    let name = match &stack[height - 1] {
        TemplateValue::Literal(ProgramValue::Data(DataValue::Label(name))) => name.clone(),
        _ => {
            return Err(ComptimeError::InvokeOnNonLabel);
        },
    };
    let arity = match builtins.arity(name.as_str()) {
        Some(arity) => arity,
        None => {
            return Err(ComptimeError::UnknownFunction { name });
        },
    };
    if arity.arg_count != 1 {
        stack.truncate(height - 1);
        proof {
            assert(template_views(stack@) =~= before.drop_last());
        }
        return Ok(ComptimeCall { name, arity, argument: None });
    }
    if height < 2 {
        return Err(ComptimeError::MissingArgument { name });
    }
    proof {
        assert(before.drop_last().last() == stack@[height - 2]@);
    }
    let argument = match &stack[height - 2] {
        TemplateValue::Literal(ProgramValue::Data(value)) => value.clone(),
        TemplateValue::Literal(ProgramValue::Template(_)) => {
            return Err(ComptimeError::ArgumentIsTemplate { name });
        },
        _ => {
            return Err(ComptimeError::ArgumentNotConcrete { name });
        },
    };
    stack.truncate(height - 2);
    proof {
        assert(template_views(stack@) =~= before.drop_last().drop_last());
    }
    Ok(ComptimeCall { name, arity, argument: Some(argument) })
}

/// Puts what a builtin gave onto the working stack: its result, if it
/// declared one and gave one. Where the builtin failed, the failure is passed
/// on and the stack is as it was.
pub fn finish_comptime_invoke(
    stack: &mut Vec<TemplateValue>,
    arity: Arity,
    outcome: Result<Option<DataValue>, BuiltInError>,
) -> (result: Result<(), ComptimeError>)
    ensures
        match result {
            Ok(()) => finish_invoke(template_views(old(stack)@), arity, outcome_view(outcome))
                == Ok::<Seq<TemplateValueModel>, ComptimeFailure>(
                template_views(final(stack)@),
            ),
            Err(error) => finish_invoke(
                template_views(old(stack)@),
                arity,
                outcome_view(outcome),
            ) == Err::<Seq<TemplateValueModel>, ComptimeFailure>(error@) && *final(stack)
                == *old(stack),
        },
{
    match outcome {
        Err(error) => Err(ComptimeError::BuiltIn(error)),
        Ok(Some(value)) => {
            if arity.return_count == 1 {
                proof {
                    assert(template_views(
                        stack@.push(TemplateValue::Literal(ProgramValue::Data(value))),
                    ) =~= template_views(stack@).push(literal(value@)));
                }
                stack.push(TemplateValue::Literal(ProgramValue::Data(value)));
            }
            Ok(())
        },
        Ok(None) => Ok(()),
    }
}

/// Renders a template marked for early rendering against the working stack.
/// The entries it refers to have to be concrete; they give way to what
/// rendering leaves. On failure the stack is as it was.
pub fn render_comptime_template(
    template: Template,
    stack: &mut Vec<TemplateValue>,
    scope: &Scope,
) -> (result: Result<(), ComptimeError>)
    ensures
        match result {
            Ok(()) => render_early(template@, template_views(old(stack)@), scope@) == Ok::<
                Seq<TemplateValueModel>,
                ComptimeFailure,
            >(template_views(final(stack)@)),
            Err(error) => render_early(template@, template_views(old(stack)@), scope@) == Err::<
                Seq<TemplateValueModel>,
                ComptimeFailure,
            >(error@) && *final(stack) == *old(stack),
        },
{
    let declared = template.consumes_stack_entries;
    let height = stack.len();
    if declared > height {
        return Err(ComptimeError::TemplateNeedsStack { needed: declared, available: height });
    }
    let ghost before = template_views(stack@);
    let mut m: usize = 0;
    while m < declared
        invariant
            m <= declared,
            declared <= height,
            height == stack@.len(),
            before == template_views(stack@),
            *stack == *old(stack),
            declared == template@.consumes_stack_entries,
            consumed_failure(before, declared as nat, m as int) is None,
        decreases declared - m,
    {
        match &stack[height - declared + m] {
            TemplateValue::Literal(ProgramValue::Data(_)) => {},
            TemplateValue::Literal(ProgramValue::Template(_)) => {
                proof {
                    lemma_consumed_failure_stands(before, declared as nat, m + 1, declared as int);
                }
                return Err(ComptimeError::TemplateConsumesTemplate);
            },
            _ => {
                proof {
                    lemma_consumed_failure_stands(before, declared as nat, m + 1, declared as int);
                }
                return Err(ComptimeError::TemplateConsumesNonConcrete);
            },
        }
        m += 1;
    }
    match render_template(template, stack, scope, scope) {
        Err(error) => Err(ComptimeError::Render(error)),
        Ok(output) => {
            let ghost kept = template_views(stack@);
            let mut i: usize = 0;
            while i < output.len()
                invariant
                    i <= output@.len(),
                    template_views(stack@) == kept + literals(data_views(output@)).take(i as int),
                decreases output.len() - i,
            {
                proof {
                    let pushed = TemplateValue::Literal(ProgramValue::Data(output@[i as int]));
                    assert(template_views(stack@.push(pushed)) =~= template_views(stack@).push(
                        literal(output@[i as int]@),
                    ));
                    assert(kept + literals(data_views(output@)).take(i + 1) =~= (kept + literals(
                        data_views(output@),
                    ).take(i as int)).push(literal(output@[i as int]@)));
                }
                let value = output[i].clone();
                proof {
                    let pushed = TemplateValue::Literal(ProgramValue::Data(value));
                    assert(template_views(stack@.push(pushed)) =~= template_views(stack@).push(
                        literal(output@[i as int]@),
                    ));
                }
                stack.push(TemplateValue::Literal(ProgramValue::Data(value)));
                i += 1;
            }
            proof {
                assert(literals(data_views(output@)).take(output@.len() as int) =~= literals(
                    data_views(output@),
                ));
            }
            Ok(())
        },
    }
}

/// Once an entry that a template refers to has been found wanting, the
/// failure stands.
pub proof fn lemma_consumed_failure_stands(
    stack: Seq<TemplateValueModel>,
    declared: nat,
    k: int,
    m: int,
)
    requires
        0 <= k <= m,
        consumed_failure(stack, declared, k) is Some,
    ensures
        consumed_failure(stack, declared, m) == consumed_failure(stack, declared, k),
    decreases m - k,
{
    if k < m {
        lemma_consumed_failure_stands(stack, declared, k, m - 1);
    }
}

/// Passes one entry: the working stack takes what the pass makes of it.
fn pass_one(
    entry: &TemplateValue,
    stack: &mut Vec<TemplateValue>,
    builtins: &BuiltIns,
    scope: &Scope,
) -> (result: (Result<(), ComptimeError>, Ghost<Trace>))
    ensures
        pass_entry(entry@, template_views(old(stack)@), builtins@, scope@, result.1@)
            == step_given(result.0, template_views(final(stack)@)),
    decreases entry, 0int,
{
    match entry {
        TemplateValue::Literal(ProgramValue::Template(template)) => {
            if template.comptime {
                (render_comptime_template(template.clone(), stack, scope), Ghost(no_trace()))
            } else {
                let (passed_data, Ghost(inner)) = pass_template_data(
                    &template.data,
                    builtins,
                    scope,
                );
                let ghost trace = Trace { outcome: Ok(None), inner };
                match passed_data {
                    Err(error) => (Err(error), Ghost(trace)),
                    Ok(data) => {
                        let passed = TemplateValue::Literal(
                            ProgramValue::Template(
                                Template {
                                    data,
                                    consumes_stack_entries: template.consumes_stack_entries,
                                    comptime: template.comptime,
                                },
                            ),
                        );
                        proof {
                            assert(template_views(stack@.push(passed)) =~= template_views(
                                stack@,
                            ).push(passed@));
                        }
                        stack.push(passed);
                        (Ok(()), Ghost(trace))
                    },
                }
            }
        },
        TemplateValue::Literal(ProgramValue::ComptimeInvoke) => {
            match prepare_comptime_invoke(stack, builtins) {
                Err(error) => (Err(error), Ghost(no_trace())),
                Ok(call) => {
                    let outcome = builtins.execute(call.name.as_str(), call.argument, scope);
                    let ghost trace = Trace { outcome: outcome_view(outcome), inner: Seq::empty() };
                    (finish_comptime_invoke(stack, call.arity, outcome), Ghost(trace))
                },
            }
        },
        other => {
            let copy = other.clone();
            proof {
                assert(template_views(stack@.push(copy)) =~= template_views(stack@).push(
                    entry@,
                ));
            }
            stack.push(copy);
            (Ok(()), Ghost(no_trace()))
        },
    }
}

/// Passes one key or value of a map on its own. It has to come out as
/// exactly one entry.
fn pass_alone(entry: &TemplateValue, builtins: &BuiltIns, scope: &Scope) -> (result: (
    Result<TemplateValue, ComptimeError>,
    Ghost<Trace>,
))
    ensures
        pass_single(entry@, builtins@, scope@, result.1@) == single_view(result.0),
    decreases entry, 1int,
{
    let mut stack: Vec<TemplateValue> = Vec::new();
    proof {
        assert(template_views(stack@) =~= Seq::<TemplateValueModel>::empty());
    }
    let (passed, trace) = pass_one(entry, &mut stack, builtins, scope);
    match passed {
        Err(error) => (Err(error), trace),
        Ok(()) => {
            if stack.len() != 1 {
                return (Err(ComptimeError::MapEntryCount), trace);
            }
            match stack.pop() {
                Some(value) => (Ok(value), trace),
                None => (Err(ComptimeError::MapEntryCount), trace),
            }
        },
    }
}

/// Passes a sequence of entries.
fn pass_values(values: &Vec<TemplateValue>, builtins: &BuiltIns, scope: &Scope) -> (result: (
    Result<Vec<TemplateValue>, ComptimeError>,
    Ghost<Seq<Trace>>,
))
    ensures
        pass(template_views(values@), builtins@, scope@, result.1@) == pass_result_view(
            result.0,
        ),
    decreases values, 0int,
{
    let ghost model = template_views(values@);
    let ghost mut traces: Seq<Trace> = Seq::empty();
    let mut stack: Vec<TemplateValue> = Vec::new();
    let mut k: usize = 0;
    proof {
        assert(template_views(stack@) =~= Seq::<TemplateValueModel>::empty());
    }
    while k < values.len()
        invariant
            k <= values@.len(),
            model == template_views(values@),
            traces.len() == k,
            pass_prefix(model, k as int, builtins@, scope@, traces) == Ok::<
                Seq<TemplateValueModel>,
                ComptimeFailure,
            >(template_views(stack@)),
        decreases values.len() - k,
    {
        proof {
            assert(decreases_to!(*values => values@[k as int]));
            assert(model[k as int] == values@[k as int]@);
        }
        let ghost before = traces;
        let (passed, Ghost(trace)) = pass_one(&values[k], &mut stack, builtins, scope);
        proof {
            traces = before.push(trace);
            lemma_pass_reads_its_own_traces(model, k as int, builtins@, scope@, before, traces);
        }
        match passed {
            Err(error) => {
                proof {
                    lemma_pass_settled(
                        model,
                        k + 1,
                        model.len() as int,
                        builtins@,
                        scope@,
                        traces,
                    );
                }
                return (Err(error), Ghost(traces));
            },
            Ok(()) => {},
        }
        k += 1;
    }
    (Ok(stack), Ghost(traces))
}

/// Passes the body of a template that is not marked for early rendering.
fn pass_template_data(data: &TemplateData, builtins: &BuiltIns, scope: &Scope) -> (result: (
    Result<TemplateData, ComptimeError>,
    Ghost<Seq<Trace>>,
))
    ensures
        pass_data(data@, builtins@, scope@, result.1@) == data_result_view(result.0),
    decreases data, 1int,
{
    proof {
        lemma_template_data_view(*data);
    }
    match data {
        TemplateData::Substack(body) => {
            let (passed, traces) = pass_values(body, builtins, scope);
            match passed {
                Err(error) => (Err(error), traces),
                Ok(passed) => {
                    let new_data = TemplateData::Substack(passed);
                    proof {
                        lemma_template_data_view(new_data);
                    }
                    (Ok(new_data), traces)
                },
            }
        },
        TemplateData::Script(body) => {
            let (passed, traces) = pass_values(body, builtins, scope);
            match passed {
                Err(error) => (Err(error), traces),
                Ok(passed) => {
                    let new_data = TemplateData::Script(passed);
                    proof {
                        lemma_template_data_view(new_data);
                    }
                    (Ok(new_data), traces)
                },
            }
        },
        TemplateData::List(body) => {
            let (passed, traces) = pass_values(body, builtins, scope);
            match passed {
                Err(error) => (Err(error), traces),
                Ok(passed) => {
                    let new_data = TemplateData::List(passed);
                    proof {
                        lemma_template_data_view(new_data);
                    }
                    (Ok(new_data), traces)
                },
            }
        },
        TemplateData::SetOf(body) => {
            let (passed, traces) = pass_values(body, builtins, scope);
            match passed {
                Err(error) => (Err(error), traces),
                Ok(passed) => {
                    let new_data = TemplateData::SetOf(passed);
                    proof {
                        lemma_template_data_view(new_data);
                    }
                    (Ok(new_data), traces)
                },
            }
        },
        TemplateData::Dict(pairs) => {
            let ghost model = template_pair_views(pairs@);
            let ghost mut traces: Seq<Trace> = Seq::empty();
            let mut passed: Vec<(TemplateValue, TemplateValue)> = Vec::new();
            let mut k: usize = 0;
            proof {
                assert(template_pair_views(passed@) =~= Seq::<
                    (TemplateValueModel, TemplateValueModel),
                >::empty());
            }
            while k < pairs.len()
                invariant
                    k <= pairs@.len(),
                    data is Dict,
                    data->Dict_0 == *pairs,
                    data@ == TemplateDataModel::Dict(model),
                    model == template_pair_views(pairs@),
                    traces.len() == 2 * k,
                    pass_pairs(model, k as int, builtins@, scope@, traces) == Ok::<
                        Seq<(TemplateValueModel, TemplateValueModel)>,
                        ComptimeFailure,
                    >(template_pair_views(passed@)),
                decreases pairs.len() - k,
            {
                proof {
                    assert(decreases_to!(*data => data->Dict_0));
                    assert(decreases_to!(*pairs => pairs@[k as int]));
                    assert(decreases_to!(pairs@[k as int] => pairs@[k as int].0));
                    assert(decreases_to!(pairs@[k as int] => pairs@[k as int].1));
                    assert(model[k as int] == (pairs@[k as int].0@, pairs@[k as int].1@));
                }
                let ghost before = traces;
                let (passed_key, Ghost(key_trace)) = pass_alone(&pairs[k].0, builtins, scope);
                let key = match passed_key {
                    Err(error) => {
                        proof {
                            traces = before.push(key_trace).push(no_trace());
                            lemma_pass_pairs_reads_its_own_traces(
                                model,
                                k as int,
                                builtins@,
                                scope@,
                                before,
                                traces,
                            );
                            lemma_pass_pairs_settled(
                                model,
                                k + 1,
                                model.len() as int,
                                builtins@,
                                scope@,
                                traces,
                            );
                        }
                        return (Err(error), Ghost(traces));
                    },
                    Ok(key) => key,
                };
                let (passed_value, Ghost(value_trace)) = pass_alone(&pairs[k].1, builtins, scope);
                proof {
                    traces = before.push(key_trace).push(value_trace);
                    lemma_pass_pairs_reads_its_own_traces(
                        model,
                        k as int,
                        builtins@,
                        scope@,
                        before,
                        traces,
                    );
                }
                let value = match passed_value {
                    Err(error) => {
                        proof {
                            lemma_pass_pairs_settled(
                                model,
                                k + 1,
                                model.len() as int,
                                builtins@,
                                scope@,
                                traces,
                            );
                        }
                        return (Err(error), Ghost(traces));
                    },
                    Ok(value) => value,
                };
                proof {
                    assert(template_pair_views(passed@.push((key, value)))
                        =~= template_pair_views(passed@).push((key@, value@)));
                }
                passed.push((key, value));
                k += 1;
            }
            let new_data = TemplateData::Dict(passed);
            proof {
                lemma_template_data_view(new_data);
            }
            (Ok(new_data), Ghost(traces))
        },
    }
}

/// Applies the pass to the body of a template that is not marked for early
/// rendering. Each key and each value of a map is passed on its own. What
/// comes out is what the rules of the pass make of the body and of what the
/// builtins gave.
pub fn comptime_pass_template_data(
    data: &TemplateData,
    builtins: &BuiltIns,
    scope: &Scope,
) -> (result: Result<TemplateData, ComptimeError>)
    ensures
        exists|traces: Seq<Trace>|
            #[trigger] pass_data(data@, builtins@, scope@, traces) == data_result_view(result),
{
    let (result, Ghost(traces)) = pass_template_data(data, builtins, scope);
    proof {
        assert(pass_data(data@, builtins@, scope@, traces) == data_result_view(result));
    }
    result
}

/// Runs the preparation pass over `values`.
///
/// Templates marked for early rendering are rendered against what stands
/// before them, with `scope` as parent and global scope. A comptime invoke
/// calls the function of `builtins` that the label before it names. The
/// bodies of other templates are passed in turn. What comes out is what these
/// rules make of `values`, of what `builtins` knows under each name, of `scope`
/// and of what the builtins gave when they ran.
pub fn comptime_pass(values: Vec<TemplateValue>, builtins: &BuiltIns, scope: &Scope) -> (result:
    Result<Vec<TemplateValue>, ComptimeError>)
    ensures
        exists|traces: Seq<Trace>|
            #[trigger] pass(template_views(values@), builtins@, scope@, traces)
                == pass_result_view(result),
{
    let (result, Ghost(traces)) = pass_values(&values, builtins, scope);
    proof {
        assert(pass(template_views(values@), builtins@, scope@, traces) == pass_result_view(
            result,
        ));
    }
    result
}

/// Whether the pass has anything to do at `entry`: whether it is a template
/// or a comptime invoke.
pub open spec fn is_comptime_site(entry: TemplateValueModel) -> bool {
    entry matches TemplateValueModel::Literal(value) && (value is Template
        || value is ComptimeInvoke)
}

/// A sequence without templates and comptime invokes passes unchanged,
/// whatever the builtins would give.
pub proof fn lemma_plain_values_unchanged(
    values: Seq<TemplateValueModel>,
    registry: Map<Seq<char>, Arity>,
    scope: Map<Seq<char>, DataModel>,
    traces: Seq<Trace>,
)
    requires
        forall|i: int| 0 <= i < values.len() ==> !is_comptime_site(#[trigger] values[i]),
    ensures
        pass(values, registry, scope, traces) == Ok::<Seq<TemplateValueModel>, ComptimeFailure>(
            values,
        ),
{
    lemma_plain_prefix_unchanged(values, values.len() as int, registry, scope, traces);
    assert(values.take(values.len() as int) =~= values);
}

/// The first `k` entries of a sequence without templates and comptime
/// invokes pass unchanged.
proof fn lemma_plain_prefix_unchanged(
    values: Seq<TemplateValueModel>,
    k: int,
    registry: Map<Seq<char>, Arity>,
    scope: Map<Seq<char>, DataModel>,
    traces: Seq<Trace>,
)
    requires
        0 <= k <= values.len(),
        forall|i: int| 0 <= i < values.len() ==> !is_comptime_site(#[trigger] values[i]),
    ensures
        pass_prefix(values, k, registry, scope, traces) == Ok::<
            Seq<TemplateValueModel>,
            ComptimeFailure,
        >(values.take(k)),
    decreases k,
{
    if k > 0 {
        lemma_plain_prefix_unchanged(values, k - 1, registry, scope, traces);
        assert(!is_comptime_site(values[k - 1]));
        assert(values.take(k) =~= values.take(k - 1).push(values[k - 1]));
        assert(pass_entry(values[k - 1], values.take(k - 1), registry, scope, traces[k - 1])
            == Ok::<Seq<TemplateValueModel>, ComptimeFailure>(values.take(k)));
    } else {
        assert(values.take(k) =~= Seq::<TemplateValueModel>::empty());
    }
}

/// What a comptime invoke takes off the working stack goes by the counts
/// that the function declared. A function that does not take one argument
/// costs the stack its name alone. A function that takes one costs the stack
/// its name and exactly one more entry, which is concrete and becomes the
/// argument.
pub proof fn lemma_invoke_takes_by_arity(
    stack: Seq<TemplateValueModel>,
    registry: Map<Seq<char>, Arity>,
)
    requires
        prepare_invoke(stack, registry) is Ok,
    ensures
        ({
            let call = prepare_invoke(stack, registry)->Ok_0;
            let label = literal(DataModel::Label(call.name));
            &&& registry.contains_key(call.name)
            &&& call.arity == registry[call.name]
            &&& call.arity.arg_count != 1 ==> call.argument is None && stack == call.rest.push(
                label,
            )
            &&& call.arity.arg_count == 1 ==> call.argument is Some && stack == call.rest.push(
                literal(call.argument->Some_0),
            ).push(label)
        }),
{
    let call = prepare_invoke(stack, registry)->Ok_0;
    let label = literal(DataModel::Label(call.name));
    if call.arity.arg_count != 1 {
        assert(stack =~= call.rest.push(label));
    } else {
        assert(stack.drop_last() =~= call.rest.push(literal(call.argument->Some_0)));
        assert(stack =~= stack.drop_last().push(label));
    }
}

} // verus!
