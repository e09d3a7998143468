//! Rendering: resolving a template against the caller's stack and scopes.
//!
//! A template refers to its surroundings in two ways. A parent label is looked
//! up in the parent scope and then in the global scope. A parent stack move
//! with index `i` claims the `i`-th entry from the top of the caller's stack;
//! the template declares how many of the topmost entries it may refer to, and
//! those it does not claim are handed back unchanged, ahead of the rendered
//! value.
use crate::scope::Scope;
use crate::types::{
    data_pair_views, data_views, lemma_data_view, lemma_template_data_view, program_views,
    template_pair_views, template_views, DataModel, DataValue, ProgramModel, ProgramValue, Template,
    TemplateData, TemplateDataModel, TemplateValue, TemplateValueModel, TemplateModel,
};
use vstd::prelude::*;

verus! {

/// Why a template could not be rendered.
#[derive(Debug, PartialEq)]
pub enum RenderError {
    /// The caller's stack holds fewer entries than the template refers to.
    StackTooShort { needed: usize, available: usize },
    /// A parent stack move with index zero, which would be the template itself.
    IndexZero,
    /// A parent stack move beyond the entries that the template declares.
    IndexOutOfRange { index: usize },
    /// A second parent stack move with an index that was claimed before.
    TakenTwice { index: usize },
    /// A parent label that neither scope binds.
    UndefinedLabel { name: String },
    /// A stack entry that the template refers to or hands back is not concrete.
    SlotNotConcrete { index: usize },
    /// An entry of a list, set or map body did not resolve to concrete data.
    ElementNotConcrete { position: usize },
}

/// The model of a [`RenderError`].
pub enum RenderFailure {
    StackTooShort { needed: nat, available: nat },
    IndexZero,
    IndexOutOfRange { index: nat },
    TakenTwice { index: nat },
    UndefinedLabel { name: Seq<char> },
    SlotNotConcrete { index: nat },
    ElementNotConcrete { position: nat },
}

impl View for RenderError {
    type V = RenderFailure;

    open spec fn view(&self) -> RenderFailure {
        match self {
            RenderError::StackTooShort { needed, available } => RenderFailure::StackTooShort {
                needed: *needed as nat,
                available: *available as nat,
            },
            RenderError::IndexZero => RenderFailure::IndexZero,
            RenderError::IndexOutOfRange { index } => RenderFailure::IndexOutOfRange {
                index: *index as nat,
            },
            RenderError::TakenTwice { index } => RenderFailure::TakenTwice { index: *index as nat },
            RenderError::UndefinedLabel { name } => RenderFailure::UndefinedLabel { name: name@ },
            RenderError::SlotNotConcrete { index } => RenderFailure::SlotNotConcrete {
                index: *index as nat,
            },
            RenderError::ElementNotConcrete { position } => RenderFailure::ElementNotConcrete {
                position: *position as nat,
            },
        }
    }
}

/// What a successful render leaves: what goes back onto the data stack, and
/// the caller's stack without the entries the template referred to.
pub struct Rendered {
    pub output: Seq<DataModel>,
    pub stack: Seq<TemplateValueModel>,
}

/// The value that `name` resolves to: the parent scope's, else the global scope's.
pub open spec fn lookup_label(
    name: Seq<char>,
    parent: Map<Seq<char>, DataModel>,
    global: Map<Seq<char>, DataModel>,
) -> Option<DataModel> {
    if parent.contains_key(name) {
        Some(parent[name])
    } else if global.contains_key(name) {
        Some(global[name])
    } else {
        None
    }
}

/// The entry `index` places from the top of `stack`, counting from one.
pub open spec fn slot(stack: Seq<TemplateValueModel>, index: nat) -> TemplateValueModel {
    stack[stack.len() - index]
}

/// Whether one of the first `k` entries of `body` claims the slot `index`.
pub open spec fn claimed_before(body: Seq<TemplateValueModel>, k: int, index: nat) -> bool
    decreases k,
{
    if k <= 0 {
        false
    } else {
        body[k - 1] == TemplateValueModel::ParentStackMove(index) || claimed_before(
            body,
            k - 1,
            index,
        )
    }
}

/// The entries of a template body in the order in which they are resolved.
/// A map contributes each key followed by its value.
pub open spec fn body_entries(data: TemplateDataModel) -> Seq<TemplateValueModel> {
    match data {
        TemplateDataModel::Substack(body) => body,
        TemplateDataModel::Script(body) => body,
        TemplateDataModel::List(body) => body,
        TemplateDataModel::SetOf(body) => body,
        TemplateDataModel::Dict(pairs) => Seq::new(
            2 * pairs.len(),
            |i: int|
                if i % 2 == 0 {
                    pairs[i / 2].0
                } else {
                    pairs[i / 2].1
                },
        ),
    }
}

/// Whether every entry of the body has to resolve to concrete data.
pub open spec fn holds_data_only(data: TemplateDataModel) -> bool {
    data is List || data is SetOf || data is Dict
}

/// What the entry at position `k` of `body` resolves to. `declared` is the
/// number of stack entries that the template may refer to.
pub open spec fn resolve_entry(
    body: Seq<TemplateValueModel>,
    k: int,
    data_only: bool,
    stack: Seq<TemplateValueModel>,
    declared: nat,
    parent: Map<Seq<char>, DataModel>,
    global: Map<Seq<char>, DataModel>,
) -> Result<ProgramModel, RenderFailure> {
    let resolved = match body[k] {
        TemplateValueModel::Literal(value) => Ok(value),
        TemplateValueModel::ParentLabel(name) => match lookup_label(name, parent, global) {
            Some(value) => Ok(ProgramModel::Data(value)),
            None => Err(RenderFailure::UndefinedLabel { name }),
        },
        TemplateValueModel::ParentStackMove(index) => if index == 0 {
            Err(RenderFailure::IndexZero)
        } else if index > declared {
            Err(RenderFailure::IndexOutOfRange { index })
        } else if claimed_before(body, k, index) {
            Err(RenderFailure::TakenTwice { index })
        } else {
            match slot(stack, index) {
                TemplateValueModel::Literal(value) => Ok(value),
                _ => Err(RenderFailure::SlotNotConcrete { index }),
            }
        },
    };
    match resolved {
        Ok(value) => if data_only && !(value is Data) {
            Err(RenderFailure::ElementNotConcrete { position: k as nat })
        } else {
            Ok(value)
        },
        Err(failure) => Err(failure),
    }
}

/// What the first `k` entries of `body` resolve to, or the first failure among them.
pub open spec fn resolve_entries(
    body: Seq<TemplateValueModel>,
    k: int,
    data_only: bool,
    stack: Seq<TemplateValueModel>,
    declared: nat,
    parent: Map<Seq<char>, DataModel>,
    global: Map<Seq<char>, DataModel>,
) -> Result<Seq<ProgramModel>, RenderFailure>
    decreases k,
{
    if k <= 0 {
        Ok(Seq::empty())
    } else {
        match resolve_entries(body, k - 1, data_only, stack, declared, parent, global) {
            Err(failure) => Err(failure),
            Ok(done) => match resolve_entry(
                body,
                k - 1,
                data_only,
                stack,
                declared,
                parent,
                global,
            ) {
                Err(failure) => Err(failure),
                Ok(value) => Ok(done.push(value)),
            },
        }
    }
}

/// The index of the `position`-th of the `declared` topmost stack entries,
/// where position zero is the lowest of them.
pub open spec fn index_at(declared: nat, position: int) -> nat {
    (declared - position) as nat
}

/// Of the lowest `m` of the `declared` topmost entries of `stack`, those that
/// `body` claims nowhere, lowest first. Each has to be concrete data.
pub open spec fn unclaimed(
    body: Seq<TemplateValueModel>,
    stack: Seq<TemplateValueModel>,
    declared: nat,
    m: int,
) -> Result<Seq<DataModel>, RenderFailure>
    decreases m,
{
    if m <= 0 {
        Ok(Seq::empty())
    } else {
        match unclaimed(body, stack, declared, m - 1) {
            Err(failure) => Err(failure),
            Ok(kept) => {
                let index = index_at(declared, m - 1);
                if claimed_before(body, body.len() as int, index) {
                    Ok(kept)
                } else {
                    match slot(stack, index) {
                        TemplateValueModel::Literal(ProgramModel::Data(value)) => Ok(
                            kept.push(value),
                        ),
                        _ => Err(RenderFailure::SlotNotConcrete { index }),
                    }
                }
            },
        }
    }
}

/// The data that each of the resolved entries holds.
pub open spec fn data_of(resolved: Seq<ProgramModel>) -> Seq<DataModel> {
    Seq::new(resolved.len(), |i: int| resolved[i]->Data_0)
}

/// The key and value pairs that the resolved entries of a map body form.
pub open spec fn pairs_of(resolved: Seq<ProgramModel>) -> Seq<(DataModel, DataModel)> {
    Seq::new(resolved.len() / 2, |i: int| (resolved[2 * i]->Data_0, resolved[2 * i + 1]->Data_0))
}

/// The value that a template of this kind makes of its resolved entries.
pub open spec fn assemble(data: TemplateDataModel, resolved: Seq<ProgramModel>) -> DataModel {
    match data {
        TemplateDataModel::Substack(_) => DataModel::Substack(resolved),
        TemplateDataModel::Script(_) => DataModel::Script(resolved),
        TemplateDataModel::List(_) => DataModel::List(data_of(resolved)),
        TemplateDataModel::SetOf(_) => DataModel::SetOf(data_of(resolved)),
        TemplateDataModel::Dict(_) => DataModel::Dict(pairs_of(resolved)),
    }
}

/// What rendering `template` against `stack` and the two scopes gives.
pub open spec fn render(
    template: TemplateModel,
    stack: Seq<TemplateValueModel>,
    parent: Map<Seq<char>, DataModel>,
    global: Map<Seq<char>, DataModel>,
) -> Result<Rendered, RenderFailure> {
    let declared = template.consumes_stack_entries;
    let body = body_entries(template.data);
    if declared > stack.len() {
        Err(RenderFailure::StackTooShort { needed: declared, available: stack.len() })
    } else {
        match resolve_entries(
            body,
            body.len() as int,
            holds_data_only(template.data),
            stack,
            declared,
            parent,
            global,
        ) {
            Err(failure) => Err(failure),
            Ok(resolved) => match unclaimed(body, stack, declared, declared as int) {
                Err(failure) => Err(failure),
                Ok(kept) => Ok(
                    Rendered {
                        output: kept.push(assemble(template.data, resolved)),
                        stack: stack.take(stack.len() - declared),
                    },
                ),
            },
        }
    }
}

/// Once an entry has failed, the failure stands for every longer prefix.
pub proof fn lemma_resolve_failure_stands(
    body: Seq<TemplateValueModel>,
    k: int,
    m: int,
    data_only: bool,
    stack: Seq<TemplateValueModel>,
    declared: nat,
    parent: Map<Seq<char>, DataModel>,
    global: Map<Seq<char>, DataModel>,
)
    requires
        0 <= k <= m,
        resolve_entries(body, k, data_only, stack, declared, parent, global) is Err,
    ensures
        resolve_entries(body, m, data_only, stack, declared, parent, global) == resolve_entries(
            body,
            k,
            data_only,
            stack,
            declared,
            parent,
            global,
        ),
    decreases m - k,
{
    if k < m {
        lemma_resolve_failure_stands(body, k, m - 1, data_only, stack, declared, parent, global);
    }
}

/// Once a slot has failed, the failure stands for every longer prefix.
pub proof fn lemma_unclaimed_failure_stands(
    body: Seq<TemplateValueModel>,
    stack: Seq<TemplateValueModel>,
    declared: nat,
    k: int,
    m: int,
)
    requires
        0 <= k <= m,
        unclaimed(body, stack, declared, k) is Err,
    ensures
        unclaimed(body, stack, declared, m) == unclaimed(body, stack, declared, k),
    decreases m - k,
{
    if k < m {
        lemma_unclaimed_failure_stands(body, stack, declared, k, m - 1);
    }
}

/// The entries of a template body in the order in which they are resolved.
fn flatten_body(data: TemplateData) -> (entries: Vec<TemplateValue>)
    ensures
        template_views(entries@) == body_entries(data@),
{
    proof {
        lemma_template_data_view(data);
    }
    match data {
        TemplateData::Substack(body) => body,
        TemplateData::Script(body) => body,
        TemplateData::List(body) => body,
        TemplateData::SetOf(body) => body,
        TemplateData::Dict(pairs) => {
            let mut entries: Vec<TemplateValue> = Vec::new();
            let mut i: usize = 0;
            while i < pairs.len()
                invariant
                    i <= pairs.len(),
                    entries@.len() == 2 * i,
                    forall|j: int|
                        0 <= j < i ==> entries@[2 * j]@ == pairs@[j].0@ && entries@[2 * j + 1]@
                            == pairs@[j].1@,
                decreases pairs.len() - i,
            {
                entries.push(pairs[i].0.clone());
                entries.push(pairs[i].1.clone());
                i += 1;
            }
            assert(template_views(entries@) =~= body_entries(
                TemplateDataModel::Dict(template_pair_views(pairs@)),
            )) by {
                let flat = body_entries(TemplateDataModel::Dict(template_pair_views(pairs@)));
                assert forall|x: int| 0 <= x < entries@.len() implies template_views(entries@)[x]
                    == flat[x] by {
                    let j = x / 2;
                    assert(0 <= j < i);
                    if x % 2 == 0 {
                        assert(x == 2 * j);
                    } else {
                        assert(x == 2 * j + 1);
                    }
                }
            }
            entries
        },
    }
}

/// Resolves the entry at position `k`, given which slots the entries before it claimed.
fn resolve_one(
    entries: &Vec<TemplateValue>,
    k: usize,
    data_only: bool,
    stack: &Vec<TemplateValue>,
    declared: usize,
    claimed: &Vec<bool>,
    parent_scope: &Scope,
    global_scope: &Scope,
) -> (result: Result<ProgramValue, RenderError>)
    requires
        k < entries@.len(),
        declared <= stack@.len(),
        claimed@.len() == declared,
        forall|index: nat|
            1 <= index <= declared ==> claimed@[index - 1] == claimed_before(
                template_views(entries@),
                k as int,
                index,
            ),
    ensures
        match result {
            Ok(value) => resolve_entry(
                template_views(entries@),
                k as int,
                data_only,
                template_views(stack@),
                declared as nat,
                parent_scope@,
                global_scope@,
            ) == Ok::<ProgramModel, RenderFailure>(value@),
            Err(error) => resolve_entry(
                template_views(entries@),
                k as int,
                data_only,
                template_views(stack@),
                declared as nat,
                parent_scope@,
                global_scope@,
            ) == Err::<ProgramModel, RenderFailure>(error@),
        },
{
    let value = match &entries[k] {
        TemplateValue::Literal(value) => value.clone(),
        TemplateValue::ParentLabel(name) => {
            match parent_scope.get(name.as_str()) {
                Some(bound) => ProgramValue::Data(bound.clone()),
                None => match global_scope.get(name.as_str()) {
                    Some(bound) => ProgramValue::Data(bound.clone()),
                    None => {
                        return Err(RenderError::UndefinedLabel { name: name.clone() });
                    },
                },
            }
        },
        TemplateValue::ParentStackMove(index) => {
            let index: usize = *index;
            if index == 0 {
                return Err(RenderError::IndexZero);
            }
            if index > declared {
                return Err(RenderError::IndexOutOfRange { index });
            }
            if claimed[index - 1] {
                return Err(RenderError::TakenTwice { index });
            }
            match &stack[stack.len() - index] {
                TemplateValue::Literal(value) => value.clone(),
                _ => {
                    return Err(RenderError::SlotNotConcrete { index });
                },
            }
        },
    };
    if data_only {
        match &value {
            ProgramValue::Data(_) => {},
            _ => {
                return Err(RenderError::ElementNotConcrete { position: k });
            },
        }
    }
    Ok(value)
}

/// The data that the resolved entries of a list or set body hold.
fn collect_data(resolved: &Vec<ProgramValue>) -> (items: Vec<DataValue>)
    requires
        forall|i: int| 0 <= i < resolved@.len() ==> resolved@[i]@ is Data,
    ensures
        data_views(items@) == data_of(program_views(resolved@)),
{
    let mut items: Vec<DataValue> = Vec::new();
    let mut i: usize = 0;
    while i < resolved.len()
        invariant
            i <= resolved.len(),
            items@.len() == i,
            forall|j: int| 0 <= j < resolved@.len() ==> resolved@[j]@ is Data,
            forall|j: int| 0 <= j < i ==> items@[j]@ == resolved@[j]@->Data_0,
        decreases resolved.len() - i,
    {
        match &resolved[i] {
            ProgramValue::Data(value) => {
                items.push(value.clone());
            },
            _ => {
                proof {
                    assert(resolved@[i as int]@ is Data);
                    assert(false);
                }
            },
        }
        i += 1;
    }
    assert(data_views(items@) =~= data_of(program_views(resolved@)));
    items
}

/// The key and value pairs that the resolved entries of a map body form.
fn collect_pairs(resolved: &Vec<ProgramValue>) -> (pairs: Vec<(DataValue, DataValue)>)
    requires
        resolved@.len() % 2 == 0,
        forall|i: int| 0 <= i < resolved@.len() ==> resolved@[i]@ is Data,
    ensures
        data_pair_views(pairs@) == pairs_of(program_views(resolved@)),
{
    let mut pairs: Vec<(DataValue, DataValue)> = Vec::new();
    let mut i: usize = 0;
    while i + 1 < resolved.len()
        invariant
            i <= resolved.len(),
            i % 2 == 0,
            resolved@.len() % 2 == 0,
            pairs@.len() == i / 2,
            forall|j: int| 0 <= j < resolved@.len() ==> resolved@[j]@ is Data,
            forall|j: int|
                0 <= j < pairs@.len() ==> pairs@[j].0@ == resolved@[2 * j]@->Data_0 && pairs@[j].1@
                    == resolved@[2 * j + 1]@->Data_0,
        decreases resolved.len() - i,
    {
        match (&resolved[i], &resolved[i + 1]) {
            (ProgramValue::Data(key), ProgramValue::Data(value)) => {
                pairs.push((key.clone(), value.clone()));
            },
            _ => {
                proof {
                    assert(resolved@[i as int]@ is Data);
                    assert(resolved@[i + 1]@ is Data);
                    assert(false);
                }
            },
        }
        i += 2;
    }
    assert(data_pair_views(pairs@) =~= pairs_of(program_views(resolved@)));
    pairs
}

/// Renders `template` against the top of `parent_stack` and the two scopes.
///
/// On success the entries that the template declares are gone from
/// `parent_stack`, and the result holds those of them that the body did not
/// claim, lowest first, followed by the rendered value. On failure
/// `parent_stack` is as it was.
pub fn render_template(
    template: Template,
    parent_stack: &mut Vec<TemplateValue>,
    parent_scope: &Scope,
    global_scope: &Scope,
) -> (result: Result<Vec<DataValue>, RenderError>)
    ensures
        match result {
            Ok(output) => render(
                template@,
                template_views(old(parent_stack)@),
                parent_scope@,
                global_scope@,
            ) == Ok::<Rendered, RenderFailure>(
                Rendered {
                    output: data_views(output@),
                    stack: template_views(final(parent_stack)@),
                },
            ),
            Err(error) => render(
                template@,
                template_views(old(parent_stack)@),
                parent_scope@,
                global_scope@,
            ) == Err::<Rendered, RenderFailure>(error@) && *final(parent_stack) == *old(
                parent_stack,
            ),
        },
{
    let declared = template.consumes_stack_entries;
    let available = parent_stack.len();
    if declared > available {
        return Err(RenderError::StackTooShort { needed: declared, available });
    }
    let ghost model = template@;
    let ghost stack = template_views(parent_stack@);
    let (data_only, in_pairs, in_script, in_list) = match &template.data {
        TemplateData::Substack(_) => (false, false, false, false),
        TemplateData::Script(_) => (false, false, true, false),
        TemplateData::List(_) => (true, false, false, true),
        TemplateData::SetOf(_) => (true, false, false, false),
        TemplateData::Dict(_) => (true, true, false, false),
    };
    let entries = flatten_body(template.data);
    let ghost body = template_views(entries@);
    proof {
        if model.data is Dict {
            assert(body.len() % 2 == 0);
        }
    }

    let mut claimed: Vec<bool> = Vec::new();
    while claimed.len() < declared
        invariant
            claimed@.len() <= declared,
            forall|i: int| 0 <= i < claimed@.len() ==> !claimed@[i],
        decreases declared - claimed.len(),
    {
        claimed.push(false);
    }

    let mut resolved: Vec<ProgramValue> = Vec::new();
    let mut k: usize = 0;
    proof {
        assert(program_views(resolved@) =~= Seq::<ProgramModel>::empty());
    }
    while k < entries.len()
        invariant
            k <= entries@.len(),
            model == template@,
            declared == model.consumes_stack_entries,
            data_only == holds_data_only(model.data),
            body == body_entries(model.data),
            body == template_views(entries@),
            stack == template_views(parent_stack@),
            *parent_stack == *old(parent_stack),
            declared <= parent_stack@.len(),
            claimed@.len() == declared,
            forall|index: nat|
                1 <= index <= declared ==> claimed@[index - 1] == claimed_before(
                    body,
                    k as int,
                    index,
                ),
            resolve_entries(
                body,
                k as int,
                data_only,
                stack,
                declared as nat,
                parent_scope@,
                global_scope@,
            ) == Ok::<Seq<ProgramModel>, RenderFailure>(program_views(resolved@)),
            data_only ==> forall|j: int| 0 <= j < resolved@.len() ==> resolved@[j]@ is Data,
            resolved@.len() == k,
        decreases entries.len() - k,
    {
        match resolve_one(
            &entries,
            k,
            data_only,
            parent_stack,
            declared,
            &claimed,
            parent_scope,
            global_scope,
        ) {
            Err(error) => {
                proof {
                    lemma_resolve_failure_stands(
                        body,
                        k + 1,
                        body.len() as int,
                        data_only,
                        stack,
                        declared as nat,
                        parent_scope@,
                        global_scope@,
                    );
                }
                return Err(error);
            },
            Ok(value) => {
                let ghost before = claimed@;
                match &entries[k] {
                    TemplateValue::ParentStackMove(index) => {
                        claimed.set(*index - 1, true);
                    },
                    _ => {},
                }
                proof {
                    assert forall|index: nat| 1 <= index <= declared implies claimed@[index - 1]
                        == #[trigger] claimed_before(body, k + 1, index) by {
                        assert(before[index - 1] == claimed_before(body, k as int, index));
                        assert(body[k as int] == entries@[k as int]@);
                    }
                    assert(program_views(resolved@.push(value)) =~= program_views(
                        resolved@,
                    ).push(value@));
                }
                resolved.push(value);
            },
        }
        k += 1;
    }

    let mut output: Vec<DataValue> = Vec::new();
    let mut m: usize = 0;
    proof {
        assert(data_views(output@) =~= Seq::<DataModel>::empty());
    }
    while m < declared
        invariant
            m <= declared,
            model == template@,
            declared == model.consumes_stack_entries,
            data_only == holds_data_only(model.data),
            body == body_entries(model.data),
            resolve_entries(
                body,
                body.len() as int,
                data_only,
                stack,
                declared as nat,
                parent_scope@,
                global_scope@,
            ) is Ok,
            stack == template_views(parent_stack@),
            *parent_stack == *old(parent_stack),
            available == parent_stack@.len(),
            declared <= available,
            claimed@.len() == declared,
            forall|index: nat|
                1 <= index <= declared ==> claimed@[index - 1] == claimed_before(
                    body,
                    body.len() as int,
                    index,
                ),
            unclaimed(body, stack, declared as nat, m as int) == Ok::<
                Seq<DataModel>,
                RenderFailure,
            >(data_views(output@)),
        decreases declared - m,
    {
        let index = declared - m;
        if !claimed[index - 1] {
            match &parent_stack[available - index] {
                TemplateValue::Literal(ProgramValue::Data(value)) => {
                    proof {
                        assert(data_views(output@.push(*value)) =~= data_views(output@).push(
                            value@,
                        ));
                    }
                    let copy = value.clone();
                    proof {
                        assert(data_views(output@.push(copy)) =~= data_views(output@).push(
                            value@,
                        ));
                    }
                    output.push(copy);
                },
                _ => {
                    proof {
                        lemma_unclaimed_failure_stands(
                            body,
                            stack,
                            declared as nat,
                            m + 1,
                            declared as int,
                        );
                    }
                    return Err(RenderError::SlotNotConcrete { index });
                },
            }
        }
        m += 1;
    }

    let value = if in_pairs {
        DataValue::Dict(collect_pairs(&resolved))
    } else if data_only {
        let items = collect_data(&resolved);
        if in_list {
            DataValue::List(items)
        } else {
            DataValue::SetOf(items)
        }
    } else if in_script {
        DataValue::Script(resolved)
    } else {
        DataValue::Substack(resolved)
    };
    proof {
        lemma_data_view(value);
        assert(value@ == assemble(model.data, resolve_entries(
            body,
            body.len() as int,
            data_only,
            stack,
            declared as nat,
            parent_scope@,
            global_scope@,
        )->Ok_0));
        assert(data_views(output@.push(value)) =~= data_views(output@).push(value@));
    }
    output.push(value);
    parent_stack.truncate(available - declared);
    proof {
        assert(template_views(parent_stack@) =~= stack.take(stack.len() - declared));
    }
    Ok(output)
}

/// How many of the lowest `m` of the `declared` topmost stack entries `body`
/// claims nowhere.
pub open spec fn count_unclaimed(body: Seq<TemplateValueModel>, declared: nat, m: int) -> nat
    decreases m,
{
    if m <= 0 {
        0
    } else if claimed_before(body, body.len() as int, index_at(declared, m - 1)) {
        count_unclaimed(body, declared, m - 1)
    } else {
        count_unclaimed(body, declared, m - 1) + 1
    }
}

/// The count of unclaimed entries does not fall as more entries are counted,
/// and it rises past every unclaimed one.
pub proof fn lemma_count_unclaimed_grows(
    body: Seq<TemplateValueModel>,
    declared: nat,
    p: int,
    q: int,
)
    requires
        0 <= p <= q,
    ensures
        count_unclaimed(body, declared, p) <= count_unclaimed(body, declared, q),
        p < q && !claimed_before(body, body.len() as int, index_at(declared, p))
            ==> count_unclaimed(body, declared, p) < count_unclaimed(body, declared, q),
    decreases q - p,
{
    if p < q {
        lemma_count_unclaimed_grows(body, declared, p, q - 1);
    }
}

/// Where the handed-back entries stand: an unclaimed entry is found in the
/// result as many places from the start as there are unclaimed entries below it.
pub proof fn lemma_unclaimed_positions(
    body: Seq<TemplateValueModel>,
    stack: Seq<TemplateValueModel>,
    declared: nat,
    m: int,
    p: int,
)
    requires
        0 <= p < m,
        unclaimed(body, stack, declared, m) is Ok,
    ensures
        unclaimed(body, stack, declared, m)->Ok_0.len() == count_unclaimed(body, declared, m),
        !claimed_before(body, body.len() as int, index_at(declared, p)) ==> {
            &&& count_unclaimed(body, declared, p) < count_unclaimed(body, declared, m)
            &&& slot(stack, index_at(declared, p)) == TemplateValueModel::Literal(
                ProgramModel::Data(
                    unclaimed(body, stack, declared, m)->Ok_0[count_unclaimed(
                        body,
                        declared,
                        p,
                    ) as int],
                ),
            )
        },
    decreases m,
{
    lemma_unclaimed_length(body, stack, declared, m - 1);
    lemma_unclaimed_length(body, stack, declared, m);
    if p < m - 1 {
        lemma_unclaimed_positions(body, stack, declared, m - 1, p);
    }
    lemma_count_unclaimed_grows(body, declared, p, m);
}

/// As many entries are handed back as are unclaimed.
pub proof fn lemma_unclaimed_length(
    body: Seq<TemplateValueModel>,
    stack: Seq<TemplateValueModel>,
    declared: nat,
    m: int,
)
    requires
        unclaimed(body, stack, declared, m) is Ok,
    ensures
        unclaimed(body, stack, declared, m)->Ok_0.len() == count_unclaimed(body, declared, m),
    decreases m,
{
    if m > 0 {
        lemma_unclaimed_length(body, stack, declared, m - 1);
    }
}

/// A template is never rendered against a stack that holds fewer entries
/// than it declares.
pub proof fn lemma_depth_guard(
    template: TemplateModel,
    stack: Seq<TemplateValueModel>,
    parent: Map<Seq<char>, DataModel>,
    global: Map<Seq<char>, DataModel>,
)
    requires
        stack.len() < template.consumes_stack_entries,
    ensures
        render(template, stack, parent, global) == Err::<Rendered, RenderFailure>(
            RenderFailure::StackTooShort {
                needed: template.consumes_stack_entries,
                available: stack.len(),
            },
        ),
{
}

/// A label that both scopes bind resolves to the parent scope's value.
pub proof fn lemma_parent_scope_wins(
    body: Seq<TemplateValueModel>,
    k: int,
    data_only: bool,
    stack: Seq<TemplateValueModel>,
    declared: nat,
    parent: Map<Seq<char>, DataModel>,
    global: Map<Seq<char>, DataModel>,
    name: Seq<char>,
)
    requires
        body[k] == TemplateValueModel::ParentLabel(name),
        parent.contains_key(name),
    ensures
        lookup_label(name, parent, global) == Some(parent[name]),
        resolve_entry(body, k, data_only, stack, declared, parent, global) == Ok::<
            ProgramModel,
            RenderFailure,
        >(ProgramModel::Data(parent[name])),
{
}

/// Where the body claims every declared entry, rendering takes exactly those
/// entries off the stack and gives the rendered value alone.
pub proof fn lemma_all_slots_claimed(
    template: TemplateModel,
    stack: Seq<TemplateValueModel>,
    parent: Map<Seq<char>, DataModel>,
    global: Map<Seq<char>, DataModel>,
)
    requires
        render(template, stack, parent, global) is Ok,
        forall|index: nat|
            1 <= index <= template.consumes_stack_entries ==> claimed_before(
                body_entries(template.data),
                body_entries(template.data).len() as int,
                index,
            ),
    ensures
        render(template, stack, parent, global)->Ok_0.output.len() == 1,
        render(template, stack, parent, global)->Ok_0.stack == stack.take(
            stack.len() - template.consumes_stack_entries,
        ),
        stack.len() == template.consumes_stack_entries ==> render(
            template,
            stack,
            parent,
            global,
        )->Ok_0.stack.len() == 0,
{
    let body = body_entries(template.data);
    let declared = template.consumes_stack_entries;
    lemma_unclaimed_length(body, stack, declared, declared as int);
    lemma_none_unclaimed(body, declared, declared as int);
}

/// Where every declared entry is claimed, none is counted as unclaimed.
proof fn lemma_none_unclaimed(body: Seq<TemplateValueModel>, declared: nat, m: int)
    requires
        m <= declared,
        forall|index: nat|
            1 <= index <= declared ==> claimed_before(body, body.len() as int, index),
    ensures
        count_unclaimed(body, declared, m) == 0,
    decreases m,
{
    if m > 0 {
        lemma_none_unclaimed(body, declared, m - 1);
        assert(claimed_before(body, body.len() as int, index_at(declared, m - 1)));
    }
}

/// An entry that the body does not claim is handed back untouched, ahead of
/// the rendered value, and the entries handed back keep the order they had
/// on the stack.
pub proof fn lemma_unclaimed_slot_handed_back(
    template: TemplateModel,
    stack: Seq<TemplateValueModel>,
    parent: Map<Seq<char>, DataModel>,
    global: Map<Seq<char>, DataModel>,
    position: int,
    later: int,
)
    requires
        render(template, stack, parent, global) is Ok,
        0 <= position < template.consumes_stack_entries,
        !claimed_before(
            body_entries(template.data),
            body_entries(template.data).len() as int,
            index_at(template.consumes_stack_entries, position),
        ),
    ensures
        ({
            let body = body_entries(template.data);
            let declared = template.consumes_stack_entries;
            let output = render(template, stack, parent, global)->Ok_0.output;
            let place = count_unclaimed(body, declared, position) as int;
            &&& place < output.len() - 1
            &&& slot(stack, index_at(declared, position)) == TemplateValueModel::Literal(
                ProgramModel::Data(output[place]),
            )
            &&& position < later ==> place <= count_unclaimed(body, declared, later)
            &&& position < later < declared && !claimed_before(
                body,
                body.len() as int,
                index_at(declared, later),
            ) ==> place < count_unclaimed(body, declared, later)
        }),
{
    let body = body_entries(template.data);
    let declared = template.consumes_stack_entries;
    lemma_unclaimed_positions(body, stack, declared, declared as int, position);
    if position < later {
        lemma_count_unclaimed_grows(body, declared, position, later);
    }
}

} // verus!
