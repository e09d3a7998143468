//! The staged value model.
//!
//! A program moves through three representations. Parsing yields
//! [`TemplateValue`]s, which may still refer to the caller's stack and scope.
//! Rendering resolves those references and yields [`ProgramValue`]s, the
//! instructions of the stack machine. Executing instructions leaves
//! [`DataValue`]s, the only values that are fully concrete.
//!
//! Every type here has a mathematical model (a type whose name ends in
//! `Model`) and a view `@` onto it. Contracts throughout the crate are stated
//! over the models.
use crate::type_system::{SidType, TypeModel};
use vstd::prelude::*;

verus! {

/// A fully concrete value.
#[derive(Debug, PartialEq)]
pub enum DataValue {
    Bool(bool),
    Int(i64),
    /// A floating-point number, held as the decimal text it was written as.
    Float(String),
    Str(String),
    /// One grapheme cluster, which may span several code points.
    Char(String),
    /// A deferred instruction sequence that is spliced into the program when invoked.
    Substack(Vec<ProgramValue>),
    /// Like a substack, but meant to run strictly sequentially.
    Script(Vec<ProgramValue>),
    List(Vec<DataValue>),
    SetOf(Vec<DataValue>),
    /// Named fields, in order.
    Struct(Vec<(String, DataValue)>),
    /// Key and value pairs, in order.
    Dict(Vec<(DataValue, DataValue)>),
    /// The name of an entry in a builtin registry.
    BuiltIn(String),
    Type(SidType),
    /// A symbolic name that has not been resolved yet.
    Label(String),
}

/// One instruction of the stack machine.
#[derive(Debug, PartialEq)]
pub enum ProgramValue {
    /// Push the value.
    Data(DataValue),
    /// Pop the top of the data stack and call it.
    Invoke,
    /// Pop and call while the program is still being prepared.
    ComptimeInvoke,
    /// Render the template, then splice the result onto the data stack.
    Template(Template),
}

/// A composite literal that has not been rendered yet.
#[derive(Debug, PartialEq)]
pub struct Template {
    pub data: TemplateData,
    /// How many of the topmost entries of the caller's stack the body may refer to.
    pub consumes_stack_entries: usize,
    /// Whether the template is rendered while the program is being prepared.
    pub comptime: bool,
}

/// The body of a template.
#[derive(Debug, PartialEq)]
pub enum TemplateData {
    Substack(Vec<TemplateValue>),
    Script(Vec<TemplateValue>),
    List(Vec<TemplateValue>),
    SetOf(Vec<TemplateValue>),
    Dict(Vec<(TemplateValue, TemplateValue)>),
}

/// One entry of a template body.
#[derive(Debug, PartialEq)]
pub enum TemplateValue {
    /// Resolved through the scope chain when the template is rendered.
    ParentLabel(String),
    /// Claims the entry this far from the top of the caller's stack, counting from one.
    ParentStackMove(usize),
    /// Passed through as it is.
    Literal(ProgramValue),
}

/// The model of a [`DataValue`].
pub enum DataModel {
    Bool(bool),
    Int(int),
    Float(Seq<char>),
    Str(Seq<char>),
    Char(Seq<char>),
    Substack(Seq<ProgramModel>),
    Script(Seq<ProgramModel>),
    List(Seq<DataModel>),
    SetOf(Seq<DataModel>),
    Struct(Seq<(Seq<char>, DataModel)>),
    Dict(Seq<(DataModel, DataModel)>),
    BuiltIn(Seq<char>),
    Type(TypeModel),
    Label(Seq<char>),
}

/// The model of a [`ProgramValue`].
pub enum ProgramModel {
    Data(DataModel),
    Invoke,
    ComptimeInvoke,
    Template(TemplateModel),
}

/// The model of a [`Template`].
pub struct TemplateModel {
    pub data: TemplateDataModel,
    pub consumes_stack_entries: nat,
    pub comptime: bool,
}

/// The model of a [`TemplateData`].
pub enum TemplateDataModel {
    Substack(Seq<TemplateValueModel>),
    Script(Seq<TemplateValueModel>),
    List(Seq<TemplateValueModel>),
    SetOf(Seq<TemplateValueModel>),
    Dict(Seq<(TemplateValueModel, TemplateValueModel)>),
}

/// The model of a [`TemplateValue`].
pub enum TemplateValueModel {
    ParentLabel(Seq<char>),
    ParentStackMove(nat),
    Literal(ProgramModel),
}

impl View for DataValue {
    type V = DataModel;

    open spec fn view(&self) -> DataModel
        decreases self,
    {
        match self {
            DataValue::Bool(b) => DataModel::Bool(*b),
            DataValue::Int(n) => DataModel::Int(*n as int),
            DataValue::Float(text) => DataModel::Float(text@),
            DataValue::Str(text) => DataModel::Str(text@),
            DataValue::Char(text) => DataModel::Char(text@),
            DataValue::Substack(body) => DataModel::Substack(
                Seq::new(
                    body@.len(),
                    |i: int|
                        if 0 <= i < body@.len() {
                            body@[i].view()
                        } else {
                            arbitrary()
                        },
                ),
            ),
            DataValue::Script(body) => DataModel::Script(
                Seq::new(
                    body@.len(),
                    |i: int|
                        if 0 <= i < body@.len() {
                            body@[i].view()
                        } else {
                            arbitrary()
                        },
                ),
            ),
            DataValue::List(items) => DataModel::List(
                Seq::new(
                    items@.len(),
                    |i: int|
                        if 0 <= i < items@.len() {
                            items@[i].view()
                        } else {
                            arbitrary()
                        },
                ),
            ),
            DataValue::SetOf(items) => DataModel::SetOf(
                Seq::new(
                    items@.len(),
                    |i: int|
                        if 0 <= i < items@.len() {
                            items@[i].view()
                        } else {
                            arbitrary()
                        },
                ),
            ),
            DataValue::Struct(fields) => DataModel::Struct(
                Seq::new(
                    fields@.len(),
                    |i: int|
                        if 0 <= i < fields@.len() {
                            (fields@[i].0@, fields@[i].1.view())
                        } else {
                            arbitrary()
                        },
                ),
            ),
            DataValue::Dict(pairs) => DataModel::Dict(
                Seq::new(
                    pairs@.len(),
                    |i: int|
                        if 0 <= i < pairs@.len() {
                            (pairs@[i].0.view(), pairs@[i].1.view())
                        } else {
                            arbitrary()
                        },
                ),
            ),
            DataValue::BuiltIn(name) => DataModel::BuiltIn(name@),
            DataValue::Type(t) => DataModel::Type(t.view()),
            DataValue::Label(name) => DataModel::Label(name@),
        }
    }
}

impl View for ProgramValue {
    type V = ProgramModel;

    open spec fn view(&self) -> ProgramModel
        decreases self,
    {
        match self {
            ProgramValue::Data(v) => ProgramModel::Data(v.view()),
            ProgramValue::Invoke => ProgramModel::Invoke,
            ProgramValue::ComptimeInvoke => ProgramModel::ComptimeInvoke,
            ProgramValue::Template(t) => ProgramModel::Template(t.view()),
        }
    }
}

impl View for Template {
    type V = TemplateModel;

    open spec fn view(&self) -> TemplateModel
        decreases self,
    {
        TemplateModel {
            data: self.data.view(),
            consumes_stack_entries: self.consumes_stack_entries as nat,
            comptime: self.comptime,
        }
    }
}

impl View for TemplateData {
    type V = TemplateDataModel;

    open spec fn view(&self) -> TemplateDataModel
        decreases self,
    {
        match self {
            TemplateData::Substack(body) => TemplateDataModel::Substack(
                Seq::new(
                    body@.len(),
                    |i: int|
                        if 0 <= i < body@.len() {
                            body@[i].view()
                        } else {
                            arbitrary()
                        },
                ),
            ),
            TemplateData::Script(body) => TemplateDataModel::Script(
                Seq::new(
                    body@.len(),
                    |i: int|
                        if 0 <= i < body@.len() {
                            body@[i].view()
                        } else {
                            arbitrary()
                        },
                ),
            ),
            TemplateData::List(body) => TemplateDataModel::List(
                Seq::new(
                    body@.len(),
                    |i: int|
                        if 0 <= i < body@.len() {
                            body@[i].view()
                        } else {
                            arbitrary()
                        },
                ),
            ),
            TemplateData::SetOf(body) => TemplateDataModel::SetOf(
                Seq::new(
                    body@.len(),
                    |i: int|
                        if 0 <= i < body@.len() {
                            body@[i].view()
                        } else {
                            arbitrary()
                        },
                ),
            ),
            TemplateData::Dict(pairs) => TemplateDataModel::Dict(
                Seq::new(
                    pairs@.len(),
                    |i: int|
                        if 0 <= i < pairs@.len() {
                            (pairs@[i].0.view(), pairs@[i].1.view())
                        } else {
                            arbitrary()
                        },
                ),
            ),
        }
    }
}

impl View for TemplateValue {
    type V = TemplateValueModel;

    open spec fn view(&self) -> TemplateValueModel
        decreases self,
    {
        match self {
            TemplateValue::ParentLabel(name) => TemplateValueModel::ParentLabel(name@),
            TemplateValue::ParentStackMove(i) => TemplateValueModel::ParentStackMove(*i as nat),
            TemplateValue::Literal(v) => TemplateValueModel::Literal(v.view()),
        }
    }
}

/// The models of a sequence of data values.
pub open spec fn data_views(items: Seq<DataValue>) -> Seq<DataModel> {
    Seq::new(items.len(), |i: int| items[i]@)
}

/// The models of a sequence of instructions.
pub open spec fn program_views(body: Seq<ProgramValue>) -> Seq<ProgramModel> {
    Seq::new(body.len(), |i: int| body[i]@)
}

/// The models of a sequence of template entries.
pub open spec fn template_views(body: Seq<TemplateValue>) -> Seq<TemplateValueModel> {
    Seq::new(body.len(), |i: int| body[i]@)
}

/// The models of a sequence of key and value pairs of data.
pub open spec fn data_pair_views(pairs: Seq<(DataValue, DataValue)>) -> Seq<(DataModel, DataModel)> {
    Seq::new(pairs.len(), |i: int| (pairs[i].0@, pairs[i].1@))
}

/// The models of a sequence of named fields.
pub open spec fn field_views(fields: Seq<(String, DataValue)>) -> Seq<(Seq<char>, DataModel)> {
    Seq::new(fields.len(), |i: int| (fields[i].0@, fields[i].1@))
}

/// The models of a sequence of key and value pairs of template entries.
pub open spec fn template_pair_views(pairs: Seq<(TemplateValue, TemplateValue)>) -> Seq<
    (TemplateValueModel, TemplateValueModel),
> {
    Seq::new(pairs.len(), |i: int| (pairs[i].0@, pairs[i].1@))
}

/// The view of a composite data value is the constructor applied to the
/// views of its parts.
pub proof fn lemma_data_view(value: DataValue)
    ensures
        value matches DataValue::Substack(body) ==> value@ == DataModel::Substack(
            program_views(body@),
        ),
        value matches DataValue::Script(body) ==> value@ == DataModel::Script(
            program_views(body@),
        ),
        value matches DataValue::List(items) ==> value@ == DataModel::List(data_views(items@)),
        value matches DataValue::SetOf(items) ==> value@ == DataModel::SetOf(data_views(items@)),
        value matches DataValue::Struct(fields) ==> value@ == DataModel::Struct(
            field_views(fields@),
        ),
        value matches DataValue::Dict(pairs) ==> value@ == DataModel::Dict(
            data_pair_views(pairs@),
        ),
{
    reveal_with_fuel(<DataValue as View>::view, 3);
    match value {
        DataValue::Substack(body) => {
            assert(value@->Substack_0 =~= program_views(body@));
        },
        DataValue::Script(body) => {
            assert(value@->Script_0 =~= program_views(body@));
        },
        DataValue::List(items) => {
            assert(value@->List_0 =~= data_views(items@));
        },
        DataValue::SetOf(items) => {
            assert(value@->SetOf_0 =~= data_views(items@));
        },
        DataValue::Struct(fields) => {
            assert(value@->Struct_0 =~= field_views(fields@));
        },
        DataValue::Dict(pairs) => {
            assert(value@->Dict_0 =~= data_pair_views(pairs@));
        },
        _ => {},
    }
}

/// The view of a template body is the constructor applied to the views of
/// its entries.
pub proof fn lemma_template_data_view(data: TemplateData)
    ensures
        data matches TemplateData::Substack(body) ==> data@ == TemplateDataModel::Substack(
            template_views(body@),
        ),
        data matches TemplateData::Script(body) ==> data@ == TemplateDataModel::Script(
            template_views(body@),
        ),
        data matches TemplateData::List(body) ==> data@ == TemplateDataModel::List(
            template_views(body@),
        ),
        data matches TemplateData::SetOf(body) ==> data@ == TemplateDataModel::SetOf(
            template_views(body@),
        ),
        data matches TemplateData::Dict(pairs) ==> data@ == TemplateDataModel::Dict(
            template_pair_views(pairs@),
        ),
{
    reveal_with_fuel(<TemplateData as View>::view, 3);
    match data {
        TemplateData::Substack(body) => {
            assert(data@->Substack_0 =~= template_views(body@));
        },
        TemplateData::Script(body) => {
            assert(data@->Script_0 =~= template_views(body@));
        },
        TemplateData::List(body) => {
            assert(data@->List_0 =~= template_views(body@));
        },
        TemplateData::SetOf(body) => {
            assert(data@->SetOf_0 =~= template_views(body@));
        },
        TemplateData::Dict(pairs) => {
            assert(data@->Dict_0 =~= template_pair_views(pairs@));
        },
    }
}

/// Copies a sequence of data values.
pub fn clone_data_values(items: &Vec<DataValue>) -> (copy: Vec<DataValue>)
    ensures
        data_views(copy@) == data_views(items@),
    decreases items,
{
    let mut copy: Vec<DataValue> = Vec::new();
    let mut i: usize = 0;
    while i < items.len()
        invariant
            i <= items.len(),
            copy@.len() == i,
            forall|j: int| 0 <= j < i ==> copy@[j]@ == items@[j]@,
        decreases items.len() - i,
    {
        proof {
            assert(decreases_to!(*items => items@[i as int]));
        }
        copy.push(items[i].clone());
        i += 1;
    }
    assert(data_views(copy@) =~= data_views(items@));
    copy
}

/// Copies a sequence of instructions.
pub fn clone_program_values(body: &Vec<ProgramValue>) -> (copy: Vec<ProgramValue>)
    ensures
        program_views(copy@) == program_views(body@),
    decreases body,
{
    let mut copy: Vec<ProgramValue> = Vec::new();
    let mut i: usize = 0;
    while i < body.len()
        invariant
            i <= body.len(),
            copy@.len() == i,
            forall|j: int| 0 <= j < i ==> copy@[j]@ == body@[j]@,
        decreases body.len() - i,
    {
        proof {
            assert(decreases_to!(*body => body@[i as int]));
        }
        copy.push(body[i].clone());
        i += 1;
    }
    assert(program_views(copy@) =~= program_views(body@));
    copy
}

/// Copies a sequence of template entries.
pub fn clone_template_values(body: &Vec<TemplateValue>) -> (copy: Vec<TemplateValue>)
    ensures
        template_views(copy@) == template_views(body@),
    decreases body,
{
    let mut copy: Vec<TemplateValue> = Vec::new();
    let mut i: usize = 0;
    while i < body.len()
        invariant
            i <= body.len(),
            copy@.len() == i,
            forall|j: int| 0 <= j < i ==> copy@[j]@ == body@[j]@,
        decreases body.len() - i,
    {
        proof {
            assert(decreases_to!(*body => body@[i as int]));
        }
        copy.push(body[i].clone());
        i += 1;
    }
    assert(template_views(copy@) =~= template_views(body@));
    copy
}

impl Clone for DataValue {
    fn clone(&self) -> (copy: Self)
        ensures
            copy@ == self@,
        decreases self,
    {
        proof {
            lemma_data_view(*self);
        }
        let copy = match self {
            DataValue::Bool(b) => DataValue::Bool(*b),
            DataValue::Int(n) => DataValue::Int(*n),
            DataValue::Float(text) => DataValue::Float(text.clone()),
            DataValue::Str(text) => DataValue::Str(text.clone()),
            DataValue::Char(text) => DataValue::Char(text.clone()),
            DataValue::Substack(body) => DataValue::Substack(clone_program_values(body)),
            DataValue::Script(body) => DataValue::Script(clone_program_values(body)),
            DataValue::List(items) => DataValue::List(clone_data_values(items)),
            DataValue::SetOf(items) => DataValue::SetOf(clone_data_values(items)),
            DataValue::Struct(fields) => {
                let mut copy: Vec<(String, DataValue)> = Vec::new();
                let mut i: usize = 0;
                while i < fields.len()
                    invariant
                        i <= fields.len(),
                        self is Struct,
                        self->Struct_0 == *fields,
                        copy@.len() == i,
                        forall|j: int|
                            0 <= j < i ==> copy@[j].0@ == fields@[j].0@ && copy@[j].1@
                                == fields@[j].1@,
                    decreases fields.len() - i,
                {
                    proof {
                        assert(decreases_to!(*self => self->Struct_0));
                        assert(decreases_to!(*fields => fields@[i as int]));
                        assert(decreases_to!(fields@[i as int] => fields@[i as int].1));
                    }
                    let name = fields[i].0.clone();
                    let value = fields[i].1.clone();
                    copy.push((name, value));
                    i += 1;
                }
                assert(field_views(copy@) =~= field_views(fields@));
                DataValue::Struct(copy)
            },
            DataValue::Dict(pairs) => {
                let mut copy: Vec<(DataValue, DataValue)> = Vec::new();
                let mut i: usize = 0;
                while i < pairs.len()
                    invariant
                        i <= pairs.len(),
                        self is Dict,
                        self->Dict_0 == *pairs,
                        copy@.len() == i,
                        forall|j: int|
                            0 <= j < i ==> copy@[j].0@ == pairs@[j].0@ && copy@[j].1@
                                == pairs@[j].1@,
                    decreases pairs.len() - i,
                {
                    proof {
                        assert(decreases_to!(*self => self->Dict_0));
                        assert(decreases_to!(*pairs => pairs@[i as int]));
                        assert(decreases_to!(pairs@[i as int] => pairs@[i as int].0));
                        assert(decreases_to!(pairs@[i as int] => pairs@[i as int].1));
                    }
                    let key = pairs[i].0.clone();
                    let value = pairs[i].1.clone();
                    copy.push((key, value));
                    i += 1;
                }
                assert(data_pair_views(copy@) =~= data_pair_views(pairs@));
                DataValue::Dict(copy)
            },
            DataValue::BuiltIn(name) => DataValue::BuiltIn(name.clone()),
            DataValue::Type(t) => DataValue::Type(t.clone()),
            DataValue::Label(name) => DataValue::Label(name.clone()),
        };
        proof {
            lemma_data_view(copy);
        }
        copy
    }
}

impl Clone for ProgramValue {
    fn clone(&self) -> (copy: Self)
        ensures
            copy@ == self@,
        decreases self,
    {
        match self {
            ProgramValue::Data(v) => ProgramValue::Data(v.clone()),
            ProgramValue::Invoke => ProgramValue::Invoke,
            ProgramValue::ComptimeInvoke => ProgramValue::ComptimeInvoke,
            ProgramValue::Template(t) => ProgramValue::Template(t.clone()),
        }
    }
}

impl Clone for Template {
    fn clone(&self) -> (copy: Self)
        ensures
            copy@ == self@,
        decreases self,
    {
        Template {
            data: self.data.clone(),
            consumes_stack_entries: self.consumes_stack_entries,
            comptime: self.comptime,
        }
    }
}

impl Clone for TemplateData {
    fn clone(&self) -> (copy: Self)
        ensures
            copy@ == self@,
        decreases self,
    {
        proof {
            lemma_template_data_view(*self);
        }
        let copy = match self {
            TemplateData::Substack(body) => TemplateData::Substack(clone_template_values(body)),
            TemplateData::Script(body) => TemplateData::Script(clone_template_values(body)),
            TemplateData::List(body) => TemplateData::List(clone_template_values(body)),
            TemplateData::SetOf(body) => TemplateData::SetOf(clone_template_values(body)),
            TemplateData::Dict(pairs) => {
                let mut copy: Vec<(TemplateValue, TemplateValue)> = Vec::new();
                let mut i: usize = 0;
                while i < pairs.len()
                    invariant
                        i <= pairs.len(),
                        self is Dict,
                        self->Dict_0 == *pairs,
                        copy@.len() == i,
                        forall|j: int|
                            0 <= j < i ==> copy@[j].0@ == pairs@[j].0@ && copy@[j].1@
                                == pairs@[j].1@,
                    decreases pairs.len() - i,
                {
                    proof {
                        assert(decreases_to!(*self => self->Dict_0));
                        assert(decreases_to!(*pairs => pairs@[i as int]));
                        assert(decreases_to!(pairs@[i as int] => pairs@[i as int].0));
                        assert(decreases_to!(pairs@[i as int] => pairs@[i as int].1));
                    }
                    let key = pairs[i].0.clone();
                    let value = pairs[i].1.clone();
                    copy.push((key, value));
                    i += 1;
                }
                assert(template_pair_views(copy@) =~= template_pair_views(pairs@));
                TemplateData::Dict(copy)
            },
        };
        proof {
            lemma_template_data_view(copy);
        }
        copy
    }
}

impl Clone for TemplateValue {
    fn clone(&self) -> (copy: Self)
        ensures
            copy@ == self@,
        decreases self,
    {
        match self {
            TemplateValue::ParentLabel(name) => TemplateValue::ParentLabel(name.clone()),
            TemplateValue::ParentStackMove(i) => TemplateValue::ParentStackMove(*i),
            TemplateValue::Literal(v) => TemplateValue::Literal(v.clone()),
        }
    }
}

impl Template {
    /// A substack template from a parsed body and the number of stack entries it refers to.
    pub fn substack(parsed: (Vec<TemplateValue>, usize)) -> (template: Self)
        ensures
            template@ == (TemplateModel {
                data: TemplateDataModel::Substack(template_views(parsed.0@)),
                consumes_stack_entries: parsed.1 as nat,
                comptime: false,
            }),
    {
        let template = Template {
            data: TemplateData::Substack(parsed.0),
            consumes_stack_entries: parsed.1,
            comptime: false,
        };
        proof {
            lemma_template_data_view(template.data);
        }
        template
    }

    /// A script template from a parsed body and the number of stack entries it refers to.
    pub fn script(parsed: (Vec<TemplateValue>, usize)) -> (template: Self)
        ensures
            template@ == (TemplateModel {
                data: TemplateDataModel::Script(template_views(parsed.0@)),
                consumes_stack_entries: parsed.1 as nat,
                comptime: false,
            }),
    {
        let template = Template {
            data: TemplateData::Script(parsed.0),
            consumes_stack_entries: parsed.1,
            comptime: false,
        };
        proof {
            lemma_template_data_view(template.data);
        }
        template
    }

    /// A list template from a parsed body and the number of stack entries it refers to.
    pub fn list(parsed: (Vec<TemplateValue>, usize)) -> (template: Self)
        ensures
            template@ == (TemplateModel {
                data: TemplateDataModel::List(template_views(parsed.0@)),
                consumes_stack_entries: parsed.1 as nat,
                comptime: false,
            }),
    {
        let template = Template {
            data: TemplateData::List(parsed.0),
            consumes_stack_entries: parsed.1,
            comptime: false,
        };
        proof {
            lemma_template_data_view(template.data);
        }
        template
    }

    /// A set template from a parsed body and the number of stack entries it refers to.
    pub fn set(parsed: (Vec<TemplateValue>, usize)) -> (template: Self)
        ensures
            template@ == (TemplateModel {
                data: TemplateDataModel::SetOf(template_views(parsed.0@)),
                consumes_stack_entries: parsed.1 as nat,
                comptime: false,
            }),
    {
        let template = Template {
            data: TemplateData::SetOf(parsed.0),
            consumes_stack_entries: parsed.1,
            comptime: false,
        };
        proof {
            lemma_template_data_view(template.data);
        }
        template
    }

    /// A map template from parsed pairs and the number of stack entries they refer to.
    pub fn map(pairs: Vec<(TemplateValue, TemplateValue)>, consumes: usize) -> (template: Self)
        ensures
            template@ == (TemplateModel {
                data: TemplateDataModel::Dict(template_pair_views(pairs@)),
                consumes_stack_entries: consumes as nat,
                comptime: false,
            }),
    {
        let template = Template {
            data: TemplateData::Dict(pairs),
            consumes_stack_entries: consumes,
            comptime: false,
        };
        proof {
            lemma_template_data_view(template.data);
        }
        template
    }

    /// The same template, to be rendered while the program is being prepared.
    pub fn mark_comptime(self) -> (template: Self)
        ensures
            template@ == (TemplateModel { comptime: true, ..self@ }),
    {
        Template {
            data: self.data,
            consumes_stack_entries: self.consumes_stack_entries,
            comptime: true,
        }
    }
}

impl From<DataValue> for ProgramValue {
    fn from(item: DataValue) -> (value: Self) {
        ProgramValue::Data(item)
    }
}

impl vstd::std_specs::convert::FromSpecImpl<DataValue> for ProgramValue {
    open spec fn obeys_from_spec() -> bool {
        true
    }

    open spec fn from_spec(item: DataValue) -> Self {
        ProgramValue::Data(item)
    }
}

impl From<Template> for ProgramValue {
    fn from(item: Template) -> (value: Self) {
        ProgramValue::Template(item)
    }
}

impl vstd::std_specs::convert::FromSpecImpl<Template> for ProgramValue {
    open spec fn obeys_from_spec() -> bool {
        true
    }

    open spec fn from_spec(item: Template) -> Self {
        ProgramValue::Template(item)
    }
}

impl From<DataValue> for TemplateValue {
    fn from(item: DataValue) -> (value: Self) {
        TemplateValue::Literal(ProgramValue::Data(item))
    }
}

impl vstd::std_specs::convert::FromSpecImpl<DataValue> for TemplateValue {
    open spec fn obeys_from_spec() -> bool {
        true
    }

    open spec fn from_spec(item: DataValue) -> Self {
        TemplateValue::Literal(ProgramValue::Data(item))
    }
}

impl From<ProgramValue> for TemplateValue {
    fn from(item: ProgramValue) -> (value: Self) {
        TemplateValue::Literal(item)
    }
}

impl vstd::std_specs::convert::FromSpecImpl<ProgramValue> for TemplateValue {
    open spec fn obeys_from_spec() -> bool {
        true
    }

    open spec fn from_spec(item: ProgramValue) -> Self {
        TemplateValue::Literal(item)
    }
}

impl From<Template> for TemplateValue {
    fn from(item: Template) -> (value: Self) {
        TemplateValue::Literal(ProgramValue::Template(item))
    }
}

impl vstd::std_specs::convert::FromSpecImpl<Template> for TemplateValue {
    open spec fn obeys_from_spec() -> bool {
        true
    }

    open spec fn from_spec(item: Template) -> Self {
        TemplateValue::Literal(ProgramValue::Template(item))
    }
}

/// A concrete value as an entry of a sequence.
pub open spec fn literal(value: DataModel) -> TemplateValueModel {
    TemplateValueModel::Literal(ProgramModel::Data(value))
}

/// Concrete values as entries of a sequence.
pub open spec fn literals(values: Seq<DataModel>) -> Seq<TemplateValueModel> {
    Seq::new(values.len(), |i: int| literal(values[i]))
}

} // verus!
