//! Types as first-class values.
use crate::types::{DataModel, DataValue};
use vstd::prelude::*;

verus! {

/// A type of the language. Any expression in a type position produces one.
#[derive(Debug, PartialEq)]
pub enum SidType {
    Bool,
    Int,
    Float,
    Char,
    Str,
    Label,
    /// A list whose elements all have the given type.
    List(Box<SidType>),
    /// A map from keys of one type to values of another.
    Dict { key: Box<SidType>, value: Box<SidType> },
    /// Any one of the given types.
    Union(Vec<SidType>),
    /// Named fields, each with its type.
    Struct(Vec<(String, SidType)>),
    /// A substack that takes `args` and leaves `ret`.
    Fn { args: Box<SidType>, ret: Box<SidType> },
    /// Accepts every value.
    Any,
    /// Exactly one value, used in a type position.
    Literal(Box<DataValue>),
}

/// The model of a [`SidType`].
pub enum TypeModel {
    Bool,
    Int,
    Float,
    Char,
    Str,
    Label,
    List(Box<TypeModel>),
    Dict { key: Box<TypeModel>, value: Box<TypeModel> },
    Union(Seq<TypeModel>),
    Struct(Seq<(Seq<char>, TypeModel)>),
    Fn { args: Box<TypeModel>, ret: Box<TypeModel> },
    Any,
    Literal(Box<DataModel>),
}

impl View for SidType {
    type V = TypeModel;

    open spec fn view(&self) -> TypeModel
        decreases self,
    {
        match self {
            SidType::Bool => TypeModel::Bool,
            SidType::Int => TypeModel::Int,
            SidType::Float => TypeModel::Float,
            SidType::Char => TypeModel::Char,
            SidType::Str => TypeModel::Str,
            SidType::Label => TypeModel::Label,
            SidType::List(element) => TypeModel::List(Box::new((**element).view())),
            SidType::Dict { key, value } => TypeModel::Dict {
                key: Box::new((**key).view()),
                value: Box::new((**value).view()),
            },
            SidType::Union(options) => TypeModel::Union(
                Seq::new(
                    options@.len(),
                    |i: int|
                        if 0 <= i < options@.len() {
                            options@[i].view()
                        } else {
                            arbitrary()
                        },
                ),
            ),
            SidType::Struct(fields) => TypeModel::Struct(
                Seq::new(
                    fields@.len(),
                    |i: int|
                        if 0 <= i < fields@.len() {
                            (fields@[i].0@, fields@[i].1.view())
                        } else {
                            arbitrary()
                        },
                ),
            ),
            SidType::Fn { args, ret } => TypeModel::Fn {
                args: Box::new((**args).view()),
                ret: Box::new((**ret).view()),
            },
            SidType::Any => TypeModel::Any,
            SidType::Literal(value) => TypeModel::Literal(Box::new((**value).view())),
        }
    }
}

/// The models of a sequence of types.
pub open spec fn type_views(options: Seq<SidType>) -> Seq<TypeModel> {
    Seq::new(options.len(), |i: int| options[i]@)
}

/// The models of a sequence of named field types.
pub open spec fn field_type_views(fields: Seq<(String, SidType)>) -> Seq<(Seq<char>, TypeModel)> {
    Seq::new(fields.len(), |i: int| (fields[i].0@, fields[i].1@))
}

/// The view of a composite type is the constructor applied to the views of
/// its parts.
pub proof fn lemma_type_view(t: SidType)
    ensures
        t matches SidType::Union(options) ==> t@ == TypeModel::Union(type_views(options@)),
        t matches SidType::Struct(fields) ==> t@ == TypeModel::Struct(field_type_views(fields@)),
{
    reveal_with_fuel(<SidType as View>::view, 3);
    match t {
        SidType::Union(options) => {
            assert(t@->Union_0 =~= type_views(options@));
        },
        SidType::Struct(fields) => {
            assert(t@->Struct_0 =~= field_type_views(fields@));
        },
        _ => {},
    }
}

impl Clone for SidType {
    fn clone(&self) -> (copy: Self)
        ensures
            copy@ == self@,
        decreases self,
    {
        proof {
            lemma_type_view(*self);
        }
        let copy = match self {
            SidType::Bool => SidType::Bool,
            SidType::Int => SidType::Int,
            SidType::Float => SidType::Float,
            SidType::Char => SidType::Char,
            SidType::Str => SidType::Str,
            SidType::Label => SidType::Label,
            SidType::List(element) => SidType::List(Box::new((**element).clone())),
            SidType::Dict { key, value } => SidType::Dict {
                key: Box::new((**key).clone()),
                value: Box::new((**value).clone()),
            },
            SidType::Union(options) => {
                let mut copy: Vec<SidType> = Vec::new();
                let mut i: usize = 0;
                while i < options.len()
                    invariant
                        i <= options.len(),
                        self is Union,
                        self->Union_0 == *options,
                        copy@.len() == i,
                        forall|j: int| 0 <= j < i ==> copy@[j]@ == options@[j]@,
                    decreases options.len() - i,
                {
                    proof {
                        assert(decreases_to!(*self => self->Union_0));
                        assert(decreases_to!(*options => options@[i as int]));
                    }
                    copy.push(options[i].clone());
                    i += 1;
                }
                assert(type_views(copy@) =~= type_views(options@));
                SidType::Union(copy)
            },
            SidType::Struct(fields) => {
                let mut copy: Vec<(String, SidType)> = Vec::new();
                let mut i: usize = 0;
                while i < fields.len()
                    invariant
                        i <= fields.len(),
                        self is Struct,
                        self->Struct_0 == *fields,
                        copy@.len() == i,
                        forall|j: int|
                            0 <= j < i ==> copy@[j].0@ == fields@[j].0@ && copy@[j].1@
                                == fields@[j].1@,
                    decreases fields.len() - i,
                {
                    proof {
                        assert(decreases_to!(*self => self->Struct_0));
                        assert(decreases_to!(*fields => fields@[i as int]));
                        assert(decreases_to!(fields@[i as int] => fields@[i as int].1));
                    }
                    let name = fields[i].0.clone();
                    let field_type = fields[i].1.clone();
                    copy.push((name, field_type));
                    i += 1;
                }
                assert(field_type_views(copy@) =~= field_type_views(fields@));
                SidType::Struct(copy)
            },
            SidType::Fn { args, ret } => SidType::Fn {
                args: Box::new((**args).clone()),
                ret: Box::new((**ret).clone()),
            },
            SidType::Any => SidType::Any,
            SidType::Literal(value) => SidType::Literal(Box::new((**value).clone())),
        };
        proof {
            lemma_type_view(copy);
        }
        copy
    }
}

} // verus!
