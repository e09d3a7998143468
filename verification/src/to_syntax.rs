//! Printing values in the notation of the language.
use crate::text::cluster_views;
use crate::type_system::{SidType, TypeModel};
use crate::type_system::{field_type_views, lemma_type_view, type_views};
use crate::types::{
    data_pair_views, data_views, field_views, lemma_data_view, lemma_template_data_view,
    program_views, template_pair_views, template_views, DataModel, DataValue, ProgramModel,
    ProgramValue, TemplateData, TemplateDataModel, TemplateValue, TemplateValueModel,
};
use vstd::prelude::*;
use vstd::string::StringExecFns;

verus! {

/// A value that can be printed in the notation of the language.
pub trait ToSyntax: Sized {
    fn to_syntax(&self) -> String;
}

/// The numeral of a digit.
pub open spec fn digit_text(digit: nat) -> Seq<char> {
    if digit == 0 {
        "0"@
    } else if digit == 1 {
        "1"@
    } else if digit == 2 {
        "2"@
    } else if digit == 3 {
        "3"@
    } else if digit == 4 {
        "4"@
    } else if digit == 5 {
        "5"@
    } else if digit == 6 {
        "6"@
    } else if digit == 7 {
        "7"@
    } else if digit == 8 {
        "8"@
    } else {
        "9"@
    }
}

/// A natural number in base ten, without leading zeros.
pub open spec fn natural_text(n: nat) -> Seq<char>
    decreases n,
{
    if n < 10 {
        digit_text(n)
    } else {
        natural_text(n / 10) + digit_text(n % 10)
    }
}

/// A whole number in base ten, with a minus sign if it is negative.
pub open spec fn int_text(n: int) -> Seq<char> {
    if n < 0 {
        "-"@ + natural_text((-n) as nat)
    } else {
        natural_text(n as nat)
    }
}

/// The opening text followed by the first `k` items, each on a line of
/// its own.
pub open spec fn lines(left: Seq<char>, items: Seq<Seq<char>>, k: int) -> Seq<char>
    decreases k,
{
    if k <= 0 {
        left
    } else {
        lines(left, items, k - 1) + "\n "@ + items[k - 1] + " "@
    }
}

/// The items between an opening and a closing text, each on a line of its own.
pub open spec fn enclosed(left: Seq<char>, items: Seq<Seq<char>>, right: Seq<char>) -> Seq<char> {
    lines(left, items, items.len() as int) + "\n"@ + right + " "@
}

/// The first `k` items with a comma and a space between each two.
pub open spec fn joined(items: Seq<Seq<char>>, k: int) -> Seq<char>
    decreases k,
{
    if k <= 0 {
        Seq::empty()
    } else if k == 1 {
        items[0]
    } else {
        joined(items, k - 1) + ", "@ + items[k - 1]
    }
}

/// The items in braces, with a comma and a space between each two.
pub open spec fn braced(items: Seq<Seq<char>>) -> Seq<char> {
    "{"@ + joined(items, items.len() as int) + "}"@
}

/// A name, a colon and a text.
pub open spec fn entry_text(name: Seq<char>, text: Seq<char>) -> Seq<char> {
    name + ": "@ + text
}

/// How the parts of a composite data value are written, one text for
/// each part: each instruction, each item, each field with its name, each
/// pair with its key. A value that is not composite has no parts.
pub open spec fn data_parts(value: DataModel) -> Seq<Seq<char>>
    decreases value, 0int,
{
    match value {
        DataModel::Substack(body) => Seq::new(
            body.len(),
            |i: int|
                if 0 <= i < body.len() {
                    program_syntax(body[i])
                } else {
                    Seq::empty()
                },
        ),
        DataModel::Script(body) => Seq::new(
            body.len(),
            |i: int|
                if 0 <= i < body.len() {
                    program_syntax(body[i])
                } else {
                    Seq::empty()
                },
        ),
        DataModel::List(items) => Seq::new(
            items.len(),
            |i: int|
                if 0 <= i < items.len() {
                    data_syntax(items[i])
                } else {
                    Seq::empty()
                },
        ),
        DataModel::SetOf(items) => Seq::new(
            items.len(),
            |i: int|
                if 0 <= i < items.len() {
                    data_syntax(items[i])
                } else {
                    Seq::empty()
                },
        ),
        DataModel::Struct(fields) => Seq::new(
            fields.len(),
            |i: int|
                if 0 <= i < fields.len() {
                    entry_text(fields[i].0, data_syntax(fields[i].1))
                } else {
                    Seq::empty()
                },
        ),
        DataModel::Dict(pairs) => Seq::new(
            pairs.len(),
            |i: int|
                if 0 <= i < pairs.len() {
                    entry_text(data_syntax(pairs[i].0), data_syntax(pairs[i].1))
                } else {
                    Seq::empty()
                },
        ),
        _ => Seq::empty(),
    }
}

/// How a data value is written.
pub open spec fn data_syntax(value: DataModel) -> Seq<char>
    decreases value, 1int,
{
    match value {
        DataModel::Bool(b) => if b {
            "true"@
        } else {
            "false"@
        },
        DataModel::Int(n) => int_text(n),
        DataModel::Float(text) => text,
        DataModel::Str(text) => "\""@ + text + "\""@,
        DataModel::Char(text) => "'"@ + text + "'"@,
        DataModel::Substack(_) => enclosed("("@, data_parts(value), ")"@),
        DataModel::Script(_) => enclosed("<"@, data_parts(value), ">"@),
        DataModel::List(_) => enclosed("["@, data_parts(value), "]"@),
        DataModel::SetOf(_) => enclosed("{"@, data_parts(value), "}"@),
        DataModel::Struct(_) => braced(data_parts(value)),
        DataModel::Dict(_) => braced(data_parts(value)),
        DataModel::BuiltIn(name) => name,
        DataModel::Type(t) => type_syntax(t),
        DataModel::Label(name) => name,
    }
}

/// How an instruction is written. A template is written as its body.
pub open spec fn program_syntax(value: ProgramModel) -> Seq<char>
    decreases value, 1int,
{
    match value {
        ProgramModel::Data(v) => data_syntax(v),
        ProgramModel::Invoke => "!"@,
        ProgramModel::ComptimeInvoke => "@!"@,
        ProgramModel::Template(template) => template_data_syntax(template.data),
    }
}

/// How the entries of a template body are written, one text for each
/// entry, and for a map one for each pair.
pub open spec fn template_data_parts(data: TemplateDataModel) -> Seq<Seq<char>>
    decreases data, 0int,
{
    match data {
        TemplateDataModel::Substack(body) => Seq::new(
            body.len(),
            |i: int|
                if 0 <= i < body.len() {
                    template_value_syntax(body[i])
                } else {
                    Seq::empty()
                },
        ),
        TemplateDataModel::Script(body) => Seq::new(
            body.len(),
            |i: int|
                if 0 <= i < body.len() {
                    template_value_syntax(body[i])
                } else {
                    Seq::empty()
                },
        ),
        TemplateDataModel::List(body) => Seq::new(
            body.len(),
            |i: int|
                if 0 <= i < body.len() {
                    template_value_syntax(body[i])
                } else {
                    Seq::empty()
                },
        ),
        TemplateDataModel::SetOf(body) => Seq::new(
            body.len(),
            |i: int|
                if 0 <= i < body.len() {
                    template_value_syntax(body[i])
                } else {
                    Seq::empty()
                },
        ),
        TemplateDataModel::Dict(pairs) => Seq::new(
            pairs.len(),
            |i: int|
                if 0 <= i < pairs.len() {
                    entry_text(template_value_syntax(pairs[i].0), template_value_syntax(pairs[i].1))
                } else {
                    Seq::empty()
                },
        ),
    }
}

/// How the body of a template is written. A comment after the opening
/// delimiter tells it from a rendered value.
pub open spec fn template_data_syntax(data: TemplateDataModel) -> Seq<char>
    decreases data, 1int,
{
    match data {
        TemplateDataModel::Substack(_) => enclosed(
            "(#Template"@,
            template_data_parts(data),
            ")"@,
        ),
        TemplateDataModel::Script(_) => enclosed("<#Template"@, template_data_parts(data), ">"@),
        TemplateDataModel::List(_) => enclosed("[#Template"@, template_data_parts(data), "]"@),
        TemplateDataModel::SetOf(_) => enclosed("{#Template"@, template_data_parts(data), "}"@),
        TemplateDataModel::Dict(pairs) => lines(
            "{#Template"@,
            template_data_parts(data),
            pairs.len() as int,
        ) + "\n}"@,
    }
}

/// How an entry of a template body is written.
pub open spec fn template_value_syntax(value: TemplateValueModel) -> Seq<char>
    decreases value, 1int,
{
    match value {
        TemplateValueModel::ParentLabel(name) => "$"@ + name,
        TemplateValueModel::ParentStackMove(index) => "$"@ + natural_text(index),
        TemplateValueModel::Literal(v) => program_syntax(v),
    }
}

/// How the parts of a union or of a struct type are written.
pub open spec fn type_parts(t: TypeModel) -> Seq<Seq<char>>
    decreases t, 0int,
{
    match t {
        TypeModel::Union(options) => Seq::new(
            options.len(),
            |i: int|
                if 0 <= i < options.len() {
                    type_syntax(options[i])
                } else {
                    Seq::empty()
                },
        ),
        TypeModel::Struct(fields) => Seq::new(
            fields.len(),
            |i: int|
                if 0 <= i < fields.len() {
                    entry_text(fields[i].0, type_syntax(fields[i].1))
                } else {
                    Seq::empty()
                },
        ),
        _ => Seq::empty(),
    }
}

/// How a type is written.
pub open spec fn type_syntax(t: TypeModel) -> Seq<char>
    decreases t, 1int,
{
    match t {
        TypeModel::Bool => "bool"@,
        TypeModel::Int => "int"@,
        TypeModel::Float => "float"@,
        TypeModel::Char => "char"@,
        TypeModel::Str => "str"@,
        TypeModel::Label => "label"@,
        TypeModel::Any => "Any"@,
        TypeModel::List(element) => type_syntax(*element) + " list @!"@,
        TypeModel::Dict { key, value } => type_syntax(*key) + " "@ + type_syntax(*value)
            + " map @!"@,
        TypeModel::Fn { args, ret } => type_syntax(*args) + " "@ + type_syntax(*ret)
            + " fn_type @!"@,
        TypeModel::Literal(value) => data_syntax(*value),
        TypeModel::Union(_) => braced(type_parts(t)),
        TypeModel::Struct(_) => braced(type_parts(t)),
    }
}

/// How each of a sequence of data values is written.
pub open spec fn data_texts(items: Seq<DataModel>) -> Seq<Seq<char>> {
    Seq::new(items.len(), |i: int| data_syntax(items[i]))
}

/// How each of a sequence of instructions is written.
pub open spec fn program_texts(body: Seq<ProgramModel>) -> Seq<Seq<char>> {
    Seq::new(body.len(), |i: int| program_syntax(body[i]))
}

/// How each of a sequence of template entries is written.
pub open spec fn template_texts(body: Seq<TemplateValueModel>) -> Seq<Seq<char>> {
    Seq::new(body.len(), |i: int| template_value_syntax(body[i]))
}

/// How each of a sequence of named fields is written.
pub open spec fn field_texts(fields: Seq<(Seq<char>, DataModel)>) -> Seq<Seq<char>> {
    Seq::new(fields.len(), |i: int| entry_text(fields[i].0, data_syntax(fields[i].1)))
}

/// How each of a sequence of key and value pairs is written.
pub open spec fn pair_texts(pairs: Seq<(DataModel, DataModel)>) -> Seq<Seq<char>> {
    Seq::new(
        pairs.len(),
        |i: int| entry_text(data_syntax(pairs[i].0), data_syntax(pairs[i].1)),
    )
}

/// How each of a sequence of pairs of template entries is written.
pub open spec fn template_pair_texts(pairs: Seq<(TemplateValueModel, TemplateValueModel)>) -> Seq<
    Seq<char>,
> {
    Seq::new(
        pairs.len(),
        |i: int|
            entry_text(template_value_syntax(pairs[i].0), template_value_syntax(pairs[i].1)),
    )
}

/// How each of a sequence of types is written.
pub open spec fn type_texts(options: Seq<TypeModel>) -> Seq<Seq<char>> {
    Seq::new(options.len(), |i: int| type_syntax(options[i]))
}

/// How each of a sequence of named field types is written.
pub open spec fn type_field_texts(fields: Seq<(Seq<char>, TypeModel)>) -> Seq<Seq<char>> {
    Seq::new(fields.len(), |i: int| entry_text(fields[i].0, type_syntax(fields[i].1)))
}

/// The parts of a composite data value are written as each is written
/// itself.
pub proof fn lemma_data_syntax(value: DataModel)
    ensures
        value matches DataModel::Substack(body) ==> data_parts(value) == program_texts(body),
        value matches DataModel::Script(body) ==> data_parts(value) == program_texts(body),
        value matches DataModel::List(items) ==> data_parts(value) == data_texts(items),
        value matches DataModel::SetOf(items) ==> data_parts(value) == data_texts(items),
        value matches DataModel::Struct(fields) ==> data_parts(value) == field_texts(fields),
        value matches DataModel::Dict(pairs) ==> data_parts(value) == pair_texts(pairs),
{
    reveal_with_fuel(data_parts, 3);
    match value {
        DataModel::Substack(body) => {
            assert(data_parts(value) =~= program_texts(body));
        },
        DataModel::Script(body) => {
            assert(data_parts(value) =~= program_texts(body));
        },
        DataModel::List(items) => {
            assert(data_parts(value) =~= data_texts(items));
        },
        DataModel::SetOf(items) => {
            assert(data_parts(value) =~= data_texts(items));
        },
        DataModel::Struct(fields) => {
            assert(data_parts(value) =~= field_texts(fields));
        },
        DataModel::Dict(pairs) => {
            assert(data_parts(value) =~= pair_texts(pairs));
        },
        _ => {},
    }
}

/// The entries of a template body are written as each is written itself.
pub proof fn lemma_template_data_syntax(data: TemplateDataModel)
    ensures
        data matches TemplateDataModel::Substack(body) ==> template_data_parts(data)
            == template_texts(body),
        data matches TemplateDataModel::Script(body) ==> template_data_parts(data)
            == template_texts(body),
        data matches TemplateDataModel::List(body) ==> template_data_parts(data)
            == template_texts(body),
        data matches TemplateDataModel::SetOf(body) ==> template_data_parts(data)
            == template_texts(body),
        data matches TemplateDataModel::Dict(pairs) ==> template_data_parts(data)
            == template_pair_texts(pairs),
{
    reveal_with_fuel(template_data_parts, 3);
    match data {
        TemplateDataModel::Dict(pairs) => {
            assert(template_data_parts(data) =~= template_pair_texts(pairs));
        },
        TemplateDataModel::Substack(body) | TemplateDataModel::Script(body)
        | TemplateDataModel::List(body) | TemplateDataModel::SetOf(body) => {
            assert(template_data_parts(data) =~= template_texts(body));
        },
    }
}

/// The parts of a composite type are written as each is written itself.
pub proof fn lemma_type_syntax(t: TypeModel)
    ensures
        t matches TypeModel::Union(options) ==> type_parts(t) == type_texts(options),
        t matches TypeModel::Struct(fields) ==> type_parts(t) == type_field_texts(fields),
{
    reveal_with_fuel(type_parts, 3);
    match t {
        TypeModel::Union(options) => {
            assert(type_parts(t) =~= type_texts(options));
        },
        TypeModel::Struct(fields) => {
            assert(type_parts(t) =~= type_field_texts(fields));
        },
        _ => {},
    }
}

/// The numeral of a digit.
fn digit_str(digit: u8) -> (text: &'static str)
    requires
        digit <= 9,
    ensures
        text@ == digit_text(digit as nat),
{
    if digit == 0 {
        "0"
    } else if digit == 1 {
        "1"
    } else if digit == 2 {
        "2"
    } else if digit == 3 {
        "3"
    } else if digit == 4 {
        "4"
    } else if digit == 5 {
        "5"
    } else if digit == 6 {
        "6"
    } else if digit == 7 {
        "7"
    } else if digit == 8 {
        "8"
    } else {
        "9"
    }
}

/// Writes a natural number in base ten.
pub fn natural_to_text(n: u64) -> (text: String)
    ensures
        text@ == natural_text(n as nat),
    decreases n,
{
    if n < 10 {
        String::from_str(digit_str(n as u8))
    } else {
        let mut text = natural_to_text(n / 10);
        text.append(digit_str((n % 10) as u8));
        text
    }
}

/// Writes a whole number in base ten.
pub fn int_to_text(n: i64) -> (text: String)
    ensures
        text@ == int_text(n as int),
{
    if n < 0 {
        let magnitude: u64 = if n == i64::MIN {
            0x8000_0000_0000_0000
        } else {
            (-n) as u64
        };
        let mut text = String::from_str("-");
        let digits = natural_to_text(magnitude);
        text.append(digits.as_str());
        text
    } else {
        natural_to_text(n as u64)
    }
}

/// Writes the items between an opening and a closing text, each on a
/// line of its own.
pub fn list_to_syntax(items: &Vec<String>, left_bracket: &str, right_bracket: &str) -> (text:
    String)
    ensures
        text@ == enclosed(left_bracket@, cluster_views(items@), right_bracket@),
{
    let mut text = lines_to_syntax(items, left_bracket);
    text.append("\n");
    text.append(right_bracket);
    text.append(" ");
    text
}

/// Writes the opening text followed by the items, each on a line of its own.
fn lines_to_syntax(items: &Vec<String>, left_bracket: &str) -> (text: String)
    ensures
        text@ == lines(left_bracket@, cluster_views(items@), items@.len() as int),
{
    let mut text = String::from_str(left_bracket);
    let mut i: usize = 0;
    while i < items.len()
        invariant
            i <= items@.len(),
            text@ == lines(left_bracket@, cluster_views(items@), i as int),
        decreases items.len() - i,
    {
        text.append("\n ");
        text.append(items[i].as_str());
        text.append(" ");
        i += 1;
    }
    text
}

/// Writes the items in braces, with a comma and a space between each two.
fn braced_to_syntax(items: &Vec<String>) -> (text: String)
    ensures
        text@ == braced(cluster_views(items@)),
{
    let mut text = String::from_str("{");
    let ghost mut inner: Seq<char> = Seq::empty();
    let mut i: usize = 0;
    proof {
        assert("{"@ + inner =~= "{"@);
    }
    while i < items.len()
        invariant
            i <= items@.len(),
            inner == joined(cluster_views(items@), i as int),
            text@ == "{"@ + inner,
        decreases items.len() - i,
    {
        if i > 0 {
            text.append(", ");
        }
        text.append(items[i].as_str());
        proof {
            let item = cluster_views(items@)[i as int];
            if i > 0 {
                assert("{"@ + inner + ", "@ + item =~= "{"@ + (inner + ", "@ + item));
                inner = inner + ", "@ + item;
            } else {
                assert("{"@ + inner + item =~= "{"@ + item);
                inner = item;
            }
        }
        i += 1;
    }
    text.append("}");
    text
}

/// A name, a colon and a text.
fn entry_to_syntax(name: &str, text: &str) -> (entry: String)
    ensures
        entry@ == entry_text(name@, text@),
{
    let mut entry = String::from_str(name);
    entry.append(": ");
    entry.append(text);
    entry
}

/// Writes each of a sequence of data values.
fn data_to_texts(items: &Vec<DataValue>) -> (texts: Vec<String>)
    ensures
        cluster_views(texts@) == data_texts(data_views(items@)),
    decreases items,
{
    let mut texts: Vec<String> = Vec::new();
    let mut i: usize = 0;
    while i < items.len()
        invariant
            i <= items@.len(),
            texts@.len() == i,
            forall|j: int| 0 <= j < i ==> texts@[j]@ == data_syntax(items@[j]@),
        decreases items.len() - i,
    {
        proof {
            assert(decreases_to!(*items => items@[i as int]));
        }
        texts.push(items[i].to_syntax());
        i += 1;
    }
    assert(cluster_views(texts@) =~= data_texts(data_views(items@)));
    texts
}

/// Writes each of a sequence of instructions.
fn program_to_texts(body: &Vec<ProgramValue>) -> (texts: Vec<String>)
    ensures
        cluster_views(texts@) == program_texts(program_views(body@)),
    decreases body,
{
    let mut texts: Vec<String> = Vec::new();
    let mut i: usize = 0;
    while i < body.len()
        invariant
            i <= body@.len(),
            texts@.len() == i,
            forall|j: int| 0 <= j < i ==> texts@[j]@ == program_syntax(body@[j]@),
        decreases body.len() - i,
    {
        proof {
            assert(decreases_to!(*body => body@[i as int]));
        }
        texts.push(body[i].to_syntax());
        i += 1;
    }
    assert(cluster_views(texts@) =~= program_texts(program_views(body@)));
    texts
}

/// Writes each of a sequence of template entries.
fn template_to_texts(body: &Vec<TemplateValue>) -> (texts: Vec<String>)
    ensures
        cluster_views(texts@) == template_texts(template_views(body@)),
    decreases body,
{
    let mut texts: Vec<String> = Vec::new();
    let mut i: usize = 0;
    while i < body.len()
        invariant
            i <= body@.len(),
            texts@.len() == i,
            forall|j: int| 0 <= j < i ==> texts@[j]@ == template_value_syntax(body@[j]@),
        decreases body.len() - i,
    {
        proof {
            assert(decreases_to!(*body => body@[i as int]));
        }
        texts.push(body[i].to_syntax());
        i += 1;
    }
    assert(cluster_views(texts@) =~= template_texts(template_views(body@)));
    texts
}

/// Writes each of a sequence of named fields.
fn fields_to_texts(fields: &Vec<(String, DataValue)>) -> (texts: Vec<String>)
    ensures
        cluster_views(texts@) == field_texts(field_views(fields@)),
    decreases fields,
{
    let mut texts: Vec<String> = Vec::new();
    let mut i: usize = 0;
    while i < fields.len()
        invariant
            i <= fields@.len(),
            texts@.len() == i,
            forall|j: int|
                0 <= j < i ==> texts@[j]@ == entry_text(
                    fields@[j].0@,
                    data_syntax(fields@[j].1@),
                ),
        decreases fields.len() - i,
    {
        proof {
            assert(decreases_to!(*fields => fields@[i as int]));
            assert(decreases_to!(fields@[i as int] => fields@[i as int].1));
        }
        let value = fields[i].1.to_syntax();
        texts.push(entry_to_syntax(fields[i].0.as_str(), value.as_str()));
        i += 1;
    }
    assert(cluster_views(texts@) =~= field_texts(field_views(fields@)));
    texts
}

/// Writes each of a sequence of key and value pairs.
fn pairs_to_texts(pairs: &Vec<(DataValue, DataValue)>) -> (texts: Vec<String>)
    ensures
        cluster_views(texts@) == pair_texts(data_pair_views(pairs@)),
    decreases pairs,
{
    let mut texts: Vec<String> = Vec::new();
    let mut i: usize = 0;
    while i < pairs.len()
        invariant
            i <= pairs@.len(),
            texts@.len() == i,
            forall|j: int|
                0 <= j < i ==> texts@[j]@ == entry_text(
                    data_syntax(pairs@[j].0@),
                    data_syntax(pairs@[j].1@),
                ),
        decreases pairs.len() - i,
    {
        proof {
            assert(decreases_to!(*pairs => pairs@[i as int]));
            assert(decreases_to!(pairs@[i as int] => pairs@[i as int].0));
            assert(decreases_to!(pairs@[i as int] => pairs@[i as int].1));
        }
        let key = pairs[i].0.to_syntax();
        let value = pairs[i].1.to_syntax();
        texts.push(entry_to_syntax(key.as_str(), value.as_str()));
        i += 1;
    }
    assert(cluster_views(texts@) =~= pair_texts(data_pair_views(pairs@)));
    texts
}

/// Writes each of a sequence of pairs of template entries.
fn template_pairs_to_texts(pairs: &Vec<(TemplateValue, TemplateValue)>) -> (texts: Vec<String>)
    ensures
        cluster_views(texts@) == template_pair_texts(template_pair_views(pairs@)),
    decreases pairs,
{
    let mut texts: Vec<String> = Vec::new();
    let mut i: usize = 0;
    while i < pairs.len()
        invariant
            i <= pairs@.len(),
            texts@.len() == i,
            forall|j: int|
                0 <= j < i ==> texts@[j]@ == entry_text(
                    template_value_syntax(pairs@[j].0@),
                    template_value_syntax(pairs@[j].1@),
                ),
        decreases pairs.len() - i,
    {
        proof {
            assert(decreases_to!(*pairs => pairs@[i as int]));
            assert(decreases_to!(pairs@[i as int] => pairs@[i as int].0));
            assert(decreases_to!(pairs@[i as int] => pairs@[i as int].1));
        }
        let key = pairs[i].0.to_syntax();
        let value = pairs[i].1.to_syntax();
        texts.push(entry_to_syntax(key.as_str(), value.as_str()));
        i += 1;
    }
    assert(cluster_views(texts@) =~= template_pair_texts(template_pair_views(pairs@)));
    texts
}

/// Writes each of a sequence of types.
fn types_to_texts(options: &Vec<SidType>) -> (texts: Vec<String>)
    ensures
        cluster_views(texts@) == type_texts(type_views(options@)),
    decreases options,
{
    let mut texts: Vec<String> = Vec::new();
    let mut i: usize = 0;
    while i < options.len()
        invariant
            i <= options@.len(),
            texts@.len() == i,
            forall|j: int| 0 <= j < i ==> texts@[j]@ == type_syntax(options@[j]@),
        decreases options.len() - i,
    {
        proof {
            assert(decreases_to!(*options => options@[i as int]));
        }
        texts.push(options[i].to_syntax());
        i += 1;
    }
    assert(cluster_views(texts@) =~= type_texts(type_views(options@)));
    texts
}

/// Writes each of a sequence of named field types.
fn type_fields_to_texts(fields: &Vec<(String, SidType)>) -> (texts: Vec<String>)
    ensures
        cluster_views(texts@) == type_field_texts(field_type_views(fields@)),
    decreases fields,
{
    let mut texts: Vec<String> = Vec::new();
    let mut i: usize = 0;
    while i < fields.len()
        invariant
            i <= fields@.len(),
            texts@.len() == i,
            forall|j: int|
                0 <= j < i ==> texts@[j]@ == entry_text(
                    fields@[j].0@,
                    type_syntax(fields@[j].1@),
                ),
        decreases fields.len() - i,
    {
        proof {
            assert(decreases_to!(*fields => fields@[i as int]));
            assert(decreases_to!(fields@[i as int] => fields@[i as int].1));
        }
        let field_type = fields[i].1.to_syntax();
        texts.push(entry_to_syntax(fields[i].0.as_str(), field_type.as_str()));
        i += 1;
    }
    assert(cluster_views(texts@) =~= type_field_texts(field_type_views(fields@)));
    texts
}

/// Puts a text between two others.
fn between(left: &str, text: &str, right: &str) -> (whole: String)
    ensures
        whole@ == left@ + text@ + right@,
{
    let mut whole = String::from_str(left);
    whole.append(text);
    whole.append(right);
    whole
}

impl ToSyntax for DataValue {
    fn to_syntax(&self) -> (text: String)
        ensures
            text@ == data_syntax(self@),
        decreases self,
    {
        proof {
            lemma_data_view(*self);
            lemma_data_syntax(self@);
        }
        match self {
            DataValue::Bool(b) => {
                if *b {
                    String::from_str("true")
                } else {
                    String::from_str("false")
                }
            },
            DataValue::Int(n) => int_to_text(*n),
            DataValue::Float(text) => text.clone(),
            DataValue::Str(text) => between("\"", text.as_str(), "\""),
            DataValue::Char(text) => between("'", text.as_str(), "'"),
            DataValue::Substack(body) => list_to_syntax(&program_to_texts(body), "(", ")"),
            DataValue::Script(body) => list_to_syntax(&program_to_texts(body), "<", ">"),
            DataValue::List(items) => list_to_syntax(&data_to_texts(items), "[", "]"),
            DataValue::SetOf(items) => list_to_syntax(&data_to_texts(items), "{", "}"),
            DataValue::Struct(fields) => braced_to_syntax(&fields_to_texts(fields)),
            DataValue::Dict(pairs) => braced_to_syntax(&pairs_to_texts(pairs)),
            DataValue::BuiltIn(name) => name.clone(),
            DataValue::Type(t) => t.to_syntax(),
            DataValue::Label(name) => name.clone(),
        }
    }
}

impl ToSyntax for ProgramValue {
    fn to_syntax(&self) -> (text: String)
        ensures
            text@ == program_syntax(self@),
        decreases self,
    {
        match self {
            ProgramValue::Data(value) => value.to_syntax(),
            ProgramValue::Invoke => String::from_str("!"),
            ProgramValue::ComptimeInvoke => String::from_str("@!"),
            ProgramValue::Template(template) => template.data.to_syntax(),
        }
    }
}

impl ToSyntax for TemplateData {
    fn to_syntax(&self) -> (text: String)
        ensures
            text@ == template_data_syntax(self@),
        decreases self,
    {
        proof {
            lemma_template_data_view(*self);
            lemma_template_data_syntax(self@);
        }
        match self {
            TemplateData::Substack(body) => list_to_syntax(
                &template_to_texts(body),
                "(#Template",
                ")",
            ),
            TemplateData::Script(body) => list_to_syntax(
                &template_to_texts(body),
                "<#Template",
                ">",
            ),
            TemplateData::List(body) => list_to_syntax(
                &template_to_texts(body),
                "[#Template",
                "]",
            ),
            TemplateData::SetOf(body) => list_to_syntax(
                &template_to_texts(body),
                "{#Template",
                "}",
            ),
            TemplateData::Dict(pairs) => {
                let texts = template_pairs_to_texts(pairs);
                proof {
                    assert(cluster_views(texts@).len() == texts@.len());
                    assert(template_pair_texts(template_pair_views(pairs@)).len() == pairs@.len());
                }
                let mut text = lines_to_syntax(&texts, "{#Template");
                text.append("\n}");
                text
            },
        }
    }
}

impl ToSyntax for TemplateValue {
    fn to_syntax(&self) -> (text: String)
        ensures
            text@ == template_value_syntax(self@),
        decreases self,
    {
        match self {
            TemplateValue::ParentLabel(name) => {
                let mut text = String::from_str("$");
                text.append(name.as_str());
                text
            },
            TemplateValue::ParentStackMove(index) => {
                let mut text = String::from_str("$");
                text.append(natural_to_text(*index as u64).as_str());
                text
            },
            TemplateValue::Literal(value) => value.to_syntax(),
        }
    }
}

impl ToSyntax for SidType {
    fn to_syntax(&self) -> (text: String)
        ensures
            text@ == type_syntax(self@),
        decreases self,
    {
        proof {
            lemma_type_view(*self);
            lemma_type_syntax(self@);
        }
        match self {
            SidType::Bool => String::from_str("bool"),
            SidType::Int => String::from_str("int"),
            SidType::Float => String::from_str("float"),
            SidType::Char => String::from_str("char"),
            SidType::Str => String::from_str("str"),
            SidType::Label => String::from_str("label"),
            SidType::Any => String::from_str("Any"),
            SidType::List(element) => {
                let mut text = (**element).to_syntax();
                text.append(" list @!");
                text
            },
            SidType::Dict { key, value } => {
                let mut text = (**key).to_syntax();
                text.append(" ");
                text.append((**value).to_syntax().as_str());
                text.append(" map @!");
                text
            },
            SidType::Fn { args, ret } => {
                let mut text = (**args).to_syntax();
                text.append(" ");
                text.append((**ret).to_syntax().as_str());
                text.append(" fn_type @!");
                text
            },
            SidType::Literal(value) => (**value).to_syntax(),
            SidType::Union(options) => braced_to_syntax(&types_to_texts(options)),
            SidType::Struct(fields) => braced_to_syntax(&type_fields_to_texts(fields)),
        }
    }
}

} // verus!
