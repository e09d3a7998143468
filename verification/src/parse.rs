//! The scanner and parser.
//!
//! Source text, cut into grapheme clusters, becomes a sequence of template
//! values together with the number of stack entries that the sequence refers
//! to: the largest index of a parent stack move that stands in the sequence
//! itself. A composite literal keeps its own count; what it refers to does
//! not count for the sequence around it.
use crate::text::{
    classify, cluster_views, grapheme_clusters, is_insignificant, is_key, kind_of, split_graphemes,
    str_equal, Bracket, Kind,
};
use crate::types::{
    template_pair_views, template_views, DataModel, DataValue, ProgramModel, ProgramValue, Template,
    TemplateDataModel, TemplateModel, TemplateValue, TemplateValueModel,
};
use vstd::prelude::*;
use vstd::string::StringExecFns;

verus! {

/// Why a text could not be parsed. Each failure names a position, counted
/// in clusters: where the construct that failed begins, where the cluster
/// stands that does not belong, or where something is missing.
#[derive(Debug, PartialEq, Eq, Clone, Copy, Structural)]
pub enum ParseError {
    /// A closing delimiter, a colon or a separator where a value was expected.
    UnexpectedDelimiter { at: usize },
    /// A string that is still open where the text ends.
    UnterminatedString { at: usize },
    /// A character literal that is not one cluster between two quotes.
    BadCharLiteral { at: usize },
    /// The text ends inside the composite literal, or where a value was due.
    RanOutOfInput { at: usize },
    /// A number with a second dot, a minus sign past its start, another
    /// sign or letter, or no digit at all.
    InvalidNumber { at: usize },
    /// A whole number outside the range of 64-bit signed integers.
    NumberOutOfRange { at: usize },
    /// A `$` with nothing after it, or with an index too large to address
    /// a stack entry.
    BadParentAccess { at: usize },
    /// An invoke where none is allowed.
    InvokeForbidden { at: usize },
    /// An `@` that is followed neither by `!` nor by a composite literal.
    BadAt { at: usize },
    /// A key of a map that is not followed by a colon.
    MissingColon { at: usize },
}

/// Why a string could not be read.
#[derive(Debug, PartialEq, Eq, Clone, Copy, Structural)]
pub enum ParseStringError {
    /// The string is still open where the text ends.
    UnterminatedString,
}

impl ParseStringError {
    /// What went wrong, in words.
    pub fn message(&self) -> (text: String)
        ensures
            text@ == "String doesn't end before the source code does."@,
    {
        match self {
            ParseStringError::UnterminatedString => String::from_str(
                "String doesn't end before the source code does.",
            ),
        }
    }
}

/// The text of the clusters from `from` up to `to`.
pub open spec fn text_between(input: Seq<Seq<char>>, from: int, to: int) -> Seq<char>
    decreases to - from,
{
    if to <= from {
        Seq::empty()
    } else {
        text_between(input, from, to - 1) + input[to - 1]
    }
}

/// The first position from `pos` on that holds a cluster which ends a
/// label, or the length of the input if there is none.
pub open spec fn find_key(input: Seq<Seq<char>>, pos: int) -> int
    decreases input.len() - pos,
{
    if pos >= input.len() || is_key(kind_of(input[pos])) {
        pos
    } else {
        find_key(input, pos + 1)
    }
}

/// The first position from `pos` on that holds a double quote, or the
/// length of the input if there is none.
pub open spec fn find_quote(input: Seq<Seq<char>>, pos: int) -> int
    decreases input.len() - pos,
{
    if pos >= input.len() || kind_of(input[pos]) is Quote {
        pos
    } else {
        find_quote(input, pos + 1)
    }
}

/// The position after the first line break from `pos` on, or the length
/// of the input if there is none.
pub open spec fn after_line(input: Seq<Seq<char>>, pos: int) -> int
    decreases input.len() - pos,
{
    if pos >= input.len() {
        pos
    } else if kind_of(input[pos]) is Newline {
        pos + 1
    } else {
        after_line(input, pos + 1)
    }
}

/// The three searches never go back.
pub proof fn lemma_search_bounds(input: Seq<Seq<char>>, pos: int)
    requires
        0 <= pos <= input.len(),
    ensures
        pos <= find_key(input, pos) <= input.len(),
        pos <= find_quote(input, pos) <= input.len(),
        pos <= after_line(input, pos) <= input.len(),
    decreases input.len() - pos,
{
    if pos < input.len() {
        lemma_search_bounds(input, pos + 1);
    }
}

/// The first position from `pos` on that holds a cluster which is part
/// of a value: separators are passed over, and so is a comment, from its `#`
/// to the end of its line.
pub open spec fn skip_insignificant(input: Seq<Seq<char>>, pos: int) -> int
    decreases input.len() - pos,
{
    if pos < 0 || pos >= input.len() {
        pos
    } else if is_insignificant(kind_of(input[pos])) {
        skip_insignificant(input, pos + 1)
    } else if kind_of(input[pos]) is Hash {
        proof {
            lemma_search_bounds(input, pos + 1);
        }
        skip_insignificant(input, after_line(input, pos + 1))
    } else {
        pos
    }
}

/// Skipping never goes back, and stops at the end or at a cluster that
/// is part of a value.
pub proof fn lemma_skip_bounds(input: Seq<Seq<char>>, pos: int)
    requires
        0 <= pos <= input.len(),
    ensures
        pos <= skip_insignificant(input, pos) <= input.len(),
        skip_insignificant(input, pos) < input.len() ==> {
            let kind = kind_of(input[skip_insignificant(input, pos)]);
            !is_insignificant(kind) && !(kind is Hash)
        },
    decreases input.len() - pos,
{
    if pos < input.len() {
        if is_insignificant(kind_of(input[pos])) {
            lemma_skip_bounds(input, pos + 1);
        } else if kind_of(input[pos]) is Hash {
            lemma_search_bounds(input, pos + 1);
            lemma_skip_bounds(input, after_line(input, pos + 1));
        }
    }
}

/// What a parser made of the input from some position on: a value and the
/// position after it, or a failure.
pub type Parsed<T> = Result<(T, int), ParseError>;

/// The string whose opening quote stands at `pos`: all up to the next
/// quote, as it stands.
pub open spec fn string_at(input: Seq<Seq<char>>, pos: int) -> Parsed<Seq<char>> {
    let close = find_quote(input, pos + 1);
    if close >= input.len() {
        Err(ParseError::UnterminatedString { at: pos as usize })
    } else {
        Ok((text_between(input, pos + 1, close), close + 1))
    }
}

/// The character literal whose opening quote stands at `pos`: one
/// cluster, whatever it is, and a closing quote.
pub open spec fn char_at(input: Seq<Seq<char>>, pos: int) -> Parsed<Seq<char>> {
    if pos + 2 < input.len() && kind_of(input[pos + 2]) is Tick {
        Ok((input[pos + 1], pos + 3))
    } else {
        Err(ParseError::BadCharLiteral { at: pos as usize })
    }
}

/// The label that begins at `pos`, or the truth value that it spells.
pub open spec fn label_at(input: Seq<Seq<char>>, pos: int) -> (DataModel, int) {
    let end = find_key(input, pos);
    let text = text_between(input, pos, end);
    if text == seq!['t', 'r', 'u', 'e'] {
        (DataModel::Bool(true), end)
    } else if text == seq!['f', 'a', 'l', 's', 'e'] {
        (DataModel::Bool(false), end)
    } else {
        (DataModel::Label(text), end)
    }
}

/// The number that the digits from `from` up to `to` spell in base ten.
/// A cluster that is no digit counts as zero.
pub open spec fn digits_value(input: Seq<Seq<char>>, from: int, to: int) -> nat
    decreases to - from,
{
    if to <= from {
        0
    } else {
        digits_value(input, from, to - 1) * 10 + digit_of(kind_of(input[to - 1]))
    }
}

/// The value of a digit, and zero for anything else.
pub open spec fn digit_of(kind: Kind) -> nat {
    match kind {
        Kind::Digit(d) => d as nat,
        _ => 0,
    }
}

/// How many of the clusters from `from` up to `to` are of the given kind.
pub open spec fn count_dots(input: Seq<Seq<char>>, from: int, to: int) -> nat
    decreases to - from,
{
    if to <= from {
        0
    } else if kind_of(input[to - 1]) is Dot {
        count_dots(input, from, to - 1) + 1
    } else {
        count_dots(input, from, to - 1)
    }
}

/// How many of the clusters from `from` up to `to` are digits.
pub open spec fn count_digits(input: Seq<Seq<char>>, from: int, to: int) -> nat
    decreases to - from,
{
    if to <= from {
        0
    } else if kind_of(input[to - 1]) is Digit {
        count_digits(input, from, to - 1) + 1
    } else {
        count_digits(input, from, to - 1)
    }
}

/// Whether the cluster at `k` may stand in a number that begins at `pos`:
/// a digit, a minus sign at the very start, or the first dot.
pub open spec fn fits_number(input: Seq<Seq<char>>, pos: int, k: int) -> bool {
    match kind_of(input[k]) {
        Kind::Digit(_) => true,
        Kind::Minus => k == pos,
        Kind::Dot => count_dots(input, pos, k) == 0,
        _ => false,
    }
}

/// The first position from `k` up to `end` whose cluster may not stand in
/// the number that begins at `pos`, or `end` if there is none.
pub open spec fn first_misfit(input: Seq<Seq<char>>, pos: int, k: int, end: int) -> int
    decreases end - k,
{
    if k >= end || !fits_number(input, pos, k) {
        k
    } else {
        first_misfit(input, pos, k + 1, end)
    }
}

/// The number that begins at `pos`. It runs up to the next cluster that
/// ends a label. With a dot it is a floating-point number, kept as it is
/// written; without one it is a whole number.
pub open spec fn number_at(input: Seq<Seq<char>>, pos: int) -> Parsed<DataModel> {
    let end = find_key(input, pos);
    let misfit = first_misfit(input, pos, pos, end);
    let digits_from = if kind_of(input[pos]) is Minus {
        pos + 1
    } else {
        pos
    };
    let magnitude = digits_value(input, digits_from, end);
    if misfit < end {
        Err(ParseError::InvalidNumber { at: misfit as usize })
    } else if count_digits(input, pos, end) == 0 {
        Err(ParseError::InvalidNumber { at: pos as usize })
    } else if count_dots(input, pos, end) > 0 {
        Ok((DataModel::Float(text_between(input, pos, end)), end))
    } else if kind_of(input[pos]) is Minus {
        if magnitude > 0x8000_0000_0000_0000 {
            Err(ParseError::NumberOutOfRange { at: pos as usize })
        } else {
            Ok((DataModel::Int(-magnitude), end))
        }
    } else if magnitude > 0x7fff_ffff_ffff_ffff {
        Err(ParseError::NumberOutOfRange { at: pos as usize })
    } else {
        Ok((DataModel::Int(magnitude as int), end))
    }
}

/// The parent reference whose `$` stands at `pos`. It runs up to the next
/// cluster that ends a label. Digits alone make it a claim on a stack entry,
/// anything else a label to look up.
pub open spec fn parent_access_at(input: Seq<Seq<char>>, pos: int) -> Parsed<
    TemplateValueModel,
> {
    let end = find_key(input, pos + 1);
    if end == pos + 1 {
        Err(ParseError::BadParentAccess { at: pos as usize })
    } else if count_digits(input, pos + 1, end) == end - (pos + 1) {
        if digits_value(input, pos + 1, end) > usize::MAX {
            Err(ParseError::BadParentAccess { at: pos as usize })
        } else {
            Ok((TemplateValueModel::ParentStackMove(digits_value(input, pos + 1, end)), end))
        }
    } else {
        Ok((TemplateValueModel::ParentLabel(text_between(input, pos + 1, end)), end))
    }
}

/// Whether the body of a brace literal, read from `pos` on, holds a colon
/// of its own: one that stands in no string, character literal or comment
/// and in no composite literal inside it. `depth` says how many composite
/// literals are open at `pos`.
pub open spec fn holds_colon(input: Seq<Seq<char>>, pos: int, depth: nat) -> bool
    decreases input.len() - pos,
{
    if pos < 0 || pos >= input.len() {
        false
    } else {
        match kind_of(input[pos]) {
            Kind::Colon => depth == 0 || holds_colon(input, pos + 1, depth),
            Kind::Open(_) => holds_colon(input, pos + 1, depth + 1),
            Kind::Close(_) => depth > 0 && holds_colon(input, pos + 1, (depth - 1) as nat),
            Kind::Quote => {
                proof {
                    lemma_search_bounds(input, pos + 1);
                }
                find_quote(input, pos + 1) < input.len() && holds_colon(
                    input,
                    find_quote(input, pos + 1) + 1,
                    depth,
                )
            },
            Kind::Tick => pos + 3 <= input.len() && holds_colon(input, pos + 3, depth),
            Kind::Hash => {
                proof {
                    lemma_search_bounds(input, pos + 1);
                }
                holds_colon(input, after_line(input, pos + 1), depth)
            },
            _ => holds_colon(input, pos + 1, depth),
        }
    }
}

/// The index that a template value claims, and zero for one that claims none.
pub open spec fn claimed_index(value: TemplateValueModel) -> nat {
    match value {
        TemplateValueModel::ParentStackMove(index) => index,
        _ => 0,
    }
}

/// The larger of two counts.
pub open spec fn larger(a: nat, b: nat) -> nat {
    if a >= b {
        a
    } else {
        b
    }
}

/// A sequence of values with the number of stack entries it refers to.
pub struct Sequence {
    pub values: Seq<TemplateValueModel>,
    pub consumes: nat,
}

/// The pairs of a map body with the number of stack entries they refer to.
pub struct Pairs {
    pub pairs: Seq<(TemplateValueModel, TemplateValueModel)>,
    pub consumes: nat,
}

/// A literal value.
pub open spec fn data(value: DataModel) -> TemplateValueModel {
    TemplateValueModel::Literal(ProgramModel::Data(value))
}

/// The value that begins at `pos`, which holds a cluster that is part of
/// a value.
pub open spec fn value_at(input: Seq<Seq<char>>, pos: int, forbid_invoke: bool) -> Parsed<
    TemplateValueModel,
>
    decreases input.len() - pos, 1int,
{
    if pos < 0 || pos >= input.len() {
        Err(ParseError::RanOutOfInput { at: pos as usize })
    } else {
        match kind_of(input[pos]) {
            Kind::Close(_) | Kind::Colon | Kind::Space | Kind::Newline | Kind::Comma
            | Kind::Hash => Err(ParseError::UnexpectedDelimiter { at: pos as usize }),
            Kind::Quote => match string_at(input, pos) {
                Ok((text, next)) => Ok((data(DataModel::Str(text)), next)),
                Err(error) => Err(error),
            },
            Kind::Tick => match char_at(input, pos) {
                Ok((cluster, next)) => Ok((data(DataModel::Char(cluster)), next)),
                Err(error) => Err(error),
            },
            Kind::Open(_) => match template_at(input, pos, false) {
                Ok((template, next)) => Ok(
                    (TemplateValueModel::Literal(ProgramModel::Template(template)), next),
                ),
                Err(error) => Err(error),
            },
            Kind::Bang => if forbid_invoke {
                Err(ParseError::InvokeForbidden { at: pos as usize })
            } else {
                Ok((TemplateValueModel::Literal(ProgramModel::Invoke), pos + 1))
            },
            Kind::At => if pos + 1 < input.len() && kind_of(input[pos + 1]) is Bang {
                if forbid_invoke {
                    Err(ParseError::InvokeForbidden { at: pos as usize })
                } else {
                    Ok((TemplateValueModel::Literal(ProgramModel::ComptimeInvoke), pos + 2))
                }
            } else if pos + 1 < input.len() && kind_of(input[pos + 1]) is Open {
                match template_at(input, pos + 1, true) {
                    Ok((template, next)) => Ok(
                        (TemplateValueModel::Literal(ProgramModel::Template(template)), next),
                    ),
                    Err(error) => Err(error),
                }
            } else {
                Err(ParseError::BadAt { at: pos as usize })
            },
            Kind::Dollar => parent_access_at(input, pos),
            Kind::Digit(_) | Kind::Minus => match number_at(input, pos) {
                Ok((number, next)) => Ok((data(number), next)),
                Err(error) => Err(error),
            },
            _ => Ok((data(label_at(input, pos).0), label_at(input, pos).1)),
        }
    }
}

/// The composite literal whose opening delimiter stands at `pos`.
pub open spec fn template_at(input: Seq<Seq<char>>, pos: int, comptime: bool) -> Parsed<
    TemplateModel,
>
    decreases input.len() - pos, 0int,
{
    if pos < 0 || pos >= input.len() {
        Err(ParseError::RanOutOfInput { at: pos as usize })
    } else {
        match kind_of(input[pos]) {
            Kind::Open(Bracket::Curly) => if holds_colon(input, pos + 1, 0) {
                match pairs_from(
                    input,
                    pos + 1,
                    Pairs { pairs: Seq::empty(), consumes: 0 },
                ) {
                    Ok((body, next)) => Ok(
                        (
                            TemplateModel {
                                data: TemplateDataModel::Dict(body.pairs),
                                consumes_stack_entries: body.consumes,
                                comptime,
                            },
                            next,
                        ),
                    ),
                    Err(error) => Err(error),
                }
            } else {
                match values_from(
                    input,
                    pos + 1,
                    Some(Bracket::Curly),
                    false,
                    Sequence { values: Seq::empty(), consumes: 0 },
                ) {
                    Ok((body, next)) => Ok(
                        (
                            TemplateModel {
                                data: TemplateDataModel::SetOf(body.values),
                                consumes_stack_entries: body.consumes,
                                comptime,
                            },
                            next,
                        ),
                    ),
                    Err(error) => Err(error),
                }
            },
            Kind::Open(bracket) => match values_from(
                input,
                pos + 1,
                Some(bracket),
                false,
                Sequence { values: Seq::empty(), consumes: 0 },
            ) {
                Ok((body, next)) => Ok(
                    (
                        TemplateModel {
                            data: match bracket {
                                Bracket::Round => TemplateDataModel::Substack(body.values),
                                Bracket::Square => TemplateDataModel::List(body.values),
                                _ => TemplateDataModel::Script(body.values),
                            },
                            consumes_stack_entries: body.consumes,
                            comptime,
                        },
                        next,
                    ),
                ),
                Err(error) => Err(error),
            },
            _ => Err(ParseError::UnexpectedDelimiter { at: pos as usize }),
        }
    }
}

/// The values from `pos` on, after those in `done`, up to the closing
/// delimiter of `terminator`, or up to the end of the input where there is
/// none to wait for.
pub open spec fn values_from(
    input: Seq<Seq<char>>,
    pos: int,
    terminator: Option<Bracket>,
    forbid_invoke: bool,
    done: Sequence,
) -> Parsed<Sequence>
    decreases input.len() - pos, 2int,
{
    if pos < 0 || pos > input.len() {
        Err(ParseError::RanOutOfInput { at: pos as usize })
    } else {
        let start = skip_insignificant(input, pos);
        proof {
            lemma_skip_bounds(input, pos);
        }
        if start >= input.len() {
            if terminator is None {
                Ok((done, start))
            } else {
                Err(ParseError::RanOutOfInput { at: start as usize })
            }
        } else if terminator matches Some(bracket) && kind_of(input[start]) == Kind::Close(
            bracket,
        ) {
            Ok((done, start + 1))
        } else {
            match value_at(input, start, forbid_invoke) {
                Err(error) => Err(error),
                // A value takes at least one cluster and ends within the input,
                // so the next test never fails; it is what shows that the
                // definition is well-founded.
                Ok((value, next)) => if next <= start || next > input.len() {
                    Err(ParseError::RanOutOfInput { at: start as usize })
                } else {
                    values_from(
                        input,
                        next,
                        terminator,
                        forbid_invoke,
                        Sequence {
                            values: done.values.push(value),
                            consumes: larger(done.consumes, claimed_index(value)),
                        },
                    )
                },
            }
        }
    }
}

/// The pairs of a map body from `pos` on, after those in `done`, up to
/// the closing brace. A pair is a key, a colon and a value.
pub open spec fn pairs_from(input: Seq<Seq<char>>, pos: int, done: Pairs) -> Parsed<Pairs>
    decreases input.len() - pos, 2int,
{
    if pos < 0 || pos > input.len() {
        Err(ParseError::RanOutOfInput { at: pos as usize })
    } else {
        let start = skip_insignificant(input, pos);
        proof {
            lemma_skip_bounds(input, pos);
        }
        if start >= input.len() {
            Err(ParseError::RanOutOfInput { at: start as usize })
        } else if kind_of(input[start]) == Kind::Close(Bracket::Curly) {
            Ok((done, start + 1))
        } else {
            match value_at(input, start, false) {
                Err(error) => Err(error),
                // As for a sequence of values: a key takes at least one cluster,
                // and so does a value.
                Ok((key, after_key)) => if after_key <= start || after_key > input.len() {
                    Err(ParseError::RanOutOfInput { at: start as usize })
                } else {
                    let colon = skip_insignificant(input, after_key);
                    proof {
                        lemma_skip_bounds(input, after_key);
                    }
                    if colon >= input.len() {
                        Err(ParseError::RanOutOfInput { at: colon as usize })
                    } else if !(kind_of(input[colon]) is Colon) {
                        Err(ParseError::MissingColon { at: colon as usize })
                    } else {
                        let value_start = skip_insignificant(input, colon + 1);
                        proof {
                            lemma_skip_bounds(input, colon + 1);
                        }
                        if value_start >= input.len() {
                            Err(ParseError::RanOutOfInput { at: value_start as usize })
                        } else {
                            match value_at(input, value_start, false) {
                                Err(error) => Err(error),
                                Ok((value, next)) => if next <= value_start || next
                                    > input.len() {
                                    Err(ParseError::RanOutOfInput { at: value_start as usize })
                                } else {
                                    pairs_from(
                                        input,
                                        next,
                                        Pairs {
                                            pairs: done.pairs.push((key, value)),
                                            consumes: larger(
                                                done.consumes,
                                                larger(claimed_index(key), claimed_index(value)),
                                            ),
                                        },
                                    )
                                },
                            }
                        }
                    }
                },
            }
        }
    }
}

/// What a whole text parses to: its values, and the number of stack
/// entries they refer to.
pub open spec fn parsed(input: Seq<Seq<char>>) -> Result<Sequence, ParseError> {
    match values_from(input, 0, None, false, Sequence { values: Seq::empty(), consumes: 0 }) {
        Ok((sequence, _)) => Ok(sequence),
        Err(error) => Err(error),
    }
}

/// Whether a cluster ends a label, a number or a parent reference.
pub fn is_key_char(cluster: &str) -> (key: bool)
    ensures
        key == is_key(kind_of(cluster@)),
{
    match classify(cluster) {
        Kind::Space | Kind::Newline | Kind::Comma => true,
        Kind::Bang | Kind::Hash | Kind::Colon | Kind::Close(_) => true,
        _ => false,
    }
}

/// What the cluster at `pos` means to the scanner.
fn kind_at(input: &Vec<String>, pos: usize) -> (kind: Kind)
    requires
        pos < input@.len(),
    ensures
        kind == kind_of(cluster_views(input@)[pos as int]),
{
    classify(input[pos].as_str())
}

/// The position after the first line break from `pos` on.
fn line_end(input: &Vec<String>, pos: usize) -> (end: usize)
    requires
        pos <= input@.len(),
    ensures
        end == after_line(cluster_views(input@), pos as int),
        pos <= end <= input@.len(),
{
    let mut i = pos;
    while i < input.len()
        invariant
            pos <= i <= input@.len(),
            after_line(cluster_views(input@), pos as int) == after_line(
                cluster_views(input@),
                i as int,
            ),
        decreases input.len() - i,
    {
        match kind_at(input, i) {
            Kind::Newline => {
                return i + 1;
            },
            _ => {},
        }
        i += 1;
    }
    i
}

/// The first position from `pos` on whose cluster is part of a value.
fn skip(input: &Vec<String>, pos: usize) -> (start: usize)
    requires
        pos <= input@.len(),
    ensures
        start == skip_insignificant(cluster_views(input@), pos as int),
        pos <= start <= input@.len(),
{
    let mut i = pos;
    while i < input.len()
        invariant
            pos <= i <= input@.len(),
            skip_insignificant(cluster_views(input@), pos as int) == skip_insignificant(
                cluster_views(input@),
                i as int,
            ),
        decreases input.len() - i,
    {
        match kind_at(input, i) {
            Kind::Space | Kind::Newline | Kind::Comma => {
                i += 1;
            },
            Kind::Hash => {
                i = line_end(input, i + 1);
            },
            _ => {
                return i;
            },
        }
    }
    i
}

/// Reads the string whose opening quote stands at `pos`, and says where
/// the text goes on after its closing quote.
pub fn parse_string(input: &Vec<String>, pos: usize) -> (result: Result<
    (String, usize),
    ParseStringError,
>)
    requires
        pos < input@.len(),
        kind_of(cluster_views(input@)[pos as int]) is Quote,
    ensures
        match result {
            Ok((text, next)) => string_at(cluster_views(input@), pos as int) == Ok::<
                (Seq<char>, int),
                ParseError,
            >((text@, next as int)) && pos < next <= input@.len(),
            Err(_) => string_at(cluster_views(input@), pos as int) is Err,
        },
{
    let ghost clusters = cluster_views(input@);
    let mut text = String::new();
    let length = input.len();
    let mut i = pos + 1;
    while i < length
        invariant
            pos < i <= input@.len(),
            clusters == cluster_views(input@),
            text@ == text_between(clusters, pos + 1, i as int),
            length == input@.len(),
            find_quote(clusters, pos + 1) == find_quote(clusters, i as int),
        decreases length - i,
    {
        match kind_at(input, i) {
            Kind::Quote => {
                return Ok((text, i + 1));
            },
            _ => {
                text.append(input[i].as_str());
            },
        }
        i += 1;
    }
    Err(ParseStringError::UnterminatedString)
}

/// Reads the character literal whose opening quote stands at `pos`.
pub fn parse_char(input: &Vec<String>, pos: usize) -> (result: Result<(String, usize), ParseError>)
    requires
        pos < input@.len(),
    ensures
        match result {
            Ok((cluster, next)) => char_at(cluster_views(input@), pos as int) == Ok::<
                (Seq<char>, int),
                ParseError,
            >((cluster@, next as int)) && pos < next <= input@.len(),
            Err(error) => char_at(cluster_views(input@), pos as int) == Err::<
                (Seq<char>, int),
                ParseError,
            >(error),
        },
{
    if input.len() - pos > 2 {
        match kind_at(input, pos + 2) {
            Kind::Tick => {
                return Ok((input[pos + 1].clone(), pos + 3));
            },
            _ => {},
        }
    }
    Err(ParseError::BadCharLiteral { at: pos })
}

/// Reads the label that begins at `pos`. The spellings `true` and
/// `false` give the truth values.
pub fn parse_label(input: &Vec<String>, pos: usize) -> (result: (DataValue, usize))
    requires
        pos < input@.len(),
        !is_key(kind_of(cluster_views(input@)[pos as int])),
    ensures
        (result.0@, result.1 as int) == label_at(cluster_views(input@), pos as int),
        pos < result.1 <= input@.len(),
{
    let ghost clusters = cluster_views(input@);
    let mut text = String::new();
    let mut i = pos;
    while i < input.len() && !is_key_char(input[i].as_str())
        invariant
            pos <= i <= input@.len(),
            clusters == cluster_views(input@),
            text@ == text_between(clusters, pos as int, i as int),
            find_key(clusters, pos as int) == find_key(clusters, i as int),
        decreases input.len() - i,
    {
        text.append(input[i].as_str());
        i += 1;
    }
    proof {
        reveal_strlit("true");
        reveal_strlit("false");
        assert("true"@ =~= seq!['t', 'r', 'u', 'e']);
        assert("false"@ =~= seq!['f', 'a', 'l', 's', 'e']);
    }
    if str_equal(text.as_str(), "true") {
        (DataValue::Bool(true), i)
    } else if str_equal(text.as_str(), "false") {
        (DataValue::Bool(false), i)
    } else {
        (DataValue::Label(text), i)
    }
}

/// Where every cluster from `k` up to `m` may stand in the number and the
/// one at `m` may not, or `m` is the end, `m` is the first misfit.
pub proof fn lemma_first_misfit(input: Seq<Seq<char>>, pos: int, k: int, end: int, m: int)
    requires
        k <= m <= end,
        forall|j: int| k <= j < m ==> fits_number(input, pos, j),
        m == end || !fits_number(input, pos, m),
    ensures
        first_misfit(input, pos, k, end) == m,
    decreases m - k,
{
    if k < m {
        lemma_first_misfit(input, pos, k + 1, end, m);
    }
}

/// One more digit on the right of a number, with room for it checked
/// against `limit`.
fn push_digit(value: u64, digit: u8, limit: u64) -> (pushed: Option<u64>)
    requires
        digit <= 9,
        value <= limit,
    ensures
        match pushed {
            Some(new_value) => new_value == value * 10 + digit && new_value <= limit,
            None => value * 10 + digit > limit,
        },
{
    if limit < digit as u64 || value > (limit - digit as u64) / 10 {
        None
    } else {
        Some(value * 10 + digit as u64)
    }
}

/// Reads the number that begins at `pos`.
pub fn parse_number(input: &Vec<String>, pos: usize) -> (result: Result<
    (DataValue, usize),
    ParseError,
>)
    requires
        pos < input@.len(),
        kind_of(cluster_views(input@)[pos as int]) is Digit || kind_of(
            cluster_views(input@)[pos as int],
        ) is Minus,
    ensures
        match result {
            Ok((number, next)) => number_at(cluster_views(input@), pos as int) == Ok::<
                (DataModel, int),
                ParseError,
            >((number@, next as int)) && pos < next <= input@.len(),
            Err(error) => number_at(cluster_views(input@), pos as int) == Err::<
                (DataModel, int),
                ParseError,
            >(error),
        },
{
    let ghost clusters = cluster_views(input@);
    let length = input.len();
    let negative = match kind_at(input, pos) {
        Kind::Minus => true,
        _ => false,
    };
    let ghost digits_from: int = if negative {
        pos + 1
    } else {
        pos as int
    };
    let limit: u64 = 0x8000_0000_0000_0000;
    let mut text = String::new();
    let mut seen_dot = false;
    let mut any_digit = false;
    let mut magnitude: u64 = 0;
    let mut too_big = false;
    let mut i = pos;
    while i < length && !is_key_char(input[i].as_str())
        invariant
            pos <= i <= length,
            length == input@.len(),
            clusters == cluster_views(input@),
            limit == 0x8000_0000_0000_0000,
            negative == (kind_of(clusters[pos as int]) is Minus),
            digits_from == (if negative {
                pos + 1
            } else {
                pos as int
            }),
            text@ == text_between(clusters, pos as int, i as int),
            find_key(clusters, pos as int) == find_key(clusters, i as int),
            forall|j: int| pos <= j < i ==> fits_number(clusters, pos as int, j),
            seen_dot == (count_dots(clusters, pos as int, i as int) > 0),
            any_digit == (count_digits(clusters, pos as int, i as int) > 0),
            !too_big ==> magnitude == digits_value(clusters, digits_from, i as int)
                && magnitude <= limit,
            too_big ==> digits_value(clusters, digits_from, i as int) > limit,
        decreases length - i,
    {
        let digit: u8 = match kind_at(input, i) {
            Kind::Digit(d) => {
                any_digit = true;
                d
            },
            Kind::Minus => {
                if i != pos {
                    proof {
                        lemma_search_bounds(clusters, i + 1);
                        lemma_first_misfit(
                            clusters,
                            pos as int,
                            pos as int,
                            find_key(clusters, pos as int),
                            i as int,
                        );
                    }
                    return Err(ParseError::InvalidNumber { at: i });
                }
                0
            },
            Kind::Dot => {
                if seen_dot {
                    proof {
                        lemma_search_bounds(clusters, i + 1);
                        lemma_first_misfit(
                            clusters,
                            pos as int,
                            pos as int,
                            find_key(clusters, pos as int),
                            i as int,
                        );
                    }
                    return Err(ParseError::InvalidNumber { at: i });
                }
                seen_dot = true;
                0
            },
            _ => {
                proof {
                    lemma_search_bounds(clusters, i + 1);
                    lemma_first_misfit(
                        clusters,
                        pos as int,
                        pos as int,
                        find_key(clusters, pos as int),
                        i as int,
                    );
                }
                return Err(ParseError::InvalidNumber { at: i });
            },
        };
        if !too_big && !(negative && i == pos) {
            match push_digit(magnitude, digit, limit) {
                Some(pushed) => {
                    magnitude = pushed;
                },
                None => {
                    too_big = true;
                },
            }
        }
        text.append(input[i].as_str());
        i += 1;
    }
    proof {
        lemma_first_misfit(clusters, pos as int, pos as int, i as int, i as int);
    }
    if !any_digit {
        Err(ParseError::InvalidNumber { at: pos })
    } else if seen_dot {
        Ok((DataValue::Float(text), i))
    } else if negative {
        if too_big {
            Err(ParseError::NumberOutOfRange { at: pos })
        } else if magnitude == limit {
            Ok((DataValue::Int(i64::MIN), i))
        } else {
            Ok((DataValue::Int(-(magnitude as i64)), i))
        }
    } else if too_big || magnitude == limit {
        Err(ParseError::NumberOutOfRange { at: pos })
    } else {
        Ok((DataValue::Int(magnitude as i64), i))
    }
}

/// Reads the parent reference whose `$` stands at `pos`.
pub fn parse_parent_access(input: &Vec<String>, pos: usize) -> (result: Result<
    (TemplateValue, usize),
    ParseError,
>)
    requires
        pos < input@.len(),
    ensures
        match result {
            Ok((value, next)) => parent_access_at(cluster_views(input@), pos as int) == Ok::<
                (TemplateValueModel, int),
                ParseError,
            >((value@, next as int)) && pos < next <= input@.len(),
            Err(error) => parent_access_at(cluster_views(input@), pos as int) == Err::<
                (TemplateValueModel, int),
                ParseError,
            >(error),
        },
{
    let ghost clusters = cluster_views(input@);
    let length = input.len();
    let limit: u64 = usize::MAX as u64;
    let mut text = String::new();
    let mut all_digits = true;
    let mut index: u64 = 0;
    let mut too_big = false;
    let mut i = pos + 1;
    while i < length && !is_key_char(input[i].as_str())
        invariant
            pos < i <= length,
            length == input@.len(),
            clusters == cluster_views(input@),
            limit == usize::MAX,
            text@ == text_between(clusters, pos + 1, i as int),
            find_key(clusters, pos + 1) == find_key(clusters, i as int),
            all_digits == (count_digits(clusters, pos + 1, i as int) == i - (pos + 1)),
            count_digits(clusters, pos + 1, i as int) <= i - (pos + 1),
            all_digits && !too_big ==> index == digits_value(clusters, pos + 1, i as int)
                && index <= limit,
            all_digits && too_big ==> digits_value(clusters, pos + 1, i as int) > limit,
        decreases length - i,
    {
        match kind_at(input, i) {
            Kind::Digit(d) => {
                if all_digits && !too_big {
                    match push_digit(index, d, limit) {
                        Some(pushed) => {
                            index = pushed;
                        },
                        None => {
                            too_big = true;
                        },
                    }
                }
            },
            _ => {
                all_digits = false;
            },
        }
        text.append(input[i].as_str());
        i += 1;
    }
    if i == pos + 1 {
        Err(ParseError::BadParentAccess { at: pos })
    } else if all_digits {
        if too_big {
            Err(ParseError::BadParentAccess { at: pos })
        } else {
            Ok((TemplateValue::ParentStackMove(index as usize), i))
        }
    } else {
        Ok((TemplateValue::ParentLabel(text), i))
    }
}

/// Whether the body of a brace literal, which begins at `pos`, holds a
/// colon of its own.
fn body_holds_colon(input: &Vec<String>, pos: usize) -> (found: bool)
    requires
        pos <= input@.len(),
    ensures
        found == holds_colon(cluster_views(input@), pos as int, 0),
{
    let ghost clusters = cluster_views(input@);
    let length = input.len();
    let mut depth: usize = 0;
    let mut i = pos;
    while i < length
        invariant
            pos <= i <= length,
            length == input@.len(),
            clusters == cluster_views(input@),
            depth <= i - pos,
            holds_colon(clusters, pos as int, 0) == holds_colon(clusters, i as int, depth as nat),
        decreases length - i,
    {
        match kind_at(input, i) {
            Kind::Colon => {
                if depth == 0 {
                    return true;
                }
                i += 1;
            },
            Kind::Open(_) => {
                depth += 1;
                i += 1;
            },
            Kind::Close(_) => {
                if depth == 0 {
                    return false;
                }
                depth -= 1;
                i += 1;
            },
            Kind::Quote => {
                match parse_string(input, i) {
                    Ok((_, next)) => {
                        i = next;
                    },
                    Err(_) => {
                        return false;
                    },
                }
            },
            Kind::Tick => {
                if length - i < 3 {
                    return false;
                }
                i += 3;
            },
            Kind::Hash => {
                i = line_end(input, i + 1);
            },
            _ => {
                i += 1;
            },
        }
    }
    false
}

/// The index that a template value claims, and zero for one that claims none.
fn index_claimed(value: &TemplateValue) -> (index: usize)
    ensures
        index == claimed_index(value@),
{
    match value {
        TemplateValue::ParentStackMove(index) => *index,
        _ => 0,
    }
}

/// Reads the value that begins at `pos`.
fn parse_value(input: &Vec<String>, pos: usize, forbid_invoke: bool) -> (result: Result<
    (TemplateValue, usize),
    ParseError,
>)
    requires
        pos < input@.len(),
    ensures
        match result {
            Ok((value, next)) => value_at(cluster_views(input@), pos as int, forbid_invoke)
                == Ok::<(TemplateValueModel, int), ParseError>((value@, next as int)) && pos
                < next <= input@.len(),
            Err(error) => value_at(cluster_views(input@), pos as int, forbid_invoke) == Err::<
                (TemplateValueModel, int),
                ParseError,
            >(error),
        },
    decreases input@.len() - pos, 1int,
{
    let length = input.len();
    match kind_at(input, pos) {
        Kind::Close(_) | Kind::Colon | Kind::Space | Kind::Newline | Kind::Comma
        | Kind::Hash => Err(ParseError::UnexpectedDelimiter { at: pos }),
        Kind::Quote => match parse_string(input, pos) {
            Ok((text, next)) => Ok(
                (TemplateValue::Literal(ProgramValue::Data(DataValue::Str(text))), next),
            ),
            Err(_) => Err(ParseError::UnterminatedString { at: pos }),
        },
        Kind::Tick => match parse_char(input, pos) {
            Ok((cluster, next)) => Ok(
                (TemplateValue::Literal(ProgramValue::Data(DataValue::Char(cluster))), next),
            ),
            Err(error) => Err(error),
        },
        Kind::Open(_) => match parse_template(input, pos, false) {
            Ok((template, next)) => Ok(
                (TemplateValue::Literal(ProgramValue::Template(template)), next),
            ),
            Err(error) => Err(error),
        },
        Kind::Bang => {
            if forbid_invoke {
                Err(ParseError::InvokeForbidden { at: pos })
            } else {
                Ok((TemplateValue::Literal(ProgramValue::Invoke), pos + 1))
            }
        },
        Kind::At => {
            if length - pos < 2 {
                return Err(ParseError::BadAt { at: pos });
            }
            match kind_at(input, pos + 1) {
                Kind::Bang => {
                    if forbid_invoke {
                        Err(ParseError::InvokeForbidden { at: pos })
                    } else {
                        Ok((TemplateValue::Literal(ProgramValue::ComptimeInvoke), pos + 2))
                    }
                },
                Kind::Open(_) => match parse_template(input, pos + 1, true) {
                    Ok((template, next)) => Ok(
                        (TemplateValue::Literal(ProgramValue::Template(template)), next),
                    ),
                    Err(error) => Err(error),
                },
                _ => Err(ParseError::BadAt { at: pos }),
            }
        },
        Kind::Dollar => parse_parent_access(input, pos),
        Kind::Digit(_) | Kind::Minus => match parse_number(input, pos) {
            Ok((number, next)) => Ok((TemplateValue::Literal(ProgramValue::Data(number)), next)),
            Err(error) => Err(error),
        },
        _ => {
            let (label, next) = parse_label(input, pos);
            Ok((TemplateValue::Literal(ProgramValue::Data(label)), next))
        },
    }
}

/// Reads the composite literal whose opening delimiter stands at `pos`.
/// Round brackets enclose a substack, square brackets a list, angle
/// brackets a script. Braces enclose a map where their body holds a colon
/// of its own, and a set where it does not.
pub fn parse_template(input: &Vec<String>, pos: usize, comptime: bool) -> (result: Result<
    (Template, usize),
    ParseError,
>)
    requires
        pos < input@.len(),
    ensures
        match result {
            Ok((template, next)) => template_at(cluster_views(input@), pos as int, comptime)
                == Ok::<(TemplateModel, int), ParseError>((template@, next as int)) && pos
                < next <= input@.len(),
            Err(error) => template_at(cluster_views(input@), pos as int, comptime) == Err::<
                (TemplateModel, int),
                ParseError,
            >(error),
        },
    decreases input@.len() - pos, 0int,
{
    let length = input.len();
    let bracket = match kind_at(input, pos) {
        Kind::Open(bracket) => bracket,
        _ => {
            return Err(ParseError::UnexpectedDelimiter { at: pos });
        },
    };
    let in_map = match bracket {
        Bracket::Curly => body_holds_colon(input, pos + 1),
        _ => false,
    };
    if in_map {
        match parse_pairs(input, pos + 1) {
            Err(error) => Err(error),
            Ok((pairs, consumes, next)) => {
                let template = Template::map(pairs, consumes);
                let template = if comptime {
                    template.mark_comptime()
                } else {
                    template
                };
                Ok((template, next))
            },
        }
    } else {
        match parse_template_values(input, pos + 1, Some(bracket), false) {
            Err(error) => Err(error),
            Ok((values, consumes, next)) => {
                let template = match bracket {
                    Bracket::Round => Template::substack((values, consumes)),
                    Bracket::Square => Template::list((values, consumes)),
                    Bracket::Curly => Template::set((values, consumes)),
                    Bracket::Angle => Template::script((values, consumes)),
                };
                let template = if comptime {
                    template.mark_comptime()
                } else {
                    template
                };
                Ok((template, next))
            },
        }
    }
}

/// Reads values from `pos` on, up to the closing delimiter of
/// `terminator` or, where there is none, up to the end of the input. Gives
/// the values, the number of stack entries they refer to, and the position
/// at which the text goes on.
pub fn parse_template_values(
    input: &Vec<String>,
    pos: usize,
    terminator: Option<Bracket>,
    forbid_invoke: bool,
) -> (result: Result<(Vec<TemplateValue>, usize, usize), ParseError>)
    requires
        pos <= input@.len(),
    ensures
        match result {
            Ok((values, consumes, next)) => values_from(
                cluster_views(input@),
                pos as int,
                terminator,
                forbid_invoke,
                Sequence { values: Seq::empty(), consumes: 0 },
            ) == Ok::<(Sequence, int), ParseError>(
                (
                    Sequence { values: template_views(values@), consumes: consumes as nat },
                    next as int,
                ),
            ) && pos <= next <= input@.len() && (terminator is Some ==> pos < next),
            Err(error) => values_from(
                cluster_views(input@),
                pos as int,
                terminator,
                forbid_invoke,
                Sequence { values: Seq::empty(), consumes: 0 },
            ) == Err::<(Sequence, int), ParseError>(error),
        },
    decreases input@.len() - pos, 2int,
{
    let ghost clusters = cluster_views(input@);
    let ghost whole = values_from(
        clusters,
        pos as int,
        terminator,
        forbid_invoke,
        Sequence { values: Seq::empty(), consumes: 0 },
    );
    let length = input.len();
    let mut values: Vec<TemplateValue> = Vec::new();
    let mut consumes: usize = 0;
    let mut i = pos;
    proof {
        assert(template_views(values@) =~= Seq::<TemplateValueModel>::empty());
    }
    loop
        invariant
            pos <= i <= length,
            length == input@.len(),
            clusters == cluster_views(input@),
            whole == values_from(
                clusters,
                pos as int,
                terminator,
                forbid_invoke,
                Sequence { values: Seq::empty(), consumes: 0 },
            ),
            whole == values_from(
                clusters,
                i as int,
                terminator,
                forbid_invoke,
                Sequence { values: template_views(values@), consumes: consumes as nat },
            ),
        decreases length - i,
    {
        let start = skip(input, i);
        if start >= length {
            return match terminator {
                None => Ok((values, consumes, start)),
                Some(_) => Err(ParseError::RanOutOfInput { at: start }),
            };
        }
        let kind = kind_at(input, start);
        match (terminator, kind) {
            (Some(bracket), Kind::Close(found)) => {
                if bracket == found {
                    return Ok((values, consumes, start + 1));
                }
            },
            _ => {},
        }
        match parse_value(input, start, forbid_invoke) {
            Err(error) => {
                return Err(error);
            },
            Ok((value, next)) => {
                let index = index_claimed(&value);
                if index > consumes {
                    consumes = index;
                }
                proof {
                    assert(template_views(values@.push(value)) =~= template_views(values@).push(
                        value@,
                    ));
                }
                values.push(value);
                i = next;
            },
        }
    }
}

/// Reads the pairs of a map body from `pos` on, up to the closing brace.
fn parse_pairs(input: &Vec<String>, pos: usize) -> (result: Result<
    (Vec<(TemplateValue, TemplateValue)>, usize, usize),
    ParseError,
>)
    requires
        pos <= input@.len(),
    ensures
        match result {
            Ok((pairs, consumes, next)) => pairs_from(
                cluster_views(input@),
                pos as int,
                Pairs { pairs: Seq::empty(), consumes: 0 },
            ) == Ok::<(Pairs, int), ParseError>(
                (
                    Pairs { pairs: template_pair_views(pairs@), consumes: consumes as nat },
                    next as int,
                ),
            ) && pos < next <= input@.len(),
            Err(error) => pairs_from(
                cluster_views(input@),
                pos as int,
                Pairs { pairs: Seq::empty(), consumes: 0 },
            ) == Err::<(Pairs, int), ParseError>(error),
        },
    decreases input@.len() - pos, 2int,
{
    let ghost clusters = cluster_views(input@);
    let ghost whole = pairs_from(
        clusters,
        pos as int,
        Pairs { pairs: Seq::empty(), consumes: 0 },
    );
    let length = input.len();
    let mut pairs: Vec<(TemplateValue, TemplateValue)> = Vec::new();
    let mut consumes: usize = 0;
    let mut i = pos;
    proof {
        assert(template_pair_views(pairs@) =~= Seq::<
            (TemplateValueModel, TemplateValueModel),
        >::empty());
    }
    loop
        invariant
            pos <= i <= length,
            length == input@.len(),
            clusters == cluster_views(input@),
            whole == pairs_from(clusters, pos as int, Pairs { pairs: Seq::empty(), consumes: 0 }),
            whole == pairs_from(
                clusters,
                i as int,
                Pairs { pairs: template_pair_views(pairs@), consumes: consumes as nat },
            ),
        decreases length - i,
    {
        let start = skip(input, i);
        if start >= length {
            return Err(ParseError::RanOutOfInput { at: start });
        }
        match kind_at(input, start) {
            Kind::Close(Bracket::Curly) => {
                return Ok((pairs, consumes, start + 1));
            },
            _ => {},
        }
        let (key, after_key) = match parse_value(input, start, false) {
            Err(error) => {
                return Err(error);
            },
            Ok(parsed) => parsed,
        };
        let colon = skip(input, after_key);
        if colon >= length {
            return Err(ParseError::RanOutOfInput { at: colon });
        }
        match kind_at(input, colon) {
            Kind::Colon => {},
            _ => {
                return Err(ParseError::MissingColon { at: colon });
            },
        }
        let value_start = skip(input, colon + 1);
        if value_start >= length {
            return Err(ParseError::RanOutOfInput { at: value_start });
        }
        let (value, next) = match parse_value(input, value_start, false) {
            Err(error) => {
                return Err(error);
            },
            Ok(parsed) => parsed,
        };
        let key_index = index_claimed(&key);
        if key_index > consumes {
            consumes = key_index;
        }
        let value_index = index_claimed(&value);
        if value_index > consumes {
            consumes = value_index;
        }
        proof {
            assert(template_pair_views(pairs@.push((key, value))) =~= template_pair_views(
                pairs@,
            ).push((key@, value@)));
        }
        pairs.push((key, value));
        i = next;
    }
}

/// Reads a sequence of values in which invokes are allowed.
pub fn parse_program_sequence(input: &Vec<String>, pos: usize, terminator: Option<Bracket>) -> (result:
    Result<(Vec<TemplateValue>, usize, usize), ParseError>)
    requires
        pos <= input@.len(),
    ensures
        match result {
            Ok((values, consumes, next)) => values_from(
                cluster_views(input@),
                pos as int,
                terminator,
                false,
                Sequence { values: Seq::empty(), consumes: 0 },
            ) == Ok::<(Sequence, int), ParseError>(
                (
                    Sequence { values: template_views(values@), consumes: consumes as nat },
                    next as int,
                ),
            ) && pos <= next <= input@.len(),
            Err(error) => values_from(
                cluster_views(input@),
                pos as int,
                terminator,
                false,
                Sequence { values: Seq::empty(), consumes: 0 },
            ) == Err::<(Sequence, int), ParseError>(error),
        },
{
    parse_template_values(input, pos, terminator, false)
}

/// Reads the next value from `pos` on, after what separates it from what
/// came before. Gives nothing where the text ends before a value begins.
pub fn parse_template_value(input: &Vec<String>, pos: usize, forbid_invoke: bool) -> (result:
    Result<Option<(TemplateValue, usize)>, ParseError>)
    requires
        pos <= input@.len(),
    ensures
        ({
            let start = skip_insignificant(cluster_views(input@), pos as int);
            match result {
                Ok(None) => start >= input@.len(),
                Ok(Some((value, next))) => start < input@.len() && value_at(
                    cluster_views(input@),
                    start,
                    forbid_invoke,
                ) == Ok::<(TemplateValueModel, int), ParseError>((value@, next as int)) && pos
                    < next <= input@.len(),
                Err(error) => start < input@.len() && value_at(
                    cluster_views(input@),
                    start,
                    forbid_invoke,
                ) == Err::<(TemplateValueModel, int), ParseError>(error),
            }
        }),
{
    let start = skip(input, pos);
    if start >= input.len() {
        return Ok(None);
    }
    match parse_value(input, start, forbid_invoke) {
        Ok(parsed) => Ok(Some(parsed)),
        Err(error) => Err(error),
    }
}

/// The view of what parsing gives.
pub open spec fn parse_result_view(result: Result<(Vec<TemplateValue>, usize), ParseError>)
    -> Result<Sequence, ParseError> {
    match result {
        Ok((values, consumes)) => Ok(
            Sequence { values: template_views(values@), consumes: consumes as nat },
        ),
        Err(error) => Err(error),
    }
}

/// Parses a text that is given as its grapheme clusters. Gives the values
/// of the text and the number of stack entries they refer to.
pub fn parse(input: &Vec<String>) -> (result: Result<(Vec<TemplateValue>, usize), ParseError>)
    ensures
        parse_result_view(result) == parsed(cluster_views(input@)),
{
    match parse_template_values(input, 0, None, false) {
        Ok((values, consumes, _)) => Ok((values, consumes)),
        Err(error) => Err(error),
    }
}

/// Parses a text: cuts it into grapheme clusters and parses those.
pub fn parse_str(text: &str) -> (result: Result<(Vec<TemplateValue>, usize), ParseError>)
    ensures
        parse_result_view(result) == parsed(grapheme_clusters(text@)),
{
    let input = split_graphemes(text);
    parse(&input)
}

/// The largest index that a parent stack move in `values` claims, and
/// zero where there is none.
pub open spec fn largest_index(values: Seq<TemplateValueModel>) -> nat
    decreases values.len(),
{
    if values.len() == 0 {
        0
    } else {
        larger(largest_index(values.drop_last()), claimed_index(values.last()))
    }
}

/// The largest index that a parent stack move among the keys and values
/// of `pairs` claims, and zero where there is none.
pub open spec fn largest_pair_index(pairs: Seq<(TemplateValueModel, TemplateValueModel)>) -> nat
    decreases pairs.len(),
{
    if pairs.len() == 0 {
        0
    } else {
        larger(
            largest_pair_index(pairs.drop_last()),
            larger(claimed_index(pairs.last().0), claimed_index(pairs.last().1)),
        )
    }
}

/// The number of stack entries that a parsed sequence is said to refer to
/// is the largest index that stands in the sequence itself.
pub proof fn lemma_sequence_counts_its_indices(
    input: Seq<Seq<char>>,
    pos: int,
    terminator: Option<Bracket>,
    forbid_invoke: bool,
    done: Sequence,
)
    requires
        values_from(input, pos, terminator, forbid_invoke, done) is Ok,
        done.consumes == largest_index(done.values),
    ensures
        ({
            let sequence = values_from(input, pos, terminator, forbid_invoke, done)->Ok_0.0;
            sequence.consumes == largest_index(sequence.values)
        }),
    decreases input.len() - pos,
{
    let start = skip_insignificant(input, pos);
    lemma_skip_bounds(input, pos);
    if start < input.len() && !(terminator matches Some(bracket) && kind_of(input[start])
        == Kind::Close(bracket)) {
        let (value, next) = value_at(input, start, forbid_invoke)->Ok_0;
        let more = Sequence {
            values: done.values.push(value),
            consumes: larger(done.consumes, claimed_index(value)),
        };
        assert(more.values.drop_last() =~= done.values);
        lemma_sequence_counts_its_indices(input, next, terminator, forbid_invoke, more);
    }
}

/// The number of stack entries that the pairs of a parsed map are said to
/// refer to is the largest index among their keys and values.
pub proof fn lemma_pairs_count_their_indices(input: Seq<Seq<char>>, pos: int, done: Pairs)
    requires
        pairs_from(input, pos, done) is Ok,
        done.consumes == largest_pair_index(done.pairs),
    ensures
        ({
            let body = pairs_from(input, pos, done)->Ok_0.0;
            body.consumes == largest_pair_index(body.pairs)
        }),
    decreases input.len() - pos,
{
    let start = skip_insignificant(input, pos);
    lemma_skip_bounds(input, pos);
    if start < input.len() && kind_of(input[start]) != Kind::Close(Bracket::Curly) {
        let (key, after_key) = value_at(input, start, false)->Ok_0;
        let colon = skip_insignificant(input, after_key);
        lemma_skip_bounds(input, after_key);
        let value_start = skip_insignificant(input, colon + 1);
        lemma_skip_bounds(input, colon + 1);
        let (value, next) = value_at(input, value_start, false)->Ok_0;
        let more = Pairs {
            pairs: done.pairs.push((key, value)),
            consumes: larger(
                done.consumes,
                larger(claimed_index(key), claimed_index(value)),
            ),
        };
        assert(more.pairs.drop_last() =~= done.pairs);
        lemma_pairs_count_their_indices(input, next, more);
    }
}

/// What a whole text is said to refer to is the largest index that
/// stands in the text itself, outside every composite literal.
pub proof fn lemma_text_counts_its_indices(input: Seq<Seq<char>>)
    requires
        parsed(input) is Ok,
    ensures
        parsed(input)->Ok_0.consumes == largest_index(parsed(input)->Ok_0.values),
{
    lemma_sequence_counts_its_indices(
        input,
        0,
        None,
        false,
        Sequence { values: Seq::empty(), consumes: 0 },
    );
}

/// What a parsed composite literal is said to refer to is the largest
/// index that stands in its own body.
pub proof fn lemma_template_counts_its_indices(input: Seq<Seq<char>>, pos: int, comptime: bool)
    requires
        template_at(input, pos, comptime) is Ok,
    ensures
        ({
            let template = template_at(input, pos, comptime)->Ok_0.0;
            template.consumes_stack_entries == match template.data {
                TemplateDataModel::Substack(body) => largest_index(body),
                TemplateDataModel::Script(body) => largest_index(body),
                TemplateDataModel::List(body) => largest_index(body),
                TemplateDataModel::SetOf(body) => largest_index(body),
                TemplateDataModel::Dict(pairs) => largest_pair_index(pairs),
            }
        }),
{
    match kind_of(input[pos]) {
        Kind::Open(Bracket::Curly) => {
            if holds_colon(input, pos + 1, 0) {
                lemma_pairs_count_their_indices(
                    input,
                    pos + 1,
                    Pairs { pairs: Seq::empty(), consumes: 0 },
                );
            } else {
                lemma_sequence_counts_its_indices(
                    input,
                    pos + 1,
                    Some(Bracket::Curly),
                    false,
                    Sequence { values: Seq::empty(), consumes: 0 },
                );
            }
        },
        Kind::Open(bracket) => {
            lemma_sequence_counts_its_indices(
                input,
                pos + 1,
                Some(bracket),
                false,
                Sequence { values: Seq::empty(), consumes: 0 },
            );
        },
        _ => {},
    }
}

/// A value takes at least one cluster, and ends within the input.
pub proof fn lemma_value_advances(input: Seq<Seq<char>>, pos: int, forbid_invoke: bool)
    requires
        value_at(input, pos, forbid_invoke) is Ok,
    ensures
        pos < value_at(input, pos, forbid_invoke)->Ok_0.1 <= input.len(),
    decreases input.len() - pos, 1int,
{
    lemma_search_bounds(input, pos + 1);
    match kind_of(input[pos]) {
        Kind::Open(_) => {
            lemma_template_advances(input, pos, false);
        },
        Kind::At => {
            if kind_of(input[pos + 1]) is Open {
                lemma_template_advances(input, pos + 1, true);
            }
        },
        Kind::Dollar => {
            if pos + 2 <= input.len() {
                lemma_search_bounds(input, pos + 2);
            }
        },
        _ => {},
    }
}

/// A composite literal takes at least one cluster, and ends within the input.
pub proof fn lemma_template_advances(input: Seq<Seq<char>>, pos: int, comptime: bool)
    requires
        template_at(input, pos, comptime) is Ok,
    ensures
        pos < template_at(input, pos, comptime)->Ok_0.1 <= input.len(),
    decreases input.len() - pos, 0int,
{
    match kind_of(input[pos]) {
        Kind::Open(Bracket::Curly) => {
            if holds_colon(input, pos + 1, 0) {
                lemma_pairs_advance(input, pos + 1, Pairs { pairs: Seq::empty(), consumes: 0 });
            } else {
                lemma_values_advance(
                    input,
                    pos + 1,
                    Some(Bracket::Curly),
                    false,
                    Sequence { values: Seq::empty(), consumes: 0 },
                );
            }
        },
        Kind::Open(bracket) => {
            lemma_values_advance(
                input,
                pos + 1,
                Some(bracket),
                false,
                Sequence { values: Seq::empty(), consumes: 0 },
            );
        },
        _ => {},
    }
}

/// A sequence of values ends within the input, and not before it begins.
pub proof fn lemma_values_advance(
    input: Seq<Seq<char>>,
    pos: int,
    terminator: Option<Bracket>,
    forbid_invoke: bool,
    done: Sequence,
)
    requires
        values_from(input, pos, terminator, forbid_invoke, done) is Ok,
    ensures
        pos <= values_from(input, pos, terminator, forbid_invoke, done)->Ok_0.1 <= input.len(),
    decreases input.len() - pos, 2int,
{
    let start = skip_insignificant(input, pos);
    lemma_skip_bounds(input, pos);
    if start < input.len() && !(terminator matches Some(bracket) && kind_of(input[start])
        == Kind::Close(bracket)) {
        let (value, next) = value_at(input, start, forbid_invoke)->Ok_0;
        lemma_values_advance(
            input,
            next,
            terminator,
            forbid_invoke,
            Sequence {
                values: done.values.push(value),
                consumes: larger(done.consumes, claimed_index(value)),
            },
        );
    }
}

/// The pairs of a map body end within the input, and not before they begin.
pub proof fn lemma_pairs_advance(input: Seq<Seq<char>>, pos: int, done: Pairs)
    requires
        pairs_from(input, pos, done) is Ok,
    ensures
        pos <= pairs_from(input, pos, done)->Ok_0.1 <= input.len(),
    decreases input.len() - pos, 2int,
{
    let start = skip_insignificant(input, pos);
    lemma_skip_bounds(input, pos);
    if start < input.len() && kind_of(input[start]) != Kind::Close(Bracket::Curly) {
        let (key, after_key) = value_at(input, start, false)->Ok_0;
        let colon = skip_insignificant(input, after_key);
        lemma_skip_bounds(input, after_key);
        let value_start = skip_insignificant(input, colon + 1);
        lemma_skip_bounds(input, colon + 1);
        let (value, next) = value_at(input, value_start, false)->Ok_0;
        lemma_pairs_advance(
            input,
            next,
            Pairs {
                pairs: done.pairs.push((key, value)),
                consumes: larger(
                    done.consumes,
                    larger(claimed_index(key), claimed_index(value)),
                ),
            },
        );
    }
}

} // verus!
