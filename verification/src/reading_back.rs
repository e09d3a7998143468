//! What is written out reads back as it was.
//!
//! The notation that values are written in is the notation that the parser
//! reads. Here that is shown of truth values, of whole numbers, of strings
//! without a double quote in them, and of lists of such values, however deep.
use crate::parse::{
    claimed_index, count_digits, count_dots, data, digits_value, find_key, find_quote,
    fits_number, label_at, larger, lemma_first_misfit, lemma_skip_bounds, number_at,
    skip_insignificant, string_at, template_at, text_between, value_at, values_from, ParseError,
    Sequence,
};
use crate::text::{is_insignificant, is_key, kind_of, Bracket, Kind};
use crate::to_syntax::{
    data_syntax, data_texts, digit_text, int_text, lemma_data_syntax, lines,
    natural_text,
};
use crate::types::{
    DataModel, ProgramModel, TemplateDataModel, TemplateModel, TemplateValueModel,
};
use vstd::prelude::*;

verus! {

/// Whether `input` holds `text` from `pos` on, one code point to a cluster.
pub open spec fn holds_text(input: Seq<Seq<char>>, pos: int, text: Seq<char>) -> bool {
    &&& 0 <= pos
    &&& pos + text.len() <= input.len()
    &&& forall|i: int| 0 <= i < text.len() ==> #[trigger] input[pos + i] == seq![text[i]]
}

/// Whether the text that `input` holds ends at `end`: with the input, or
/// with a cluster that ends a number.
pub open spec fn ends_at(input: Seq<Seq<char>>, end: int) -> bool {
    end == input.len() || (0 <= end < input.len() && is_key(kind_of(input[end])))
}

/// The numeral of a digit is one code point, and reads as that digit.
proof fn lemma_digit_reads_back(digit: nat)
    requires
        digit <= 9,
    ensures
        digit_text(digit).len() == 1,
        kind_of(digit_text(digit)) == Kind::Digit(digit as u8),
{
    reveal_strlit("0");
    reveal_strlit("1");
    reveal_strlit("2");
    reveal_strlit("3");
    reveal_strlit("4");
    reveal_strlit("5");
    reveal_strlit("6");
    reveal_strlit("7");
    reveal_strlit("8");
    reveal_strlit("9");
}

/// The digits of a natural number, one to a cluster, read as that number.
proof fn lemma_natural_reads_back(input: Seq<Seq<char>>, from: int, n: nat)
    requires
        holds_text(input, from, natural_text(n)),
    ensures
        natural_text(n).len() >= 1,
        digits_value(input, from, from + natural_text(n).len()) == n,
        count_digits(input, from, from + natural_text(n).len()) == natural_text(n).len(),
        count_dots(input, from, from + natural_text(n).len()) == 0,
        forall|j: int|
            from <= j < from + natural_text(n).len() ==> kind_of(#[trigger] input[j]) is Digit,
    decreases n,
{
    let text = natural_text(n);
    if n < 10 {
        lemma_digit_reads_back(n);
        assert(input[from + 0] == seq![text[0]]);
        assert(input[from] =~= digit_text(n));
        assert(digits_value(input, from, from) == 0);
        assert(count_digits(input, from, from) == 0);
        assert(count_dots(input, from, from) == 0);
    } else {
        let head = natural_text(n / 10);
        let last = digit_text(n % 10);
        lemma_digit_reads_back(n % 10);
        assert(text == head + last);
        assert forall|i: int| 0 <= i < head.len() implies #[trigger] input[from + i]
            == seq![head[i]] by {
            assert(text[i] == head[i]);
        }
        lemma_natural_reads_back(input, from, n / 10);
        let end = from + text.len();
        assert(end - 1 == from + head.len());
        assert(input[from + head.len()] == seq![text[head.len() as int]]);
        assert(text[head.len() as int] == last[0]);
        assert(input[end - 1] =~= last);
        assert forall|j: int| from <= j < end implies kind_of(#[trigger] input[j]) is Digit by {
            if j < end - 1 {
            }
        }
    }
}

/// Where no cluster from `pos` up to `end` ends a number and the text ends
/// at `end`, the number runs up to `end`.
proof fn lemma_runs_up_to(input: Seq<Seq<char>>, pos: int, end: int)
    requires
        0 <= pos <= end <= input.len(),
        forall|j: int| pos <= j < end ==> !is_key(kind_of(#[trigger] input[j])),
        ends_at(input, end),
    ensures
        find_key(input, pos) == end,
    decreases end - pos,
{
    if pos < end {
        lemma_runs_up_to(input, pos + 1, end);
    }
}

/// A whole number that is written out reads back as the number it was.
pub proof fn lemma_int_reads_back(input: Seq<Seq<char>>, pos: int, n: int, forbid_invoke: bool)
    requires
        i64::MIN <= n <= i64::MAX,
        holds_text(input, pos, data_syntax(DataModel::Int(n))),
        ends_at(input, pos + int_text(n).len()),
    ensures
        value_at(input, pos, forbid_invoke) == Ok::<(TemplateValueModel, int), ParseError>(
            (data(DataModel::Int(n)), pos + int_text(n).len()),
        ),
{
    let text = int_text(n);
    let end = pos + text.len();
    if n < 0 {
        reveal_strlit("-");
        let digits = natural_text((-n) as nat);
        assert(text == "-"@ + digits);
        assert(input[pos + 0] == seq![text[0]]);
        assert(input[pos] =~= "-"@);
        assert(kind_of(input[pos]) is Minus);
        assert forall|i: int| 0 <= i < digits.len() implies #[trigger] input[pos + 1 + i]
            == seq![digits[i]] by {
            assert(input[pos + (1 + i)] == seq![text[1 + i]]);
            assert(text[1 + i] == digits[i]);
        }
        lemma_natural_reads_back(input, pos + 1, (-n) as nat);
        assert forall|j: int| pos <= j < end implies !is_key(kind_of(#[trigger] input[j])) by {
            if j > pos {
                assert(kind_of(input[j]) is Digit);
            }
        }
        lemma_runs_up_to(input, pos, end);
        assert forall|j: int| pos <= j < end implies fits_number(input, pos, j) by {
            if j > pos {
                assert(kind_of(input[j]) is Digit);
            }
        }
        lemma_first_misfit(input, pos, pos, end, end);
        lemma_counts_after_sign(input, pos, end);
        assert(number_at(input, pos) == Ok::<(DataModel, int), ParseError>(
            (DataModel::Int(n), end),
        ));
    } else {
        lemma_natural_reads_back(input, pos, n as nat);
        assert(kind_of(input[pos]) is Digit);
        assert forall|j: int| pos <= j < end implies !is_key(kind_of(#[trigger] input[j])) by {
            assert(kind_of(input[j]) is Digit);
        }
        lemma_runs_up_to(input, pos, end);
        assert forall|j: int| pos <= j < end implies fits_number(input, pos, j) by {
            assert(kind_of(input[j]) is Digit);
        }
        lemma_first_misfit(input, pos, pos, end, end);
        assert(number_at(input, pos) == Ok::<(DataModel, int), ParseError>(
            (DataModel::Int(n), end),
        ));
    }
}

/// A sign ahead of the digits is neither a digit nor a dot.
proof fn lemma_counts_after_sign(input: Seq<Seq<char>>, pos: int, end: int)
    requires
        pos < end,
        kind_of(input[pos]) is Minus,
    ensures
        count_digits(input, pos, end) == count_digits(input, pos + 1, end),
        count_dots(input, pos, end) == count_dots(input, pos + 1, end),
    decreases end - pos,
{
    if pos + 1 < end {
        lemma_counts_after_sign(input, pos, end - 1);
    } else {
        assert(count_digits(input, pos, pos) == 0);
        assert(count_dots(input, pos, pos) == 0);
        assert(count_digits(input, pos + 1, end) == 0);
        assert(count_dots(input, pos + 1, end) == 0);
    }
}

/// The text of clusters that hold one code point each is those code points.
proof fn lemma_text_of_single_clusters(input: Seq<Seq<char>>, from: int, text: Seq<char>, k: int)
    requires
        holds_text(input, from, text),
        0 <= k <= text.len(),
    ensures
        text_between(input, from, from + k) == text.take(k),
    decreases k,
{
    if k > 0 {
        lemma_text_of_single_clusters(input, from, text, k - 1);
        assert(input[from + (k - 1)] == seq![text[k - 1]]);
        assert(text.take(k) =~= text.take(k - 1) + seq![text[k - 1]]);
    } else {
        assert(text.take(0) =~= Seq::<char>::empty());
    }
}

/// Where no cluster from `pos` up to `close` is a double quote and the one
/// at `close` is, the next quote from `pos` on stands at `close`.
proof fn lemma_next_quote(input: Seq<Seq<char>>, pos: int, close: int)
    requires
        0 <= pos <= close < input.len(),
        forall|j: int| pos <= j < close ==> !(kind_of(#[trigger] input[j]) is Quote),
        kind_of(input[close]) is Quote,
    ensures
        find_quote(input, pos) == close,
    decreases close - pos,
{
    if pos < close {
        lemma_next_quote(input, pos + 1, close);
    }
}

/// A string without a double quote in it that is written out reads back
/// as the string it was.
pub proof fn lemma_string_reads_back(
    input: Seq<Seq<char>>,
    pos: int,
    text: Seq<char>,
    forbid_invoke: bool,
)
    requires
        forall|i: int| 0 <= i < text.len() ==> text[i] != '"',
        holds_text(input, pos, data_syntax(DataModel::Str(text))),
    ensures
        value_at(input, pos, forbid_invoke) == Ok::<(TemplateValueModel, int), ParseError>(
            (data(DataModel::Str(text)), pos + text.len() + 2),
        ),
{
    reveal_strlit("\"");
    let written = data_syntax(DataModel::Str(text));
    assert(written == "\""@ + text + "\""@);
    assert(written.len() == text.len() + 2);
    let close = pos + 1 + text.len();
    assert(input[pos + 0] == seq![written[0]]);
    assert(input[pos] =~= "\""@);
    assert(input[pos + (text.len() + 1)] == seq![written[text.len() as int + 1]]);
    assert(input[close] =~= "\""@);
    assert forall|i: int| 0 <= i < text.len() implies #[trigger] input[pos + 1 + i]
        == seq![text[i]] by {
        assert(input[pos + (1 + i)] == seq![written[1 + i]]);
        assert(written[1 + i] == text[i]);
    }
    assert forall|j: int| pos + 1 <= j < close implies !(kind_of(#[trigger] input[j])
        is Quote) by {
        let i = j - (pos + 1);
        assert(input[pos + 1 + i] == seq![text[i]]);
    }
    lemma_next_quote(input, pos + 1, close);
    lemma_text_of_single_clusters(input, pos + 1, text, text.len() as int);
    assert(text.take(text.len() as int) =~= text);
    assert(string_at(input, pos) == Ok::<(Seq<char>, int), ParseError>((text, close + 1)));
}

/// Whether the first `k` items of a list can be read back.
pub open spec fn items_writable(value: DataModel, k: int) -> bool
    decreases value, k,
{
    match value {
        DataModel::List(items) => k <= 0 || k > items.len() || (items_writable(value, k - 1)
            && writable(items[k - 1])),
        _ => true,
    }
}

/// Whether a value is one of those that are shown here to read back as
/// they were written: truth values, whole numbers of 64 bits, strings
/// without a double quote, and lists of such values.
pub open spec fn writable(value: DataModel) -> bool
    decreases value, value_rank(value),
{
    match value {
        DataModel::Bool(_) => true,
        DataModel::Int(n) => i64::MIN <= n <= i64::MAX,
        DataModel::Str(text) => forall|i: int| 0 <= i < text.len() ==> text[i] != '"',
        DataModel::List(items) => items_writable(value, items.len() as int),
        _ => false,
    }
}

/// One more than the number of items of a list, and zero for any other value.
pub open spec fn value_rank(value: DataModel) -> int {
    match value {
        DataModel::List(items) => items.len() as int + 1,
        _ => 0,
    }
}

/// What the items of a written list read back as.
pub open spec fn read_back_items(value: DataModel) -> Seq<TemplateValueModel>
    decreases value, 0int,
{
    match value {
        DataModel::List(items) => Seq::new(
            items.len(),
            |i: int|
                if 0 <= i < items.len() {
                    read_back(items[i])
                } else {
                    data(DataModel::Bool(false))
                },
        ),
        _ => Seq::empty(),
    }
}

/// What a written value reads back as: a literal of the same value, and
/// for a list a list template of what its items read back as, which refers to
/// no stack entry.
pub open spec fn read_back(value: DataModel) -> TemplateValueModel
    decreases value, 1int,
{
    match value {
        DataModel::List(_) => TemplateValueModel::Literal(
            ProgramModel::Template(
                TemplateModel {
                    data: TemplateDataModel::List(read_back_items(value)),
                    consumes_stack_entries: 0,
                    comptime: false,
                },
            ),
        ),
        _ => data(value),
    }
}

/// How many clusters of a written value the parser takes for the value:
/// all of them, but for the blank that follows the closing bracket of a list.
pub open spec fn value_len(value: DataModel) -> int {
    if value is List {
        data_syntax(value).len() - 1
    } else {
        data_syntax(value).len() as int
    }
}

/// Each of the first `k` items of a list that can be read back can be.
proof fn lemma_item_writable(value: DataModel, k: int, i: int)
    requires
        value is List,
        0 <= i < k <= value->List_0.len(),
        items_writable(value, k),
    ensures
        writable(value->List_0[i]),
    decreases k,
{
    if i < k - 1 {
        lemma_item_writable(value, k - 1, i);
    }
}

/// The items of a written list read back one by one.
proof fn lemma_read_back_items(value: DataModel)
    requires
        value is List,
    ensures
        read_back_items(value).len() == value->List_0.len(),
        forall|i: int|
            0 <= i < value->List_0.len() ==> #[trigger] read_back_items(value)[i] == read_back(
                value->List_0[i],
            ),
{
    reveal_with_fuel(read_back_items, 3);
}

/// Where `input` holds two texts on end, it holds each.
proof fn lemma_holds_both(input: Seq<Seq<char>>, pos: int, first: Seq<char>, second: Seq<char>)
    requires
        holds_text(input, pos, first + second),
    ensures
        holds_text(input, pos, first),
        holds_text(input, pos + first.len(), second),
{
    let whole = first + second;
    assert forall|i: int| 0 <= i < first.len() implies #[trigger] input[pos + i]
        == seq![first[i]] by {
        assert(whole[i] == first[i]);
    }
    assert forall|i: int| 0 <= i < second.len() implies #[trigger] input[pos + first.len() + i]
        == seq![second[i]] by {
        assert(input[pos + (first.len() + i)] == seq![whole[first.len() + i]]);
        assert(whole[first.len() + i] == second[i]);
    }
}

/// Separators alone make no difference to where the next value begins.
proof fn lemma_skip_over(input: Seq<Seq<char>>, from: int, to: int)
    requires
        0 <= from <= to <= input.len(),
        forall|j: int| from <= j < to ==> is_insignificant(kind_of(#[trigger] input[j])),
    ensures
        skip_insignificant(input, from) == skip_insignificant(input, to),
    decreases to - from,
{
    if from < to {
        lemma_skip_over(input, from + 1, to);
    }
}

/// A truth value that is written out reads back as the value it was.
proof fn lemma_bool_reads_back(input: Seq<Seq<char>>, pos: int, b: bool, forbid_invoke: bool)
    requires
        holds_text(input, pos, data_syntax(DataModel::Bool(b))),
        ends_at(input, pos + data_syntax(DataModel::Bool(b)).len()),
    ensures
        value_at(input, pos, forbid_invoke) == Ok::<(TemplateValueModel, int), ParseError>(
            (data(DataModel::Bool(b)), pos + data_syntax(DataModel::Bool(b)).len()),
        ),
{
    reveal_strlit("true");
    reveal_strlit("false");
    let text = data_syntax(DataModel::Bool(b));
    let end = pos + text.len();
    assert forall|j: int| pos <= j < end implies !is_key(kind_of(#[trigger] input[j])) by {
        assert(input[pos + (j - pos)] == seq![text[j - pos]]);
    }
    assert(input[pos + 0] == seq![text[0]]);
    lemma_runs_up_to(input, pos, end);
    lemma_text_of_single_clusters(input, pos, text, text.len() as int);
    assert(text.take(text.len() as int) =~= text);
    if b {
        assert(text =~= seq!['t', 'r', 'u', 'e']);
    } else {
        assert(text =~= seq!['f', 'a', 'l', 's', 'e']);
    }
    assert(label_at(input, pos) == (DataModel::Bool(b), end));
}

/// A value of the kinds named under `writable` that is written out reads
/// back as the value it was: the parser makes of its text, one code point to
/// a cluster, what `read_back` says. A number or a truth value has to be
/// followed by the end of the text or by a cluster that ends it.
pub proof fn lemma_value_reads_back(
    input: Seq<Seq<char>>,
    pos: int,
    value: DataModel,
    forbid_invoke: bool,
)
    requires
        writable(value),
        holds_text(input, pos, data_syntax(value)),
        value is Int || value is Bool ==> ends_at(input, pos + data_syntax(value).len()),
    ensures
        value_at(input, pos, forbid_invoke) == Ok::<(TemplateValueModel, int), ParseError>(
            (read_back(value), pos + value_len(value)),
        ),
    decreases value, value_rank(value),
{
    match value {
        DataModel::Bool(b) => {
            lemma_bool_reads_back(input, pos, b, forbid_invoke);
        },
        DataModel::Int(n) => {
            lemma_int_reads_back(input, pos, n, forbid_invoke);
        },
        DataModel::Str(text) => {
            lemma_string_reads_back(input, pos, text, forbid_invoke);
            assert(data_syntax(value).len() == text.len() + 2) by {
                reveal_strlit("\"");
            }
        },
        DataModel::List(items) => {
            reveal_strlit("[");
            reveal_strlit("]");
            reveal_strlit("\n");
            reveal_strlit(" ");
            lemma_data_syntax(value);
            lemma_read_back_items(value);
            let texts = data_texts(items);
            let body = lines("["@, texts, items.len() as int);
            let written = data_syntax(value);
            assert(written == body + "\n"@ + "]"@ + " "@);
            lemma_lines_begin(texts, items.len() as int);
            assert(input[pos + 0] == seq![written[0]]);
            assert(written[0] == '[');
            assert(kind_of(input[pos]) == Kind::Open(Bracket::Square));
            lemma_items_read_back(input, pos, value, items.len() as int);
            let close = pos + body.len();
            assert(input[pos + body.len()] == seq![written[body.len() as int]]);
            assert(input[pos + (body.len() + 1)] == seq![written[body.len() as int + 1]]);
            assert(kind_of(input[close]) is Newline);
            assert(kind_of(input[close + 1]) == Kind::Close(Bracket::Square));
            lemma_skip_over(input, close, close + 1);
            lemma_skip_bounds(input, close + 1);
            assert(skip_insignificant(input, close + 1) == close + 1);
            let done = Sequence { values: read_back_items(value).take(items.len() as int), consumes: 0 };
            assert(read_back_items(value).take(items.len() as int) =~= read_back_items(value));
            assert(values_from(input, close, Some(Bracket::Square), false, done) == Ok::<
                (Sequence, int),
                ParseError,
            >((done, close + 2)));
            assert(template_at(input, pos, false) == Ok::<(TemplateModel, int), ParseError>(
                (
                    TemplateModel {
                        data: TemplateDataModel::List(read_back_items(value)),
                        consumes_stack_entries: 0,
                        comptime: false,
                    },
                    close + 2,
                ),
            ));
        },
        _ => {},
    }
}

/// The text of a list begins with its opening bracket, whatever follows.
proof fn lemma_lines_begin(texts: Seq<Seq<char>>, k: int)
    requires
        0 <= k,
    ensures
        lines("["@, texts, k).len() >= 1,
        lines("["@, texts, k)[0] == '[',
    decreases k,
{
    reveal_strlit("[");
    if k > 0 {
        lemma_lines_begin(texts, k - 1);
    }
}

/// Reading the items of a written list: after the first `k` of them the
/// parser stands behind their text and has taken them for what they read
/// back as.
proof fn lemma_items_read_back(input: Seq<Seq<char>>, pos: int, value: DataModel, k: int)
    requires
        value is List,
        0 <= k <= value->List_0.len(),
        writable(value),
        holds_text(input, pos, data_syntax(value)),
    ensures
        values_from(
            input,
            pos + 1,
            Some(Bracket::Square),
            false,
            Sequence { values: Seq::empty(), consumes: 0 },
        ) == values_from(
            input,
            pos + lines("["@, data_texts(value->List_0), k).len(),
            Some(Bracket::Square),
            false,
            Sequence { values: read_back_items(value).take(k), consumes: 0 },
        ),
    decreases value, k,
{
    reveal_strlit("[");
    reveal_strlit("]");
    reveal_strlit("\n");
    reveal_strlit("\n ");
    reveal_strlit(" ");
    let items = value->List_0;
    let texts = data_texts(items);
    lemma_data_syntax(value);
    lemma_read_back_items(value);
    if k == 0 {
        assert(lines("["@, texts, 0) == "["@);
        assert(read_back_items(value).take(0) =~= Seq::<TemplateValueModel>::empty());
    } else {
        lemma_items_read_back(input, pos, value, k - 1);
        lemma_item_writable(value, items.len() as int, k - 1);
        let item = items[k - 1];
        let before = lines("["@, texts, k - 1);
        let after = lines("["@, texts, k);
        let item_text = data_syntax(item);
        assert(texts[k - 1] == item_text);
        assert(after == before + "\n "@ + item_text + " "@);
        // The whole text is what stands up to the item, the item, and the rest.
        let written = data_syntax(value);
        lemma_lines_prefix(texts, k, items.len() as int);
        let rest = written.skip(after.len() as int);
        assert(written =~= after + rest);
        assert(written =~= (before + "\n "@) + (item_text + (" "@ + rest)));
        lemma_holds_both(input, pos, before + "\n "@, item_text + (" "@ + rest));
        lemma_holds_both(input, pos, before, "\n "@);
        let start = pos + before.len() + 2;
        assert((before + "\n "@).len() == before.len() + 2);
        lemma_holds_both(input, start, item_text, " "@ + rest);
        lemma_holds_both(input, start + item_text.len(), " "@, rest);
        let blank = start + item_text.len();
        assert(input[blank + 0] == seq![" "@[0]]);
        assert(kind_of(input[blank]) is Space);
        assert(input[pos + before.len() + 0] == seq!["\n "@[0]]);
        assert(input[pos + before.len() + 1] == seq!["\n "@[1]]);
        assert(kind_of(input[pos + before.len()]) is Newline);
        assert(kind_of(input[pos + before.len() + 1]) is Space);
        lemma_skip_over(input, pos + before.len(), start);
        lemma_value_begins(input, start, item);
        lemma_skip_bounds(input, start);
        assert(skip_insignificant(input, start) == start);
        lemma_value_reads_back(input, start, item, false);
        let next = start + value_len(item);
        // What is left of the item's text is a blank, or two after a list.
        assert forall|j: int| next <= j < blank + 1 implies is_insignificant(
            kind_of(#[trigger] input[j]),
        ) by {
            if j < blank {
                lemma_list_ends_blank(item);
                assert(input[start + (j - start)] == seq![item_text[j - start]]);
            }
        }
        let done = Sequence { values: read_back_items(value).take(k - 1), consumes: 0 };
        let more = Sequence {
            values: done.values.push(read_back(item)),
            consumes: larger(done.consumes, claimed_index(read_back(item))),
        };
        assert(more.values =~= read_back_items(value).take(k));
        assert(more.consumes == 0);
        assert(after.len() == before.len() + 2 + item_text.len() + 1);
        assert(blank + 1 == pos + after.len());
        assert(!(kind_of(input[start]) is Close));
        assert(values_from(input, pos + before.len(), Some(Bracket::Square), false, done)
            == values_from(input, next, Some(Bracket::Square), false, more));
        lemma_skip_over(input, next, blank + 1);
        assert(values_from(input, next, Some(Bracket::Square), false, more) == values_from(
            input,
            blank + 1,
            Some(Bracket::Square),
            false,
            more,
        ));
    }
}

/// The text up to the first `k` items of a list is the beginning of the
/// whole text of the list.
proof fn lemma_lines_prefix(texts: Seq<Seq<char>>, k: int, n: int)
    requires
        0 <= k <= n,
    ensures
        lines("["@, texts, k).len() <= lines("["@, texts, n).len(),
        lines("["@, texts, n).take(lines("["@, texts, k).len() as int) == lines("["@, texts, k),
    decreases n - k,
{
    if k < n {
        lemma_lines_prefix(texts, k, n - 1);
        let shorter = lines("["@, texts, n - 1);
        let longer = lines("["@, texts, n);
        assert(longer == shorter + "\n "@ + texts[n - 1] + " "@);
        assert(longer.take(lines("["@, texts, k).len() as int) =~= shorter.take(
            lines("["@, texts, k).len() as int,
        ));
    } else {
        assert(lines("["@, texts, k).take(lines("["@, texts, k).len() as int) =~= lines(
            "["@,
            texts,
            k,
        ));
    }
}

/// The text of a value that can be read back begins with a cluster that
/// begins a value, and not with a closing bracket.
proof fn lemma_value_begins(input: Seq<Seq<char>>, pos: int, value: DataModel)
    requires
        writable(value),
        holds_text(input, pos, data_syntax(value)),
    ensures
        data_syntax(value).len() >= 1,
        !is_insignificant(kind_of(input[pos])),
        !(kind_of(input[pos]) is Hash),
        !(kind_of(input[pos]) is Close),
{
    reveal_strlit("true");
    reveal_strlit("false");
    reveal_strlit("\"");
    reveal_strlit("-");
    let text = data_syntax(value);
    match value {
        DataModel::Int(n) => {
            if n < 0 {
                assert(text[0] == '-');
            } else {
                lemma_natural_begins(n as nat);
            }
        },
        DataModel::List(items) => {
            lemma_data_syntax(value);
            lemma_lines_begin(data_texts(items), items.len() as int);
            assert(text[0] == '[');
        },
        DataModel::Str(content) => {
            assert(text[0] == '"');
        },
        _ => {},
    }
    assert(input[pos + 0] == seq![text[0]]);
}

/// A numeral begins with a digit.
proof fn lemma_natural_begins(n: nat)
    ensures
        natural_text(n).len() >= 1,
        '0' <= natural_text(n)[0] <= '9',
    decreases n,
{
    if n < 10 {
        lemma_digit_reads_back(n);
        reveal_strlit("0");
        reveal_strlit("1");
        reveal_strlit("2");
        reveal_strlit("3");
        reveal_strlit("4");
        reveal_strlit("5");
        reveal_strlit("6");
        reveal_strlit("7");
        reveal_strlit("8");
        reveal_strlit("9");
    } else {
        lemma_natural_begins(n / 10);
    }
}

/// The text of a list ends with a blank.
proof fn lemma_list_ends_blank(value: DataModel)
    ensures
        value is List ==> data_syntax(value).len() >= 1 && data_syntax(value).last() == ' ',
{
    reveal_strlit(" ");
    if value is List {
        lemma_data_syntax(value);
    }
}

} // verus!
