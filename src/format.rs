//! The column layout of a batch: a comma-separated list of field names, each
//! with an optional date or time format.

use vstd::prelude::*;
use crate::text::{chars_of, find_char, find_in, split_chars, sub_chars, trim_text, lowercase_of, lowercase_text, split_on, text_of, trimmed_of};

verus! {

/// The role of one column of a row.
#[derive(Debug)]
pub enum Field {
    Date(String),
    StartTime(String),
    EndTime(String),
    Duration,
    Pause,
    Empty,
}

/// What a column descriptor stands for, with its format as characters.
pub enum FieldModel {
    Date(Seq<char>),
    StartTime(Seq<char>),
    EndTime(Seq<char>),
    Duration,
    Pause,
    Empty,
}

impl View for Field {
    type V = FieldModel;

    open spec fn view(&self) -> FieldModel {
        match self {
            Field::Date(f) => FieldModel::Date(f@),
            Field::StartTime(f) => FieldModel::StartTime(f@),
            Field::EndTime(f) => FieldModel::EndTime(f@),
            Field::Duration => FieldModel::Duration,
            Field::Pause => FieldModel::Pause,
            Field::Empty => FieldModel::Empty,
        }
    }
}

/// Why a layout is refused.
#[derive(Debug)]
pub enum FormatError {
    /// Nothing but white space.
    Empty,
    /// Fewer than two columns.
    TooFewFields,
    /// A column whose name is none of the known ones; holds the whole column text.
    UnknownField(String),
}

pub open spec fn default_date_format() -> Seq<char> {
    seq!['%', 'd', '.', '%', 'm', '.', '%', 'Y']
}

pub open spec fn default_time_format() -> Seq<char> {
    seq!['%', 'H', ':', '%', 'M']
}

/// The column descriptor that a lower-case field name and an optional format give.
pub open spec fn field_of_name(name: Seq<char>, format: Option<Seq<char>>) -> Option<FieldModel> {
    if name == seq!['d', 'a', 't', 'e'] {
        Some(FieldModel::Date(
            match format {
                Some(f) => f,
                None => default_date_format(),
            },
        ))
    } else if name == seq!['s', 't', 'a', 'r', 't', '_', 't', 'i', 'm', 'e'] {
        Some(FieldModel::StartTime(
            match format {
                Some(f) => f,
                None => default_time_format(),
            },
        ))
    } else if name == seq!['e', 'n', 'd', '_', 't', 'i', 'm', 'e'] {
        Some(FieldModel::EndTime(
            match format {
                Some(f) => f,
                None => default_time_format(),
            },
        ))
    } else if name == seq!['p', 'a', 'u', 's', 'e'] {
        Some(FieldModel::Pause)
    } else if name == seq!['d', 'u', 'r', 'a', 't', 'i', 'o', 'n'] {
        Some(FieldModel::Duration)
    } else if name.len() == 0 {
        Some(FieldModel::Empty)
    } else {
        None
    }
}

/// The name part of a column text: what precedes the first `:`.
pub open spec fn name_part(field: Seq<char>) -> Seq<char> {
    match find_char(field, ':') {
        Some(i) => field.take(i),
        None => field,
    }
}

/// The format part of a column text: what follows the first `:`, if any.
pub open spec fn format_part(field: Seq<char>) -> Option<Seq<char>> {
    match find_char(field, ':') {
        Some(i) => Some(field.skip(i + 1)),
        None => None,
    }
}

/// The descriptor of one column text, if its name is known.
pub open spec fn field_spec(field: Seq<char>) -> Option<FieldModel> {
    field_of_name(lowercase_of(name_part(field)), format_part(field))
}

/// The column texts of a layout: the trimmed layout cut at each comma, each piece trimmed.
pub open spec fn layout_columns(format: Seq<char>) -> Seq<Seq<char>> {
    split_on(trimmed_of(format), ',').map_values(|c: Seq<char>| trimmed_of(c))
}

/// The characters of an optional text.
pub open spec fn text_option_view(t: Option<String>) -> Option<Seq<char>> {
    match t {
        Some(s) => Some(s@),
        None => None,
    }
}

/// Picks the descriptor for a field name already in lower case.
pub fn field_from_name(name: &str, format: Option<String>) -> (r: Option<Field>)
    ensures
        match r {
            Some(f) => field_of_name(name@, text_option_view(format)) == Some(f@),
            None => field_of_name(name@, text_option_view(format)) is None,
        },
{
    let name = chars_of(name);
    let date = chars_of("date");
    let start = chars_of("start_time");
    let end = chars_of("end_time");
    let pause = chars_of("pause");
    let duration = chars_of("duration");
    proof {
        reveal_strlit("date");
        reveal_strlit("start_time");
        reveal_strlit("end_time");
        reveal_strlit("pause");
        reveal_strlit("duration");
        reveal_strlit("%d.%m.%Y");
        reveal_strlit("%H:%M");
        assert(date@ == seq!['d', 'a', 't', 'e']);
        assert(start@ == seq!['s', 't', 'a', 'r', 't', '_', 't', 'i', 'm', 'e']);
        assert(end@ == seq!['e', 'n', 'd', '_', 't', 'i', 'm', 'e']);
        assert(pause@ == seq!['p', 'a', 'u', 's', 'e']);
        assert(duration@ == seq!['d', 'u', 'r', 'a', 't', 'i', 'o', 'n']);
        assert("%d.%m.%Y"@ == default_date_format());
        assert("%H:%M"@ == default_time_format());
    }
    if same_chars(&name, &date) {
        Some(Field::Date(
            match format {
                Some(f) => f,
                None => "%d.%m.%Y".to_owned(),
            },
        ))
    } else if same_chars(&name, &start) {
        Some(Field::StartTime(
            match format {
                Some(f) => f,
                None => "%H:%M".to_owned(),
            },
        ))
    } else if same_chars(&name, &end) {
        Some(Field::EndTime(
            match format {
                Some(f) => f,
                None => "%H:%M".to_owned(),
            },
        ))
    } else if same_chars(&name, &pause) {
        Some(Field::Pause)
    } else if same_chars(&name, &duration) {
        Some(Field::Duration)
    } else if name.len() == 0 {
        Some(Field::Empty)
    } else {
        None
    }
}

/// Whether two character sequences are the same.
fn same_chars(a: &Vec<char>, b: &Vec<char>) -> (r: bool)
    ensures
        r == (a@ == b@),
{
    if a.len() != b.len() {
        return false;
    }
    let mut i: usize = 0;
    while i < a.len()
        invariant
            a@.len() == b@.len(),
            i <= a@.len(),
            forall|j: int| 0 <= j < i ==> a@[j] == b@[j],
        decreases a@.len() - i,
    {
        if a[i] != b[i] {
            return false;
        }
        i = i + 1;
    }
    assert(a@ =~= b@);
    true
}

/// Parses one column text: `name` or `name:format`, the name in any case.
pub fn parse_format_field(field: &str) -> (r: Result<Field, FormatError>)
    ensures
        match r {
            Ok(f) => field_spec(field@) == Some(f@),
            Err(e) => field_spec(field@) is None && e is UnknownField
                && e->UnknownField_0@ == field@,
        },
{
    let cs = chars_of(field);
    let (name, format) = match find_in(&cs, ':') {
        Some(i) => {
            assert(i < cs.len());
            let rest = sub_chars(&cs, i + 1, cs.len());
            (text_of(sub_chars(&cs, 0, i).as_slice()), Some(text_of(rest.as_slice())))
        },
        None => (text_of(cs.as_slice()), None),
    };
    assert(name@ == name_part(field@));
    let lower = lowercase_text(name.as_str());
    match field_from_name(lower.as_str(), format) {
        Some(f) => Ok(f),
        None => Err(FormatError::UnknownField(field.to_owned())),
    }
}

/// Whether every column text of a layout names a known field.
pub open spec fn all_columns_known(cols: Seq<Seq<char>>) -> bool {
    forall|i: int| 0 <= i < cols.len() ==> (#[trigger] field_spec(cols[i])) is Some
}

/// Whether `fields` are the descriptors of the columns of a layout, one per
/// column, in column order.
pub open spec fn describes_layout(format: Seq<char>, fields: Seq<FieldModel>) -> bool {
    &&& fields.len() == layout_columns(format).len()
    &&& forall|i: int| 0 <= i < fields.len() ==> field_spec(layout_columns(format)[i]) == Some(#[trigger] fields[i])
}

/// The models of a list of descriptors.
pub open spec fn fields_view(fields: Seq<Field>) -> Seq<FieldModel> {
    fields.map_values(|f: Field| f@)
}

/// Parsing a layout has no hidden state: two lists of descriptors that both
/// describe the same layout text are the same.
pub proof fn lemma_layout_deterministic(format: Seq<char>, a: Seq<FieldModel>, b: Seq<FieldModel>)
    requires
        describes_layout(format, a),
        describes_layout(format, b),
    ensures
        a == b,
{
    assert forall|i: int| 0 <= i < a.len() implies a[i] == b[i] by {
        assert(field_spec(layout_columns(format)[i]) == Some(a[i]));
        assert(field_spec(layout_columns(format)[i]) == Some(b[i]));
    }
    assert(a =~= b);
}

/// The characters of each text.
pub open spec fn texts_view(texts: Seq<String>) -> Seq<Seq<char>> {
    texts.map_values(|t: String| t@)
}

/// The descriptors of column texts that all name known fields.
pub open spec fn columns_model(cols: Seq<Seq<char>>) -> Seq<FieldModel> {
    cols.map_values(|c: Seq<char>| field_spec(c)->Some_0)
}

/// Whether column `k` is the first whose name is unknown.
pub open spec fn first_unknown(cols: Seq<Seq<char>>, k: int) -> bool {
    &&& 0 <= k < cols.len()
    &&& field_spec(cols[k]) is None
    &&& forall|j: int| 0 <= j < k ==> (#[trigger] field_spec(cols[j])) is Some
}

/// Whether a layout text parses: not blank, at least two columns, every name known.
pub open spec fn layout_parses(format: Seq<char>) -> bool {
    &&& trimmed_of(format).len() != 0
    &&& layout_columns(format).len() >= 2
    &&& all_columns_known(layout_columns(format))
}

/// The descriptors of a layout text that parses.
pub open spec fn layout_model(format: Seq<char>) -> Seq<FieldModel> {
    columns_model(layout_columns(format))
}

/// Parses the column texts of a layout, already trimmed: one descriptor per
/// column, in column order, or the first column whose name is unknown.
pub fn parse_columns(columns: &Vec<String>) -> (r: Result<Vec<Field>, FormatError>)
    ensures
        (r is Err && r->Err_0 is TooFewFields) <==> columns@.len() < 2,
        !(r is Err && r->Err_0 is Empty),
        r is Ok <==> (columns@.len() >= 2 && all_columns_known(texts_view(columns@))),
        r is Ok ==> fields_view(r->Ok_0@) == columns_model(texts_view(columns@)),
        r is Ok ==> describes_columns(texts_view(columns@), fields_view(r->Ok_0@)),
        r is Err && r->Err_0 is UnknownField ==> exists|k: int|
            first_unknown(texts_view(columns@), k)
            && r->Err_0->UnknownField_0@ == #[trigger] texts_view(columns@)[k],
{
    let ghost cols = texts_view(columns@);
    if columns.len() < 2 {
        return Err(FormatError::TooFewFields);
    }
    let mut fields: Vec<Field> = Vec::new();
    let mut i: usize = 0;
    while i < columns.len()
        invariant
            i <= columns@.len(),
            columns@.len() >= 2,
            cols == texts_view(columns@),
            cols.len() == columns@.len(),
            fields@.len() == i,
            forall|k: int| 0 <= k < i ==> field_spec(cols[k]) == Some(#[trigger] fields@[k]@),
        decreases columns@.len() - i,
    {
        assert(columns[i as int]@ == cols[i as int]);
        match parse_format_field(columns[i].as_str()) {
            Ok(f) => fields.push(f),
            Err(e) => {
                assert forall|j: int| 0 <= j < i implies (#[trigger] field_spec(cols[j])) is Some by {
                    assert(field_spec(cols[j]) == Some(fields@[j]@));
                }
                assert(first_unknown(cols, i as int));
                assert(!all_columns_known(cols));
                return Err(e);
            },
        }
        i = i + 1;
    }
    assert forall|k: int| 0 <= k < cols.len() implies (#[trigger] field_spec(cols[k])) is Some by {
        assert(field_spec(cols[k]) == Some(fields@[k]@));
    }
    assert(fields_view(fields@) =~= columns_model(cols)) by {
        assert forall|k: int| 0 <= k < cols.len() implies fields_view(fields@)[k] == columns_model(cols)[k] by {
            assert(field_spec(cols[k]) == Some(fields@[k]@));
        }
    }
    Ok(fields)
}

/// Whether `fields` are the descriptors of the given column texts, in order.
pub open spec fn describes_columns(cols: Seq<Seq<char>>, fields: Seq<FieldModel>) -> bool {
    &&& fields.len() == cols.len()
    &&& forall|i: int| 0 <= i < fields.len() ==> field_spec(cols[i]) == Some(#[trigger] fields[i])
}

/// Parses a layout such as `date:%d.%m.%Y,start_time,end_time,pause`: one
/// descriptor per column, in column order.
pub fn parse_format(format: &str) -> (r: Result<Vec<Field>, FormatError>)
    ensures
        (r is Err && r->Err_0 is Empty) <==> trimmed_of(format@).len() == 0,
        (r is Err && r->Err_0 is TooFewFields) <==> (trimmed_of(format@).len() != 0
            && layout_columns(format@).len() < 2),
        r is Ok <==> layout_parses(format@),
        r is Ok ==> r->Ok_0@.len() == layout_columns(format@).len(),
        r is Ok ==> describes_layout(format@, fields_view(r->Ok_0@)),
        r is Ok ==> fields_view(r->Ok_0@) == layout_model(format@),
        r is Ok ==> forall|i: int| 0 <= i < r->Ok_0@.len()
            ==> field_spec(layout_columns(format@)[i]) == Some(#[trigger] r->Ok_0@[i]@),
        r is Err && r->Err_0 is UnknownField ==> exists|k: int|
            first_unknown(layout_columns(format@), k)
            && r->Err_0->UnknownField_0@ == #[trigger] layout_columns(format@)[k],
{
    let trimmed = trim_text(format);
    let cs = chars_of(trimmed.as_str());
    if cs.len() == 0 {
        return Err(FormatError::Empty);
    }
    let pieces = split_chars(&cs, ',');
    let ghost cols = layout_columns(format@);
    let mut columns: Vec<String> = Vec::new();
    let mut i: usize = 0;
    while i < pieces.len()
        invariant
            i <= pieces@.len(),
            cols == layout_columns(format@),
            cols.len() == pieces@.len(),
            forall|k: int| 0 <= k < pieces@.len() ==> #[trigger] pieces@[k]@ == split_on(trimmed_of(format@), ',')[k],
            columns@.len() == i,
            forall|k: int| 0 <= k < i ==> (#[trigger] columns@[k])@ == cols[k],
        decreases pieces@.len() - i,
    {
        let piece = text_of(pieces[i].as_slice());
        let column = trim_text(piece.as_str());
        columns.push(column);
        i = i + 1;
    }
    assert(texts_view(columns@) =~= cols);
    let r = parse_columns(&columns);
    if let Ok(v) = &r {
        assert forall|k: int| 0 <= k < v@.len() implies field_spec(cols[k]) == Some(#[trigger] v@[k]@) by {
            assert(fields_view(v@)[k] == v@[k]@);
        }
    }
    r
}

} // verus!
