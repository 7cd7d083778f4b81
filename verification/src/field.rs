//! Field values and rows.
//!
//! A field is drawn for a column kind and rendered as bytes; a row is one
//! field per column of a schema, joined by the delimiter.

use crate::bytes::{count, free_of, join, joined, views};
use crate::bytes::{lemma_count_absent, lemma_count_joined};
use crate::decimal::{all_digits, decimal, decimal_value, push_decimal};
use crate::decimal::{lemma_decimal_is_digits, lemma_decimal_len, lemma_decimal_value};
use crate::random::{is_alphanumeric, random_alphanumeric, random_i32};
use crate::schema::{ColumnType, Schema};
use vstd::prelude::*;

verus! {

/// The number of characters of a text field.
pub const TEXT_LEN: usize = 10;

/// Number fields lie below this limit.
pub const NUMBER_LIMIT: u32 = 12000;

/// The first day of a month that a date field can hold.
pub const DAY_MIN: u32 = 1;

/// The last day of a month that a date field can hold.
pub const DAY_MAX: u32 = 25;

/// The first month that a date field can hold.
pub const MONTH_MIN: u32 = 1;

/// The last month that a date field can hold.
pub const MONTH_MAX: u32 = 12;

/// The first year that a date field can hold.
pub const YEAR_MIN: u32 = 1960;

/// The last year that a date field can hold.
pub const YEAR_MAX: u32 = 2024;

/// The byte between the parts of a date.
pub const DASH: u8 = 45;

/// The bytes of a date: day, month and year in decimal, without padding,
/// with a dash between them.
pub open spec fn date_text(day: nat, month: nat, year: nat) -> Seq<u8> {
    decimal(day) + seq![DASH] + decimal(month) + seq![DASH] + decimal(year)
}

/// Whether `field` is a text field: ten alphanumeric bytes.
pub open spec fn is_text_field(field: Seq<u8>) -> bool {
    &&& field.len() == TEXT_LEN
    &&& forall|i: int| 0 <= i < field.len() ==> is_alphanumeric(#[trigger] field[i])
}

/// Whether `field` is a number field: the decimal literal of a number
/// below the limit.
pub open spec fn is_number_field(field: Seq<u8>) -> bool {
    exists|n: nat| n < NUMBER_LIMIT && field == #[trigger] decimal(n)
}

/// Whether `day`, `month` and `year` lie in the ranges of a date field.
pub open spec fn date_in_range(day: nat, month: nat, year: nat) -> bool {
    &&& DAY_MIN <= day <= DAY_MAX
    &&& MONTH_MIN <= month <= MONTH_MAX
    &&& YEAR_MIN <= year <= YEAR_MAX
}

/// Whether `field` is a date field: the text of a date whose parts lie in
/// their ranges.
pub open spec fn is_date_field(field: Seq<u8>) -> bool {
    exists|day: nat, month: nat, year: nat|
        date_in_range(day, month, year) && field == #[trigger] date_text(day, month, year)
}

/// Whether `field` is a field of a column of kind `kind`.
pub open spec fn is_field(kind: ColumnType, field: Seq<u8>) -> bool {
    match kind {
        ColumnType::Text => is_text_field(field),
        ColumnType::Number => is_number_field(field),
        ColumnType::Date => is_date_field(field),
    }
}

/// Whether `fields` holds one field per column of `kinds`, each of its
/// column's kind.
pub open spec fn fields_fit(kinds: Seq<ColumnType>, fields: Seq<Seq<u8>>) -> bool {
    &&& fields.len() == kinds.len()
    &&& forall|i: int| 0 <= i < kinds.len() ==> is_field(kinds[i], #[trigger] fields[i])
}

/// Whether `row` is a row of a table with the columns `kinds`: one field
/// per column, joined by `sep`.
pub open spec fn is_row(kinds: Seq<ColumnType>, sep: Seq<u8>, row: Seq<u8>) -> bool {
    exists|fields: Seq<Seq<u8>>| #[trigger] fields_fit(kinds, fields) && row == joined(fields, sep)
}

/// Whether `s` is between `min` and `max` decimal digits.
pub open spec fn is_digits(s: Seq<u8>, min: nat, max: nat) -> bool {
    min <= s.len() <= max && all_digits(s)
}

/// Whether `field` has the shape of a date: one or two digits, a dash, one
/// or two digits, a dash, four digits.
pub open spec fn has_date_shape(field: Seq<u8>) -> bool {
    exists|i: int, j: int|
        {
            &&& 0 <= i < j < field.len()
            &&& is_digits(#[trigger] field.subrange(0, i), 1, 2)
            &&& field[i] == DASH
            &&& is_digits(#[trigger] field.subrange(i + 1, j), 1, 2)
            &&& field[j] == DASH
            &&& is_digits(field.subrange(j + 1, field.len() as int), 4, 4)
        }
}

/// A number field is one to five digits and denotes a number below the
/// limit.
pub proof fn lemma_number_field_shape(field: Seq<u8>)
    requires
        is_number_field(field),
    ensures
        is_digits(field, 1, 5),
        decimal_value(field) < NUMBER_LIMIT,
{
    let n = choose|n: nat| n < NUMBER_LIMIT && field == #[trigger] decimal(n);
    lemma_decimal_is_digits(n);
    lemma_decimal_len(n);
    lemma_decimal_value(n);
}

/// A date field has the shape of a date.
pub proof fn lemma_date_field_shape(field: Seq<u8>)
    requires
        is_date_field(field),
    ensures
        has_date_shape(field),
{
    let (day, month, year) = choose|day: nat, month: nat, year: nat|
        date_in_range(day, month, year) && field == #[trigger] date_text(day, month, year);
    lemma_decimal_is_digits(day);
    lemma_decimal_len(day);
    lemma_decimal_is_digits(month);
    lemma_decimal_len(month);
    lemma_decimal_is_digits(year);
    lemma_decimal_len(year);
    let i = decimal(day).len() as int;
    let j = i + 1 + decimal(month).len();
    assert(field.subrange(0, i) =~= decimal(day));
    assert(field.subrange(i + 1, j) =~= decimal(month));
    assert(field.subrange(j + 1, field.len() as int) =~= decimal(year));
}

/// Every field has the shape of its column's kind: a text field is ten
/// alphanumeric bytes, a number field is digits that denote a number below
/// the limit, and a date field is digits and dashes in the shape of a date.
pub proof fn lemma_field_shape(kind: ColumnType, field: Seq<u8>)
    requires
        is_field(kind, field),
    ensures
        kind == ColumnType::Text ==> field.len() == 10 && forall|i: int|
            0 <= i < 10 ==> is_alphanumeric(#[trigger] field[i]),
        kind == ColumnType::Number ==> is_digits(field, 1, 5) && decimal_value(field) < 12000,
        kind == ColumnType::Date ==> has_date_shape(field),
{
    match kind {
        ColumnType::Text => {},
        ColumnType::Number => {
            lemma_number_field_shape(field);
        },
        ColumnType::Date => {
            lemma_date_field_shape(field);
        },
    }
}

/// A field holds alphanumeric bytes and dashes only: any other byte occurs
/// in it zero times.
pub proof fn lemma_field_bytes(kind: ColumnType, field: Seq<u8>, b: u8)
    requires
        is_field(kind, field),
        !is_alphanumeric(b),
        b != DASH,
    ensures
        count(field, b) == 0,
{
    match kind {
        ColumnType::Text => {},
        ColumnType::Number => {
            let n = choose|n: nat| n < NUMBER_LIMIT && field == #[trigger] decimal(n);
            lemma_decimal_is_digits(n);
        },
        ColumnType::Date => {
            let (day, month, year) = choose|day: nat, month: nat, year: nat|
                date_in_range(day, month, year) && field == #[trigger] date_text(day, month, year);
            lemma_decimal_is_digits(day);
            lemma_decimal_is_digits(month);
            lemma_decimal_is_digits(year);
        },
    }
    lemma_count_absent(field, b);
}

/// A row of a table without columns is empty. In a row of a table with
/// columns, a byte that no field can hold occurs only in the delimiters
/// between the fields, of which there is one fewer than there are columns.
pub proof fn lemma_row_delimiters(kinds: Seq<ColumnType>, sep: Seq<u8>, row: Seq<u8>, b: u8)
    requires
        is_row(kinds, sep, row),
        !is_alphanumeric(b),
        b != DASH,
    ensures
        kinds.len() == 0 ==> row.len() == 0,
        kinds.len() >= 1 ==> count(row, b) == (kinds.len() - 1) * count(sep, b),
{
    let fields = choose|fields: Seq<Seq<u8>>| #[trigger]
        fields_fit(kinds, fields) && row == joined(fields, sep);
    assert(free_of(fields, b)) by {
        assert forall|i: int| 0 <= i < fields.len() implies count(#[trigger] fields[i], b)
            == 0 by {
            lemma_field_bytes(kinds[i], fields[i], b);
        }
    }
    lemma_count_joined(fields, sep, b);
}

/// The number field of `n`: its decimal literal.
pub fn number_field(n: u32) -> (field: Vec<u8>)
    ensures
        field@ == decimal(n as nat),
{
    let mut field: Vec<u8> = Vec::new();
    push_decimal(&mut field, n as u64);
    field
}

/// The date field of `day`, `month` and `year`: the three numbers in
/// decimal, without padding, with a dash between them.
pub fn date_field(day: u32, month: u32, year: u32) -> (field: Vec<u8>)
    ensures
        field@ == date_text(day as nat, month as nat, year as nat),
{
    let mut field: Vec<u8> = Vec::new();
    push_decimal(&mut field, day as u64);
    field.push(DASH);
    push_decimal(&mut field, month as u64);
    field.push(DASH);
    push_decimal(&mut field, year as u64);
    assert(field@ =~= date_text(day as nat, month as nat, year as nat));
    field
}

/// A text field of ten alphanumeric characters, each drawn at random.
pub fn text_field() -> (field: Vec<u8>)
    ensures
        is_text_field(field@),
{
    let mut field: Vec<u8> = Vec::new();
    while field.len() < TEXT_LEN
        invariant
            field@.len() <= TEXT_LEN,
            forall|i: int| 0 <= i < field@.len() ==> is_alphanumeric(#[trigger] field@[i]),
        decreases TEXT_LEN - field@.len(),
    {
        field.push(random_alphanumeric());
    }
    field
}

/// A field of a column of kind `kind`, its value drawn at random: ten
/// alphanumeric characters, a number below the limit, or a date whose day,
/// month and year are drawn independently from their ranges.
pub fn synthesize_field(kind: ColumnType) -> (field: Vec<u8>)
    ensures
        is_field(kind, field@),
{
    match kind {
        ColumnType::Text => text_field(),
        ColumnType::Number => {
            let n = random_i32(0, (NUMBER_LIMIT - 1) as i32);
            number_field(n as u32)
        },
        ColumnType::Date => {
            let day = random_i32(DAY_MIN as i32, DAY_MAX as i32);
            let month = random_i32(MONTH_MIN as i32, MONTH_MAX as i32);
            let year = random_i32(YEAR_MIN as i32, YEAR_MAX as i32);
            let field = date_field(day as u32, month as u32, year as u32);
            assert(date_in_range(day as nat, month as nat, year as nat));
            field
        },
    }
}

/// One row of the table: a field drawn for every column of `schema`, in
/// column order, joined by `sep`. The row of a schema without columns is
/// empty.
pub fn synthesize_row(schema: &Schema, sep: &[u8]) -> (row: Vec<u8>)
    ensures
        is_row(schema@, sep@, row@),
{
    let mut fields: Vec<Vec<u8>> = Vec::new();
    let n = schema.len();
    let mut i: usize = 0;
    while i < n
        invariant
            i <= n,
            n == schema@.len(),
            fields@.len() == i,
            forall|k: int| 0 <= k < i ==> is_field(schema@[k], (#[trigger] fields@[k])@),
        decreases n - i,
    {
        match schema.column(i) {
            Some(column) => {
                fields.push(synthesize_field(column.kind));
            },
            None => {},
        }
        i += 1;
    }
    let row = join(&fields, sep);
    assert(fields_fit(schema@, views(fields@)));
    row
}

} // verus!
