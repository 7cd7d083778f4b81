//! Columns, their kinds, and the schema that orders them.

use crate::bytes::{append_ascii, append_bytes, ascii_bytes, concat, join, joined, views};
use crate::bytes::{count, free_of, lemma_count_absent, lemma_count_joined};
use crate::decimal::{decimal, lemma_decimal_is_digits, push_decimal};
use crate::random::{is_alphanumeric, random_i32};
use vstd::prelude::*;
use vstd::string::*;

verus! {

/// The kind of values that a column holds.
#[derive(Clone, Copy, Debug, PartialEq, Eq, Structural)]
pub enum ColumnType {
    /// Ten alphanumeric characters.
    Text,
    /// A decimal integer below 12000.
    Number,
    /// A day, a month and a year, separated by dashes.
    Date,
}

impl ColumnType {
    /// The kind that a draw from `0..=2` stands for: 0 is text, 1 is a
    /// number, anything else is a date.
    pub open spec fn of_draw(draw: int) -> ColumnType {
        if draw == 0 {
            ColumnType::Text
        } else if draw == 1 {
            ColumnType::Number
        } else {
            ColumnType::Date
        }
    }

    /// The name of the kind in the table definition.
    pub open spec fn sql_name(self) -> Seq<char> {
        match self {
            ColumnType::Text => "VARCHAR(100)"@,
            ColumnType::Number => "NUMBER(10,0)"@,
            ColumnType::Date => "TIMESTAMP"@,
        }
    }

    /// The kind that the draw `draw` stands for.
    pub fn from_draw(draw: i32) -> (kind: ColumnType)
        ensures
            kind == ColumnType::of_draw(draw as int),
    {
        if draw == 0 {
            ColumnType::Text
        } else if draw == 1 {
            ColumnType::Number
        } else {
            ColumnType::Date
        }
    }

    /// The name of the kind in the table definition.
    pub fn sql_type(self) -> (name: &'static str)
        ensures
            name@ == self.sql_name(),
            name.is_ascii(),
    {
        match self {
            ColumnType::Text => {
                proof {
                    reveal_strlit("VARCHAR(100)");
                }
                "VARCHAR(100)"
            },
            ColumnType::Number => {
                proof {
                    reveal_strlit("NUMBER(10,0)");
                }
                "NUMBER(10,0)"
            },
            ColumnType::Date => {
                proof {
                    reveal_strlit("TIMESTAMP");
                }
                "TIMESTAMP"
            },
        }
    }
}

/// One column of the table.
#[derive(Clone, Debug, PartialEq, Eq)]
pub struct Column {
    /// The column's name.
    pub name: Vec<u8>,
    /// The kind of its values.
    pub kind: ColumnType,
}

/// The name of the column at position `index`: `FIELD` and the position in
/// decimal.
pub open spec fn column_name(index: nat) -> Seq<u8> {
    ascii_bytes("FIELD"@) + decimal(index)
}

/// The names of the first `n` columns, in order.
pub open spec fn column_names(n: nat) -> Seq<Seq<u8>> {
    Seq::new(n, |i: int| column_name(i as nat))
}

/// The header line of a table of `n` columns, without its line terminator:
/// the column names joined by `sep`.
pub open spec fn header_text(n: nat, sep: Seq<u8>) -> Seq<u8> {
    joined(column_names(n), sep)
}

/// What the table definition says of one column: its name, a space, the
/// name of its kind and a comma.
pub open spec fn definition_entry(name: Seq<u8>, kind: ColumnType) -> Seq<u8> {
    name + ascii_bytes(" "@) + ascii_bytes(kind.sql_name()) + ascii_bytes(","@)
}

/// The entries of the table definition, one per column, in order.
pub open spec fn definition_entries(kinds: Seq<ColumnType>) -> Seq<Seq<u8>> {
    Seq::new(kinds.len(), |i: int| definition_entry(column_name(i as nat), kinds[i]))
}

/// The table definition, without its line terminator: `CREATE TABLE `
/// and then every column's entry. The comma behind the last entry stays.
pub open spec fn table_definition(kinds: Seq<ColumnType>) -> Seq<u8> {
    ascii_bytes("CREATE TABLE "@) + concat(definition_entries(kinds))
}

/// The name of the file that holds the table definition for the output
/// file `filename`.
pub open spec fn definition_file_name(filename: Seq<char>) -> Seq<char> {
    filename + "_SQL"@
}

/// The header line and the table definition name the same columns in the
/// same order: the header line is the `n` column names joined by the
/// delimiter, and the definition holds one entry per column, of which entry
/// `i` is made of name `i` of that same list and the kind of column `i`.
pub proof fn lemma_header_and_definition_name_the_same_columns(
    kinds: Seq<ColumnType>,
    sep: Seq<u8>,
)
    ensures
        header_text(kinds.len(), sep) == joined(column_names(kinds.len()), sep),
        table_definition(kinds) == ascii_bytes("CREATE TABLE "@) + concat(
            definition_entries(kinds),
        ),
        definition_entries(kinds).len() == column_names(kinds.len()).len(),
        forall|i: int|
            0 <= i < kinds.len() ==> {
                let name = column_names(kinds.len())[i];
                &&& #[trigger] definition_entries(kinds)[i] == definition_entry(name, kinds[i])
                &&& definition_entries(kinds)[i].take(name.len() as int) == name
            },
{
    assert forall|i: int| 0 <= i < kinds.len() implies {
        let name = column_names(kinds.len())[i];
        &&& #[trigger] definition_entries(kinds)[i] == definition_entry(name, kinds[i])
        &&& definition_entries(kinds)[i].take(name.len() as int) == name
    } by {
        let name = column_names(kinds.len())[i];
        assert(definition_entries(kinds)[i].take(name.len() as int) =~= name);
    }
}

/// No two columns share a name.
pub proof fn lemma_column_names_distinct(i: nat, j: nat)
    requires
        i != j,
    ensures
        column_name(i) != column_name(j),
{
    if column_name(i) == column_name(j) {
        let prefix = ascii_bytes("FIELD"@);
        assert(decimal(i) =~= column_name(i).skip(prefix.len() as int));
        assert(decimal(j) =~= column_name(j).skip(prefix.len() as int));
        crate::decimal::lemma_decimal_injective(i, j);
    }
}

/// A column name holds alphanumeric bytes only: any other byte occurs in
/// it zero times.
pub proof fn lemma_column_name_bytes(index: nat, b: u8)
    requires
        !is_alphanumeric(b),
    ensures
        count(column_name(index), b) == 0,
{
    reveal_strlit("FIELD");
    lemma_decimal_is_digits(index);
    lemma_count_absent(column_name(index), b);
}

/// The header line of a table without columns is empty. In the header line
/// of a table with columns, a byte that no name can hold occurs only in the
/// delimiters between the names, of which there is one fewer than there
/// are columns.
pub proof fn lemma_header_delimiters(n: nat, sep: Seq<u8>, b: u8)
    requires
        !is_alphanumeric(b),
    ensures
        n == 0 ==> header_text(n, sep).len() == 0,
        n >= 1 ==> count(header_text(n, sep), b) == (n - 1) * count(sep, b),
{
    let names = column_names(n);
    assert(free_of(names, b)) by {
        assert forall|i: int| 0 <= i < names.len() implies count(#[trigger] names[i], b)
            == 0 by {
            lemma_column_name_bytes(i as nat, b);
        }
    }
    lemma_count_joined(names, sep, b);
}

/// The table definition of a table without columns is `CREATE TABLE ` and
/// nothing else.
pub proof fn lemma_definition_without_columns()
    ensures
        table_definition(Seq::<ColumnType>::empty()) == ascii_bytes("CREATE TABLE "@),
{
    let kinds = Seq::<ColumnType>::empty();
    assert(definition_entries(kinds) =~= Seq::<Seq<u8>>::empty());
    assert(table_definition(kinds) =~= ascii_bytes("CREATE TABLE "@));
}

/// The name of the column at position `index`.
pub fn column_name_bytes(index: usize) -> (name: Vec<u8>)
    ensures
        name@ == column_name(index as nat),
{
    let mut name: Vec<u8> = Vec::new();
    proof {
        reveal_strlit("FIELD");
    }
    append_ascii(&mut name, "FIELD");
    push_decimal(&mut name, index as u64);
    name
}

/// The ordered columns of a table. The column at position `i` is named
/// `FIELD` followed by `i`; the view is the sequence of the columns' kinds.
#[derive(Debug)]
pub struct Schema {
    columns: Vec<Column>,
}

impl View for Schema {
    type V = Seq<ColumnType>;

    closed spec fn view(&self) -> Seq<ColumnType> {
        Seq::new(self.columns@.len(), |i: int| self.columns@[i].kind)
    }
}

impl Schema {
    #[verifier::type_invariant]
    spec fn named_by_position(&self) -> bool {
        forall|i: int|
            0 <= i < self.columns@.len() ==> (#[trigger] self.columns@[i]).name@ == column_name(
                i as nat,
            )
    }

    /// The schema whose columns have the given kinds, in the given order.
    pub fn from_kinds(kinds: &Vec<ColumnType>) -> (schema: Schema)
        ensures
            schema@ == kinds@,
    {
        let mut columns: Vec<Column> = Vec::new();
        let mut i: usize = 0;
        while i < kinds.len()
            invariant
                i <= kinds.len(),
                columns@.len() == i,
                forall|k: int|
                    0 <= k < i ==> (#[trigger] columns@[k]).name@ == column_name(k as nat),
                forall|k: int| 0 <= k < i ==> (#[trigger] columns@[k]).kind == kinds@[k],
            decreases kinds.len() - i,
        {
            columns.push(Column { name: column_name_bytes(i), kind: kinds[i] });
            i += 1;
        }
        let schema = Schema { columns };
        assert(schema@ =~= kinds@);
        schema
    }

    /// A schema of `cols` columns, the kind of each drawn at random from
    /// the three kinds.
    pub fn random(cols: u16) -> (schema: Schema)
        ensures
            schema@.len() == cols,
    {
        let mut kinds: Vec<ColumnType> = Vec::new();
        let mut i: u16 = 0;
        while i < cols
            invariant
                i <= cols,
                kinds@.len() == i,
            decreases cols - i,
        {
            kinds.push(ColumnType::from_draw(random_i32(0, 2)));
            i += 1;
        }
        Schema::from_kinds(&kinds)
    }

    /// The number of columns.
    pub fn len(&self) -> (n: usize)
        ensures
            n == self@.len(),
    {
        self.columns.len()
    }

    /// The column at position `index`, if there is one.
    pub fn column(&self, index: usize) -> (column: Option<&Column>)
        ensures
            column is Some <==> index < self@.len(),
            column matches Some(c) ==> c.kind == self@[index as int] && c.name@ == column_name(
                index as nat,
            ),
    {
        proof {
            use_type_invariant(self);
        }
        if index < self.columns.len() {
            Some(&self.columns[index])
        } else {
            None
        }
    }

    /// The kinds of the columns, in order.
    pub fn kinds(&self) -> (kinds: Vec<ColumnType>)
        ensures
            kinds@ == self@,
    {
        let mut kinds: Vec<ColumnType> = Vec::new();
        let mut i: usize = 0;
        while i < self.columns.len()
            invariant
                i <= self.columns@.len(),
                kinds@ == self@.take(i as int),
            decreases self.columns@.len() - i,
        {
            kinds.push(self.columns[i].kind);
            i += 1;
            assert(kinds@ =~= self@.take(i as int));
        }
        assert(self@.take(i as int) =~= self@);
        kinds
    }

    /// The names of the columns, in order.
    pub fn names(&self) -> (names: Vec<Vec<u8>>)
        ensures
            views(names@) == column_names(self@.len()),
    {
        proof {
            use_type_invariant(self);
        }
        let mut names: Vec<Vec<u8>> = Vec::new();
        let mut i: usize = 0;
        while i < self.columns.len()
            invariant
                i <= self.columns@.len(),
                names@.len() == i,
                forall|k: int| 0 <= k < i ==> (#[trigger] names@[k])@ == column_name(k as nat),
            decreases self.columns@.len() - i,
        {
            names.push(column_name_bytes(i));
            i += 1;
        }
        assert(views(names@) =~= column_names(self@.len()));
        names
    }

    /// The header line without its line terminator: the column names
    /// joined by `sep`, with no separator behind the last name.
    pub fn header_line(&self, sep: &[u8]) -> (line: Vec<u8>)
        ensures
            line@ == header_text(self@.len(), sep@),
    {
        let names = self.names();
        join(&names, sep)
    }

    /// The table definition without its line terminator: `CREATE TABLE `
    /// followed, for every column, by its name, a space, the name of its
    /// kind and a comma.
    pub fn definition(&self) -> (text: Vec<u8>)
        ensures
            text@ == table_definition(self@),
    {
        proof {
            use_type_invariant(self);
            reveal_strlit("CREATE TABLE ");
            reveal_strlit(" ");
            reveal_strlit(",");
        }
        let mut text: Vec<u8> = Vec::new();
        append_ascii(&mut text, "CREATE TABLE ");
        let ghost prefix = text@;
        let mut i: usize = 0;
        while i < self.columns.len()
            invariant
                i <= self.columns@.len(),
                self.named_by_position(),
                " "@.len() == 1 && " "@[0] == ' ',
                ","@.len() == 1 && ","@[0] == ',',
                text@ == prefix + concat(definition_entries(self@).take(i as int)),
            decreases self.columns@.len() - i,
        {
            let column = &self.columns[i];
            append_bytes(&mut text, column.name.as_slice());
            append_ascii(&mut text, " ");
            append_ascii(&mut text, column.kind.sql_type());
            append_ascii(&mut text, ",");
            i += 1;
            proof {
                let now = definition_entries(self@).take(i as int);
                assert(now.drop_last() =~= definition_entries(self@).take(i - 1));
                assert(now.last() == definition_entry(column_name((i - 1) as nat), self@[i - 1]));
                assert(text@ =~= prefix + concat(now));
            }
        }
        assert(definition_entries(self@).take(i as int) =~= definition_entries(self@));
        text
    }
}

/// The name of the file that receives the table definition: the name of
/// the output file with `_SQL` appended.
pub fn definition_file(filename: &str) -> (name: String)
    ensures
        name@ == definition_file_name(filename@),
{
    String::from_str(filename).concat("_SQL")
}

} // verus!
