use csvgen::schema::{column_name_bytes, definition_file, Column, ColumnType, Schema};

fn bytes(text: &str) -> Vec<u8> {
    text.as_bytes().to_vec()
}

fn pairs(definition: &str) -> Vec<(String, String)> {
    let mut rest: &str = definition.strip_prefix("CREATE TABLE ").unwrap();
    let mut found: Vec<(String, String)> = Vec::new();
    while !rest.is_empty() {
        let space = rest.find(' ').unwrap();
        let name = &rest[..space];
        rest = &rest[space + 1..];
        let kind = ["VARCHAR(100)", "NUMBER(10,0)", "TIMESTAMP"]
            .into_iter()
            .find(|kind| rest.starts_with(kind))
            .unwrap();
        rest = rest[kind.len()..].strip_prefix(',').unwrap();
        found.push((String::from(name), String::from(kind)));
    }
    found
}

fn three_kinds() -> Schema {
    let kinds: Vec<ColumnType> = vec![ColumnType::Text, ColumnType::Number, ColumnType::Date];
    Schema::from_kinds(&kinds)
}

#[test]
fn draws_map_to_kinds() {
    assert_eq!(ColumnType::from_draw(0), ColumnType::Text);
    assert_eq!(ColumnType::from_draw(1), ColumnType::Number);
    assert_eq!(ColumnType::from_draw(2), ColumnType::Date);
}

#[test]
fn any_other_draw_is_a_date() {
    assert_eq!(ColumnType::from_draw(3), ColumnType::Date);
    assert_eq!(ColumnType::from_draw(-1), ColumnType::Date);
    assert_eq!(ColumnType::from_draw(i32::MAX), ColumnType::Date);
}

#[test]
fn kinds_have_their_sql_names() {
    assert_eq!(ColumnType::Text.sql_type(), "VARCHAR(100)");
    assert_eq!(ColumnType::Number.sql_type(), "NUMBER(10,0)");
    assert_eq!(ColumnType::Date.sql_type(), "TIMESTAMP");
}

#[test]
fn columns_are_named_by_position() {
    assert_eq!(column_name_bytes(0), bytes("FIELD0"));
    assert_eq!(column_name_bytes(9), bytes("FIELD9"));
    assert_eq!(column_name_bytes(10), bytes("FIELD10"));
    assert_eq!(column_name_bytes(65534), bytes("FIELD65534"));
}

#[test]
fn schema_keeps_kinds_in_order() {
    let schema = three_kinds();
    assert_eq!(schema.len(), 3);
    assert_eq!(
        schema.kinds(),
        vec![ColumnType::Text, ColumnType::Number, ColumnType::Date]
    );
}

#[test]
fn schema_names_its_columns() {
    let schema = three_kinds();
    assert_eq!(
        schema.names(),
        vec![bytes("FIELD0"), bytes("FIELD1"), bytes("FIELD2")]
    );
}

#[test]
fn column_lookup() {
    let schema = three_kinds();
    let second = Column { name: bytes("FIELD1"), kind: ColumnType::Number };
    assert_eq!(schema.column(1), Some(&second));
    assert_eq!(schema.column(2).map(|c| c.kind), Some(ColumnType::Date));
    assert_eq!(schema.column(3), None);
    assert_eq!(schema.column(usize::MAX), None);
}

#[test]
fn column_names_are_distinct() {
    let kinds: Vec<ColumnType> = vec![ColumnType::Text; 300];
    let names = Schema::from_kinds(&kinds).names();
    let mut i: usize = 0;
    while i < names.len() {
        let mut j: usize = i + 1;
        while j < names.len() {
            assert_ne!(names[i], names[j]);
            j += 1;
        }
        i += 1;
    }
}

#[test]
fn header_joins_the_names() {
    let schema = three_kinds();
    assert_eq!(schema.header_line(b"~|"), bytes("FIELD0~|FIELD1~|FIELD2"));
    assert_eq!(schema.header_line(b","), bytes("FIELD0,FIELD1,FIELD2"));
}

#[test]
fn header_of_one_column_has_no_delimiter() {
    let kinds: Vec<ColumnType> = vec![ColumnType::Date];
    assert_eq!(Schema::from_kinds(&kinds).header_line(b"~|"), bytes("FIELD0"));
}

#[test]
fn header_keeps_a_name_that_ends_like_the_delimiter() {
    let kinds: Vec<ColumnType> = vec![ColumnType::Text; 11];
    let header = Schema::from_kinds(&kinds).header_line(b"0");
    assert!(header.ends_with(b"FIELD90FIELD10"));
}

#[test]
fn definition_lists_every_column_and_keeps_the_last_comma() {
    let schema = three_kinds();
    assert_eq!(
        schema.definition(),
        bytes("CREATE TABLE FIELD0 VARCHAR(100),FIELD1 NUMBER(10,0),FIELD2 TIMESTAMP,")
    );
}

#[test]
fn header_and_definition_name_the_same_columns() {
    let kinds: Vec<ColumnType> = vec![
        ColumnType::Date,
        ColumnType::Date,
        ColumnType::Text,
        ColumnType::Number,
        ColumnType::Text,
    ];
    let schema = Schema::from_kinds(&kinds);
    let header = String::from_utf8(schema.header_line(b",")).unwrap();
    let definition = String::from_utf8(schema.definition()).unwrap();
    let in_header: Vec<String> = header.split(',').map(String::from).collect();
    let in_definition: Vec<String> = pairs(&definition).into_iter().map(|pair| pair.0).collect();
    assert_eq!(in_header, in_definition);
    assert_eq!(in_header.len(), 5);
}

#[test]
fn empty_schema_has_an_empty_header() {
    let kinds: Vec<ColumnType> = Vec::new();
    let schema = Schema::from_kinds(&kinds);
    assert_eq!(schema.len(), 0);
    assert_eq!(schema.header_line(b"~|"), bytes(""));
}

#[test]
fn empty_schema_defines_no_columns() {
    let kinds: Vec<ColumnType> = Vec::new();
    assert_eq!(Schema::from_kinds(&kinds).definition(), bytes("CREATE TABLE "));
}

#[test]
fn random_schema_has_the_asked_number_of_columns() {
    assert_eq!(Schema::random(0).len(), 0);
    assert_eq!(Schema::random(1).len(), 1);
    assert_eq!(Schema::random(37).len(), 37);
}

#[test]
fn random_schema_names_columns_by_position() {
    let schema = Schema::random(12);
    assert_eq!(schema.column(11).map(|c| c.name.clone()), Some(bytes("FIELD11")));
    assert_eq!(schema.column(0).map(|c| c.name.clone()), Some(bytes("FIELD0")));
}

#[test]
fn random_schema_draws_every_kind() {
    let kinds = Schema::random(600).kinds();
    assert!(kinds.contains(&ColumnType::Text));
    assert!(kinds.contains(&ColumnType::Number));
    assert!(kinds.contains(&ColumnType::Date));
}

#[test]
fn definition_file_appends_the_suffix() {
    assert_eq!(definition_file("genfile"), "genfile_SQL");
    assert_eq!(definition_file(""), "_SQL");
    assert_eq!(definition_file("out/data.csv"), "out/data.csv_SQL");
}
