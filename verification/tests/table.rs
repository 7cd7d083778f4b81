use csvgen::config::Config;
use csvgen::schema::{ColumnType, Schema};
use csvgen::table::{consolidate, data_text, definition_text, generate, run_workers};

fn bytes(text: &str) -> Vec<u8> {
    text.as_bytes().to_vec()
}

fn config(lines: u32, cols: u16, threads: u32, delimiter: &str) -> Config {
    Config::new(lines, cols, bytes(delimiter), String::from("genfile"), threads).unwrap()
}

fn line_count(text: &[u8]) -> usize {
    text.iter().filter(|b| **b == b'\n').count()
}

fn is_text(field: &str) -> bool {
    field.len() == 10 && field.bytes().all(|b| b.is_ascii_alphanumeric())
}

fn is_number(field: &str) -> bool {
    !field.is_empty()
        && field.bytes().all(|b| b.is_ascii_digit())
        && field.parse::<u32>().map(|n| n < 12000 && n.to_string() == field).unwrap_or(false)
}

fn is_date(field: &str) -> bool {
    let parts: Vec<&str> = field.split('-').collect();
    if parts.len() != 3 || parts[2].len() != 4 {
        return false;
    }
    if parts.iter().any(|p| p.is_empty() || !p.bytes().all(|b| b.is_ascii_digit())) {
        return false;
    }
    let day: u32 = parts[0].parse().unwrap();
    let month: u32 = parts[1].parse().unwrap();
    let year: u32 = parts[2].parse().unwrap();
    parts[0].len() <= 2
        && parts[1].len() <= 2
        && (1..=25).contains(&day)
        && (1..=12).contains(&month)
        && (1960..=2024).contains(&year)
}

fn fits(kind: ColumnType, field: &str) -> bool {
    match kind {
        ColumnType::Text => is_text(field),
        ColumnType::Number => is_number(field),
        ColumnType::Date => is_date(field),
    }
}

fn check_table(lines: u32, cols: u16, threads: u32, delimiter: &str) {
    let config = config(lines, cols, threads, delimiter);
    let table = generate(&config);
    assert_eq!(table.schema.len(), cols as usize);
    let kinds = table.schema.kinds();
    let text = String::from_utf8(table.data).unwrap();
    assert!(text.ends_with('\n'));
    let all: Vec<&str> = text.split_terminator('\n').collect();
    assert_eq!(all.len(), lines as usize + 1);
    let header: Vec<String> = (0..cols).map(|i| format!("FIELD{}", i)).collect();
    assert_eq!(all[0], header.join(delimiter));
    for row in all.iter().skip(1) {
        if cols == 0 {
            assert_eq!(*row, "");
        } else {
            let fields: Vec<&str> = row.split(delimiter).collect();
            assert_eq!(fields.len(), cols as usize);
            for (kind, field) in kinds.iter().zip(fields.iter()) {
                assert!(fits(*kind, field));
            }
        }
    }
}

#[test]
fn consolidate_appends_artifacts_in_order() {
    let mut sink: Vec<u8> = bytes("FIELD0\n");
    let artifacts: Vec<Vec<u8>> = vec![bytes("a\nb\n"), bytes(""), bytes("c\n")];
    consolidate(&mut sink, &artifacts);
    assert_eq!(sink, bytes("FIELD0\na\nb\nc\n"));
}

#[test]
fn consolidate_of_nothing_leaves_the_sink() {
    let mut sink: Vec<u8> = bytes("FIELD0\n");
    let artifacts: Vec<Vec<u8>> = Vec::new();
    consolidate(&mut sink, &artifacts);
    assert_eq!(sink, bytes("FIELD0\n"));
}

#[test]
fn consolidate_copies_bytes_unchanged() {
    let mut sink: Vec<u8> = Vec::new();
    let artifacts: Vec<Vec<u8>> = vec![vec![0u8, 255, 10, 13], vec![10u8, 10]];
    consolidate(&mut sink, &artifacts);
    assert_eq!(sink, vec![0u8, 255, 10, 13, 10, 10]);
}

#[test]
fn every_worker_yields_the_lines_of_its_range() {
    let config = config(1003, 2, 4, ",");
    let schema = Schema::random(2);
    let artifacts = run_workers(&schema, &config);
    let counts: Vec<usize> = artifacts.iter().map(|a| line_count(a)).collect();
    assert_eq!(counts, vec![250, 250, 250, 253]);
}

#[test]
fn few_rows_go_to_a_single_worker() {
    let config = config(50, 2, 5, ",");
    let schema = Schema::random(2);
    let artifacts = run_workers(&schema, &config);
    assert_eq!(artifacts.len(), 1);
    assert_eq!(line_count(&artifacts[0]), 50);
}

#[test]
fn thousand_rows_of_three_columns_on_four_threads() {
    let config = config(1000, 3, 4, ",");
    assert_eq!(config.workers(), 4);
    let table = generate(&config);
    let text = String::from_utf8(table.data).unwrap();
    let all: Vec<&str> = text.split_terminator('\n').collect();
    assert_eq!(all.len(), 1001);
    assert_eq!(all[0], "FIELD0,FIELD1,FIELD2");
    for row in all.iter().skip(1) {
        assert_eq!(row.split(',').count(), 3);
    }
    let definition = String::from_utf8(table.definition).unwrap();
    let mut rest: &str = definition.strip_prefix("CREATE TABLE ").unwrap();
    let mut pairs: usize = 0;
    while rest != "\n" {
        let name = format!("FIELD{} ", pairs);
        rest = rest.strip_prefix(name.as_str()).unwrap();
        let kind = ["VARCHAR(100)", "NUMBER(10,0)", "TIMESTAMP"]
            .into_iter()
            .find(|kind| rest.starts_with(kind))
            .unwrap();
        rest = rest[kind.len()..].strip_prefix(',').unwrap();
        pairs += 1;
    }
    assert_eq!(pairs, 3);
}

#[test]
fn fifty_rows_on_five_threads_run_on_one_worker() {
    let config = config(50, 3, 5, ",");
    assert_eq!(config.workers(), 1);
    let table = generate(&config);
    assert_eq!(line_count(&table.data), 51);
    check_table(50, 3, 5, ",");
}

#[test]
fn no_columns_give_empty_lines() {
    let config = config(25, 0, 1, "~|");
    let table = generate(&config);
    assert_eq!(table.schema.len(), 0);
    assert_eq!(table.data, bytes(&"\n".repeat(26)));
    assert_eq!(table.definition, bytes("CREATE TABLE \n"));
}

#[test]
fn tables_of_many_shapes_are_well_formed() {
    check_table(1, 1, 1, ",");
    check_table(9, 2, 1, ";");
    check_table(10, 4, 1, "~|");
    check_table(11, 4, 3, "~|");
    check_table(105, 5, 4, "\t");
    check_table(333, 7, 3, " | ");
    check_table(2000, 2, 16, ",");
}

#[test]
fn fields_have_the_kind_of_their_column() {
    let kinds: Vec<ColumnType> = vec![
        ColumnType::Date,
        ColumnType::Text,
        ColumnType::Number,
        ColumnType::Text,
    ];
    let schema = Schema::from_kinds(&kinds);
    let config = config(240, 4, 3, ",");
    let text = String::from_utf8(data_text(&schema, &config)).unwrap();
    let all: Vec<&str> = text.split_terminator('\n').collect();
    assert_eq!(all.len(), 241);
    assert_eq!(all[0], "FIELD0,FIELD1,FIELD2,FIELD3");
    for row in all.iter().skip(1) {
        let fields: Vec<&str> = row.split(',').collect();
        assert_eq!(fields.len(), 4);
        assert!(is_date(fields[0]));
        assert!(is_text(fields[1]));
        assert!(is_number(fields[2]));
        assert!(is_text(fields[3]));
    }
}

#[test]
fn two_runs_agree_in_structure() {
    let config = config(400, 6, 4, "~|");
    let first = generate(&config);
    let second = generate(&config);
    assert_eq!(first.schema.len(), second.schema.len());
    assert_eq!(line_count(&first.data), line_count(&second.data));
    let first_text = String::from_utf8(first.data).unwrap();
    let second_text = String::from_utf8(second.data).unwrap();
    assert_eq!(first_text.lines().next(), second_text.lines().next());
    assert_ne!(first_text, second_text);
}

#[test]
fn definition_text_is_one_line() {
    let kinds: Vec<ColumnType> = vec![ColumnType::Number, ColumnType::Text];
    let schema = Schema::from_kinds(&kinds);
    assert_eq!(
        definition_text(&schema),
        bytes("CREATE TABLE FIELD0 NUMBER(10,0),FIELD1 VARCHAR(100),\n")
    );
}

#[test]
fn definition_matches_the_drawn_schema() {
    let config = config(10, 8, 1, ",");
    let table = generate(&config);
    assert_eq!(table.definition, definition_text(&table.schema));
    let kinds = table.schema.kinds();
    let definition = String::from_utf8(table.definition).unwrap();
    let body = definition.strip_prefix("CREATE TABLE ").unwrap();
    let body = body.strip_suffix(",\n").unwrap();
    let mut rest: &str = body;
    for (i, kind) in kinds.iter().enumerate() {
        let entry = format!("FIELD{} {}", i, kind.sql_type());
        rest = rest.strip_prefix(entry.as_str()).unwrap();
        rest = rest.strip_prefix(',').unwrap_or(rest);
    }
    assert_eq!(rest, "");
}
