//! CSV parsing, writing, and type inference.

use humanboard::csv::{detect_delimiter, infer_column_type, is_data_file, looks_like_number,
    parse_csv_content, quote_csv_field, split_csv_line, write_csv_content, DataError};
use humanboard::constants::MAX_CSV_ROWS;
use humanboard::types::{DataCell, DataColumn, DataOrigin, DataRow, DataSource, DataType};

fn chars(s: &str) -> Vec<char> {
    s.chars().collect()
}

#[test]
fn test_parse_simple_csv() {
    let content = "Name,Age,Active\nAlice,30,true\nBob,25,false";
    let result = parse_csv_content(content, ',', None).unwrap();

    assert_eq!(result.columns.len(), 3);
    assert_eq!(result.columns[0].name, "Name");
    assert_eq!(result.columns[1].name, "Age");
    assert_eq!(result.columns[2].name, "Active");

    assert_eq!(result.rows.len(), 2);
}

#[test]
fn test_type_inference() {
    let content = "Name,Score,Pass\nAlice,95.5,true\nBob,87.0,false";
    let result = parse_csv_content(content, ',', None).unwrap();

    assert_eq!(result.columns[0].data_type, DataType::Text);
    assert_eq!(result.columns[1].data_type, DataType::Number);
    assert_eq!(result.columns[2].data_type, DataType::Boolean);
}

#[test]
fn test_quoted_fields() {
    let content = "Name,Description\n\"John Doe\",\"A \"\"quoted\"\" value\"\n\"Jane, Smith\",\"Contains comma\"";
    let result = parse_csv_content(content, ',', None).unwrap();

    assert_eq!(result.rows.len(), 2);
}

#[test]
fn test_write_csv_content() {
    let ds = DataSource {
        id: 1,
        name: "Test".to_string(),
        columns: vec![
            DataColumn::new("Name", DataType::Text),
            DataColumn::new("Age", DataType::Number),
        ],
        rows: vec![
            DataRow::new(vec![
                DataCell::Text("Alice".to_string()),
                DataCell::Number("30".to_string()),
            ]),
            DataRow::new(vec![
                DataCell::Text("Bob".to_string()),
                DataCell::Number("25".to_string()),
            ]),
        ],
        origin: DataOrigin::Manual,
        dirty: false,
    };

    let output = write_csv_content(&ds, ',');
    assert!(output.contains("Name,Age"));
    assert!(output.contains("Alice,30"));
    assert!(output.contains("Bob,25"));
}

#[test]
fn test_quote_csv_field() {
    assert_eq!(quote_csv_field("simple", ','), "simple");
    assert_eq!(quote_csv_field("with,comma", ','), "\"with,comma\"");
    assert_eq!(quote_csv_field("with\"quote", ','), "\"with\"\"quote\"");
    assert_eq!(quote_csv_field("with\nnewline", ','), "\"with\nnewline\"");
}

#[test]
fn test_roundtrip() {
    let original = "Name,Score\nAlice,95.5\nBob,87.0";
    let parsed = parse_csv_content(original, ',', None).unwrap();
    let written = write_csv_content(&parsed, ',');
    let reparsed = parse_csv_content(&written, ',', None).unwrap();

    assert_eq!(parsed.columns.len(), reparsed.columns.len());
    assert_eq!(parsed.rows.len(), reparsed.rows.len());
}

#[test]
fn test_looks_like_number() {
    assert!(looks_like_number("123"));
    assert!(looks_like_number("123.45"));
    assert!(looks_like_number("$123.45"));
    assert!(looks_like_number("123%"));
    assert!(looks_like_number("$1,234.56"));
    assert!(looks_like_number("-50"));
    assert!(looks_like_number("0.5"));

    assert!(!looks_like_number("1,2,3"));
    assert!(!looks_like_number("$1$2"));
    assert!(!looks_like_number("abc"));
    assert!(!looks_like_number(""));
    assert!(!looks_like_number("$123%"));
}

#[test]
fn test_type_inference_not_too_aggressive() {
    let rows = vec![vec![chars("1,2,3")], vec![chars("4,5,6")]];
    let data_type = infer_column_type(&rows, 0);
    assert_eq!(data_type, DataType::Text);

    let rows = vec![vec![chars("$100")], vec![chars("$200")]];
    let data_type = infer_column_type(&rows, 0);
    assert_eq!(data_type, DataType::Number);
}

#[test]
fn test_row_limit() {
    let mut content = String::from("col1\n");
    for i in 0..=MAX_CSV_ROWS {
        content.push_str(&format!("{}\n", i));
    }

    let result = parse_csv_content(&content, ',', None);
    assert!(result.is_err());
    match result {
        Err(DataError::TooManyRows { rows, max_rows }) => {
            assert_eq!(max_rows, MAX_CSV_ROWS);
            assert!(rows > MAX_CSV_ROWS);
        }
        _ => panic!("Expected TooManyRows error"),
    }
}

#[test]
fn test_empty_content_is_an_error() {
    match parse_csv_content("", ',', None) {
        Err(DataError::EmptyFile) => {}
        _ => panic!("Expected EmptyFile error"),
    }
}

#[test]
fn test_parse_takes_name_from_path() {
    let result = parse_csv_content("A,B\n1,2", ',', Some("/data/sales.csv")).unwrap();
    assert_eq!(result.name, "sales");
    match result.origin {
        DataOrigin::File { path, delimiter } => {
            assert_eq!(path, "/data/sales.csv");
            assert_eq!(delimiter, ',');
        }
        _ => panic!("Expected a file origin"),
    }
}

#[test]
fn test_detect_delimiter_prefers_extension() {
    assert_eq!(detect_delimiter(Some("data.tsv"), "a,b\nc,d"), '\t');
    assert_eq!(detect_delimiter(Some("data.csv"), "a;b;c\nd;e;f"), ';');
    assert_eq!(detect_delimiter(None, "a\tb\tc\nd\te\tf"), '\t');
    assert_eq!(detect_delimiter(None, "a,b\nc,d"), ',');
}

#[test]
fn test_split_csv_line_respects_quotes() {
    let fields = split_csv_line(&chars("a,\"b,c\",d"), ',');
    let texts: Vec<String> = fields.iter().map(|f| f.iter().collect()).collect();
    assert_eq!(texts, vec!["a".to_string(), "b,c".to_string(), "d".to_string()]);
}

#[test]
fn test_is_data_file() {
    assert!(is_data_file("table.csv"));
    assert!(is_data_file("TABLE.TSV"));
    assert!(is_data_file("payload.json"));
    assert!(!is_data_file("image.png"));
    assert!(!is_data_file("noextension"));
}
