//! Content types, classification, and chart configuration.

use humanboard::types::{extract_youtube_id, image_fit_size, language_from_extension,
    AggregationType, ArrowDirection, ChartConfig, ChartType, DataCell, DataSource, DataType,
    ItemContent, SortOrder};

#[test]
fn test_language_from_extension() {
    assert_eq!(language_from_extension("rs"), Some("rust"));
    assert_eq!(language_from_extension("PY"), Some("python"));
    assert_eq!(language_from_extension("cc"), Some("cpp"));
    assert_eq!(language_from_extension("yml"), Some("yaml"));
    assert_eq!(language_from_extension("exotic"), None);
}

#[test]
fn test_extract_youtube_id() {
    assert_eq!(
        extract_youtube_id("https://youtu.be/abc123?t=42"),
        Some("abc123".to_string())
    );
    assert_eq!(
        extract_youtube_id("https://www.youtube.com/watch?v=xyz789&list=a"),
        Some("xyz789".to_string())
    );
    assert_eq!(
        extract_youtube_id("https://www.youtube.com/embed/qqq#frag"),
        Some("qqq".to_string())
    );
    assert_eq!(extract_youtube_id("https://example.com/video"), None);
}

#[test]
fn test_from_path_classifies_by_extension() {
    assert!(matches!(ItemContent::from_path("/a/photo.JPG"), ItemContent::Image(_)));
    assert!(matches!(ItemContent::from_path("/a/movie.mp4"), ItemContent::Video(_)));
    assert!(matches!(ItemContent::from_path("/a/song.flac"), ItemContent::Audio(_)));
    assert!(matches!(ItemContent::from_path("/a/doc.pdf"), ItemContent::Pdf { thumbnail: None, .. }));
    match ItemContent::from_path("/a/notes.md") {
        ItemContent::Markdown { title, content, .. } => {
            assert_eq!(title, "notes");
            assert_eq!(content, "");
        }
        other => panic!("Expected markdown, found {:?}", other),
    }
    match ItemContent::from_path("/a/main.rs") {
        ItemContent::Code { language, .. } => assert_eq!(language, "rust"),
        other => panic!("Expected code, found {:?}", other),
    }
    match ItemContent::from_path("/a/readme.txt") {
        ItemContent::Text(name) => assert_eq!(name, "readme.txt"),
        other => panic!("Expected text, found {:?}", other),
    }
}

#[test]
fn test_display_name() {
    assert_eq!(ItemContent::Image("/x/cat.png".to_string()).display_name(), "cat.png");
    assert_eq!(ItemContent::Text("hello".to_string()).display_name(), "hello");
    assert_eq!(ItemContent::YouTube("abc".to_string()).display_name(), "YouTube: abc");
}

#[test]
fn test_default_sizes() {
    assert_eq!(ItemContent::Text("x".to_string()).default_size(), (300, 100));
    assert_eq!(ItemContent::YouTube("v".to_string()).default_size(), (560, 315));
    let arrow = ItemContent::Arrow {
        end_offset: (-120, 6),
        color: String::new(),
        thickness: 2,
        head_style: humanboard::types::ArrowHead::Arrow,
    };
    assert_eq!(arrow.default_size(), (120, 20));
}

#[test]
fn test_image_fit_size() {
    assert_eq!(image_fit_size(400, 300), (400, 300));
    assert_eq!(image_fit_size(1600, 800), (800, 400));
    assert_eq!(image_fit_size(500, 1000), (400, 800));
}

#[test]
fn test_arrow_direction_round_trip() {
    assert_eq!(ArrowDirection::from_offset((5, 5)), ArrowDirection::UpRight);
    assert_eq!(ArrowDirection::from_offset((-5, 5)), ArrowDirection::UpLeft);
    assert_eq!(ArrowDirection::from_offset((5, -5)), ArrowDirection::DownRight);
    assert_eq!(ArrowDirection::from_offset((-5, -5)), ArrowDirection::DownLeft);
    assert_eq!(ArrowDirection::UpLeft.to_signs(), (-1, 1));
    assert_eq!(ArrowDirection::DownRight.to_signs(), (1, -1));
}

#[test]
fn test_data_cell_parse() {
    assert!(matches!(DataCell::parse("", &DataType::Number), DataCell::Empty));
    assert!(matches!(DataCell::parse("95.5", &DataType::Number), DataCell::Number(_)));
    assert!(matches!(DataCell::parse("not a number", &DataType::Number), DataCell::Text(_)));
    assert!(matches!(DataCell::parse("YES", &DataType::Boolean), DataCell::Boolean(true)));
    assert!(matches!(DataCell::parse("0", &DataType::Boolean), DataCell::Boolean(false)));
    assert!(matches!(DataCell::parse("maybe", &DataType::Boolean), DataCell::Text(_)));
    assert!(matches!(DataCell::parse("2024-01-01", &DataType::Date), DataCell::Date(_)));
}

#[test]
fn test_data_cell_to_string() {
    assert_eq!(DataCell::Text("a".to_string()).to_string(), "a");
    assert_eq!(DataCell::Number("30".to_string()).to_string(), "30");
    assert_eq!(DataCell::Boolean(true).to_string(), "true");
    assert_eq!(DataCell::Empty.to_string(), "");
}

#[test]
fn test_chart_config_builders() {
    let config = ChartConfig::new(ChartType::Line)
        .with_columns(0, vec![1, 2])
        .with_title("Revenue".to_string())
        .with_aggregation(AggregationType::Average)
        .with_sort_order(SortOrder::ValueDesc);

    assert_eq!(config.chart_type, ChartType::Line);
    assert_eq!(config.x_column, Some(0));
    assert_eq!(config.y_columns, vec![1, 2]);
    assert_eq!(config.title.as_deref(), Some("Revenue"));
    assert_eq!(config.aggregation, AggregationType::Average);
    assert_eq!(config.sort_order, SortOrder::ValueDesc);
}

#[test]
fn test_chart_enum_labels() {
    assert_eq!(ChartType::Bar.label(), "Bar");
    assert_eq!(AggregationType::Sum.label(), "Sum");
    assert_eq!(SortOrder::Unsorted.label(), "Original");
    assert_eq!(ChartType::all().len(), 5);
    assert_eq!(AggregationType::all().len(), 6);
    assert_eq!(SortOrder::all().len(), 5);
}

#[test]
fn test_data_source_editing() {
    let mut ds = DataSource::new_empty(3, "Table".to_string());
    assert_eq!(ds.row_count(), 3);
    assert_eq!(ds.column_count(), 3);
    assert!(!ds.has_file_origin());
    ds.add_row();
    assert_eq!(ds.row_count(), 4);
    ds.add_column("D".to_string(), DataType::Number);
    assert_eq!(ds.column_count(), 4);
    assert_eq!(ds.rows[0].cells.len(), 4);
    ds.mark_dirty();
    assert!(ds.is_dirty());
    ds.mark_clean();
    assert!(!ds.is_dirty());
}

#[test]
fn test_type_labels() {
    assert_eq!(ItemContent::Image("/a.png".to_string()).type_label(), "IMAGE");
    assert_eq!(
        ItemContent::Code { path: "/m.rs".to_string(), language: "rust".to_string() }.type_label(),
        "RUST"
    );
    assert_eq!(
        ItemContent::Code { path: "/m.zz".to_string(), language: "zz".to_string() }.type_label(),
        "CODE"
    );
}

#[test]
fn test_searchability() {
    assert!(ItemContent::Text("x".to_string()).is_searchable());
    assert!(ItemContent::Image("/a.png".to_string()).is_searchable());
    assert!(!ItemContent::Arrow {
        end_offset: (1, 1),
        color: String::new(),
        thickness: 2,
        head_style: humanboard::types::ArrowHead::Arrow,
    }
    .is_searchable());
}
