use rustable::render::{horizontal_bar, plain_text, render_header, render_line, render_table};
use rustable::{layout, ColumnAlign, Span, TableError};

fn record(cells: &[&str]) -> Vec<String> {
    cells.iter().map(|cell| cell.to_string()).collect()
}

#[test]
fn line_has_pipes_and_single_spaces() {
    let line = render_line(&record(&["a", "bb"]), &vec![3, 2], ColumnAlign::Right);
    assert_eq!(line, "|   a | bb |");
}

#[test]
fn line_of_one_cell() {
    assert_eq!(render_line(&record(&["x"]), &vec![1], ColumnAlign::Center), "| x |");
}

#[test]
fn line_without_cells() {
    assert_eq!(render_line(&Vec::new(), &Vec::new(), ColumnAlign::Center), "|  |");
}

#[test]
fn line_lets_a_wide_cell_overflow() {
    let line = render_line(&record(&["abcdef", "x"]), &vec![3, 3], ColumnAlign::Left);
    assert_eq!(line, "| abcdef | x   |");
}

#[test]
fn bar_spans_the_frame() {
    assert_eq!(horizontal_bar(&vec![8, 10, 10, 9]).len(), 50);
    assert_eq!(horizontal_bar(&vec![1, 2]), "|--------|");
    assert_eq!(horizontal_bar(&vec![0]), "|--|");
    assert_eq!(horizontal_bar(&vec![5]), "|-------|");
}

#[test]
fn bar_without_columns() {
    assert_eq!(horizontal_bar(&Vec::new()), "||");
}

#[test]
fn header_is_split_into_spans() {
    let spans = render_header(&record(&["a", "b"]), &vec![2, 1], ColumnAlign::Right);
    let expected = vec![
        Span { text: "| ".to_string(), styled: false },
        Span { text: " a".to_string(), styled: true },
        Span { text: " | ".to_string(), styled: false },
        Span { text: "b".to_string(), styled: true },
        Span { text: " |\n".to_string(), styled: false },
    ];
    assert_eq!(spans, expected);
}

#[test]
fn table_with_given_widths() {
    let header = Some(record(&["h"]));
    let rows = vec![record(&["1"]), record(&["22"])];
    let spans = render_table(&header, &rows, &vec![4], ColumnAlign::Center);
    assert_eq!(plain_text(&spans), "|  h   |\n|------|\n|  1   |\n|  22  |\n");
}

#[test]
fn table_without_header_has_no_bar() {
    let rows = vec![record(&["abc"]), record(&["hello"])];
    let spans = layout(&None, &rows, ColumnAlign::Center).unwrap();
    assert_eq!(plain_text(&spans), "|  abc  |\n| hello |\n");
    assert!(spans.iter().all(|span| !span.styled));
    assert_eq!(spans.len(), 2);
}

#[test]
fn table_without_columns_is_empty() {
    assert!(layout(&Some(Vec::new()), &Vec::new(), ColumnAlign::Center).unwrap().is_empty());
    assert!(layout(&None, &Vec::new(), ColumnAlign::Left).unwrap().is_empty());
    assert!(layout(&None, &vec![Vec::new(), Vec::new()], ColumnAlign::Right).unwrap().is_empty());
}

#[test]
fn uneven_row_is_refused() {
    let header = Some(record(&["a", "b"]));
    let rows = vec![record(&["1", "2"]), record(&["3"])];
    assert_eq!(
        layout(&header, &rows, ColumnAlign::Center),
        Err(TableError::UnevenRow { row: 1 })
    );
}

#[test]
fn plain_text_joins_the_spans() {
    let spans = vec![
        Span { text: "ab".to_string(), styled: true },
        Span { text: "".to_string(), styled: false },
        Span { text: "c\n".to_string(), styled: false },
    ];
    assert_eq!(plain_text(&spans), "abc\n");
    assert_eq!(plain_text(&Vec::new()), "");
}
