use rustable::render::plain_text;
use rustable::{format_table, ColumnAlign, Span, TableError};

const USERS: &str = "\
Username,Identifier,First name,Last name
booker12,9012,Rachel,Booker
grey07,2070,Laura,Grey";

fn text_of(input: &[u8], align: ColumnAlign) -> String {
    plain_text(&format_table(input, align).unwrap())
}

#[test]
fn normal_csv_table() {
    let input = "\
Username,Identifier,First name,Last name
booker12,9012,Rachel,Booker
grey07,2070,Laura,Grey";
    let spans = format_table(input.as_bytes(), ColumnAlign::Center).unwrap();
    let actual = plain_text(&spans);
    let expected = "\
| Username | Identifier | First name | Last name |
|------------------------------------------------|
| booker12 |    9012    |   Rachel   |  Booker   |
|  grey07  |    2070    |   Laura    |   Grey    |
";
    assert_eq!(
        actual, expected,
        "\nexpected=\n{}\n\ngot=\n{}",
        expected, actual
    );
}

#[test]
fn left_aligned_csv_table() {
    let expected = "\
| Username | Identifier | First name | Last name |
|------------------------------------------------|
| booker12 | 9012       | Rachel     | Booker    |
| grey07   | 2070       | Laura      | Grey      |
";
    assert_eq!(text_of(USERS.as_bytes(), ColumnAlign::Left), expected);
}

#[test]
fn right_aligned_csv_table() {
    let expected = "\
| Username | Identifier | First name | Last name |
|------------------------------------------------|
| booker12 |       9012 |     Rachel |    Booker |
|   grey07 |       2070 |      Laura |      Grey |
";
    assert_eq!(text_of(USERS.as_bytes(), ColumnAlign::Right), expected);
}

#[test]
fn header_cells_are_the_styled_spans() {
    let spans = format_table(b"a,bb\nccc,d\n", ColumnAlign::Left).unwrap();
    let expected = vec![
        Span { text: "| ".to_string(), styled: false },
        Span { text: "a  ".to_string(), styled: true },
        Span { text: " | ".to_string(), styled: false },
        Span { text: "bb".to_string(), styled: true },
        Span { text: " |\n".to_string(), styled: false },
        Span { text: "|----------|\n".to_string(), styled: false },
        Span { text: "| ccc | d  |\n".to_string(), styled: false },
    ];
    assert_eq!(spans, expected);
}

#[test]
fn wide_characters_take_two_columns() {
    let input = "名前,年齢\n太郎,20\n";
    let expected = "\
| 名前 | 年齢 |
|-------------|
| 太郎 |  20  |
";
    assert_eq!(text_of(input.as_bytes(), ColumnAlign::Center), expected);
}

#[test]
fn empty_input_renders_nothing() {
    let spans = format_table(b"", ColumnAlign::Center).unwrap();
    assert!(spans.is_empty());
    assert_eq!(plain_text(&spans), "");
}

#[test]
fn header_only_input_renders_header_and_bar() {
    assert_eq!(text_of(b"a,b\n", ColumnAlign::Center), "| a | b |\n|-------|\n");
}

#[test]
fn single_column_input() {
    assert_eq!(
        text_of(b"id\n1\n22\n", ColumnAlign::Right),
        "| id |\n|----|\n|  1 |\n| 22 |\n"
    );
}

#[test]
fn quoted_field_keeps_its_comma() {
    assert_eq!(
        text_of(b"\"a,b\",c\n1,2\n", ColumnAlign::Left),
        "| a,b | c |\n|---------|\n| 1   | 2 |\n"
    );
}

#[test]
fn mismatched_field_count_is_an_error() {
    let result = format_table(b"a,b\n1,2,3\n", ColumnAlign::Center);
    match result {
        Err(TableError::Parse(message)) => {
            assert!(message.contains("found record with 3 fields"), "{}", message);
            assert!(message.contains("previous record has 2 fields"), "{}", message);
        }
        other => panic!("expected a parse error, got {:?}", other),
    }
}

#[test]
fn mismatched_field_count_after_good_rows_leaves_no_output() {
    let result = format_table(b"a,b\n1,2\n3,4\n5\n", ColumnAlign::Left);
    assert!(matches!(result, Err(TableError::Parse(_))));
}

#[test]
fn invalid_text_in_a_row_is_an_error() {
    let result = format_table(b"a,b\n1,\xff\n", ColumnAlign::Center);
    match result {
        Err(TableError::Parse(message)) => assert!(message.contains("CSV parse error"), "{}", message),
        other => panic!("expected a parse error, got {:?}", other),
    }
}

#[test]
fn unreadable_header_is_left_out() {
    let text = text_of(b"\xff,b\n1,2\n333,4\n", ColumnAlign::Right);
    assert_eq!(text, "|   1 | 2 |\n| 333 | 4 |\n");
}
