use rustable::columns::{column_widths, first_uneven_row};

fn record(cells: &[&str]) -> Vec<String> {
    cells.iter().map(|cell| cell.to_string()).collect()
}

#[test]
fn widths_are_the_column_maxima() {
    let header = Some(record(&["Username", "Id"]));
    let rows = vec![record(&["booker12", "9012"]), record(&["grey07", "20700"])];
    assert_eq!(column_widths(&header, &rows), vec![8, 5]);
}

#[test]
fn header_can_be_the_widest() {
    let header = Some(record(&["First name"]));
    let rows = vec![record(&["Rachel"]), record(&["Laura"])];
    assert_eq!(column_widths(&header, &rows), vec![10]);
}

#[test]
fn without_rows_the_header_gives_the_widths() {
    let header = Some(record(&["a", "bcd", ""]));
    assert_eq!(column_widths(&header, &Vec::new()), vec![1, 3, 0]);
}

#[test]
fn without_header_the_rows_give_the_widths() {
    let rows = vec![record(&["abc", "d"]), record(&["hello", ""])];
    assert_eq!(column_widths(&None, &rows), vec![5, 1]);
}

#[test]
fn without_header_and_rows_there_are_no_columns() {
    assert_eq!(column_widths(&None, &Vec::new()), Vec::<usize>::new());
    assert_eq!(column_widths(&Some(Vec::new()), &Vec::new()), Vec::<usize>::new());
}

#[test]
fn double_width_character_is_measured_as_two() {
    let rows = vec![record(&["中"]), record(&[""])];
    assert_eq!(column_widths(&None, &rows), vec![2]);
}

#[test]
fn ambiguous_characters_are_wide() {
    let rows = vec![record(&["“"]), record(&["§§"])];
    assert_eq!(column_widths(&None, &rows), vec![4]);
}

#[test]
fn combining_mark_takes_no_column() {
    let rows = vec![record(&["e\u{301}"])];
    assert_eq!(column_widths(&None, &rows), vec![1]);
}

#[test]
fn frame_characters_take_one_column_each() {
    let rows = vec![record(&["a | b", "- -", "中 - 文"])];
    assert_eq!(column_widths(&None, &rows), vec![5, 3, 7]);
}

#[test]
fn uniform_table_has_no_uneven_row() {
    let header = Some(record(&["a", "b"]));
    let rows = vec![record(&["1", "2"]), record(&["3", "4"])];
    assert_eq!(first_uneven_row(&header, &rows), None);
    assert_eq!(first_uneven_row(&None, &rows), None);
    assert_eq!(first_uneven_row(&None, &Vec::new()), None);
}

#[test]
fn first_uneven_row_is_found() {
    let header = Some(record(&["a", "b"]));
    let rows = vec![
        record(&["1", "2"]),
        record(&["3"]),
        record(&["4", "5", "6"]),
    ];
    assert_eq!(first_uneven_row(&header, &rows), Some(1));
}

#[test]
fn without_header_the_first_row_sets_the_count() {
    let rows = vec![record(&["1"]), record(&["2"]), record(&["3", "4"])];
    assert_eq!(first_uneven_row(&None, &rows), Some(2));
    let header = Some(record(&["a", "b"]));
    assert_eq!(first_uneven_row(&header, &rows), Some(0));
}
