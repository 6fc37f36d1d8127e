use rustable::render::plain_text;
use rustable::{layout, ColumnAlign};
use unicode_width::UnicodeWidthStr;

fn record(cells: &[&str]) -> Vec<String> {
    cells.iter().map(|cell| cell.to_string()).collect()
}

fn sample() -> (Option<Vec<String>>, Vec<Vec<String>>) {
    (
        Some(record(&["Name", "都市", "Note"])),
        vec![
            record(&["Ann", "東京", "a - b"]),
            record(&["Bartholomew", "NY", ""]),
            record(&["李", "上海市", "“x”"]),
        ],
    )
}

fn lines_of(header: &Option<Vec<String>>, rows: &Vec<Vec<String>>, align: ColumnAlign) -> Vec<String> {
    let text = plain_text(&layout(header, rows, align).unwrap());
    text.lines().map(|line| line.to_string()).collect()
}

fn cells_of(line: &str) -> Vec<String> {
    let inside = &line[2..line.len() - 2];
    inside.split(" | ").map(|cell| cell.to_string()).collect()
}

fn strip(lines: &[String]) -> (Option<Vec<String>>, Vec<Vec<String>>) {
    if lines.len() >= 2 && lines[1].starts_with("|-") {
        (
            Some(cells_of(&lines[0])),
            lines[2..].iter().map(|line| cells_of(line)).collect(),
        )
    } else {
        (None, lines.iter().map(|line| cells_of(line)).collect())
    }
}

#[test]
fn all_lines_have_the_same_width() {
    let (header, rows) = sample();
    for align in [ColumnAlign::Center, ColumnAlign::Left, ColumnAlign::Right] {
        let lines = lines_of(&header, &rows, align);
        assert_eq!(lines.len(), 5);
        for line in &lines {
            assert_eq!(line.width_cjk(), lines[0].width_cjk());
        }
        assert_eq!(lines[0].width_cjk(), 11 + 6 + 5 + 3 * 3 + 1);
        let bare = lines_of(&None, &rows, align);
        assert_eq!(bare.len(), 3);
        for line in &bare {
            assert_eq!(line.width_cjk(), bare[0].width_cjk());
        }
    }
}

#[test]
fn stripping_recovers_the_cells() {
    let (header, rows) = sample();
    for align in [ColumnAlign::Center, ColumnAlign::Left, ColumnAlign::Right] {
        let (shown_header, shown_rows) = strip(&lines_of(&header, &rows, align));
        let shown_header = shown_header.unwrap();
        let trimmed: Vec<&str> = shown_header.iter().map(|cell| cell.trim_matches(' ')).collect();
        assert_eq!(trimmed, vec!["Name", "都市", "Note"]);
        assert_eq!(shown_rows.len(), rows.len());
        for (shown, row) in shown_rows.iter().zip(rows.iter()) {
            let trimmed: Vec<&str> = shown.iter().map(|cell| cell.trim_matches(' ')).collect();
            assert_eq!(trimmed, row.iter().map(|cell| cell.as_str()).collect::<Vec<_>>());
        }
    }
}

#[test]
fn stripping_keeps_cells_up_to_outer_spaces() {
    let rows = vec![record(&["  padded  ", "x"]), record(&["y", " z"])];
    let (shown_header, shown_rows) = strip(&lines_of(&None, &rows, ColumnAlign::Center));
    assert_eq!(shown_header, None);
    assert_eq!(shown_rows[0][0].trim_matches(' '), "padded");
    assert_eq!(shown_rows[1][1].trim_matches(' '), "z");
}

#[test]
fn rendering_the_shown_cells_again_changes_nothing() {
    let (header, rows) = sample();
    for align in [ColumnAlign::Center, ColumnAlign::Left, ColumnAlign::Right] {
        let lines = lines_of(&header, &rows, align);
        let (shown_header, shown_rows) = strip(&lines);
        assert_eq!(lines_of(&shown_header, &shown_rows, align), lines);
        let bare = lines_of(&None, &rows, align);
        let (no_header, bare_rows) = strip(&bare);
        assert_eq!(lines_of(&no_header, &bare_rows, align), bare);
    }
}
