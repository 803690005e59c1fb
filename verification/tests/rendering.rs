use lexa_logger::clock::format_timestamp;
use lexa_logger::clock::Timestamp;
use lexa_logger::layout::Alignment;
use lexa_logger::layout::Cell;
use lexa_logger::layout::GridLayout;
use lexa_logger::layout::LayoutError;
use lexa_logger::text::display_width;
use lexa_logger::text::make_spaces;
use lexa_logger::text::truncate_to_width;

fn row(texts: &[&str]) -> Vec<Cell> {
    texts.iter().map(|t| Cell::new(t)).collect()
}

#[test]
fn single_row_round_trip() {
    let mut grid = GridLayout::new().without_border();
    let cells = vec![
        Cell::new("INFO").with_alignment(Alignment::Right),
        Cell::new("|"),
        Cell::new("src"),
        Cell::new("->"),
        Cell::new("hello"),
    ];
    grid.add_row(cells).unwrap();
    assert_eq!(grid.render(), "INFO|src->hello\n");
}

#[test]
fn column_boundaries_follow_the_widest_cell() {
    let mut grid = GridLayout::new().without_border();
    grid.add_row(row(&["INFO", "|", "src", "->", "hello"])).unwrap();
    grid.add_row(vec![
        Cell::new("WARN"),
        Cell::new("|"),
        Cell::new("a").with_alignment(Alignment::Right),
        Cell::new("->"),
        Cell::new("hi"),
    ])
    .unwrap();
    assert_eq!(grid.render(), "INFO|src->hello\nWARN|  a->hi   \n");
}

#[test]
fn center_alignment_puts_odd_space_right() {
    let mut grid = GridLayout::new().without_border();
    grid.add_row(vec![Cell::new("a").with_alignment(Alignment::Center)]).unwrap();
    grid.add_row(vec![Cell::new("abcd")]).unwrap();
    assert_eq!(grid.render(), " a  \nabcd\n");
}

#[test]
fn truncation_respects_max_width() {
    let mut grid = GridLayout::new().without_border().with_max_width(10);
    grid.add_row(row(&["ab", "cdefghijXYZ"])).unwrap();
    let rendered = grid.render();
    assert_eq!(rendered, "abcdefghij\n");
    assert!(display_width(rendered.trim_end_matches('\n')) <= 10);
}

#[test]
fn truncation_narrows_only_the_last_column() {
    let mut grid = GridLayout::new().without_border().with_max_width(7);
    grid.add_row(row(&["head", "tail", "overflowing"])).unwrap();
    // 4 + 4 already exceeds 7: the message column shrinks to nothing,
    // the other columns keep their natural width.
    assert_eq!(grid.render(), "headtail\n");
}

#[test]
fn no_truncation_below_max_width() {
    let mut grid = GridLayout::new().without_border().with_max_width(120);
    grid.add_row(row(&["ab", "cd"])).unwrap();
    assert_eq!(grid.render(), "abcd\n");
}

#[test]
fn bordered_render_frames_cells() {
    let mut grid = GridLayout::new();
    grid.add_row(row(&["a", "b"])).unwrap();
    let rule: String = std::iter::repeat('\u{2500}').take(5).collect();
    let expected = format!("{rule}\n\u{2502}a\u{2502}b\u{2502}\n{rule}\n");
    assert_eq!(grid.render(), expected);
}

#[test]
fn empty_layout_renders_nothing() {
    let grid = GridLayout::new();
    assert_eq!(grid.render(), "");
}

#[test]
fn arity_mismatch_is_reported() {
    let mut grid = GridLayout::new().without_border();
    grid.add_row(row(&["a", "b"])).unwrap();
    assert_eq!(grid.add_row(row(&["only"])), Err(LayoutError::ArityMismatch));
    // The offending row leaves no trace.
    assert_eq!(grid.render(), "ab\n");
}

#[test]
fn display_width_skips_styling_sequences() {
    assert_eq!(display_width("plain"), 5);
    assert_eq!(display_width("\u{1b}[31mRED\u{1b}[0m"), 3);
    assert_eq!(display_width(""), 0);
}

#[test]
fn truncate_keeps_styling_sequences() {
    let styled = "\u{1b}[31mabcdef\u{1b}[0m";
    let cut = truncate_to_width(styled, 3);
    assert_eq!(cut, "\u{1b}[31mabc\u{1b}[0m");
    assert_eq!(display_width(&cut), 3);
    assert_eq!(truncate_to_width("abc", 5), "abc");
}

#[test]
fn spaces_are_spaces() {
    assert_eq!(make_spaces(0), "");
    assert_eq!(make_spaces(3), "   ");
}

#[test]
fn timestamp_renders_fixed_format() {
    let t = Timestamp { year: 2023, month: 1, day: 5, hour: 7, minute: 30, second: 9 };
    assert_eq!(format_timestamp(&t), "2023-01-05@07:30:09");
    let late = Timestamp { year: 1999, month: 12, day: 31, hour: 23, minute: 59, second: 59 };
    assert_eq!(format_timestamp(&late), "1999-12-31@23:59:59");
}

#[test]
fn timestamp_pads_negative_years() {
    let t = Timestamp { year: -44, month: 3, day: 15, hour: 12, minute: 0, second: 0 };
    assert_eq!(format_timestamp(&t), "-0044-03-15@12:00:00");
}
