use rusty_calendar::table::{column_widths, format_border, format_row, render_table};

#[test]
fn measures_column_widths() {
    let widths = column_widths(
        &["#", "Name"],
        &[
            vec!["10".to_string(), "Alice".to_string()],
            vec!["2".to_string(), "Bob".to_string()],
        ],
    );

    assert_eq!(widths, vec![2, 5]);
}

#[test]
fn column_widths_grow_for_extra_cells() {
    let widths = column_widths(&["#"], &[vec!["1".to_string(), "abc".to_string()], vec![]]);
    assert_eq!(widths, vec![1, 3]);
    // widths count bytes, as str::len does
    assert_eq!(column_widths(&["é"], &[]), vec![2]);
}

#[test]
fn formats_borders_and_rows() {
    assert_eq!(format_border(&[2, 5]), "+----+-------+");
    assert_eq!(format_row(&["10".to_string(), "Bob".to_string()], &[2, 5]), "| 10 | Bob   |");
    assert_eq!(format_row(&["1".to_string()], &[2, 5]), "| 1  |       |");
}

#[test]
fn renders_a_rectangular_table() {
    let lines = render_table(
        &["#", "Name", "Calendars"],
        &[vec!["1".to_string(), "work".to_string(), "2".to_string()]],
    );
    assert_eq!(
        lines,
        vec![
            "+---+------+-----------+".to_string(),
            "| # | Name | Calendars |".to_string(),
            "+---+------+-----------+".to_string(),
            "| 1 | work | 2         |".to_string(),
            "+---+------+-----------+".to_string(),
        ]
    );
}
