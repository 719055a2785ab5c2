use text_row::{Alignment, Cell, Column, Row};

#[test]
fn cell_without_text_has_no_rows() {
    assert!(Cell::new().build_rows().is_empty());
    assert!(Cell::new().set_width(3).build_rows().is_empty());
    assert!(Cell::new().set_width(3).set_text_pad('#').build_rows().is_empty());
}

#[test]
fn column_without_text_is_empty() {
    assert_eq!(Column::new().set_width(4).build(), "");
}

#[test]
fn cell_plain_text_is_one_row() {
    assert_eq!(Cell::new().set_text("foo").build_rows(), vec!["foo".to_string()]);
}

#[test]
fn cell_width_pads_every_line() {
    let rows = Cell::new().set_text("ab cd efgh").set_width(6).build_rows();
    assert_eq!(rows, vec!["ab cd ".to_string(), "efgh  ".to_string()]);
    let rows = Cell::new()
        .set_text("ab")
        .set_width(5)
        .set_text_align(Alignment::Right)
        .set_text_pad('.')
        .build_rows();
    assert_eq!(rows, vec!["...ab".to_string()]);
    let rows = Cell::new()
        .set_text("ab")
        .set_width(5)
        .set_text_align(Alignment::Center)
        .build_rows();
    assert_eq!(rows, vec![" ab  ".to_string()]);
}

#[test]
fn cell_right_truncation_leads_with_tail() {
    let rows = Cell::new()
        .set_text("abcdefghij")
        .set_text_width(5)
        .set_text_align(Alignment::Right)
        .build_rows();
    assert_eq!(rows, vec!["...ij".to_string()]);
    assert!(rows[0].starts_with("..."));
}

#[test]
fn cell_left_truncation_ends_with_tail() {
    let rows = Cell::new()
        .set_text("abcdefghij")
        .set_text_width(5)
        .set_text_tail("~")
        .build_rows();
    assert_eq!(rows, vec!["abcd~".to_string()]);
}

#[test]
fn cell_text_within_truncation_width_is_kept() {
    let rows = Cell::new().set_text("abc").set_text_width(5).build_rows();
    assert_eq!(rows, vec!["abc".to_string()]);
}

#[test]
fn cell_repairs_codes_across_lines() {
    let rows = Cell::new()
        .set_text("\u{1b}[31mred text here\u{1b}[39m")
        .set_width(9)
        .build_rows();
    assert_eq!(rows, vec![
        "\u{1b}[31mred text \u{1b}[39m".to_string(),
        "\u{1b}[31mhere\u{1b}[39m     ".to_string(),
    ]);
}

#[test]
fn cell_refuses_truncation_that_cannot_fit_tail() {
    let cell = Cell::new().set_text("abcdefghij").set_text_width(2);
    assert_eq!(cell.try_build_rows(), None);
    let cell = Cell::new().set_text("abcdefghij").set_text_width(5);
    assert_eq!(cell.try_build_rows(), Some(vec!["ab...".to_string()]));
}

#[test]
fn cell_getters_give_defaults() {
    let cell = Cell::new();
    assert_eq!(cell.text_align(), Alignment::Left);
    assert_eq!(cell.text_tail(), "...");
    assert_eq!(cell.text_pad(), ' ');
    assert_eq!(*cell.width(), None);
    let cell = cell.set_width(7).set_text("x").set_text_width(3);
    assert_eq!(*cell.width(), Some(7));
    assert_eq!(cell.text().as_deref(), Some("x"));
    assert_eq!(*cell.text_width(), Some(3));
}

#[test]
fn column_getters_give_defaults() {
    let column = Column::from_str("abc");
    assert_eq!(column.text().as_deref(), Some("abc"));
    assert_eq!(column.text_align(), Alignment::Left);
    assert_eq!(column.text_tail(), "...");
    assert_eq!(column.text_pad(), " ");
}

#[test]
fn column_pads_with_unit() {
    let column = Column::new().set_text("ab").set_width(6).set_text_pad("-=");
    assert_eq!(column.build(), "ab-=-=\n");
}

#[test]
fn column_refuses_empty_pad_unit() {
    let column = Column::new().set_text("ab").set_width(6).set_text_pad("");
    assert_eq!(column.try_build(), None);
    assert!(!column.can_render());
    let column = Column::new().set_text("ab").set_width(0).set_text_pad("");
    assert_eq!(column.try_build(), Some("ab\n".to_string()));
}

#[test]
fn row_of_two_columns_fills_missing_line() {
    let row = Row::new()
        .add_column(Column::new().set_width(5).set_text("ab").set_text_pad(" ").set_text_align(Alignment::Left))
        .add_column(Column::new().set_width(3).set_text("cde\nfg"));
    assert_eq!(row.build(), "ab   cde\n     fg \n");
}

#[test]
fn row_height_is_tallest_column() {
    let row = Row::new()
        .add_column(Column::new().set_text("a"))
        .add_column(Column::new().set_text("b\nc\nd"))
        .add_column(Column::new());
    let out = row.build();
    assert_eq!(out.matches('\n').count(), 3);
    assert_eq!(out, "ab\nc\nd\n");
}

#[test]
fn row_without_lines_is_empty() {
    assert_eq!(Row::new().build(), "");
    assert_eq!(Row::new().add_column(Column::new()).add_column(Column::new().set_width(4)).build(), "");
}

#[test]
fn row_missing_lines_are_pad_units() {
    let row = Row::new()
        .add_column(Column::new().set_width(4).set_text("a").set_text_pad("*"))
        .add_column(Column::new().set_text("x\ny\nz"));
    assert_eq!(row.build(), "a***x\n****y\n****z\n");
}

#[test]
fn row_single_plain_column_round_trips() {
    let text = "plain words\nand a second line";
    let row = Row::new().add_column(Column::new().set_text(text));
    assert_eq!(row.build(), format!("{}\n", text));
}

#[test]
fn rendering_twice_gives_the_same_output() {
    let cell = Cell::new().set_text("some longer text").set_width(6).set_text_pad('.');
    assert_eq!(cell.build_rows(), cell.build_rows());
    let row = Row::new()
        .add_column(Column::new().set_width(5).set_text("one two three"))
        .add_column(Column::new().set_text("x"));
    assert_eq!(row.build(), row.build());
}

#[test]
fn row_try_build_checks_every_column() {
    let row = Row::new()
        .add_column(Column::new().set_text("a"))
        .add_column(Column::new().set_text("b").set_width(3).set_text_pad(""));
    assert_eq!(row.try_build(), None);
    let row = Row::new().add_column(Column::new().set_text("a").set_width(2));
    assert_eq!(row.try_build(), Some("a \n".to_string()));
}

#[test]
fn column_right_truncation_leads_with_tail() {
    let column = Column::new()
        .set_text("abcdefghij")
        .set_text_width(6)
        .set_text_align(Alignment::Right)
        .set_text_tail("<");
    assert_eq!(column.build(), "<fghij\n");
}

#[test]
fn column_text_within_truncation_width_is_kept() {
    let column = Column::new().set_text("abc def");
    let cut = column.clone().set_text_width(7);
    assert_eq!(cut.build(), column.build());
    assert_eq!(cut.build().matches('\n').count(), 1);
}

#[test]
fn column_without_text_needs_no_pad_unit() {
    let column = Column::new().set_width(5).set_text_pad("");
    assert!(column.can_render());
    assert!(!column.can_pad());
    assert_eq!(column.try_build(), Some(String::new()));
    let row = Row::new().add_column(Column::new().set_text("a")).add_column(column);
    assert_eq!(row.try_build(), None);
}

#[test]
fn cell_left_truncation_with_width_pads_after_tail() {
    let rows = Cell::new()
        .set_text("abcdefghij")
        .set_text_width(6)
        .set_width(8)
        .set_text_pad('_')
        .build_rows();
    assert_eq!(rows, vec!["abc..._".to_string() + "_"]);
}
