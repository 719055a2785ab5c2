use text_row::{Alignment, Cell, Column, Row};

#[test]
fn builds_rows() {
    let cell0 = Cell::new()
        .set_text("Allocating memory \x1B[31mis actually quite fast, and regardless you’re going to be copying the entire\x1B[39m string around.")
        .set_width(30)
        .set_text_width(72)
        .set_text_align(Alignment::Center)
        .set_text_tail("+++")
        .set_text_pad('!');
    assert_eq!(cell0.build_rows(), [
        "Allocating memory \u{1b}[31mis actually!\u{1b}[39m",
        "\u{1b}[31m!quit+++be copying the entire\u{1b}[39m!",
        "!!!!!!!!!string aroun!!!!!!!!!",
    ]);
}

#[test]
fn column_builds_multiline_string() {
    let column = Column::new()
        .set_text("Allocating memory \x1B[31mis actually quite fast, and regardless you’re going to be copying the entire\x1B[39m string around.")
        .set_width(30)
        .set_text_width(72)
        .set_text_align(Alignment::Center)
        .set_text_tail("+++")
        .set_text_pad("!");
    assert_eq!(column.build(), [
        "Allocating memory \u{1b}[31mis actually!\u{1b}[39m\n",
        "\u{1b}[31m!quit+++be copying the entire\u{1b}[39m!\n",
        "!!!!!!!!!string aroun!!!!!!!!!\n",
    ].join(""));
}

#[test]
fn column_converts_to_string() {
    assert_eq!(Column::new().set_text("foo").build(), "foo\n");
}

#[test]
fn row_builds_multiline_string() {
    let column0 = Column::new()
        .set_width(30)
        .set_text("Allocating \x1B[31mmemory is actually quite fast, and regardless you’re going to be copying the entire\x1B[39m string around.")
        .set_text_pad("*");
    let column1 = Column::new()
        .set_width(3)
        .set_text_pad("|");
    let column2 = Column::new()
        .set_width(20)
        .set_text("Going 利干 to be the entire string around.")
        .set_text_pad("+");
    let row = Row::new()
        .add_column(column0)
        .add_column(column1)
        .add_column(column2);
    assert_eq!(row.build(), vec![
        "Allocating \u{1b}[31mmemory is actually*\u{1b}[39m|||Going 利干 to be the\n",
        "\u{1b}[31mquite fast, and regardless****\u{1b}[39m|||entire string+++++++\n",
        "\u{1b}[31myou’re going to be copying****\u{1b}[39m|||around.+++++++++++++\n",
        "\u{1b}[31mthe entire\u{1b}[39m string around.*****|||++++++++++++++++++++\n",
    ].join(""));
}

#[test]
fn row_converts_to_string() {
    assert_eq!(
        Row::new().add_column(Column::new().set_text("foo")).build(),
        "foo\n"
    );
}
