use exceltocsv::{
    detect_format, input_format, int_to_text, names_listing, output_file_name, parse_ascii_byte, plan_run, render_cell,
    render_row, resolve_dialect, sheet_output, sheet_targets, warnings, write_range, Cell,
    CsvOptions, Dialect, Format, Grid, Plan, QuoteMode, QuoteStyle, RunError, RunOptions,
};

fn csv_options() -> CsvOptions {
    CsvOptions {
        delimiter: None,
        tabs: false,
        quotechar: None,
        quoting: None,
        no_doublequote: false,
        escapechar: None,
    }
}

fn run_options() -> RunOptions {
    RunOptions {
        input: Some("book.xlsx".to_string()),
        format: None,
        names: false,
        sheet: None,
        write_sheets: None,
        use_sheet_names: false,
        reset_dimensions: false,
        encoding_given: false,
        field_size_limit_given: false,
    }
}

fn strings(v: &[&str]) -> Vec<String> {
    v.iter().map(|s| s.to_string()).collect()
}

fn text_row(v: &[&str]) -> Vec<Cell> {
    v.iter().map(|s| Cell::String(s.to_string())).collect()
}

fn grid(rows: Vec<Vec<Cell>>) -> Grid {
    match Grid::from_rows(rows) {
        Ok(g) => g,
        Err(i) => panic!("ragged row {i}"),
    }
}

fn csv(g: &Grid, o: &CsvOptions) -> String {
    match write_range(g, &resolve_dialect(o)) {
        Ok(bytes) => String::from_utf8(bytes).unwrap(),
        Err(e) => panic!("csv error: {e:?}"),
    }
}

// --- reading one ASCII character -----------------------------------------

#[test]
fn ascii_byte_accepts_one_ascii_char() {
    assert_eq!(parse_ascii_byte("|"), Ok(b'|'));
    assert_eq!(parse_ascii_byte("\t"), Ok(b'\t'));
    assert_eq!(parse_ascii_byte("\u{7f}"), Ok(127));
}

#[test]
fn ascii_byte_refuses_non_ascii_char() {
    assert_eq!(
        parse_ascii_byte("é"),
        Err("'é' is not an ASCII character".to_string())
    );
}

#[test]
fn ascii_byte_refuses_other_lengths() {
    assert_eq!(
        parse_ascii_byte("ab"),
        Err("\"ab\" must be a single ASCII character".to_string())
    );
    assert_eq!(
        parse_ascii_byte(""),
        Err("\"\" must be a single ASCII character".to_string())
    );
    assert_eq!(
        parse_ascii_byte("a\"b"),
        Err("\"a\\\"b\" must be a single ASCII character".to_string())
    );
}

// --- rendering cells -------------------------------------------------------

#[test]
fn integers_render_in_decimal() {
    assert_eq!(int_to_text(0), "0");
    assert_eq!(int_to_text(7), "7");
    assert_eq!(int_to_text(-7), "-7");
    assert_eq!(int_to_text(1200), "1200");
    assert_eq!(int_to_text(i64::MAX), i64::MAX.to_string());
    assert_eq!(int_to_text(i64::MIN), i64::MIN.to_string());
}

#[test]
fn each_cell_kind_renders() {
    assert_eq!(render_cell(&Cell::Empty), "");
    assert_eq!(render_cell(&Cell::String("x y".to_string())), "x y");
    assert_eq!(render_cell(&Cell::Float("250.5".to_string())), "250.5");
    assert_eq!(render_cell(&Cell::Int(-42)), "-42");
    assert_eq!(render_cell(&Cell::Bool(true)), "true");
    assert_eq!(render_cell(&Cell::Bool(false)), "false");
    assert_eq!(render_cell(&Cell::DateTime("45306".to_string())), "45306");
    assert_eq!(
        render_cell(&Cell::DateTimeIso("2024-01-15T00:00:00".to_string())),
        "2024-01-15T00:00:00"
    );
    assert_eq!(render_cell(&Cell::DurationIso("PT1H".to_string())), "PT1H");
    assert_eq!(render_cell(&Cell::Error), "#ERROR");
}

#[test]
fn rows_render_cell_by_cell() {
    let row = vec![Cell::Int(3), Cell::Empty, Cell::Bool(true)];
    assert_eq!(render_row(&row), strings(&["3", "", "true"]));
}

// --- dialect ---------------------------------------------------------------

#[test]
fn default_dialect() {
    let d = resolve_dialect(&csv_options());
    assert_eq!(
        d,
        Dialect {
            delimiter: b',',
            quote: b'"',
            style: QuoteStyle::Necessary,
            double_quote: true,
            escape: b'\\',
            terminator: b'\n',
        }
    );
}

#[test]
fn tabs_take_precedence_over_delimiter() {
    let mut o = csv_options();
    o.tabs = true;
    o.delimiter = Some(b';');
    assert_eq!(resolve_dialect(&o).delimiter, b'\t');
}

#[test]
fn quoting_modes_select_styles() {
    let mut o = csv_options();
    for (mode, style) in [
        (QuoteMode::Minimal, QuoteStyle::Necessary),
        (QuoteMode::All, QuoteStyle::Always),
        (QuoteMode::Nonnumeric, QuoteStyle::NonNumeric),
        (QuoteMode::Never, QuoteStyle::Never),
    ] {
        o.quoting = Some(mode);
        assert_eq!(resolve_dialect(&o).style, style);
    }
}

#[test]
fn escape_options_pass_through() {
    let mut o = csv_options();
    o.no_doublequote = true;
    o.escapechar = Some(b'$');
    o.quotechar = Some(b'\'');
    let d = resolve_dialect(&o);
    assert!(!d.double_quote);
    assert_eq!(d.escape, b'$');
    assert_eq!(d.quote, b'\'');
}

// --- CSV text of a grid -----------------------------------------------------

#[test]
fn ragged_rows_are_refused() {
    let rows = vec![text_row(&["a", "b"]), text_row(&["c", "d"]), text_row(&["e"])];
    assert_eq!(Grid::from_rows(rows).err(), Some(2));
}

#[test]
fn grid_width_is_that_of_its_rows() {
    let g = grid(vec![text_row(&["a", "b", "c"])]);
    assert_eq!(g.width(), 3);
    assert_eq!(grid(Vec::new()).width(), 0);
}

#[test]
fn empty_grid_writes_nothing() {
    assert_eq!(csv(&grid(Vec::new()), &csv_options()), "");
}

#[test]
fn necessary_quoting() {
    let g = grid(vec![
        text_row(&["plain", "a,b", "say \"x\""]),
        text_row(&["two\nlines", "", "cr\r"]),
    ]);
    assert_eq!(
        csv(&g, &csv_options()),
        "plain,\"a,b\",\"say \"\"x\"\"\"\n\"two\nlines\",,\"cr\r\"\n"
    );
}

#[test]
fn single_empty_field_is_quoted() {
    let g = grid(vec![vec![Cell::Empty], vec![Cell::Int(1)]]);
    assert_eq!(csv(&g, &csv_options()), "\"\"\n1\n");
}

#[test]
fn always_never_and_nonnumeric_quoting() {
    let g = grid(vec![vec![
        Cell::String("a".to_string()),
        Cell::Int(12),
        Cell::Float("2.5".to_string()),
        Cell::String("x,y".to_string()),
    ]]);
    let mut o = csv_options();
    o.quoting = Some(QuoteMode::All);
    assert_eq!(csv(&g, &o), "\"a\",\"12\",\"2.5\",\"x,y\"\n");
    o.quoting = Some(QuoteMode::Never);
    assert_eq!(csv(&g, &o), "a,12,2.5,x,y\n");
    o.quoting = Some(QuoteMode::Nonnumeric);
    assert_eq!(csv(&g, &o), "\"a\",12,2.5,\"x,y\"\n");
}

#[test]
fn escape_instead_of_doubling() {
    let g = grid(vec![text_row(&["a", "foo\"bar", "c"])]);
    let mut o = csv_options();
    o.no_doublequote = true;
    o.escapechar = Some(b'$');
    assert_eq!(csv(&g, &o), "a,\"foo$\"bar\",c\n");
}

#[test]
fn custom_quote_character() {
    let g = grid(vec![text_row(&["it's", "x"])]);
    let mut o = csv_options();
    o.quotechar = Some(b'\'');
    assert_eq!(csv(&g, &o), "'it''s',x\n");
}

#[test]
fn output_ends_with_line_feed() {
    let g = grid(vec![text_row(&["a"]), text_row(&["b"])]);
    let out = csv(&g, &csv_options());
    assert!(out.ends_with('\n'));
    assert_eq!(out, "a\nb\n");
}

#[test]
fn rows_are_written_independently() {
    let first = vec![text_row(&["x", "1,2"])];
    let second = vec![text_row(&["y", "\"q\""]), text_row(&["z", ""])];
    let mut both = first.clone();
    both.extend(second.clone());
    let o = csv_options();
    assert_eq!(csv(&grid(both), &o), csv(&grid(first), &o) + &csv(&grid(second), &o));
}

// --- planning a run ---------------------------------------------------------

#[test]
fn names_are_listed_one_per_line() {
    assert_eq!(names_listing(&strings(&["Sheet1", "Sheet2"])), "Sheet1\nSheet2\n");
    assert_eq!(names_listing(&Vec::new()), "");
}

#[test]
fn write_sheets_targets() {
    let names = strings(&["A", "B"]);
    assert_eq!(sheet_targets(&"all".to_string(), &names), names);
    assert_eq!(sheet_targets(&"ALL".to_string(), &names), names);
    assert_eq!(sheet_targets(&"aLl".to_string(), &names), names);
    assert_eq!(
        sheet_targets(&" B , x\t,".to_string(), &names),
        strings(&["B", "x", ""])
    );
    assert_eq!(sheet_targets(&"".to_string(), &names), strings(&[""]));
    assert_eq!(sheet_targets(&"all,".to_string(), &names), strings(&["all", ""]));
    assert_eq!(
        sheet_targets(&"\u{3000}wide\u{a0}".to_string(), &names),
        strings(&["wide"])
    );
}

#[test]
fn file_names() {
    let names = strings(&["Sales", "Costs", "Sales"]);
    assert_eq!(output_file_name(&"Costs".to_string(), &names, true), "Costs.csv");
    assert_eq!(output_file_name(&"Costs".to_string(), &names, false), "sheet2.csv");
    assert_eq!(output_file_name(&"Sales".to_string(), &names, false), "sheet1.csv");
    assert_eq!(output_file_name(&"Other".to_string(), &names, false), "sheet1.csv");
    let many: Vec<String> = (0..12).map(|i| format!("S{i}")).collect();
    assert_eq!(output_file_name(&"S11".to_string(), &many, false), "sheet12.csv");
}

#[test]
fn numbered_files_for_all_sheets_are_distinct() {
    let names = strings(&["a", "b", "c"]);
    let mut o = run_options();
    o.write_sheets = Some("All".to_string());
    match plan_run(&o, Some(&names)) {
        Ok(Plan::WriteFiles(jobs)) => {
            let files: Vec<&str> = jobs.iter().map(|j| j.file_name.as_str()).collect();
            assert_eq!(files, vec!["sheet1.csv", "sheet2.csv", "sheet3.csv"]);
            let sheets: Vec<&str> = jobs.iter().map(|j| j.sheet.as_str()).collect();
            assert_eq!(sheets, vec!["a", "b", "c"]);
        }
        other => panic!("unexpected plan: {other:?}"),
    }
}

#[test]
fn plan_when_workbook_cannot_be_opened() {
    match plan_run(&run_options(), None) {
        Err(RunError::CannotOpen(p)) => assert_eq!(p.as_deref(), Some("book.xlsx")),
        other => panic!("unexpected plan: {other:?}"),
    }
}

#[test]
fn plan_names_first() {
    let mut o = run_options();
    o.names = true;
    o.sheet = Some("X".to_string());
    o.write_sheets = Some("all".to_string());
    match plan_run(&o, Some(&strings(&["A"]))) {
        Ok(Plan::ListNames(t)) => assert_eq!(t, "A\n"),
        other => panic!("unexpected plan: {other:?}"),
    }
}

#[test]
fn plan_default_sheet_is_first() {
    match plan_run(&run_options(), Some(&strings(&["First", "Second"]))) {
        Ok(Plan::WriteStdout(s)) => assert_eq!(s, "First"),
        other => panic!("unexpected plan: {other:?}"),
    }
}

#[test]
fn plan_named_sheet_is_taken_as_given() {
    let mut o = run_options();
    o.sheet = Some("Elsewhere".to_string());
    match plan_run(&o, Some(&strings(&["First"]))) {
        Ok(Plan::WriteStdout(s)) => assert_eq!(s, "Elsewhere"),
        other => panic!("unexpected plan: {other:?}"),
    }
}

#[test]
fn plan_without_sheets_fails() {
    match plan_run(&run_options(), Some(&Vec::new())) {
        Err(RunError::NoSheets) => {}
        other => panic!("unexpected plan: {other:?}"),
    }
}

#[test]
fn unreadable_sheet_fails() {
    let d = resolve_dialect(&csv_options());
    match sheet_output(&"Gone".to_string(), None, &d) {
        Err(RunError::SheetNotFound(s)) => assert_eq!(s, "Gone"),
        other => panic!("unexpected outcome: {other:?}"),
    }
    let g = grid(vec![text_row(&["a", "b"])]);
    match sheet_output(&"Here".to_string(), Some(&g), &d) {
        Ok(bytes) => assert_eq!(bytes, b"a,b\n".to_vec()),
        other => panic!("unexpected outcome: {other:?}"),
    }
}

#[test]
fn plan_when_standard_input_cannot_be_read() {
    let mut o = run_options();
    o.input = None;
    match plan_run(&o, None) {
        Err(RunError::CannotOpen(p)) => assert_eq!(p, None),
        other => panic!("unexpected plan: {other:?}"),
    }
}

#[test]
fn dash_selects_all_sheets() {
    let names = strings(&["A", "B"]);
    assert_eq!(sheet_targets(&"-".to_string(), &names), names);
    assert_eq!(sheet_targets(&"--".to_string(), &names), strings(&["--"]));
}

#[test]
fn formats_from_first_bytes() {
    let xls = [0xD0u8, 0xCF, 0x11, 0xE0, 0xA1, 0xB1, 0x1A, 0xE1, 0x00];
    let xlsx = [0x50u8, 0x4B, 0x03, 0x04, 0x14];
    assert_eq!(detect_format(&xls), Some(Format::Xls));
    assert_eq!(detect_format(&xlsx), Some(Format::Xlsx));
    assert_eq!(detect_format(&xls[..7]), None);
    assert_eq!(detect_format(b"Name,Amount\n"), None);
    assert_eq!(detect_format(&[]), None);
}

#[test]
fn format_of_standard_input() {
    let mut o = run_options();
    o.input = None;
    let xlsx = [0x50u8, 0x4B, 0x03, 0x04];
    assert_eq!(input_format(&o, &xlsx).ok(), Some(Format::Xlsx));
    match input_format(&o, b"plain text") {
        Err(RunError::UnknownFormat) => {}
        other => panic!("unexpected outcome: {other:?}"),
    }
    o.format = Some(Format::Xls);
    assert_eq!(input_format(&o, b"plain text").ok(), Some(Format::Xls));
    assert_eq!(input_format(&o, &xlsx).ok(), Some(Format::Xls));
}

#[test]
fn warnings_for_informational_options() {
    assert!(warnings(&run_options()).is_empty());
    let mut o = run_options();
    o.format = Some(Format::Xlsx);
    o.field_size_limit_given = true;
    assert_eq!(
        warnings(&o),
        strings(&["warning: --field-size-limit is informational in v0.1.0; no limit is enforced"])
    );
    o.reset_dimensions = true;
    o.encoding_given = true;
    let w = warnings(&o);
    assert_eq!(w.len(), 3);
    assert!(w[0].starts_with("warning: --reset-dimensions is not yet implemented"));
    assert!(w[1].starts_with("warning: --encoding-xls is informational"));
}
