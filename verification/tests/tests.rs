use csvre::errors::Error;
use csvre::pipeline::{run_bytes, run_string};

fn text(
    input: &str,
    delimiter: u8,
    column: &str,
    headers_enabled: bool,
    pattern: &str,
    replacement: &str,
) -> Result<String, Error> {
    let out = run_string(
        &input.as_bytes().to_vec(),
        delimiter,
        &column.to_string(),
        headers_enabled,
        &pattern.to_string(),
        &replacement.to_string(),
    )?;
    Ok(String::from_utf8(out).unwrap())
}

fn bytes(
    input: &[u8],
    delimiter: u8,
    column: &[u8],
    headers_enabled: bool,
    pattern: &str,
    replacement: &[u8],
) -> Result<Vec<u8>, Error> {
    run_bytes(
        &input.to_vec(),
        delimiter,
        &column.to_vec(),
        headers_enabled,
        &pattern.to_string(),
        &replacement.to_vec(),
    )
}

const INPUT: &str = "\
column1,column2,column3
foo,bar,baz
frob,n i z,lorem
ipsum,dolor,sit
";

#[test]
fn numeric_column() {
    let output = text(INPUT, b',', "1", true, "\\s+", "");
    assert!(output.is_ok());
    assert_eq!(
        "\
column1,column2,column3
foo,bar,baz
frob,niz,lorem
ipsum,dolor,sit
",
        output.unwrap()
    );
}

#[test]
fn named_column() {
    let output = text(INPUT, b',', "column2", true, "\\s+", "");
    assert!(output.is_ok());
    assert_eq!(
        "\
column1,column2,column3
foo,bar,baz
frob,niz,lorem
ipsum,dolor,sit
",
        output.unwrap()
    );
}

#[test]
fn named_column_without_headers_fails() {
    let output = text(INPUT, b',', "column2", false, "\\s+", "");
    assert!(matches!(output, Err(Error::InvalidColumnSpec)));
}

#[test]
fn no_headers() {
    let output = text(INPUT, b',', "1", false, "\\w+", "HELLO");
    assert!(output.is_ok());
    assert_eq!(
        "\
column1,HELLO,column3
foo,HELLO,baz
frob,HELLO HELLO HELLO,lorem
ipsum,HELLO,sit
",
        output.unwrap()
    );
}

#[test]
fn change_delimiter() {
    let output = text(
        "\
column1;column2;column3
foo;bar;baz
frob;n i z;lorem
ipsum;dolor;sit
",
        b';',
        "1",
        true,
        "\\s+",
        "",
    );
    assert!(output.is_ok());
    assert_eq!(
        "\
column1;column2;column3
foo;bar;baz
frob;niz;lorem
ipsum;dolor;sit
",
        output.unwrap()
    );
}

#[test]
fn byte_mode() {
    let output = bytes(
        b"\
column1,column2,column3
foo,\0ar,baz
frob,\xc0 i z,lorem
ipsum,dolor,sit
",
        b',',
        b"1",
        true,
        "(?-u)\\s+",
        b"",
    );
    assert!(output.is_ok());
    assert_eq!(
        &b"\
column1,column2,column3
foo,\0ar,baz
frob,\xc0iz,lorem
ipsum,dolor,sit
"[..],
        output.unwrap().as_slice()
    );
}

#[test]
fn header_row_is_never_transformed() {
    // Every header field matches the pattern, yet the header passes through.
    let output = text(INPUT, b',', "1", true, "\\w+", "HELLO");
    assert_eq!(
        "\
column1,column2,column3
foo,HELLO,baz
frob,HELLO HELLO HELLO,lorem
ipsum,HELLO,sit
",
        output.unwrap()
    );
}

#[test]
fn numeric_spec_beats_matching_header_name() {
    // The header's first field is literally "1"; a name lookup would give
    // column 0, but the numeric reading gives column 1.
    let output = text("1,0\na b,c d\n", b',', "1", true, "\\s+", "");
    assert_eq!("1,0\na b,cd\n", output.unwrap());
}

#[test]
fn plus_prefixed_spec_is_numeric() {
    let output = text(INPUT, b',', "+1", true, "\\s+", "");
    assert_eq!(
        "\
column1,column2,column3
foo,bar,baz
frob,niz,lorem
ipsum,dolor,sit
",
        output.unwrap()
    );
}

#[test]
fn overflowing_spec_is_a_name() {
    // Far beyond any machine index: not numeric, so it is looked up as a
    // name, and this header does not hold it.
    let output = text(INPUT, b',', "99999999999999999999999999", true, "\\s+", "");
    assert!(matches!(output, Err(Error::ColumnNotFound)));
}

#[test]
fn overflowing_spec_without_headers_is_invalid() {
    let output = text(INPUT, b',', "99999999999999999999999999", false, "\\s+", "");
    assert!(matches!(output, Err(Error::InvalidColumnSpec)));
}

#[test]
fn unknown_column_name_fails() {
    let output = text(INPUT, b',', "column9", true, "\\s+", "");
    assert!(matches!(output, Err(Error::ColumnNotFound)));
}

#[test]
fn duplicate_header_names_first_match_wins() {
    let output = text("dup,dup\na b,c d\n", b',', "dup", true, "\\s+", "");
    assert_eq!("dup,dup\nab,c d\n", output.unwrap());
}

#[test]
fn bad_pattern_reports_compile_error() {
    let output = text(INPUT, b',', "1", true, "(", "");
    assert!(matches!(output, Err(Error::PatternCompile(_))));
}

#[test]
fn invalid_utf8_in_text_mode_fails() {
    let output = bytes_as_text_input();
    assert!(matches!(output, Err(Error::RowFormat(_))));
}

fn bytes_as_text_input() -> Result<String, Error> {
    let input: &[u8] = b"h1,h2\nfoo,\xc0bar\n";
    let out = run_string(
        &input.to_vec(),
        b',',
        &"0".to_string(),
        true,
        &"\\s+".to_string(),
        &"".to_string(),
    )?;
    Ok(String::from_utf8(out).unwrap())
}

#[test]
fn unknown_group_reference_expands_to_empty() {
    let output = text("h1,h2,h3\nx,bb,y\n", b',', "1", true, "b", "$zz");
    assert_eq!("h1,h2,h3\nx,,y\n", output.unwrap());
}

#[test]
fn unknown_braced_group_reference_expands_to_empty() {
    let output = text("h1,h2\nx,abc\n", b',', "1", true, "b", "${nope}");
    assert_eq!("h1,h2\nx,ac\n", output.unwrap());
}

#[test]
fn unknown_numbered_group_expands_to_empty() {
    let output = text("h1,h2\nx,abc\n", b',', "1", true, "b", "$7");
    assert_eq!("h1,h2\nx,ac\n", output.unwrap());
}

#[test]
fn dollar_dollar_is_a_literal_dollar() {
    let output = text("h1,h2\nx,ab\n", b',', "1", true, "b", "$$");
    assert_eq!("h1,h2\nx,a$\n", output.unwrap());
}

#[test]
fn numbered_groups_substitute() {
    let output = text(INPUT, b',', "1", true, "(n)( i)", "$2$1-$0", );
    assert_eq!(
        "\
column1,column2,column3
foo,bar,baz
frob, in-n i z,lorem
ipsum,dolor,sit
",
        output.unwrap()
    );
}

#[test]
fn named_groups_substitute() {
    let output = text("h1,h2\nx,john smith\n", b',', "1", true,
        "(?P<first>\\w+) (?P<last>\\w+)", "$last ${first}");
    assert_eq!("h1,h2\nx,smith john\n", output.unwrap());
}

#[test]
fn column_beyond_row_width_changes_nothing() {
    let output = text(INPUT, b',', "7", true, "\\w+", "HELLO");
    assert_eq!(INPUT, output.unwrap());
}

#[test]
fn flexible_rows_of_differing_widths() {
    let output = text("h1,h2\na b\nc d,e f,g h\n", b',', "1", true, "\\s+", "_");
    assert_eq!("h1,h2\na b\nc d,e_f,g h\n", output.unwrap());
}

#[test]
fn empty_input_numeric_spec_yields_empty_output() {
    let output = text("", b',', "0", true, "\\s+", "");
    assert_eq!("", output.unwrap());
}

#[test]
fn empty_input_named_spec_fails() {
    let output = text("", b',', "name", true, "\\s+", "");
    assert!(matches!(output, Err(Error::ColumnNotFound)));
}

#[test]
fn quoted_fields_survive_the_round_trip() {
    let output = text("h1,h2\n\"a,b\",c\n", b',', "1", true, "c", "X");
    assert_eq!("h1,h2\n\"a,b\",X\n", output.unwrap());
}

#[test]
fn text_mode_matches_unicode_whitespace() {
    // U+00A0 is whitespace to the Unicode-aware engine only.
    let output = text("h\nfoo\u{a0}bar\n", b',', "0", true, "\\s+", "");
    assert_eq!("h\nfoobar\n", output.unwrap());
}

#[test]
fn byte_mode_leaves_unicode_whitespace_alone() {
    let input = "h\nfoo\u{a0}bar\n".as_bytes();
    let output = bytes(input, b',', b"0", true, "(?-u)\\s+", b"");
    assert_eq!(input, output.unwrap().as_slice());
}

#[test]
fn error_messages_name_the_failure() {
    let not_found = text(INPUT, b',', "column9", true, "\\s+", "").unwrap_err();
    assert_eq!("column not found", not_found.message());
    let invalid = text(INPUT, b',', "column2", false, "\\s+", "").unwrap_err();
    assert!(invalid.message().contains("non-negative integer"));
    let compile = text(INPUT, b',', "1", true, "(", "").unwrap_err();
    assert!(!compile.message().is_empty());
}

#[test]
fn byte_mode_replacement_may_be_raw_bytes() {
    let output = bytes(b"h\nabc\n", b',', b"0", true, "(?-u)b", b"\xff\x00");
    assert_eq!(&b"h\na\xff\x00c\n"[..], output.unwrap().as_slice());
}
