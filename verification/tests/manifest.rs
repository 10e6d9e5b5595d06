use rustretto::jar::manifest::{Manifest, ManifestError};

#[test]
fn parse_simple() {
    let input = "Manifest-Version: 1.0\nCreated-By: 1.8.0_181 (Oracle Corporation)\nMain-Class: Test\n\n";
    let manifest = Manifest::parse(input).unwrap();

    assert_eq!("1.0", manifest.get("Manifest-Version").unwrap());
    assert_eq!(
        "1.8.0_181 (Oracle Corporation)",
        manifest.get("Created-By").unwrap()
    );
    assert_eq!("Test", manifest.get("Main-Class").unwrap());
}

#[test]
fn missing_attribute_is_none() {
    let manifest = Manifest::parse("Main-Class: Test\n").unwrap();
    assert_eq!(None, manifest.get("Class-Path"));
    assert_eq!(None, manifest.get("main-class"));
}

#[test]
fn crlf_line_endings_are_removed() {
    let manifest = Manifest::parse("Manifest-Version: 1.0\r\nMain-Class: a.b.C\r\n").unwrap();
    assert_eq!("1.0", manifest.get("Manifest-Version").unwrap());
    assert_eq!("a.b.C", manifest.get("Main-Class").unwrap());
}

#[test]
fn carriage_return_on_last_line_without_newline_stays() {
    let manifest = Manifest::parse("Main-Class: Test\r").unwrap();
    assert_eq!("Test\r", manifest.get("Main-Class").unwrap());
}

#[test]
fn repeated_name_takes_last_value() {
    let manifest = Manifest::parse("A: 1\nB: 2\nA: 3\n").unwrap();
    assert_eq!("3", manifest.get("A").unwrap());
    assert_eq!("2", manifest.get("B").unwrap());
}

#[test]
fn value_stops_at_nul() {
    let manifest = Manifest::parse("A: xy\0z\nB: \0rest\n").unwrap();
    assert_eq!("xy", manifest.get("A").unwrap());
    assert_eq!("\0", manifest.get("B").unwrap());
}

#[test]
fn value_may_hold_other_characters() {
    let manifest = Manifest::parse("Built-By: Jürgen x\n").unwrap();
    assert_eq!("Jürgen x", manifest.get("Built-By").unwrap());
}

#[test]
fn missing_delimiter_is_an_error() {
    assert_eq!(
        ManifestError::BadDelimiter,
        Manifest::parse("Main-Class Test\n").err().unwrap()
    );
    assert_eq!(
        ManifestError::BadDelimiter,
        Manifest::parse("A: 1\nB:2\n").err().unwrap()
    );
}

#[test]
fn empty_manifest_has_no_attributes() {
    let manifest = Manifest::parse("\n\n").unwrap();
    assert_eq!(None, manifest.get("Manifest-Version"));
}

#[test]
fn line_without_name_takes_its_first_byte_as_name() {
    let manifest = Manifest::parse("=: v\n").unwrap();
    assert_eq!("v", manifest.get("=").unwrap());
}

#[test]
fn checked_parse_reads_what_parse_reads() {
    let m = Manifest::parse_checked("Main-Class: Test\n").unwrap().unwrap();
    assert_eq!("Test", m.get("Main-Class").unwrap());
    assert!(matches!(Manifest::parse_checked("Main-Class Test\n"), Some(Err(ManifestError::BadDelimiter))));
}

#[test]
fn checked_parse_refuses_lines_that_cannot_be_cut() {
    // Too short for a delimiter after the name.
    assert!(Manifest::parse_checked("ab\n").is_none());
    // No name byte, and a first character of two bytes.
    assert!(Manifest::parse_checked("\u{e9}: x\n").is_none());
    // A line after a missing delimiter is not reached.
    assert!(matches!(Manifest::parse_checked("A B\nab\n"), Some(Err(ManifestError::BadDelimiter))));
}
