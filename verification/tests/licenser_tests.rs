use rust_license::cli::cleanup_file_list;
use rust_license::licenser::{add_carriage_return, remove_header, replace_header_placeholder};
use rust_license::pattern::compile_pattern;

const EXPECTED_HEADERS: &str = "// Copyright (c) Company 2024";

#[test]
fn test_add_carriage_return() {
    assert_eq!(
        add_carriage_return(String::from("the string")),
        "the string\n"
    );
    assert_eq!(
        add_carriage_return(String::from("the string\n")),
        "the string\n"
    );
}

#[test]
fn test_generate_header_regex() {
    let reg = compile_pattern(EXPECTED_HEADERS);
    assert_eq!(false, reg.is_match("// Copyright (c) Company 2024"));
    assert_eq!(true, reg.is_match("// Copyright (c) Company 2024\r\n"));
    assert_eq!(true, reg.is_match("// Copyright (c) Company 2024\n"));
    assert_eq!(
        true,
        reg.is_match("// Copyright (c) Company 2024\nfile content")
    );
}

#[test]
fn test_remove_header() {
    let reg = compile_pattern(EXPECTED_HEADERS);
    assert_eq!(
        "file content",
        remove_header(
            &reg,
            &String::from("// Copyright (c) Company 2024\nfile content")
        )
    );
}

#[test]
fn test_cleanup_file_list() {
    let input: Vec<String> = vec![
        String::from("src/licenser.rs\nsrc/main.rs\n"),
        String::from("src/errors.rs"),
    ];
    let output = cleanup_file_list(&input);
    assert_eq!(
        output,
        vec![
            String::from("src/licenser.rs"),
            String::from("src/main.rs"),
            String::from("src/errors.rs")
        ]
    );
}

#[test]
fn test_replace_header_placeholder() {
    assert_eq!(
        replace_header_placeholder("// Copyright (c) Company {{YEAR}}"),
        "// Copyright (c) Company 2000"
    );
    assert_eq!(
        replace_header_placeholder("{{YEAR}}-{{YEAR}}"),
        "2000-2000"
    );
    assert_eq!(replace_header_placeholder("no placeholder"), "no placeholder");
}

#[test]
fn test_remove_header_without_match_keeps_content() {
    let reg = compile_pattern(EXPECTED_HEADERS);
    assert_eq!(
        "plain file content",
        remove_header(&reg, &String::from("plain file content"))
    );
}

#[test]
fn test_cleanup_file_list_drops_empty_entries() {
    let input: Vec<String> = vec![String::from("\n\na\n\nb\n\n"), String::from("")];
    let output = cleanup_file_list(&input);
    assert_eq!(output, vec![String::from("a"), String::from("b")]);
}
