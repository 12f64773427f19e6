use rust_license::check::{contains_header, fake_header};
use rust_license::cli::{select_mode, Mode};
use rust_license::config::Config;
use rust_license::errors::LicenseError;
use rust_license::licenser::{remove_header, FileProbe, Licenser};
use rust_license::pattern::compile_pattern;

const TEMPLATE: &str = "// Copyright (c) Company {{YEAR}}";

fn licenser_for(paths: Vec<String>) -> Licenser {
    Licenser::new(
        paths,
        Config {
            headers: String::from(TEMPLATE),
        },
    )
}

#[test]
fn test_short_file_never_has_header() {
    let licenser = licenser_for(vec![String::from("short.txt")]);
    assert_eq!(false, licenser.has_header(&FileProbe::Short));
    let missing = licenser.check_files_license(&vec![FileProbe::Short]);
    assert_eq!(missing, vec![String::from("short.txt")]);
}

#[test]
fn test_year_wildcard_matches_any_four_digits() {
    let pattern = compile_pattern(TEMPLATE);
    assert_eq!(true, pattern.is_match("// Copyright (c) Company 9999\n"));
    assert_eq!(true, pattern.is_match("// Copyright (c) Company 0000\nrest"));
}

#[test]
fn test_year_wildcard_needs_exactly_four_digits() {
    let pattern = compile_pattern(TEMPLATE);
    assert_eq!(false, pattern.is_match("// Copyright (c) Company 204\nrest"));
    assert_eq!(false, pattern.is_match("// Copyright (c) Company 20245\nrest"));
}

#[test]
fn test_apply_scenario_reports_and_prepends_literal_template() {
    let licenser = licenser_for(vec![String::from("a.txt")]);
    // "my content" is shorter than the probe, so the probe reports a short file.
    let probes = vec![FileProbe::Short];
    let missing = licenser.check_files_license(&probes);
    assert_eq!(missing, vec![String::from("a.txt")]);
    let to_add = licenser.apply_files_license(&probes);
    assert_eq!(to_add, vec![String::from("a.txt")]);
    assert_eq!(
        licenser.apply_header("my content"),
        "// Copyright (c) Company {{YEAR}}\nmy content"
    );
}

#[test]
fn test_remove_scenario_strips_header() {
    let content = "// Copyright (c) Company 2024\nmy content";
    let licenser = licenser_for(vec![String::from("a.txt")]);
    let probe_len = licenser.probe_len();
    assert_eq!(probe_len, "// Copyright (c) Company 2000\n".len());
    let probe = FileProbe::Content(String::from(&content[..probe_len]));
    let missing = licenser.check_files_license(&vec![probe]);
    assert_eq!(missing, Vec::<String>::new());
    let probe = FileProbe::Content(String::from(&content[..probe_len]));
    let to_remove = licenser.remove_files_license(&vec![probe]);
    assert_eq!(to_remove, vec![String::from("a.txt")]);
    assert_eq!(
        remove_header(licenser.license_pattern(), &String::from(content)),
        "my content"
    );
}

#[test]
fn test_check_preserves_input_order() {
    let licenser = licenser_for(vec![
        String::from("with.txt"),
        String::from("no1.txt"),
        String::from("no2.txt"),
    ]);
    let probes = vec![
        FileProbe::Content(String::from("// Copyright (c) Company 2024\n")),
        FileProbe::Content(String::from("something else entirely here\n")),
        FileProbe::Short,
    ];
    let missing = licenser.check_files_license(&probes);
    assert_eq!(missing, vec![String::from("no1.txt"), String::from("no2.txt")]);
    let with = licenser.remove_files_license(&probes);
    assert_eq!(with, vec![String::from("with.txt")]);
}

#[test]
fn test_mode_flags_must_be_exclusive() {
    assert_eq!(select_mode(true, false, true), None);
    assert_eq!(select_mode(true, true, false), None);
    assert_eq!(select_mode(true, true, true), None);
    assert_eq!(select_mode(false, false, false), None);
    assert_eq!(select_mode(true, false, false), Some(Mode::Apply));
    assert_eq!(select_mode(false, true, false), Some(Mode::Remove));
    assert_eq!(select_mode(false, false, true), Some(Mode::Check));
}

#[test]
fn test_apply_then_remove_round_trip() {
    let licenser = licenser_for(vec![]);
    let applied = licenser.apply_header("fn main() {}\n");
    let removed = remove_header(licenser.license_pattern(), &applied);
    // The applied header keeps the literal placeholder, which the
    // four-digit pattern does not match, so removal leaves it in place.
    assert_eq!(removed, applied);

    let plain = Licenser::new(
        vec![],
        Config {
            headers: String::from("// fixed header"),
        },
    );
    let applied = plain.apply_header("fn main() {}\n");
    assert_eq!(applied, "// fixed header\nfn main() {}\n");
    let removed = remove_header(plain.license_pattern(), &applied);
    assert_eq!(removed, "fn main() {}\n");
    let removed_again = remove_header(plain.license_pattern(), &removed);
    assert_eq!(removed_again, removed);
}

#[test]
fn test_contains_header_is_not_strict() {
    // The bare check accepts a header with no trailing line terminator.
    assert_eq!(
        true,
        contains_header("// Copyright (c) Company 2024", TEMPLATE)
    );
    assert_eq!(false, contains_header("// something else", TEMPLATE));
}

#[test]
fn test_fake_header_expands_placeholder() {
    assert_eq!(fake_header(TEMPLATE), "// Copyright (c) Company 2000");
}

#[test]
fn test_multi_line_template() {
    let licenser = Licenser::new(
        vec![],
        Config {
            headers: String::from("// Copyright (c) Company {{YEAR}}\n// All rights reserved."),
        },
    );
    let probe_len = licenser.probe_len();
    assert_eq!(
        probe_len,
        "// Copyright (c) Company 2000\n// All rights reserved.\n".len()
    );
    let probe = FileProbe::Content(String::from(
        "// Copyright (c) Company 2024\n// All rights reserved.\n",
    ));
    assert_eq!(true, licenser.has_header(&probe));
    assert_eq!(
        licenser.apply_header("body\n"),
        "// Copyright (c) Company {{YEAR}}\n// All rights reserved.\nbody\n"
    );
}

#[test]
fn test_apply_header_to_empty_content() {
    let licenser = licenser_for(vec![]);
    assert_eq!(
        licenser.apply_header(""),
        "// Copyright (c) Company {{YEAR}}\n"
    );
}

#[test]
fn test_error_messages() {
    assert_eq!(LicenseError::NotImplemented.message(), "not implemented");
    assert_eq!(
        LicenseError::IOError(String::from("open failed")).message(),
        "io error"
    );
}
