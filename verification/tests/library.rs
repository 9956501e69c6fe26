use count::args::parse_args;
use count::args::Command;
use count::args::FileMode;
use count::args::ParseError;
use count::bridge::csv_free_merged_file;
use count::bridge::csv_merge_files;
use count::csv::for_each_value;
use count::csv::merge_files;
use count::csv::split_values;
use count::csv::trim_str;
use count::csv::CollectingVisitor;
use count::csv::MergeError;
use count::file::read_file;
use count::text::count_characters;
use count::text::str_eq;

fn args_of(words: &[&str]) -> Vec<String> {
    words.iter().map(|w| w.to_string()).collect()
}

#[test]
fn counts_scalar_values_not_bytes() {
    let word = "héllo";
    assert!(word.len() > 5);
    assert_eq!(count_characters(word), 5);
}

#[test]
fn counts_empty_and_ascii() {
    assert_eq!(count_characters(""), 0);
    assert_eq!(count_characters("hello world"), 11);
}

#[test]
fn str_eq_compares_by_characters() {
    assert!(str_eq("chapter1.md", "chapter1.md"));
    assert!(!str_eq("chapter1.md", "chapter2.md"));
    assert!(!str_eq("a", "ab"));
    assert!(str_eq("", ""));
}

#[test]
fn split_trims_and_keeps_order() {
    let values = split_values(" a, b ,c");
    assert_eq!(values, vec!["a".to_string(), "b".to_string(), "c".to_string()]);
}

#[test]
fn split_keeps_empty_fields() {
    assert_eq!(split_values("a,,b"), vec!["a".to_string(), "".to_string(), "b".to_string()]);
    assert_eq!(split_values(""), vec!["".to_string()]);
    assert_eq!(split_values(" , "), vec!["".to_string(), "".to_string()]);
}

#[test]
fn trim_str_removes_unicode_whitespace() {
    assert_eq!(trim_str("\u{3000}\t x \r\n"), "x".to_string());
    assert_eq!(trim_str("inner space kept"), "inner space kept".to_string());
    assert_eq!(trim_str("   "), "".to_string());
}

#[test]
fn visitor_sees_each_value_in_order() {
    let mut visitor = CollectingVisitor::new();
    for_each_value(" a, b ,c", &mut visitor);
    assert_eq!(visitor.values.len(), 3);
    assert_eq!(visitor.values, vec!["a".to_string(), "b".to_string(), "c".to_string()]);
}

#[test]
fn visitor_gets_empty_fields_as_empty_strings() {
    let mut visitor = CollectingVisitor::new();
    for_each_value("a,,b", &mut visitor);
    assert_eq!(visitor.values, vec!["a".to_string(), "".to_string(), "b".to_string()]);
}

#[test]
fn visitor_keeps_earlier_values_across_calls() {
    let mut visitor = CollectingVisitor::new();
    for_each_value("a,b", &mut visitor);
    for_each_value("c", &mut visitor);
    assert_eq!(visitor.values, vec!["a".to_string(), "b".to_string(), "c".to_string()]);
}

#[test]
fn parse_version_without_filename() {
    let r = parse_args(&args_of(&["prog", "version"])).unwrap();
    assert_eq!(r.command, Command::Version);
    assert!(r.filename.is_none());
    assert_eq!(r.file_mode, FileMode::Normal);
}

#[test]
fn parse_characters_missing_filename() {
    let r = parse_args(&args_of(&["prog", "characters"]));
    assert_eq!(r.unwrap_err(), ParseError::MissingFilename);
}

#[test]
fn parse_bytes_with_merged_flag() {
    let r = parse_args(&args_of(&["prog", "bytes", "data.csv", "--csv-merged"])).unwrap();
    assert_eq!(r.command, Command::Bytes);
    assert_eq!(r.filename, Some("data.csv".to_string()));
    assert_eq!(r.file_mode, FileMode::CsvMerged);
}

#[test]
fn parse_defaults_to_normal_mode() {
    let r = parse_args(&args_of(&["prog", "characters", "data.csv"])).unwrap();
    assert_eq!(r.command, Command::Characters);
    assert_eq!(r.filename, Some("data.csv".to_string()));
    assert_eq!(r.file_mode, FileMode::Normal);
}

#[test]
fn parse_list_flag() {
    let r = parse_args(&args_of(&["prog", "bytes", "data.csv", "--csv-list"])).unwrap();
    assert_eq!(r.file_mode, FileMode::CsvList);
}

#[test]
fn parse_missing_command() {
    assert_eq!(parse_args(&args_of(&["prog"])).unwrap_err(), ParseError::MissingCommand);
    assert_eq!(parse_args(&args_of(&[])).unwrap_err(), ParseError::MissingCommand);
}

#[test]
fn parse_unknown_command() {
    let r = parse_args(&args_of(&["prog", "frobnicate"]));
    assert_eq!(r.unwrap_err(), ParseError::UnrecognizedCommand("frobnicate".to_string()));
}

#[test]
fn parse_unknown_flag() {
    let r = parse_args(&args_of(&["prog", "bytes", "data.csv", "--csv-zipped"]));
    assert_eq!(r.unwrap_err(), ParseError::UnrecognizedFlag("--csv-zipped".to_string()));
}

#[test]
fn file_store_resolves_known_names() {
    assert_eq!(read_file("chapter1.md").to_str(), Some("# Getting started\n"));
    assert_eq!(read_file("chapter2.md").to_str(), Some("# Wrapping up\n"));
    assert_eq!(read_file("chapter3.md").to_str(), None);
    assert_eq!(read_file("").to_str(), None);
}

#[test]
fn merge_concatenates_in_order() {
    let merged = merge_files("chapter1.md,chapter2.md").unwrap();
    assert_eq!(merged, "# Getting started\n# Wrapping up\n".to_string());
}

#[test]
fn merge_trims_each_name() {
    let merged = merge_files(" chapter2.md ,\tchapter1.md").unwrap();
    assert_eq!(merged, "# Wrapping up\n# Getting started\n".to_string());
}

#[test]
fn merge_fails_on_unknown_name() {
    let r = merge_files("chapter1.md,chapter3.md");
    assert_eq!(r.unwrap_err(), MergeError::UnknownFile("chapter3.md".to_string()));
}

#[test]
fn merge_buffer_round_trip() {
    let buffer = csv_merge_files("chapter1.md,chapter2.md".to_string()).unwrap();
    assert_eq!(buffer.as_str(), "# Getting started\n# Wrapping up\n");
    csv_free_merged_file(buffer);
}

#[test]
fn merge_buffer_hands_its_text_over() {
    let buffer = csv_merge_files("chapter1.md".to_string()).unwrap();
    assert_eq!(buffer.into_string(), "# Getting started\n".to_string());
}

#[test]
fn merge_buffer_error_names_the_file() {
    let r = csv_merge_files("nope.md".to_string());
    assert_eq!(r.unwrap_err(), MergeError::UnknownFile("nope.md".to_string()));
}
