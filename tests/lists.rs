use synk::list_sorter;
use synk::sort_list::{self, Config};

fn words(v: &[&str]) -> Vec<String> {
    v.iter().map(|s| s.to_string()).collect()
}

#[test]
fn sort_list_normalizes_each_line() {
    let out = sort_list::parse_lines("1. Apple\n2.  banana \nCherry\na.b.c\r\n");
    assert_eq!(out, words(&["apple", "banana", "cherry", "b.c"]));
    assert!(sort_list::parse_lines("").is_empty());
    assert_eq!(sort_list::normalize_line("  NO DOT  "), "no dot");
}

#[test]
fn sort_list_build_reads_both_paths() {
    let c = Config::build(&words(&["prog", "-i", "in.txt", "--output", "out.txt"])).unwrap();
    assert_eq!(c.input_file_path, "in.txt");
    assert_eq!(c.output_file_path, "out.txt");
    let c = Config::build(&words(&["prog", "--output", "a", "--input", "b", "-i", "c"])).unwrap();
    assert_eq!((c.input_file_path.as_str(), c.output_file_path.as_str()), ("c", "a"));
}

#[test]
fn sort_list_build_errors() {
    assert_eq!(Config::build(&words(&[])).err(), Some("Missing input file path".to_string()));
    assert_eq!(Config::build(&words(&["prog", "-o", "x"])).err(), Some("Missing input file path".to_string()));
    assert_eq!(Config::build(&words(&["prog", "-i", "x"])).err(), Some("Missing output file path".to_string()));
    assert_eq!(Config::build(&words(&["prog", "-i"])).err(), Some("Missing input file path".to_string()));
    assert_eq!(Config::build(&words(&["prog", "-i", "x", "-o"])).err(), Some("Missing output file path".to_string()));
    assert_eq!(
        Config::build(&words(&["prog", "--verbose", "-i", "x"])).err(),
        Some("Unexpected argument: --verbose".to_string())
    );
}

#[test]
fn list_sorter_sorts_and_dedups() {
    let text = "3. pear\n1. Apple\n\n  10. apple \nv1.2 release\n";
    assert_eq!(list_sorter::parse_lines(text, false), words(&["Apple", "apple", "pear", "v1.2 release"]));
    assert_eq!(list_sorter::parse_lines(text, true), words(&["apple", "pear", "v1.2 release"]));
}

#[test]
fn list_sorter_keeps_unnumbered_lines_as_written() {
    assert_eq!(list_sorter::parse_lines("Foo. Bar\n", true), words(&["Foo. Bar"]));
    assert_eq!(list_sorter::parse_lines(".hidden\n", false), words(&["hidden"]));
    assert_eq!(list_sorter::parse_lines("b\na\nb\n   \n", false), words(&["a", "b"]));
    assert!(list_sorter::parse_lines("\n\n", false).is_empty());
}
