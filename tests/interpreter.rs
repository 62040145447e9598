use synk::{detect_interpreter, get_interpreter_for_extension, is_supported_extension, supported_interpreters};

#[test]
fn test_detect_interpreter() {
    let test_cases = vec![
        ("test.py", Some("python3".to_string())),
        ("script.js", Some("node".to_string())),
        ("app.rb", Some("ruby".to_string())),
        ("script.sh", Some("bash".to_string())),
        ("program.pl", Some("perl".to_string())),
        ("unknown.xyz", None),
        ("no_extension", None),
    ];

    for (filename, expected) in test_cases {
        assert_eq!(detect_interpreter(filename), expected);
    }
}

#[test]
fn test_is_supported_extension() {
    assert!(is_supported_extension("py"));
    assert!(is_supported_extension("PY"));
    assert!(is_supported_extension("js"));
    assert!(!is_supported_extension("xyz"));
}

#[test]
fn test_get_interpreter_for_extension() {
    assert_eq!(get_interpreter_for_extension("py"), Some("python3"));
    assert_eq!(get_interpreter_for_extension("JS"), Some("node"));
    assert_eq!(get_interpreter_for_extension("xyz"), None);
}

#[test]
fn detect_folds_upper_case_extensions() {
    assert_eq!(detect_interpreter("BACKUP.SH"), Some("bash".to_string()));
    assert_eq!(detect_interpreter("dir/Report.R"), Some("Rscript".to_string()));
    assert_eq!(detect_interpreter("tool.Lua"), Some("lua".to_string()));
    assert_eq!(detect_interpreter("page.php"), Some("php".to_string()));
}

#[test]
fn detect_uses_last_extension_of_final_component() {
    assert_eq!(detect_interpreter("archive.tar.py"), Some("python3".to_string()));
    assert_eq!(detect_interpreter("scripts.py/run"), None);
    assert_eq!(detect_interpreter(".py"), None);
    assert_eq!(detect_interpreter(""), None);
}

#[test]
fn go_is_listed_but_not_detected() {
    assert!(is_supported_extension("go"));
    assert_eq!(get_interpreter_for_extension("Go"), Some("go"));
    assert_eq!(detect_interpreter("main.go"), None);
}

#[test]
fn supported_table_in_order() {
    let t = supported_interpreters();
    assert_eq!(t.len(), 9);
    assert_eq!(t[0], ("py", "python3"));
    assert_eq!(t[4], ("go", "go"));
    assert_eq!(t[8], ("r", "Rscript"));
}

#[test]
fn extension_lookup_is_exact_up_to_ascii_case() {
    assert!(!is_supported_extension(""));
    assert!(!is_supported_extension("pyc"));
    assert!(!is_supported_extension("p"));
    assert_eq!(get_interpreter_for_extension("R"), Some("Rscript"));
    assert_eq!(get_interpreter_for_extension("PhP"), Some("php"));
}
