//! Which interpreter runs a script, chosen by the script's file extension.
use vstd::prelude::*;

use crate::text::{
    chars_equal, eq_ignore_ascii_case, equal_ignoring_ascii_case, extension_of, lower_of,
    lowercase, opt_view, path_extension,
};

verus! {

/// The interpreter that `detect_interpreter` picks for an extension that is
/// already in lower case.
pub open spec fn interpreter_for_lowered(e: Seq<char>) -> Option<Seq<char>> {
    if e == "py"@ {
        Some("python3"@)
    } else if e == "js"@ {
        Some("node"@)
    } else if e == "rb"@ {
        Some("ruby"@)
    } else if e == "sh"@ {
        Some("bash"@)
    } else if e == "pl"@ {
        Some("perl"@)
    } else if e == "php"@ {
        Some("php"@)
    } else if e == "lua"@ {
        Some("lua"@)
    } else if e == "r"@ {
        Some("Rscript"@)
    } else {
        None
    }
}

/// The interpreter detected for a script path: by the path's extension, folded
/// to lower case.
pub open spec fn detected_for_path(path: Seq<char>) -> Option<Seq<char>> {
    match extension_of(path) {
        Some(e) => interpreter_for_lowered(lower_of(e)),
        None => None,
    }
}

/// The table of supported extensions and their interpreters, in lookup order.
pub open spec fn interpreter_table() -> Seq<(Seq<char>, Seq<char>)> {
    seq![
        ("py"@, "python3"@),
        ("js"@, "node"@),
        ("rb"@, "ruby"@),
        ("sh"@, "bash"@),
        ("go"@, "go"@),
        ("pl"@, "perl"@),
        ("php"@, "php"@),
        ("lua"@, "lua"@),
        ("r"@, "Rscript"@),
    ]
}

/// The interpreter of the first entry of `t` whose extension equals `ext` up
/// to ASCII case.
pub open spec fn lookup_folded(t: Seq<(Seq<char>, Seq<char>)>, ext: Seq<char>) -> Option<Seq<char>>
    decreases t.len(),
{
    if t.len() == 0 {
        None
    } else if eq_ignore_ascii_case(t[0].0, ext) {
        Some(t[0].1)
    } else {
        lookup_folded(t.drop_first(), ext)
    }
}

/// The interpreter for an extension given in lower case.
pub fn interpreter_for_lowercase(ext: &str) -> (r: Option<String>)
    ensures
        opt_view(r) == interpreter_for_lowered(ext@),
{
    if chars_equal(ext, "py") {
        Some(String::from_str("python3"))
    } else if chars_equal(ext, "js") {
        Some(String::from_str("node"))
    } else if chars_equal(ext, "rb") {
        Some(String::from_str("ruby"))
    } else if chars_equal(ext, "sh") {
        Some(String::from_str("bash"))
    } else if chars_equal(ext, "pl") {
        Some(String::from_str("perl"))
    } else if chars_equal(ext, "php") {
        Some(String::from_str("php"))
    } else if chars_equal(ext, "lua") {
        Some(String::from_str("lua"))
    } else if chars_equal(ext, "r") {
        Some(String::from_str("Rscript"))
    } else {
        None
    }
}

/// Detects the interpreter for a script from its file extension, compared
/// without regard to case.
pub fn detect_interpreter(path: &str) -> (r: Option<String>)
    ensures
        opt_view(r) == detected_for_path(path@),
{
    match path_extension(path) {
        Some(ext) => {
            let lowered = lowercase(ext.as_str());
            interpreter_for_lowercase(lowered.as_str())
        },
        None => None,
    }
}

/// The supported extensions with their interpreters.
pub fn supported_interpreters() -> (r: Vec<(&'static str, &'static str)>)
    ensures
        r@.len() == interpreter_table().len(),
        forall|i: int|
            0 <= i < r@.len() ==> (#[trigger] r@[i].0@, r@[i].1@) == interpreter_table()[i],
{
    let mut t: Vec<(&'static str, &'static str)> = Vec::new();
    t.push(("py", "python3"));
    t.push(("js", "node"));
    t.push(("rb", "ruby"));
    t.push(("sh", "bash"));
    t.push(("go", "go"));
    t.push(("pl", "perl"));
    t.push(("php", "php"));
    t.push(("lua", "lua"));
    t.push(("r", "Rscript"));
    t
}

/// Looks an extension up in the table without regard to ASCII case.
fn find_in_table(extension: &str) -> (r: Option<&'static str>)
    ensures
        match r {
            Some(i) => lookup_folded(interpreter_table(), extension@) == Some(i@),
            None => lookup_folded(interpreter_table(), extension@) is None,
        },
{
    let table = supported_interpreters();
    let ghost t = interpreter_table();
    let mut i: usize = 0;
    assert(t.subrange(0, t.len() as int) =~= t);
    while i < table.len()
        invariant
            t == interpreter_table(),
            table@.len() == t.len(),
            forall|k: int| 0 <= k < table@.len() ==> (#[trigger] table@[k].0@, table@[k].1@) == t[k],
            0 <= i <= t.len(),
            lookup_folded(t, extension@) == lookup_folded(t.subrange(i as int, t.len() as int), extension@),
        decreases t.len() - i,
    {
        let ext = table[i].0;
        let interp = table[i].1;
        assert((table@[i as int].0@, table@[i as int].1@) == t[i as int]);
        let ghost rest = t.subrange(i as int, t.len() as int);
        assert(rest[0] == t[i as int]);
        if equal_ignoring_ascii_case(ext, extension) {
            assert(rest.len() > 0);
            assert(lookup_folded(rest, extension@) == Some(rest[0].1));
            return Some(interp);
        }
        assert(rest.drop_first() =~= t.subrange(i + 1, t.len() as int));
        i = i + 1;
    }
    assert(t.subrange(i as int, t.len() as int).len() == 0);
    None
}

/// Whether an extension is supported, compared without regard to ASCII case.
pub fn is_supported_extension(extension: &str) -> (r: bool)
    ensures
        r == (lookup_folded(interpreter_table(), extension@) is Some),
{
    find_in_table(extension).is_some()
}

/// The interpreter for an extension, compared without regard to ASCII case.
pub fn get_interpreter_for_extension(extension: &str) -> (r: Option<&'static str>)
    ensures
        match r {
            Some(i) => lookup_folded(interpreter_table(), extension@) == Some(i@),
            None => lookup_folded(interpreter_table(), extension@) is None,
        },
{
    find_in_table(extension)
}

} // verus!
