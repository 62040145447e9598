//! A list tidier: its arguments, and the normal form of each line (list
//! numbering dropped, surrounding space trimmed, lower case).
use vstd::prelude::*;

use crate::text::{
    chars_equal, lines_of, lower_of, lowercase, opt_view, split_first, split_once_char, text_lines,
    trim_of, trimmed,
};

verus! {

/// Where the list is read from and where the tidied list is written.
pub struct Config {
    pub input_file_path: String,
    pub output_file_path: String,
}

/// The views of a list of strings.
pub open spec fn views(args: Seq<String>) -> Seq<Seq<char>> {
    args.map_values(|a: String| a@)
}

/// The input and output paths that `args`, read from position `i` with the
/// paths found so far, give; or the message of the first problem.
pub open spec fn parse_from(
    args: Seq<Seq<char>>,
    i: int,
    input: Option<Seq<char>>,
    output: Option<Seq<char>>,
) -> Result<(Seq<char>, Seq<char>), Seq<char>>
    decreases args.len() - i,
{
    if i >= args.len() || i < 0 {
        match (input, output) {
            (Some(a), Some(b)) => Ok((a, b)),
            (None, _) => Err("Missing input file path"@),
            (Some(_), None) => Err("Missing output file path"@),
        }
    } else if args[i] == "--input"@ || args[i] == "-i"@ {
        if i + 1 < args.len() {
            parse_from(args, i + 2, Some(args[i + 1]), output)
        } else {
            Err("Missing input file path"@)
        }
    } else if args[i] == "--output"@ || args[i] == "-o"@ {
        if i + 1 < args.len() {
            parse_from(args, i + 2, input, Some(args[i + 1]))
        } else {
            Err("Missing output file path"@)
        }
    } else {
        Err("Unexpected argument: "@ + args[i])
    }
}

/// The paths of a command line whose first word is the program's name.
pub open spec fn parsed_paths(args: Seq<String>) -> Result<(Seq<char>, Seq<char>), Seq<char>> {
    parse_from(views(args), 1, None, None)
}

/// The normal form of one line: the text after its first `.` (the whole line
/// if it has none), trimmed, in lower case.
pub open spec fn normal_line(line: Seq<char>) -> Seq<char> {
    let rest = match split_first(line, '.') {
        Some((_, after)) => after,
        None => line,
    };
    lower_of(trim_of(rest))
}

impl Config {
    /// The configuration named by a command line whose first word is the
    /// program's name: `--input`/`-i` and `--output`/`-o`, each followed by a
    /// path, both required. Whether the input exists is for the caller to
    /// check.
    pub fn build(args: &Vec<String>) -> (r: Result<Config, String>)
        ensures
            match r {
                Ok(c) => parsed_paths(args@) == Ok::<(Seq<char>, Seq<char>), Seq<char>>((c.input_file_path@, c.output_file_path@)),
                Err(m) => parsed_paths(args@) == Err::<(Seq<char>, Seq<char>), Seq<char>>(m@),
            },
    {
        match Config::parse_args(args) {
            Ok((input_file_path, output_file_path)) => Ok(Config { input_file_path, output_file_path }),
            Err(m) => Err(m),
        }
    }

    fn parse_args(args: &Vec<String>) -> (r: Result<(String, String), String>)
        ensures
            match r {
                Ok(p) => parsed_paths(args@) == Ok::<(Seq<char>, Seq<char>), Seq<char>>((p.0@, p.1@)),
                Err(m) => parsed_paths(args@) == Err::<(Seq<char>, Seq<char>), Seq<char>>(m@),
            },
    {
        let ghost a = views(args@);
        let mut input: Option<String> = None;
        let mut output: Option<String> = None;
        let mut i: usize = 1;
        while i < args.len()
            invariant
                a == views(args@),
                1 <= i,
                parse_from(a, 1, None, None) == parse_from(a, i as int, opt_view(input), opt_view(output)),
            decreases args@.len() - i,
        {
            let arg = args[i].as_str();
            assert(a[i as int] == arg@);
            if chars_equal(arg, "--input") || chars_equal(arg, "-i") {
                if i + 1 < args.len() {
                    assert(a[i + 1] == args@[i + 1]@);
                    input = Some(args[i + 1].clone());
                    i = i + 2;
                } else {
                    return Err(String::from_str("Missing input file path"));
                }
            } else if chars_equal(arg, "--output") || chars_equal(arg, "-o") {
                if i + 1 < args.len() {
                    assert(a[i + 1] == args@[i + 1]@);
                    output = Some(args[i + 1].clone());
                    i = i + 2;
                } else {
                    return Err(String::from_str("Missing output file path"));
                }
            } else {
                let mut m = String::from_str("Unexpected argument: ");
                m.append(arg);
                return Err(m);
            }
        }
        match (input, output) {
            (Some(a), Some(b)) => Ok((a, b)),
            (None, _) => Err(String::from_str("Missing input file path")),
            (Some(_), None) => Err(String::from_str("Missing output file path")),
        }
    }
}

/// The normal form of one line.
pub fn normalize_line(line: &str) -> (r: String)
    ensures
        r@ == normal_line(line@),
{
    let t = match split_once_char(line, '.') {
        Some((_, after)) => trimmed(after.as_str()),
        None => trimmed(line),
    };
    lowercase(t.as_str())
}

/// The normal form of each line of `content`, in order.
pub fn parse_lines(content: &str) -> (r: Vec<String>)
    ensures
        r@.len() == lines_of(content@).len(),
        forall|i: int| 0 <= i < r@.len() ==> #[trigger] r@[i]@ == normal_line(lines_of(content@)[i]),
{
    let lines = text_lines(content);
    let mut r: Vec<String> = Vec::new();
    let mut i: usize = 0;
    while i < lines.len()
        invariant
            lines@.len() == lines_of(content@).len(),
            forall|k: int| 0 <= k < lines@.len() ==> #[trigger] lines@[k]@ == lines_of(content@)[k],
            0 <= i <= lines@.len(),
            r@.len() == i,
            forall|k: int| 0 <= k < i ==> #[trigger] r@[k]@ == normal_line(lines_of(content@)[k]),
        decreases lines@.len() - i,
    {
        let n = normalize_line(lines[i].as_str());
        r.push(n);
        i = i + 1;
    }
    r
}

} // verus!
