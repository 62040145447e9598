//! A list sorter: the distinct entries of a text list, numbering removed,
//! in sorted order.
use vstd::prelude::*;

use crate::text::{chars_equal, lines_of, lower_of, lowercase, split_first, split_once_char, text_lines, trim_of, trimmed};

verus! {

/// The command line of the list sorter.
pub struct Args {
    /// Path to the input file.
    pub source_file: String,
    /// Path to the output file; the result goes to standard output without it.
    pub result_file: Option<String>,
    /// Fold lines to lower case before removing their numbering.
    pub case_insensitive: bool,
}

/// What `char::is_numeric` gives for a character.
pub uninterp spec fn numeric_of(c: char) -> bool;

/// Relies on `char::is_numeric`: whether a character is a Unicode number;
/// the result depends on the character alone.
#[verifier::external_body]
fn is_numeric_char(c: char) -> (r: bool)
    ensures
        r == numeric_of(c),
{
    c.is_numeric()
}

/// The order of `String`: lexicographic over characters.
pub open spec fn lex_lt(a: Seq<char>, b: Seq<char>) -> bool
    decreases a.len(),
{
    if a.len() == 0 {
        b.len() > 0
    } else if b.len() == 0 {
        false
    } else if a[0] != b[0] {
        a[0] < b[0]
    } else {
        lex_lt(a.drop_first(), b.drop_first())
    }
}

proof fn lemma_lex_irreflexive(a: Seq<char>)
    ensures
        !lex_lt(a, a),
    decreases a.len(),
{
    if a.len() > 0 {
        lemma_lex_irreflexive(a.drop_first());
    }
}

proof fn lemma_lex_total(a: Seq<char>, b: Seq<char>)
    ensures
        a == b || lex_lt(a, b) || lex_lt(b, a),
    decreases a.len(),
{
    if a.len() > 0 && b.len() > 0 && a[0] == b[0] {
        lemma_lex_total(a.drop_first(), b.drop_first());
        if a.drop_first() == b.drop_first() {
            assert(a =~= seq![a[0]] + a.drop_first());
            assert(b =~= seq![b[0]] + b.drop_first());
        }
    } else if a.len() == 0 && b.len() == 0 {
        assert(a =~= b);
    }
}

proof fn lemma_lex_transitive(a: Seq<char>, b: Seq<char>, c: Seq<char>)
    requires
        lex_lt(a, b),
        lex_lt(b, c),
    ensures
        lex_lt(a, c),
    decreases a.len(),
{
    if a.len() > 0 && b.len() > 0 && c.len() > 0 && a[0] == b[0] && b[0] == c[0] {
        lemma_lex_transitive(a.drop_first(), b.drop_first(), c.drop_first());
    }
}

/// Whether `a` comes before `b`.
fn text_less(a: &str, b: &str) -> (r: bool)
    ensures
        r == lex_lt(a@, b@),
{
    let n = a.unicode_len();
    let m = b.unicode_len();
    let mut i: usize = 0;
    assert(a@.subrange(0, n as int) =~= a@);
    assert(b@.subrange(0, m as int) =~= b@);
    while i < n && i < m
        invariant
            n == a@.len(),
            m == b@.len(),
            0 <= i <= n,
            i <= m,
            lex_lt(a@, b@) == lex_lt(a@.subrange(i as int, n as int), b@.subrange(i as int, m as int)),
        decreases n - i,
    {
        let x = a.get_char(i);
        let y = b.get_char(i);
        let ghost sa = a@.subrange(i as int, n as int);
        let ghost sb = b@.subrange(i as int, m as int);
        assert(sa[0] == x && sb[0] == y);
        if x != y {
            return x < y;
        }
        assert(sa.drop_first() =~= a@.subrange(i + 1, n as int));
        assert(sb.drop_first() =~= b@.subrange(i + 1, m as int));
        i = i + 1;
    }
    assert(a@.subrange(i as int, n as int).len() == n - i);
    i == n && i < m
}

/// `s` is in strictly increasing order.
pub open spec fn strictly_sorted(s: Seq<String>) -> bool {
    forall|i: int, j: int| 0 <= i < j < s.len() ==> lex_lt(#[trigger] s[i]@, #[trigger] s[j]@)
}

/// The views of the strings of `s`, as a set.
pub open spec fn view_set(s: Seq<String>) -> Set<Seq<char>> {
    Set::new(|v: Seq<char>| exists|i: int| 0 <= i < s.len() && #[trigger] s[i]@ == v)
}

/// Every character of `s` is a number.
pub open spec fn all_numeric(s: Seq<char>) -> bool {
    forall|i: int| 0 <= i < s.len() ==> numeric_of(#[trigger] s[i])
}

/// The entry a line gives: `None` for a blank line; otherwise the line,
/// trimmed, except that a line (folded to lower case when `case_insensitive`)
/// whose text before its first `.` is all digits gives the trimmed text after
/// that `.`.
pub open spec fn processed(line: Seq<char>, case_insensitive: bool) -> Option<Seq<char>> {
    let t = trim_of(line);
    if t.len() == 0 {
        None
    } else {
        let p = if case_insensitive {
            lower_of(t)
        } else {
            t
        };
        match split_first(p, '.') {
            Some((prefix, rest)) => if all_numeric(prefix) {
                Some(trim_of(rest))
            } else {
                Some(t)
            },
            None => Some(t),
        }
    }
}

/// Whether a prefix is an ordered-list number: all its characters are
/// numbers (so the empty prefix is one).
fn is_ordered_list_item(prefix: &str) -> (r: bool)
    ensures
        r == all_numeric(prefix@),
{
    let n = prefix.unicode_len();
    let mut i: usize = 0;
    while i < n
        invariant
            n == prefix@.len(),
            0 <= i <= n,
            forall|j: int| 0 <= j < i ==> numeric_of(#[trigger] prefix@[j]),
        decreases n - i,
    {
        if !is_numeric_char(prefix.get_char(i)) {
            return false;
        }
        i = i + 1;
    }
    true
}

/// The entry one line gives.
fn process_line(line: &str, case_insensitive: bool) -> (r: Option<String>)
    ensures
        match r {
            Some(s) => processed(line@, case_insensitive) == Some(s@),
            None => processed(line@, case_insensitive) is None,
        },
{
    let t = trimmed(line);
    if t.as_str().unicode_len() == 0 {
        return None;
    }
    let p = if case_insensitive {
        lowercase(t.as_str())
    } else {
        t.clone()
    };
    match split_once_char(p.as_str(), '.') {
        Some((prefix, rest)) => {
            if is_ordered_list_item(prefix.as_str()) {
                Some(trimmed(rest.as_str()))
            } else {
                Some(t)
            }
        },
        None => Some(t),
    }
}

/// Adds `x` to a strictly increasing list, keeping it so.
fn insert_sorted(v: &mut Vec<String>, x: String)
    requires
        strictly_sorted(old(v)@),
    ensures
        strictly_sorted(final(v)@),
        view_set(final(v)@) == view_set(old(v)@).insert(x@),
{
    let ghost xv = x@;
    let mut j: usize = 0;
    while j < v.len() && text_less(v[j].as_str(), x.as_str())
        invariant
            v@ == old(v)@,
            strictly_sorted(v@),
            0 <= j <= v@.len(),
            forall|k: int| 0 <= k < j ==> lex_lt(#[trigger] v@[k]@, xv),
            x@ == xv,
        decreases v@.len() - j,
    {
        j = j + 1;
    }
    if j < v.len() && chars_equal(v[j].as_str(), x.as_str()) {
        assert(view_set(v@) =~= view_set(v@).insert(xv));
        return;
    }
    proof {
        if j < v@.len() {
            lemma_lex_total(v@[j as int]@, xv);
        }
    }
    let ghost before = v@;
    v.insert(j, x);
    proof {
        let after = v@;
        assert forall|a: int, b: int| 0 <= a < b < after.len() implies lex_lt(#[trigger] after[a]@, #[trigger] after[b]@) by {
            if b < j {
                assert(after[a] == before[a] && after[b] == before[b]);
            } else if b == j {
                assert(after[a] == before[a]);
            } else if a == j {
                assert(after[b] == before[b - 1]);
                if b - 1 > j {
                    lemma_lex_transitive(xv, before[j as int]@, before[b - 1]@);
                }
            } else if a < j {
                assert(after[a] == before[a] && after[b] == before[b - 1]);
            } else {
                assert(after[a] == before[a - 1] && after[b] == before[b - 1]);
            }
        }
        assert forall|w: Seq<char>| view_set(after).contains(w) == view_set(before).insert(xv).contains(w) by {
            if view_set(after).contains(w) {
                let k = choose|k: int| 0 <= k < after.len() && #[trigger] after[k]@ == w;
                if k < j {
                    assert(after[k] == before[k]);
                } else if k > j {
                    assert(after[k] == before[k - 1]);
                }
            }
            if view_set(before).contains(w) {
                let k = choose|k: int| 0 <= k < before.len() && #[trigger] before[k]@ == w;
                if k < j {
                    assert(after[k] == before[k]);
                } else {
                    assert(after[k + 1] == before[k]);
                }
            }
            if w == xv {
                assert(after[j as int]@ == xv);
            }
        }
        assert(view_set(after) =~= view_set(before).insert(xv));
    }
}

/// The entries of the lines of `content`, each once, in increasing order.
pub fn parse_lines(content: &str, case_insensitive: bool) -> (r: Vec<String>)
    ensures
        strictly_sorted(r@),
        forall|v: Seq<char>| #[trigger] view_set(r@).contains(v) <==> exists|i: int|
            0 <= i < lines_of(content@).len() && processed(#[trigger] lines_of(content@)[i], case_insensitive) == Some(v),
{
    let lines = text_lines(content);
    let ghost ls = lines_of(content@);
    let mut r: Vec<String> = Vec::new();
    let mut i: usize = 0;
    while i < lines.len()
        invariant
            lines@.len() == ls.len(),
            forall|k: int| 0 <= k < lines@.len() ==> #[trigger] lines@[k]@ == ls[k],
            0 <= i <= lines@.len(),
            strictly_sorted(r@),
            forall|v: Seq<char>| #[trigger] view_set(r@).contains(v) <==> exists|k: int|
                0 <= k < i && processed(#[trigger] ls[k], case_insensitive) == Some(v),
        decreases lines@.len() - i,
    {
        let ghost old_r = r@;
        match process_line(lines[i].as_str(), case_insensitive) {
            Some(entry) => {
                let ghost ev = entry@;
                insert_sorted(&mut r, entry);
                proof {
                    assert forall|v: Seq<char>| #[trigger] view_set(r@).contains(v) <==> exists|k: int|
                        0 <= k < i + 1 && processed(#[trigger] ls[k], case_insensitive) == Some(v) by {
                        if v == ev {
                            assert(processed(ls[i as int], case_insensitive) == Some(v));
                        }
                        if exists|k: int| 0 <= k < i + 1 && processed(#[trigger] ls[k], case_insensitive) == Some(v) {
                            let k = choose|k: int| 0 <= k < i + 1 && processed(#[trigger] ls[k], case_insensitive) == Some(v);
                            if k < i {
                                assert(view_set(old_r).contains(v));
                            }
                        }
                    }
                }
            },
            None => {
                proof {
                    assert forall|v: Seq<char>| #[trigger] view_set(r@).contains(v) <==> exists|k: int|
                        0 <= k < i + 1 && processed(#[trigger] ls[k], case_insensitive) == Some(v) by {
                        if exists|k: int| 0 <= k < i + 1 && processed(#[trigger] ls[k], case_insensitive) == Some(v) {
                            let k = choose|k: int| 0 <= k < i + 1 && processed(#[trigger] ls[k], case_insensitive) == Some(v);
                            assert(k != i);
                        }
                    }
                }
            },
        }
        i = i + 1;
    }
    r
}

} // verus!
