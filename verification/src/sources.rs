//! Where ignore patterns come from. Exactly one of three sources is
//! active for a run: patterns given on the command line, else the lines
//! of a project-local ignore file, else a built-in default list. The file
//! format is one pattern per line; blank lines and lines that start with
//! `#` say nothing.

use vstd::prelude::*;

use crate::rewrite::find_char;
use crate::rewrite::lemma_find_char;
use crate::rewrite::lemma_find_char_absent;
use crate::rewrite::lemma_find_char_at;
use crate::text::chars_to_string;
use crate::text::str_to_chars;

verus! {

/// A character that trimming removes at either end of a line: the ASCII
/// blanks that can surround a pattern in the file.
pub open spec fn is_blank(c: char) -> bool {
    c == ' ' || c == '\t' || c == '\r'
}

/// `s` without its leading blanks.
pub open spec fn trim_front(s: Seq<char>) -> Seq<char>
    decreases s.len(),
{
    if s.len() > 0 && is_blank(s[0]) {
        trim_front(s.drop_first())
    } else {
        s
    }
}

/// `s` without its trailing blanks.
pub open spec fn trim_back(s: Seq<char>) -> Seq<char>
    decreases s.len(),
{
    if s.len() > 0 && is_blank(s[s.len() - 1]) {
        trim_back(s.drop_last())
    } else {
        s
    }
}

/// `s` without blanks at either end.
pub open spec fn trim(s: Seq<char>) -> Seq<char> {
    trim_back(trim_front(s))
}

/// The patterns an ignore file's text holds: its lines, split at `\n`,
/// each trimmed, keeping those that are neither empty nor comments.
pub open spec fn ignore_patterns_of(s: Seq<char>) -> Seq<Seq<char>>
    decreases s.len(),
    via ignore_patterns_of_dec
{
    if find_char(s, '\n') < s.len() {
        let line = trim(s.take(find_char(s, '\n')));
        let rest = ignore_patterns_of(s.skip(find_char(s, '\n') + 1));
        if line.len() > 0 && line[0] != '#' {
            seq![line] + rest
        } else {
            rest
        }
    } else {
        let line = trim(s);
        if line.len() > 0 && line[0] != '#' {
            seq![line]
        } else {
            Seq::empty()
        }
    }
}

#[via_fn]
proof fn ignore_patterns_of_dec(s: Seq<char>) {
    lemma_find_char(s, '\n');
}

/// Trim the ASCII blanks from both ends of a line.
pub fn trim_exec(s: &Vec<char>) -> (r: Vec<char>)
    ensures
        r@ == trim(s@),
{
    let mut start: usize = 0;
    proof {
        assert(s@.skip(0) =~= s@);
    }
    while start < s.len() && (s[start] == ' ' || s[start] == '\t' || s[start] == '\r')
        invariant
            start <= s@.len(),
            trim_front(s@) == trim_front(s@.skip(start as int)),
        decreases s.len() - start,
    {
        proof {
            assert(s@.skip(start as int).drop_first() =~= s@.skip(start + 1));
        }
        start += 1;
    }
    proof {
        assert(trim_front(s@) == s@.skip(start as int));
        assert(s@.skip(start as int) =~= s@.subrange(start as int, s@.len() as int));
    }
    let mut end: usize = s.len();
    while end > start && (s[end - 1] == ' ' || s[end - 1] == '\t' || s[end - 1] == '\r')
        invariant
            start <= end <= s@.len(),
            trim_back(s@.skip(start as int)) == trim_back(s@.subrange(start as int, end as int)),
        decreases end,
    {
        proof {
            assert(s@.subrange(start as int, end as int).drop_last() =~= s@.subrange(
                start as int,
                end - 1,
            ));
        }
        end -= 1;
    }
    proof {
        assert(trim(s@) == s@.subrange(start as int, end as int));
    }
    let mut out: Vec<char> = Vec::new();
    let mut k = start;
    proof {
        assert(out@ =~= s@.subrange(start as int, start as int));
    }
    while k < end
        invariant
            start <= k <= end <= s@.len(),
            out@ == s@.subrange(start as int, k as int),
        decreases end - k,
    {
        out.push(s[k]);
        proof {
            assert(s@.subrange(start as int, k as int) + seq![s@[k as int]] =~= s@.subrange(
                start as int,
                k + 1,
            ));
        }
        k += 1;
    }
    out
}

/// Scan from `from` for the next line break.
fn find_newline(s: &Vec<char>, from: usize) -> (r: Option<usize>)
    requires
        from <= s@.len(),
    ensures
        r matches Some(j) ==> from <= j < s@.len() && j - from == find_char(
            s@.skip(from as int),
            '\n',
        ),
        r is None ==> find_char(s@.skip(from as int), '\n') == s@.len() - from,
{
    let ghost d = s@.skip(from as int);
    let mut k = from;
    while k < s.len()
        invariant
            from <= k <= s@.len(),
            d == s@.skip(from as int),
            forall|m: int| from <= m < k ==> s@[m] != '\n',
        decreases s.len() - k,
    {
        if s[k] == '\n' {
            proof {
                assert(d[k - from] == s@[k as int]);
                assert forall|m: int| 0 <= m < k - from implies d[m] != '\n' by {
                    assert(d[m] == s@[from + m]);
                }
                lemma_find_char_at(d, '\n', k - from);
            }
            return Some(k);
        }
        k += 1;
    }
    proof {
        assert forall|m: int| 0 <= m < d.len() implies d[m] != '\n' by {
            assert(d[m] == s@[from + m]);
        }
        lemma_find_char_absent(d, '\n');
    }
    None
}

/// Read the patterns out of an ignore file's text: one per line, trimmed,
/// with blank lines and `#` comments skipped.
pub fn parse_ignore_file(text: &str) -> (r: Vec<String>)
    ensures
        r@.map_values(|p: String| p@) == ignore_patterns_of(text@),
{
    let chars = str_to_chars(text);
    let mut out: Vec<String> = Vec::new();
    let mut i: usize = 0;
    let mut finished = false;
    proof {
        assert(chars@.skip(0) =~= chars@);
        assert(out@.map_values(|p: String| p@) + ignore_patterns_of(chars@)
            =~= ignore_patterns_of(chars@));
    }
    while !finished
        invariant
            i <= chars@.len(),
            chars@ == text@,
            !finished ==> out@.map_values(|p: String| p@) + ignore_patterns_of(
                chars@.skip(i as int),
            ) == ignore_patterns_of(text@),
            finished ==> out@.map_values(|p: String| p@) == ignore_patterns_of(text@),
        decreases chars@.len() - i + (if finished { 0int } else { 1int }),
    {
        let ghost rest = chars@.skip(i as int);
        let ghost before = out@;
        let line_end = match find_newline(&chars, i) {
            Some(j) => j,
            None => chars.len(),
        };
        let ghost f = find_char(rest, '\n');
        proof {
            lemma_find_char(rest, '\n');
            assert(line_end - i == f);
        }
        let mut line: Vec<char> = Vec::new();
        let mut k = i;
        proof {
            assert(line@ =~= chars@.subrange(i as int, i as int));
        }
        while k < line_end
            invariant
                i <= k <= line_end <= chars@.len(),
                line@ == chars@.subrange(i as int, k as int),
            decreases line_end - k,
        {
            line.push(chars[k]);
            proof {
                assert(chars@.subrange(i as int, k as int) + seq![chars@[k as int]]
                    =~= chars@.subrange(i as int, k + 1));
            }
            k += 1;
        }
        proof {
            if f < rest.len() {
                assert(line@ =~= rest.take(f));
            } else {
                assert(line@ =~= rest);
            }
        }
        let trimmed = trim_exec(&line);
        if trimmed.len() > 0 && trimmed[0] != '#' {
            out.push(chars_to_string(&trimmed));
            proof {
                assert(out@.map_values(|p: String| p@) =~= before.map_values(|p: String| p@).push(
                    trim(line@),
                ));
            }
        }
        if line_end == chars.len() {
            finished = true;
            proof {
                assert(out@.map_values(|p: String| p@) =~= ignore_patterns_of(text@));
            }
        } else {
            i = line_end + 1;
            proof {
                assert(rest.skip(f + 1) =~= chars@.skip(i as int));
                assert(out@.map_values(|p: String| p@) + ignore_patterns_of(chars@.skip(i as int))
                    =~= ignore_patterns_of(text@));
            }
        }
    }
    out
}

/// The views of the built-in default ignore list.
pub open spec fn default_pattern_views() -> Seq<Seq<char>> {
    seq![".git/"@, "tmp/"@, "log/"@, "*.log"@]
}

/// The built-in default ignore list: the version-control directory,
/// temporary and log directories, and log files.
pub fn default_patterns() -> (r: Vec<String>)
    ensures
        r@.map_values(|p: String| p@) == default_pattern_views(),
{
    let mut v: Vec<String> = Vec::new();
    v.push(".git/".to_owned());
    v.push("tmp/".to_owned());
    v.push("log/".to_owned());
    v.push("*.log".to_owned());
    proof {
        assert(v@.map_values(|p: String| p@) =~= default_pattern_views());
    }
    v
}

/// Pick the single active pattern source: command-line patterns when any
/// were given, else the ignore file's text when one was found, else the
/// built-in defaults. The sources are never merged.
pub fn select_patterns(cli: Option<Vec<String>>, ignore_file: Option<&str>) -> (r: Vec<String>)
    ensures
        cli matches Some(v) ==> r@ == v@,
        ignore_file matches Some(t) ==> (cli is None ==> r@.map_values(|p: String| p@)
            == ignore_patterns_of(t@)),
        cli is None && ignore_file is None ==> r@.map_values(|p: String| p@)
            == default_pattern_views(),
{
    match cli {
        Some(v) => v,
        None => match ignore_file {
            Some(text) => parse_ignore_file(text),
            None => default_patterns(),
        },
    }
}

} // verus!
