//! Textual rewriting primitives used by the pattern compiler: a generic
//! left-to-right, non-overlapping replacement of a literal token, and the
//! brace-list conversion `{...}` -> `(...)`. Replacements are never
//! re-scanned: each step consumes its input once, from the left.

use vstd::prelude::*;

verus! {

/// The result of replacing, left to right and without overlap, every
/// occurrence of the literal token `pat` in `s` by `to`. Text that `to`
/// contributes is not scanned again.
pub open spec fn rewrite(s: Seq<char>, pat: Seq<char>, to: Seq<char>) -> Seq<char>
    decreases s.len(),
{
    if s.len() == 0 {
        Seq::empty()
    } else if 1 <= pat.len() && pat.len() <= s.len() && s.subrange(0, pat.len() as int) == pat {
        to + rewrite(s.skip(pat.len() as int), pat, to)
    } else {
        seq![s[0]] + rewrite(s.drop_first(), pat, to)
    }
}

/// The least index of `c` in `s`, or `s.len()` when `c` does not occur.
pub open spec fn find_char(s: Seq<char>, c: char) -> int
    decreases s.len(),
{
    if s.len() == 0 {
        0
    } else if s[0] == c {
        0
    } else {
        1 + find_char(s.drop_first(), c)
    }
}

pub proof fn lemma_find_char(s: Seq<char>, c: char)
    ensures
        0 <= find_char(s, c) <= s.len(),
        find_char(s, c) < s.len() ==> s[find_char(s, c)] == c,
        forall|k: int| 0 <= k < find_char(s, c) ==> s[k] != c,
    decreases s.len(),
{
    if s.len() == 0 {
    } else if s[0] == c {
    } else {
        lemma_find_char(s.drop_first(), c);
        let d = s.drop_first();
        let f = find_char(d, c);
        assert forall|k: int| 0 <= k < 1 + f implies s[k] != c by {
            if k > 0 {
                assert(s[k] == d[k - 1]);
            }
        }
        if f < d.len() {
            assert(s[1 + f] == d[f]);
        }
    }
}

/// `find_char` is pinned down by a witness: the first occurrence.
pub proof fn lemma_find_char_at(s: Seq<char>, c: char, j: int)
    requires
        0 <= j < s.len(),
        s[j] == c,
        forall|k: int| 0 <= k < j ==> s[k] != c,
    ensures
        find_char(s, c) == j,
{
    lemma_find_char(s, c);
    let f = find_char(s, c);
    if f < j {
        assert(s[f] == c);
    }
    if f > j {
        assert(s[j] != c);
    }
}

/// When `c` occurs nowhere in `s`, `find_char` returns `s.len()`.
pub proof fn lemma_find_char_absent(s: Seq<char>, c: char)
    requires
        forall|k: int| 0 <= k < s.len() ==> s[k] != c,
    ensures
        find_char(s, c) == s.len(),
{
    lemma_find_char(s, c);
    let f = find_char(s, c);
    if f < s.len() {
        assert(s[f] == c);
    }
}

/// One unfolding of `rewrite` at offset `i` of `s`.
proof fn lemma_rewrite_step(s: Seq<char>, pat: Seq<char>, to: Seq<char>, i: int)
    requires
        0 <= i < s.len(),
        pat.len() >= 1,
    ensures
        (i + pat.len() <= s.len() && s.subrange(i, i + pat.len()) == pat) ==> rewrite(
            s.skip(i),
            pat,
            to,
        ) == to + rewrite(s.skip(i + pat.len()), pat, to),
        !(i + pat.len() <= s.len() && s.subrange(i, i + pat.len()) == pat) ==> rewrite(
            s.skip(i),
            pat,
            to,
        ) == seq![s[i]] + rewrite(s.skip(i + 1), pat, to),
{
    let t = s.skip(i);
    assert(t.len() == s.len() - i);
    if i + pat.len() <= s.len() {
        assert(t.subrange(0, pat.len() as int) =~= s.subrange(i, i + pat.len()));
    }
    if i + pat.len() <= s.len() && s.subrange(i, i + pat.len()) == pat {
        assert(t.skip(pat.len() as int) =~= s.skip(i + pat.len()));
    } else {
        assert(t[0] == s[i]);
        assert(t.drop_first() =~= s.skip(i + 1));
    }
}

/// Does the token `pat` stand in `s` at offset `i`?
pub fn token_at(s: &Vec<char>, pat: &Vec<char>, i: usize) -> (r: bool)
    requires
        i <= s@.len(),
    ensures
        r == (i + pat@.len() <= s@.len() && s@.subrange(i as int, i + pat@.len()) == pat@),
{
    if pat.len() > s.len() - i {
        return false;
    }
    let n = s.len();
    let mut k: usize = 0;
    while k < pat.len()
        invariant
            k <= pat@.len(),
            n == s@.len(),
            i + pat@.len() <= s@.len(),
            forall|m: int| 0 <= m < k ==> s@[i + m] == pat@[m],
        decreases pat.len() - k,
    {
        if s[i + k] != pat[k] {
            proof {
                assert(s@.subrange(i as int, i + pat@.len())[k as int] != pat@[k as int]);
            }
            return false;
        }
        k += 1;
    }
    proof {
        assert(s@.subrange(i as int, i + pat@.len()) =~= pat@);
    }
    true
}

/// Replace, left to right and without overlap, every occurrence of the
/// literal token `pat` by `to`.
pub fn rewrite_exec(s: &Vec<char>, pat: &Vec<char>, to: &Vec<char>) -> (r: Vec<char>)
    requires
        pat@.len() >= 1,
    ensures
        r@ == rewrite(s@, pat@, to@),
{
    let mut out: Vec<char> = Vec::new();
    let mut i: usize = 0;
    proof {
        assert(s@.skip(0) =~= s@);
        assert(Seq::<char>::empty() + rewrite(s@, pat@, to@) =~= rewrite(s@, pat@, to@));
    }
    while i < s.len()
        invariant
            i <= s@.len(),
            pat@.len() >= 1,
            out@ + rewrite(s@.skip(i as int), pat@, to@) == rewrite(s@, pat@, to@),
        decreases s.len() - i,
    {
        proof {
            lemma_rewrite_step(s@, pat@, to@, i as int);
        }
        if token_at(s, pat, i) {
            let ghost prefix = out@;
            let mut k: usize = 0;
            while k < to.len()
                invariant
                    k <= to@.len(),
                    out@ == prefix + to@.take(k as int),
                decreases to.len() - k,
            {
                out.push(to[k]);
                proof {
                    assert(prefix + to@.take(k as int) + seq![to@[k as int]] =~= prefix + to@.take(
                        k + 1,
                    ));
                }
                k += 1;
            }
            proof {
                assert(out@ =~= prefix + to@);
                assert((prefix + to@) + rewrite(s@.skip(i + pat@.len()), pat@, to@) =~= prefix + (
                to@ + rewrite(s@.skip(i + pat@.len()), pat@, to@)));
            }
            i += pat.len();
        } else {
            let ghost prefix = out@;
            out.push(s[i]);
            proof {
                assert((prefix + seq![s@[i as int]]) + rewrite(s@.skip(i + 1), pat@, to@)
                    =~= prefix + (seq![s@[i as int]] + rewrite(s@.skip(i + 1), pat@, to@)));
            }
            i += 1;
        }
    }
    proof {
        assert(s@.skip(i as int) =~= Seq::<char>::empty());
        assert(out@ + Seq::<char>::empty() =~= out@);
    }
    out
}

/// Does a brace list that opens at the start of `'{' + d` close? It does
/// when `d` holds a `}` with no newline before it: the compiler's list
/// search never crosses a line break.
pub open spec fn brace_closes(d: Seq<char>) -> bool {
    find_char(d, '}') < d.len() && find_char(d, '}') < find_char(d, '\n')
}

/// The brace-list conversion: each `{` that closes is replaced together
/// with the nearest following `}` by `(` and `)`, the text between them
/// kept; everything else is copied. The scan resumes after each closing
/// `}`, left to right.
pub open spec fn convert_braces(s: Seq<char>) -> Seq<char>
    decreases s.len(),
    via convert_braces_dec
{
    if s.len() == 0 {
        Seq::empty()
    } else if s[0] == '{' && brace_closes(s.drop_first()) {
        let j = find_char(s.drop_first(), '}');
        seq!['('] + s.subrange(1, 1 + j) + seq![')'] + convert_braces(s.skip(2 + j))
    } else {
        seq![s[0]] + convert_braces(s.drop_first())
    }
}

#[via_fn]
proof fn convert_braces_dec(s: Seq<char>) {
    if s.len() != 0 && s[0] == '{' && brace_closes(s.drop_first()) {
        lemma_find_char(s.drop_first(), '}');
    }
}

/// One unfolding of `convert_braces` at offset `i` of `s`.
proof fn lemma_braces_step(s: Seq<char>, i: int)
    requires
        0 <= i < s.len(),
    ensures
        (s[i] == '{' && brace_closes(s.skip(i + 1))) ==> convert_braces(s.skip(i)) == seq!['(']
            + s.subrange(i + 1, i + 1 + find_char(s.skip(i + 1), '}')) + seq![')']
            + convert_braces(s.skip(i + 2 + find_char(s.skip(i + 1), '}'))),
        !(s[i] == '{' && brace_closes(s.skip(i + 1))) ==> convert_braces(s.skip(i)) == seq![s[i]]
            + convert_braces(s.skip(i + 1)),
{
    let t = s.skip(i);
    assert(t[0] == s[i]);
    assert(t.drop_first() =~= s.skip(i + 1));
    if s[i] == '{' && brace_closes(s.skip(i + 1)) {
        let j = find_char(s.skip(i + 1), '}');
        lemma_find_char(s.skip(i + 1), '}');
        assert(t.subrange(1, 1 + j) =~= s.subrange(i + 1, i + 1 + j));
        assert(t.skip(2 + j) =~= s.skip(i + 2 + j));
    }
}

/// Scan from `from` for the `}` that closes a brace list, giving up at a
/// newline or at the end.
fn find_brace_close(s: &Vec<char>, from: usize) -> (r: Option<usize>)
    requires
        from <= s@.len(),
    ensures
        r matches Some(j) ==> from <= j < s@.len() && j - from == find_char(
            s@.skip(from as int),
            '}',
        ) && brace_closes(s@.skip(from as int)),
        r is None ==> !brace_closes(s@.skip(from as int)),
{
    let ghost d = s@.skip(from as int);
    proof {
        assert forall|m: int| 0 <= m < d.len() implies d[m] == s@[from + m] by {}
    }
    let mut k = from;
    while k < s.len()
        invariant
            from <= k <= s@.len(),
            d == s@.skip(from as int),
            forall|m: int| from <= m < k ==> s@[m] != '}' && s@[m] != '\n',
        decreases s.len() - k,
    {
        if s[k] == '}' {
            proof {
                assert(d[k - from] == s@[k as int]);
                assert forall|m: int| 0 <= m < k - from implies d[m] != '}' by {
                    assert(d[m] == s@[from + m]);
                }
                lemma_find_char_at(d, '}', k - from);
                lemma_find_char(d, '\n');
                if find_char(d, '\n') < k - from {
                    assert(d[find_char(d, '\n')] == '\n');
                    assert(s@[from + find_char(d, '\n')] == '\n');
                }
                assert(find_char(d, '\n') != k - from);
            }
            return Some(k);
        }
        if s[k] == '\n' {
            proof {
                assert(d[k - from] == s@[k as int]);
                assert forall|m: int| 0 <= m < k - from implies d[m] != '\n' by {
                    assert(d[m] == s@[from + m]);
                }
                lemma_find_char_at(d, '\n', k - from);
                lemma_find_char(d, '}');
                if find_char(d, '}') < k - from {
                    assert(d[find_char(d, '}')] == '}');
                    assert(s@[from + find_char(d, '}')] == '}');
                }
            }
            return None;
        }
        k += 1;
    }
    proof {
        assert forall|m: int| 0 <= m < d.len() implies d[m] != '}' by {
            assert(d[m] == s@[from + m]);
        }
        lemma_find_char_absent(d, '}');
    }
    None
}

/// Replace each brace list `{...}` by `(...)`, left to right.
pub fn convert_braces_exec(s: &Vec<char>) -> (r: Vec<char>)
    ensures
        r@ == convert_braces(s@),
{
    let mut out: Vec<char> = Vec::new();
    let mut i: usize = 0;
    proof {
        assert(s@.skip(0) =~= s@);
        assert(Seq::<char>::empty() + convert_braces(s@) =~= convert_braces(s@));
    }
    while i < s.len()
        invariant
            i <= s@.len(),
            out@ + convert_braces(s@.skip(i as int)) == convert_braces(s@),
        decreases s.len() - i,
    {
        proof {
            lemma_braces_step(s@, i as int);
        }
        let ghost prefix = out@;
        let mut handled = false;
        if s[i] == '{' {
            if let Some(j) = find_brace_close(s, i + 1) {
                out.push('(');
                let mut k = i + 1;
                while k < j
                    invariant
                        i + 1 <= k <= j < s@.len(),
                        out@ == prefix + seq!['('] + s@.subrange(i + 1, k as int),
                    decreases j - k,
                {
                    out.push(s[k]);
                    proof {
                        assert(prefix + seq!['('] + s@.subrange(i + 1, k as int) + seq![
                            s@[k as int],
                        ] =~= prefix + seq!['('] + s@.subrange(i + 1, k + 1));
                    }
                    k += 1;
                }
                out.push(')');
                proof {
                    let jj = find_char(s@.skip(i + 1), '}');
                    assert(jj == j - (i + 1));
                    assert(out@ + convert_braces(s@.skip(j + 1)) =~= prefix + (seq!['(']
                        + s@.subrange(i + 1, i + 1 + jj) + seq![')'] + convert_braces(
                        s@.skip(i + 2 + jj),
                    )));
                }
                i = j + 1;
                handled = true;
            }
        }
        if !handled {
            out.push(s[i]);
            proof {
                assert(prefix + seq![s@[i as int]] + convert_braces(s@.skip(i + 1)) =~= prefix + (
                seq![s@[i as int]] + convert_braces(s@.skip(i + 1))));
            }
            i += 1;
        }
        proof {
            assert(out@ + convert_braces(s@.skip(i as int)) == convert_braces(s@));
        }
    }
    proof {
        assert(s@.skip(i as int) =~= Seq::<char>::empty());
        assert(out@ + Seq::<char>::empty() =~= out@);
    }
    out
}

} // verus!
