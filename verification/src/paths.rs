//! The basename of a candidate path: its final segment, with trailing
//! separators ignored, as a path library would report it.

use vstd::prelude::*;

verus! {

/// `t` with every trailing `/` removed.
pub open spec fn strip_trailing_slashes(t: Seq<char>) -> Seq<char>
    decreases t.len(),
{
    if t.len() > 0 && t[t.len() - 1] == '/' {
        strip_trailing_slashes(t.drop_last())
    } else {
        t
    }
}

/// The suffix of `t` after its last `/`; all of `t` when it has none.
pub open spec fn after_last_slash(t: Seq<char>) -> Seq<char>
    decreases t.len(),
{
    if t.len() == 0 {
        t
    } else if t[t.len() - 1] == '/' {
        Seq::empty()
    } else {
        after_last_slash(t.drop_last()).push(t[t.len() - 1])
    }
}

/// The final path segment of `t`: trailing separators are dropped first,
/// then everything up to and including the last `/`.
pub open spec fn basename(t: Seq<char>) -> Seq<char> {
    after_last_slash(strip_trailing_slashes(t))
}

/// Appending a slash-free name to anything that ends in `/` puts exactly
/// that name after the last slash.
pub proof fn lemma_after_last_slash_append(prefix: Seq<char>, name: Seq<char>)
    requires
        prefix.len() > 0,
        prefix[prefix.len() - 1] == '/',
        forall|i: int| 0 <= i < name.len() ==> name[i] != '/',
    ensures
        after_last_slash(prefix + name) == name,
    decreases name.len(),
{
    if name.len() == 0 {
        assert(prefix + name =~= prefix);
        assert(name =~= Seq::<char>::empty());
    } else {
        let t = prefix + name;
        assert(t[t.len() - 1] == name[name.len() - 1]);
        assert(t.drop_last() =~= prefix + name.drop_last());
        lemma_after_last_slash_append(prefix, name.drop_last());
        assert(after_last_slash(t) =~= name);
    }
}

/// A name with no slash is its own basename.
pub proof fn lemma_basename_no_slash(name: Seq<char>)
    requires
        forall|i: int| 0 <= i < name.len() ==> name[i] != '/',
    ensures
        basename(name) == name,
    decreases name.len(),
{
    if name.len() == 0 {
    } else {
        assert(name[name.len() - 1] != '/');
        lemma_basename_no_slash(name.drop_last());
        assert(after_last_slash(name) =~= name);
    }
}

/// A slash-free name put under any directory is the basename of the
/// resulting path.
pub proof fn lemma_basename_under_directory(dir: Seq<char>, name: Seq<char>)
    requires
        name.len() > 0,
        forall|i: int| 0 <= i < name.len() ==> name[i] != '/',
    ensures
        basename(dir + seq!['/'] + name) == name,
{
    let prefix = dir + seq!['/'];
    assert(prefix[prefix.len() - 1] == '/');
    lemma_after_last_slash_append(prefix, name);
    let t = prefix + name;
    assert(t[t.len() - 1] == name[name.len() - 1]);
    assert(t[t.len() - 1] != '/');
    assert(strip_trailing_slashes(t) == t);
}

/// Compute the basename of a candidate path.
pub fn basename_exec(s: &Vec<char>) -> (r: Vec<char>)
    ensures
        r@ == basename(s@),
{
    let mut end: usize = s.len();
    proof {
        assert(s@.take(s@.len() as int) =~= s@);
    }
    while end > 0 && s[end - 1] == '/'
        invariant
            end <= s@.len(),
            strip_trailing_slashes(s@) == strip_trailing_slashes(s@.take(end as int)),
        decreases end,
    {
        proof {
            assert(s@.take(end as int).drop_last() =~= s@.take(end - 1));
        }
        end -= 1;
    }
    proof {
        assert(strip_trailing_slashes(s@) == s@.take(end as int));
    }
    let mut start: usize = end;
    proof {
        assert(after_last_slash(s@.take(end as int)) + s@.subrange(end as int, end as int)
            =~= after_last_slash(s@.take(end as int)));
    }
    while start > 0 && s[start - 1] != '/'
        invariant
            start <= end <= s@.len(),
            after_last_slash(s@.take(end as int)) == after_last_slash(s@.take(start as int))
                + s@.subrange(start as int, end as int),
        decreases start,
    {
        proof {
            let t = s@.take(start as int);
            assert(t.drop_last() =~= s@.take(start - 1));
            assert(after_last_slash(s@.take(start - 1)).push(s@[start - 1]) + s@.subrange(
                start as int,
                end as int,
            ) =~= after_last_slash(s@.take(start - 1)) + s@.subrange(start - 1, end as int));
        }
        start -= 1;
    }
    proof {
        if start == 0 {
            assert(s@.take(0) =~= Seq::<char>::empty());
            assert(after_last_slash(Seq::<char>::empty()) + s@.subrange(0, end as int)
                =~= s@.subrange(0, end as int));
        } else {
            assert(s@.take(start as int)[start - 1] == '/');
            assert(after_last_slash(s@.take(start as int)) + s@.subrange(start as int, end as int)
                =~= s@.subrange(start as int, end as int));
        }
    }
    let mut out: Vec<char> = Vec::new();
    let mut k = start;
    proof {
        assert(out@ =~= s@.subrange(start as int, start as int));
    }
    while k < end
        invariant
            start <= k <= end <= s@.len(),
            out@ == s@.subrange(start as int, k as int),
        decreases end - k,
    {
        out.push(s[k]);
        proof {
            assert(s@.subrange(start as int, k as int) + seq![s@[k as int]] =~= s@.subrange(
                start as int,
                k + 1,
            ));
        }
        k += 1;
    }
    out
}

} // verus!
