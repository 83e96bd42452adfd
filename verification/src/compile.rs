//! The pattern compiler: an ordered pipeline of textual steps that turns
//! one glob-style pattern into the source of an anchored regular
//! expression. The order is load-bearing: later steps consume text that
//! earlier steps produced.

use vstd::prelude::*;

use crate::rewrite::convert_braces;
use crate::rewrite::convert_braces_exec;
use crate::rewrite::rewrite;
use crate::rewrite::rewrite_exec;

verus! {

/// The placeholder that protects `**` from the single-star step.
pub open spec fn double_star_token() -> Seq<char> {
    seq!['D', 'O', 'U', 'B', 'L', 'E', '_', 'S', 'T', 'A', 'R']
}

/// The group that stands for any run of leading path segments.
pub open spec fn leading_segments_group() -> Seq<char> {
    seq!['(', '.', '*', '?', '/', ')', '?']
}

/// The group that stands for an optional `/` and anything below it.
pub open spec fn descendants_group() -> Seq<char> {
    seq!['(', '/', '.', '*', '?', ')', '?']
}

/// A pattern that begins with `/` sheds that slash for the leading
/// segments group, so the rest may sit at any depth.
pub open spec fn expand_leading_slash(s: Seq<char>) -> Seq<char> {
    if s.len() > 0 && s[0] == '/' {
        leading_segments_group() + s.drop_first()
    } else {
        s
    }
}

/// A pattern that ends with `/` sheds that slash for the descendants
/// group, so it covers the bare name and everything under it.
pub open spec fn expand_trailing_slash(s: Seq<char>) -> Seq<char> {
    if s.len() > 0 && s[s.len() - 1] == '/' {
        s.drop_last() + descendants_group()
    } else {
        s
    }
}

/// The whole translation, step by step in compilation order, ending with
/// the start and end anchors.
pub open spec fn translate(p: Seq<char>) -> Seq<char> {
    let s1 = rewrite(p, seq!['+'], seq!['\\', '+']);
    let s2 = rewrite(s1, seq!['('], seq!['\\', '(']);
    let s3 = rewrite(s2, seq!['|'], seq!['\\', '|']);
    let s4 = rewrite(s3, seq![')'], seq!['\\', ')']);
    let s5 = convert_braces(s4);
    let s6 = rewrite(s5, seq!['{'], seq!['\\', '{']);
    let s7 = rewrite(s6, seq!['}'], seq!['\\', '}']);
    let s8 = rewrite(s7, seq![','], seq!['|']);
    let s9 = rewrite(s8, seq!['.'], seq!['\\', '.']);
    let s10 = rewrite(s9, seq!['*', '*'], double_star_token());
    let s11 = rewrite(s10, seq!['.', '*'], seq!['.', '\\', 'w', '{', '1', ',', '}']);
    let s12 = rewrite(s11, seq!['*'], seq!['.', '*', '?']);
    let s13 = rewrite(s12, double_star_token() + seq!['/'], leading_segments_group());
    let s14 = expand_leading_slash(s13);
    let s15 = expand_trailing_slash(s14);
    seq!['^'] + s15 + seq!['$']
}

/// Append every character of `s` to `out`.
fn push_all(out: &mut Vec<char>, s: &Vec<char>)
    ensures
        final(out)@ == old(out)@ + s@,
{
    let mut k: usize = 0;
    proof {
        assert(old(out)@ + s@.take(0) =~= old(out)@);
    }
    while k < s.len()
        invariant
            k <= s@.len(),
            out@ == old(out)@ + s@.take(k as int),
        decreases s.len() - k,
    {
        out.push(s[k]);
        proof {
            assert(old(out)@ + s@.take(k as int) + seq![s@[k as int]] =~= old(out)@ + s@.take(
                k + 1,
            ));
        }
        k += 1;
    }
    proof {
        assert(s@.take(s@.len() as int) =~= s@);
    }
}

/// Append the characters of `s` from `from` on to `out`.
fn push_tail(out: &mut Vec<char>, s: &Vec<char>, from: usize)
    requires
        from <= s@.len(),
    ensures
        final(out)@ == old(out)@ + s@.skip(from as int),
{
    let mut k = from;
    proof {
        assert(old(out)@ + s@.subrange(from as int, from as int) =~= old(out)@);
    }
    while k < s.len()
        invariant
            from <= k <= s@.len(),
            out@ == old(out)@ + s@.subrange(from as int, k as int),
        decreases s.len() - k,
    {
        out.push(s[k]);
        proof {
            assert(old(out)@ + s@.subrange(from as int, k as int) + seq![s@[k as int]] =~= old(
                out,
            )@ + s@.subrange(from as int, k + 1));
        }
        k += 1;
    }
}

fn leading_segments_group_exec() -> (r: Vec<char>)
    ensures
        r@ == leading_segments_group(),
{
    let mut v: Vec<char> = Vec::new();
    v.push('(');
    v.push('.');
    v.push('*');
    v.push('?');
    v.push('/');
    v.push(')');
    v.push('?');
    proof {
        assert(v@ =~= leading_segments_group());
    }
    v
}

fn expand_leading_slash_exec(s: &Vec<char>) -> (r: Vec<char>)
    ensures
        r@ == expand_leading_slash(s@),
{
    if s.len() > 0 && s[0] == '/' {
        let mut out = leading_segments_group_exec();
        push_tail(&mut out, s, 1);
        proof {
            assert(s@.skip(1) =~= s@.drop_first());
        }
        out
    } else {
        let mut out: Vec<char> = Vec::new();
        push_all(&mut out, s);
        proof {
            assert(Seq::<char>::empty() + s@ =~= s@);
        }
        out
    }
}

fn expand_trailing_slash_exec(s: &Vec<char>) -> (r: Vec<char>)
    ensures
        r@ == expand_trailing_slash(s@),
{
    let mut out: Vec<char> = Vec::new();
    if s.len() > 0 && s[s.len() - 1] == '/' {
        let mut k: usize = 0;
        proof {
            assert(Seq::<char>::empty() =~= s@.take(0));
        }
        while k < s.len() - 1
            invariant
                s@.len() > 0,
                k <= s@.len() - 1,
                out@ == s@.take(k as int),
            decreases s.len() - k,
        {
            out.push(s[k]);
            proof {
                assert(s@.take(k as int) + seq![s@[k as int]] =~= s@.take(k + 1));
            }
            k += 1;
        }
        out.push('(');
        out.push('/');
        out.push('.');
        out.push('*');
        out.push('?');
        out.push(')');
        out.push('?');
        proof {
            assert(s@.take(s@.len() - 1) =~= s@.drop_last());
            assert(out@ =~= s@.drop_last() + descendants_group());
        }
    } else {
        push_all(&mut out, s);
        proof {
            assert(Seq::<char>::empty() + s@ =~= s@);
        }
    }
    out
}

/// Run the whole pipeline on one pattern.
pub fn translate_exec(p: &Vec<char>) -> (r: Vec<char>)
    ensures
        r@ == translate(p@),
{
    let mut pat: Vec<char> = Vec::new();
    let mut to: Vec<char> = Vec::new();

    pat.push('+');
    to.push('\\');
    to.push('+');
    let s1 = rewrite_exec(p, &pat, &to);
    proof {
        assert(pat@ =~= seq!['+']);
        assert(to@ =~= seq!['\\', '+']);
    }

    pat = Vec::new();
    to = Vec::new();
    pat.push('(');
    to.push('\\');
    to.push('(');
    let s2 = rewrite_exec(&s1, &pat, &to);
    proof {
        assert(pat@ =~= seq!['(']);
        assert(to@ =~= seq!['\\', '(']);
    }

    pat = Vec::new();
    to = Vec::new();
    pat.push('|');
    to.push('\\');
    to.push('|');
    let s3 = rewrite_exec(&s2, &pat, &to);
    proof {
        assert(pat@ =~= seq!['|']);
        assert(to@ =~= seq!['\\', '|']);
    }

    pat = Vec::new();
    to = Vec::new();
    pat.push(')');
    to.push('\\');
    to.push(')');
    let s4 = rewrite_exec(&s3, &pat, &to);
    proof {
        assert(pat@ =~= seq![')']);
        assert(to@ =~= seq!['\\', ')']);
    }

    let s5 = convert_braces_exec(&s4);

    pat = Vec::new();
    to = Vec::new();
    pat.push('{');
    to.push('\\');
    to.push('{');
    let s6 = rewrite_exec(&s5, &pat, &to);
    proof {
        assert(pat@ =~= seq!['{']);
        assert(to@ =~= seq!['\\', '{']);
    }

    pat = Vec::new();
    to = Vec::new();
    pat.push('}');
    to.push('\\');
    to.push('}');
    let s7 = rewrite_exec(&s6, &pat, &to);
    proof {
        assert(pat@ =~= seq!['}']);
        assert(to@ =~= seq!['\\', '}']);
    }

    pat = Vec::new();
    to = Vec::new();
    pat.push(',');
    to.push('|');
    let s8 = rewrite_exec(&s7, &pat, &to);
    proof {
        assert(pat@ =~= seq![',']);
        assert(to@ =~= seq!['|']);
    }

    pat = Vec::new();
    to = Vec::new();
    pat.push('.');
    to.push('\\');
    to.push('.');
    let s9 = rewrite_exec(&s8, &pat, &to);
    proof {
        assert(pat@ =~= seq!['.']);
        assert(to@ =~= seq!['\\', '.']);
    }

    pat = Vec::new();
    to = Vec::new();
    pat.push('*');
    pat.push('*');
    to.push('D');
    to.push('O');
    to.push('U');
    to.push('B');
    to.push('L');
    to.push('E');
    to.push('_');
    to.push('S');
    to.push('T');
    to.push('A');
    to.push('R');
    let s10 = rewrite_exec(&s9, &pat, &to);
    proof {
        assert(pat@ =~= seq!['*', '*']);
        assert(to@ =~= double_star_token());
    }

    pat = Vec::new();
    let dstar = to;
    to = Vec::new();
    pat.push('.');
    pat.push('*');
    to.push('.');
    to.push('\\');
    to.push('w');
    to.push('{');
    to.push('1');
    to.push(',');
    to.push('}');
    let s11 = rewrite_exec(&s10, &pat, &to);
    proof {
        assert(pat@ =~= seq!['.', '*']);
        assert(to@ =~= seq!['.', '\\', 'w', '{', '1', ',', '}']);
    }

    pat = Vec::new();
    to = Vec::new();
    pat.push('*');
    to.push('.');
    to.push('*');
    to.push('?');
    let s12 = rewrite_exec(&s11, &pat, &to);
    proof {
        assert(pat@ =~= seq!['*']);
        assert(to@ =~= seq!['.', '*', '?']);
    }

    pat = dstar;
    pat.push('/');
    let to13 = leading_segments_group_exec();
    let s13 = rewrite_exec(&s12, &pat, &to13);
    proof {
        assert(pat@ =~= double_star_token() + seq!['/']);
    }

    let s14 = expand_leading_slash_exec(&s13);
    let s15 = expand_trailing_slash_exec(&s14);

    let mut out: Vec<char> = Vec::new();
    out.push('^');
    push_all(&mut out, &s15);
    out.push('$');
    proof {
        assert(out@ =~= seq!['^'] + s15@ + seq!['$']);
        assert(out@ =~= translate(p@));
    }
    out
}

} // verus!
