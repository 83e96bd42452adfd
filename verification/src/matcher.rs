//! Compiled ignore patterns and the set that is asked whether a candidate
//! path should be skipped. A `Matcher` is one glob-style pattern together
//! with the regular expression compiled from it; a `MatcherSet` answers
//! for a whole ordered collection of them, with OR semantics.

use vstd::prelude::*;

use crate::compile::translate;
use crate::compile::translate_exec;
use crate::engine::re_match;
use crate::engine::re_source;
use crate::engine::re_valid;
use crate::engine::regex_is_match;
use crate::engine::regex_new;
use crate::paths::basename;
use crate::paths::basename_exec;
use crate::text::chars_eq;
use crate::text::chars_to_string;
use crate::text::str_to_chars;

verus! {

/// What one pattern decides for one candidate: either the raw pattern
/// equals the candidate's basename (the literal fast path), or the
/// expression compiled from the pattern matches the whole candidate.
pub open spec fn pattern_matches(raw: Seq<char>, target: Seq<char>) -> bool {
    raw == basename(target) || re_match(translate(raw), target)
}

/// What a collection of patterns decides: any member matching suffices.
pub open spec fn set_matches(patterns: Seq<Seq<char>>, target: Seq<char>) -> bool {
    exists|i: int| 0 <= i < patterns.len() && pattern_matches(patterns[i], target)
}

/// The pattern whose translation the regex engine refused. Reported to
/// the caller, who decides whether the run aborts.
pub struct InvalidPatternError {
    pub pattern: String,
}

/// One compiled ignore pattern: the original string, kept for the
/// literal-basename fast path, and the expression compiled from its
/// translation.
pub struct Matcher {
    raw_pattern: String,
    pattern: regex::Regex,
}

impl Matcher {
    /// The pattern string this matcher was built from.
    pub closed spec fn raw(&self) -> Seq<char> {
        self.raw_pattern@
    }

    #[verifier::type_invariant]
    spec fn wf(&self) -> bool {
        &&& re_valid(translate(self.raw_pattern@))
        &&& re_source(self.pattern) == translate(self.raw_pattern@)
    }

    /// Compile `pattern`. The translation of every pattern this is called
    /// on must be an expression the engine accepts; `try_new` is the
    /// entry that checks instead of demanding.
    pub fn new(pattern: &str) -> (r: Matcher)
        requires
            re_valid(translate(pattern@)),
        ensures
            r.raw() == pattern@,
    {
        let chars = str_to_chars(pattern);
        let translated = translate_exec(&chars);
        let src = chars_to_string(&translated);
        match regex_new(src.as_str()) {
            Some(re) => Matcher { raw_pattern: pattern.to_owned(), pattern: re },
            None => vstd::pervasive::unreached(),
        }
    }

    /// Compile `pattern`, reporting a translation the engine refuses
    /// instead of demanding anything of the caller.
    pub fn try_new(pattern: &str) -> (r: Result<Matcher, InvalidPatternError>)
        ensures
            r is Ok <==> re_valid(translate(pattern@)),
            r matches Ok(m) ==> m.raw() == pattern@,
            r matches Err(e) ==> e.pattern@ == pattern@,
    {
        let chars = str_to_chars(pattern);
        let translated = translate_exec(&chars);
        let src = chars_to_string(&translated);
        match regex_new(src.as_str()) {
            Some(_) => Ok(Matcher::new(pattern)),
            None => Err(InvalidPatternError { pattern: pattern.to_owned() }),
        }
    }

    /// Does this pattern match the candidate path? True when the raw
    /// pattern equals the candidate's basename, or when the compiled
    /// expression matches the whole candidate.
    pub fn matches(&self, target: &str) -> (r: bool)
        ensures
            r == pattern_matches(self.raw(), target@),
    {
        proof {
            use_type_invariant(self);
        }
        let target_chars = str_to_chars(target);
        let base = basename_exec(&target_chars);
        let raw_chars = str_to_chars(self.raw_pattern.as_str());
        if chars_eq(&raw_chars, &base) {
            true
        } else {
            regex_is_match(&self.pattern, target)
        }
    }

    /// The original pattern string.
    pub fn raw_pattern(&self) -> (r: &String)
        ensures
            r@ == self.raw(),
    {
        &self.raw_pattern
    }
}

/// An ordered collection of compiled patterns, asked whether any of them
/// matches a candidate path.
pub struct MatcherSet {
    matchers: Vec<Matcher>,
}

impl View for MatcherSet {
    type V = Seq<Seq<char>>;

    /// The raw pattern strings the set holds, in insertion order.
    closed spec fn view(&self) -> Seq<Seq<char>> {
        self.matchers@.map_values(|m: Matcher| m.raw())
    }
}

impl MatcherSet {
    /// The empty set, which matches nothing.
    pub fn new() -> (r: MatcherSet)
        ensures
            r@ == Seq::<Seq<char>>::empty(),
    {
        let r = MatcherSet { matchers: Vec::new() };
        proof {
            assert(r@ =~= Seq::<Seq<char>>::empty());
        }
        r
    }

    /// Compile `pattern` and append it. As with `Matcher::new`, the
    /// translation must be acceptable; `try_add` checks instead.
    pub fn add(&mut self, pattern: &str)
        requires
            re_valid(translate(pattern@)),
        ensures
            final(self)@ == old(self)@.push(pattern@),
    {
        let m = Matcher::new(pattern);
        self.matchers.push(m);
        proof {
            assert(self@ =~= old(self)@.push(pattern@));
        }
    }

    /// Compile `pattern` and append it, or report the invalid pattern
    /// and leave the set as it was.
    pub fn try_add(&mut self, pattern: &str) -> (r: Result<(), InvalidPatternError>)
        ensures
            r is Ok <==> re_valid(translate(pattern@)),
            r is Ok ==> final(self)@ == old(self)@.push(pattern@),
            r is Err ==> final(self)@ == old(self)@,
            r matches Err(e) ==> e.pattern@ == pattern@,
    {
        match Matcher::try_new(pattern) {
            Ok(_) => {
                self.add(pattern);
                Ok(())
            },
            Err(e) => Err(e),
        }
    }

    /// Does any pattern in the set match the candidate? False for the
    /// empty set. The walk stops at the first match.
    pub fn matches(&self, target: &str) -> (r: bool)
        ensures
            r == set_matches(self@, target@),
    {
        let mut i: usize = 0;
        while i < self.matchers.len()
            invariant
                i <= self.matchers@.len(),
                self@ == self.matchers@.map_values(|m: Matcher| m.raw()),
                forall|k: int| 0 <= k < i ==> !pattern_matches(self@[k], target@),
            decreases self.matchers.len() - i,
        {
            if self.matchers[i].matches(target) {
                proof {
                    assert(self@[i as int] == self.matchers@[i as int].raw());
                }
                return true;
            }
            i += 1;
        }
        false
    }

    /// How many patterns the set holds.
    pub fn len(&self) -> (r: usize)
        ensures
            r == self@.len(),
    {
        self.matchers.len()
    }
}

/// A pattern that equals a candidate's basename matches that candidate,
/// whatever else the pattern would mean: the literal fast path needs no
/// wildcard and no knowledge of depth.
pub proof fn lemma_literal_basename_matches(raw: Seq<char>, target: Seq<char>)
    requires
        basename(target) == raw,
    ensures
        pattern_matches(raw, target),
{
}

/// A pattern with no slash matches a candidate bearing its name under
/// any directory whatever, however deep: depth never enters the literal
/// fast path.
pub proof fn lemma_literal_matches_at_any_depth(dir: Seq<char>, name: Seq<char>)
    requires
        name.len() > 0,
        forall|i: int| 0 <= i < name.len() ==> name[i] != '/',
    ensures
        pattern_matches(name, dir + seq!['/'] + name),
        pattern_matches(name, name),
{
    crate::paths::lemma_basename_under_directory(dir, name);
    crate::paths::lemma_basename_no_slash(name);
}

/// A collection's answer is the disjunction of its members' answers,
/// member by member: appending one pattern adds exactly its own OR term.
pub proof fn lemma_set_matches_push(patterns: Seq<Seq<char>>, p: Seq<char>, target: Seq<char>)
    ensures
        set_matches(patterns.push(p), target) == (set_matches(patterns, target)
            || pattern_matches(p, target)),
{
    let grown = patterns.push(p);
    if set_matches(grown, target) {
        let i = choose|i: int| 0 <= i < grown.len() && pattern_matches(grown[i], target);
        if i < patterns.len() {
            assert(grown[i] == patterns[i]);
            assert(set_matches(patterns, target));
        } else {
            assert(grown[i] == p);
        }
    }
    if set_matches(patterns, target) {
        let i = choose|i: int| 0 <= i < patterns.len() && pattern_matches(patterns[i], target);
        assert(grown[i] == patterns[i]);
        assert(set_matches(grown, target));
    }
    if pattern_matches(p, target) {
        assert(grown[patterns.len() as int] == p);
        assert(set_matches(grown, target));
    }
}

/// The empty collection of patterns matches no candidate at all.
pub proof fn lemma_empty_set_matches_nothing(target: Seq<char>)
    ensures
        !set_matches(Seq::empty(), target),
{
}

/// Compilation is deterministic: two matchers built from the same
/// pattern string decide every candidate alike.
pub proof fn lemma_matcher_deterministic(m1: &Matcher, m2: &Matcher, target: Seq<char>)
    requires
        m1.raw() == m2.raw(),
    ensures
        pattern_matches(m1.raw(), target) == pattern_matches(m2.raw(), target),
{
}

/// Insertion order is irrelevant: two collections holding the same
/// patterns, however arranged, decide every candidate alike.
pub proof fn lemma_set_matches_insertion_order(
    a: Seq<Seq<char>>,
    b: Seq<Seq<char>>,
    target: Seq<char>,
)
    requires
        a.to_multiset() == b.to_multiset(),
    ensures
        set_matches(a, target) == set_matches(b, target),
{
    a.to_multiset_ensures();
    b.to_multiset_ensures();
    if set_matches(a, target) {
        let i = choose|i: int| 0 <= i < a.len() && pattern_matches(a[i], target);
        assert(a.contains(a[i]));
        assert(b.to_multiset().count(a[i]) > 0);
        assert(b.contains(a[i]));
        let j = choose|j: int| 0 <= j < b.len() && b[j] == a[i];
        assert(set_matches(b, target));
    }
    if set_matches(b, target) {
        let i = choose|i: int| 0 <= i < b.len() && pattern_matches(b[i], target);
        assert(b.contains(b[i]));
        assert(a.to_multiset().count(b[i]) > 0);
        assert(a.contains(b[i]));
        let j = choose|j: int| 0 <= j < a.len() && a[j] == b[i];
        assert(set_matches(a, target));
    }
}

} // verus!
