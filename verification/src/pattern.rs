use crate::error::{ErrorView, PricingError};
use crate::text::{push_char, same_text};
use regex::Regex;
use vstd::prelude::*;
use vstd::string::StringExecFns;

verus! {

/// `regex::Regex`, a compiled expression. Nothing inside it is visible to
/// the proofs.
#[verifier::external_type_specification]
#[verifier::external_body]
pub struct ExRegex(Regex);

/// `regex::Error`, what `Regex::new` returns for an expression it refuses.
#[verifier::external_type_specification]
#[verifier::external_body]
pub struct ExRegexError(regex::Error);

/// The expression text that a compiled `Regex` was built from, which
/// `Regex::as_str` gives back.
pub uninterp spec fn regex_source(regex: Regex) -> Seq<char>;

/// Whether `Regex::new` compiles the expression text `source`.
pub uninterp spec fn regex_compiles(source: Seq<char>) -> bool;

/// Whether the expression compiled from `source` has a match anywhere in
/// `haystack`, as `Regex::is_match` tells.
pub uninterp spec fn regex_matches(source: Seq<char>, haystack: Seq<char>) -> bool;

/// `regex::Regex::new`. Whether compilation succeeds depends on the
/// expression text alone, and the compiled value remembers that text.
#[verifier::external_body]
fn compile_regex(source: &str) -> (r: Result<Regex, regex::Error>)
    ensures
        r is Ok <==> regex_compiles(source@),
        r matches Ok(regex) ==> regex_source(regex) == source@,
{
    Regex::new(source)
}

/// `regex::Regex::is_match`. For a value built by `Regex::new`, the answer
/// depends only on the expression text and on the haystack.
#[verifier::external_body]
fn regex_is_match(regex: &Regex, haystack: &str) -> (b: bool)
    ensures
        b == regex_matches(regex_source(*regex), haystack@),
{
    regex.is_match(haystack)
}

/// What one character of a path pattern stands for in the expression: a
/// `*` is one non-empty run of characters other than `/`.
pub open spec fn piece(c: char) -> Seq<char> {
    if c == '*' {
        seq!['[', '^', '/', ']', '+']
    } else {
        seq![c]
    }
}

/// The pattern with every `*` replaced by its expression.
pub open spec fn expanded(pattern: Seq<char>) -> Seq<char>
    decreases pattern.len(),
{
    if pattern.len() == 0 {
        Seq::empty()
    } else {
        expanded(pattern.drop_last()) + piece(pattern.last())
    }
}

/// The expression a path pattern is compiled from: the expanded pattern,
/// anchored at both ends so that it must cover the whole path.
pub open spec fn anchored_source(pattern: Seq<char>) -> Seq<char> {
    seq!['^'] + expanded(pattern) + seq!['$']
}

/// Whether a path pattern can be compiled into a matcher.
pub open spec fn pattern_compiles(pattern: Seq<char>) -> bool {
    regex_compiles(anchored_source(pattern))
}

/// Whether the whole of `path` matches the path pattern.
pub open spec fn pattern_matches(pattern: Seq<char>, path: Seq<char>) -> bool {
    regex_matches(anchored_source(pattern), path)
}

/// What a cache holds after it was asked for `pattern`: what it held
/// before, and the pattern behind it where it is new and compiles.
pub open spec fn cached_after(before: Seq<Seq<char>>, pattern: Seq<char>) -> Seq<Seq<char>> {
    if before.contains(pattern) || !pattern_compiles(pattern) {
        before
    } else {
        before.push(pattern)
    }
}

/// Builds the anchored expression of a path pattern.
pub fn anchored(pattern: &str) -> (r: String)
    ensures
        r@ == anchored_source(pattern@),
{
    let mut s = String::from_str("^");
    proof {
        reveal_strlit("^");
        assert(s@ =~= seq!['^'] + expanded(pattern@.take(0)));
    }
    for c in it: pattern.chars()
        invariant
            it.seq() == pattern@,
            s@ == seq!['^'] + expanded(pattern@.take(it.index())),
    {
        if c == '*' {
            s.append("[^/]+");
            proof {
                reveal_strlit("[^/]+");
                assert("[^/]+"@ =~= piece(c));
            }
        } else {
            push_char(&mut s, c);
        }
        proof {
            let next = pattern@.take(it.index() + 1);
            assert(next.drop_last() =~= pattern@.take(it.index()));
            assert(next.last() == c);
            assert(s@ =~= seq!['^'] + expanded(next));
        }
    }
    push_char(&mut s, '$');
    proof {
        assert(pattern@.take(pattern@.len() as int) =~= pattern@);
        assert(s@ =~= anchored_source(pattern@));
    }
    s
}

/// Whether the text holds a `*`.
pub fn has_wildcard(text: &str) -> (r: bool)
    ensures
        r == text@.contains('*'),
{
    let mut found = false;
    for c in it: text.chars()
        invariant
            it.seq() == text@,
            found <==> exists|j: int| 0 <= j < it.index() && text@[j] == '*',
    {
        if c == '*' {
            found = true;
        }
    }
    found
}

/// A path pattern compiled into its anchored matcher.
pub struct Matcher {
    pattern: String,
    regex: Regex,
}

impl Matcher {
    #[verifier::type_invariant]
    spec fn compiled_from_pattern(&self) -> bool {
        &&& regex_source(self.regex) == anchored_source(self.pattern@)
        &&& pattern_compiles(self.pattern@)
    }

    /// The path pattern this matcher was compiled from.
    pub closed spec fn pattern(&self) -> Seq<char> {
        self.pattern@
    }

    /// Compiles a path pattern. It fails exactly on the patterns whose
    /// anchored expression the expression compiler refuses.
    pub fn compile(pattern: &str) -> (r: Result<Matcher, PricingError>)
        ensures
            r is Ok <==> pattern_compiles(pattern@),
            r matches Ok(m) ==> m.pattern() == pattern@,
            r matches Err(e) ==> e@ == (ErrorView::UnparsablePattern { pattern: pattern@ }),
    {
        let source = anchored(pattern);
        match compile_regex(source.as_str()) {
            Ok(regex) => Ok(Matcher { pattern: String::from_str(pattern), regex }),
            Err(_) => Err(PricingError::UnparsablePattern { pattern: String::from_str(pattern) }),
        }
    }

    /// The pattern text, as a string slice.
    pub fn pattern_text(&self) -> (r: &str)
        ensures
            r@ == self.pattern(),
    {
        self.pattern.as_str()
    }

    /// Whether the whole of `path` matches the pattern.
    pub fn matches(&self, path: &str) -> (b: bool)
        ensures
            b == pattern_matches(self.pattern(), path@),
    {
        proof {
            use_type_invariant(self);
        }
        regex_is_match(&self.regex, path)
    }
}

/// The matchers compiled so far, one for each pattern that was asked for.
/// The cache only grows.
pub struct PatternCache {
    entries: Vec<Matcher>,
}

impl PatternCache {
    /// The cached patterns, in the order in which they were first asked for.
    pub closed spec fn patterns(&self) -> Seq<Seq<char>> {
        Seq::new(self.entries@.len(), |i: int| self.entries@[i].pattern())
    }

    pub fn new() -> (r: PatternCache)
        ensures
            r.patterns() == Seq::<Seq<char>>::empty(),
    {
        let r = PatternCache { entries: Vec::new() };
        assert(r.patterns() =~= Seq::<Seq<char>>::empty());
        r
    }

    /// The number of cached matchers.
    pub fn len(&self) -> (n: usize)
        ensures
            n == self.patterns().len(),
    {
        self.entries.len()
    }

    /// The slot that holds the matcher of `pattern`, if it is cached.
    fn find(&self, pattern: &str) -> (r: Option<usize>)
        ensures
            r is Some <==> self.patterns().contains(pattern@),
            r matches Some(i) ==> i < self.patterns().len() && self.patterns()[i as int]
                == pattern@,
    {
        let mut i: usize = 0;
        while i < self.entries.len()
            invariant
                0 <= i <= self.entries.len(),
                forall|j: int| 0 <= j < i ==> self.patterns()[j] != pattern@,
            decreases self.entries.len() - i,
        {
            if same_text(self.entries[i].pattern_text(), pattern) {
                assert(self.patterns()[i as int] == pattern@);
                return Some(i);
            }
            i = i + 1;
        }
        None
    }

    /// Fetches the matcher of `pattern` from the cache, compiling and
    /// storing it first where it is not there yet. The answer is the slot
    /// of the matcher. Whether this succeeds depends on the pattern alone,
    /// never on what the cache held; a pattern that is cached is not
    /// compiled again, and a failure leaves the cache as it was.
    pub fn get_regex(&mut self, pattern: &str) -> (r: Result<usize, PricingError>)
        ensures
            r is Ok <==> pattern_compiles(pattern@),
            r matches Ok(slot) ==> slot < final(self).patterns().len(),
            r matches Ok(slot) ==> final(self).patterns()[slot as int] == pattern@,
            r matches Err(e) ==> e@ == (ErrorView::UnparsablePattern { pattern: pattern@ }),
            final(self).patterns() == cached_after(old(self).patterns(), pattern@),
    {
        match self.find(pattern) {
            Some(slot) => {
                let entry = &self.entries[slot];
                proof {
                    use_type_invariant(entry);
                }
                Ok(slot)
            },
            None => match Matcher::compile(pattern) {
                Ok(matcher) => {
                    self.entries.push(matcher);
                    assert(self.patterns() =~= old(self).patterns().push(pattern@));
                    Ok(self.entries.len() - 1)
                },
                Err(e) => Err(e),
            },
        }
    }

    /// Whether `path` matches the pattern of the matcher in `slot`; `None`
    /// where the cache has no such slot.
    pub fn slot_matches(&self, slot: usize, path: &str) -> (r: Option<bool>)
        ensures
            r is Some <==> slot < self.patterns().len(),
            r matches Some(b) ==> b == pattern_matches(self.patterns()[slot as int], path@),
    {
        if slot < self.entries.len() {
            Some(self.entries[slot].matches(path))
        } else {
            None
        }
    }
}

} // verus!
