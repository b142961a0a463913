//! Glob-based exclusion: a file basename is excluded when any pattern of the
//! rule set's exclusion list matches it. The pattern syntax and the matching
//! itself come from the globset crate; what they decide is named here and
//! everything around the call is verified against those names.
use vstd::prelude::*;

use crate::text::views_of;

verus! {

/// The longest exclusion pattern handed to globset. Translating a glob to a
/// regex recurses once per nested brace alternate, so the bound keeps that
/// recursion shallow; patterns beyond it exclude nothing.
pub const MAX_PATTERN_LEN: usize = 1024;

/// Whether globset's `Glob::new` accepts the pattern as glob syntax.
pub uninterp spec fn glob_parses(pattern: Seq<char>) -> bool;

/// Whether globset compiles the parsed pattern into a matcher
/// (`GlobSetBuilder::build` succeeds on it).
pub uninterp spec fn glob_compiles(pattern: Seq<char>) -> bool;

/// Whether the glob pattern matches the candidate name.
pub uninterp spec fn glob_matches(pattern: Seq<char>, name: Seq<char>) -> bool;

/// Relies on globset's `Glob::new` (parse success is a function of the
/// pattern alone), `GlobSetBuilder::build` (compilation success is a
/// function of the pattern alone, and failure — for instance the crate's
/// internal regex size limit — is reported as an error, not a panic) and
/// `GlobSet::is_match` (the match is a function of pattern and candidate
/// alone). The length bound keeps the brace-alternate recursion inside
/// `Glob::new`'s regex translation shallow.
#[verifier::external_body]
fn glob_match_one(pattern: &str, name: &str) -> (r: Option<bool>)
    requires
        pattern@.len() <= MAX_PATTERN_LEN,
    ensures
        r is Some <==> (glob_parses(pattern@) && glob_compiles(pattern@)),
        (r matches Some(m) ==> m == glob_matches(pattern@, name@)),
{
    match globset::Glob::new(pattern) {
        Err(_) => None,
        Ok(g) => {
            let mut builder = globset::GlobSetBuilder::new();
            builder.add(g);
            match builder.build() {
                Ok(set) => Some(set.is_match(name)),
                Err(_) => None,
            }
        },
    }
}

/// A pattern takes part in exclusion when it is within the length bound,
/// is valid glob syntax, and compiles to a matcher. Any other pattern
/// excludes nothing, as in the original behaviour, where a pattern that
/// fails to parse or to compile never rejects a file.
pub open spec fn pattern_usable(pattern: Seq<char>) -> bool {
    &&& pattern.len() <= MAX_PATTERN_LEN
    &&& glob_parses(pattern)
    &&& glob_compiles(pattern)
}

/// A name is excluded when some usable pattern in the list matches it.
pub open spec fn excluded_by(patterns: Seq<Seq<char>>, name: Seq<char>) -> bool {
    exists|i: int|
        0 <= i < patterns.len() && pattern_usable(#[trigger] patterns[i]) && glob_matches(
            patterns[i],
            name,
        )
}

/// Whether any exclusion pattern of the list matches the file basename.
pub fn matches_exclude(patterns: &Vec<String>, name: &str) -> (r: bool)
    ensures
        r == excluded_by(views_of(patterns@), name@),
{
    let ghost pats = views_of(patterns@);
    let n: usize = patterns.len();
    let mut i: usize = 0;
    while i < n
        invariant
            n == patterns@.len(),
            i <= n,
            pats == views_of(patterns@),
            forall|j: int|
                0 <= j < i ==> !(pattern_usable(#[trigger] pats[j]) && glob_matches(
                    pats[j],
                    name@,
                )),
        decreases n - i,
    {
        proof {
            assert(pats[i as int] == patterns@[i as int]@);
        }
        let p: &str = patterns[i].as_str();
        if p.unicode_len() <= MAX_PATTERN_LEN {
            let m: Option<bool> = glob_match_one(p, name);
            match m {
                Some(true) => {
                    proof {
                        assert(pattern_usable(pats[i as int]) && glob_matches(
                            pats[i as int],
                            name@,
                        ));
                    }
                    return true;
                },
                Some(false) => {},
                None => {},
            }
        }
        i += 1;
    }
    false
}

} // verus!
