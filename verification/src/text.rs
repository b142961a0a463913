//! Character and string helpers shared by the rule set and the collector:
//! ASCII case folding, leading-dot stripping, and file-name extensions.
use vstd::prelude::*;

verus! {

/// The sequence of views of a sequence of strings.
pub open spec fn views_of(v: Seq<String>) -> Seq<Seq<char>> {
    v.map_values(|s: String| s@)
}

/// ASCII case folding for one character: uppercase ASCII letters map to
/// their lowercase form, every other character is unchanged.
pub open spec fn lower_char(c: char) -> char {
    if 'A' <= c && c <= 'Z' {
        ((c as u32) + 32) as char
    } else {
        c
    }
}

/// ASCII case folding for a character sequence.
pub open spec fn lower_seq(s: Seq<char>) -> Seq<char> {
    s.map_values(|c: char| lower_char(c))
}

/// The sequence with its leading `'.'` characters removed.
pub open spec fn strip_dots(s: Seq<char>) -> Seq<char>
    decreases s.len(),
{
    if s.len() > 0 && s[0] == '.' {
        strip_dots(s.skip(1))
    } else {
        s
    }
}

/// The index of the last `'.'` in `s`, or `-1` if there is none.
pub open spec fn last_dot(s: Seq<char>) -> int
    decreases s.len(),
{
    if s.len() == 0 {
        -1
    } else if s[s.len() - 1] == '.' {
        s.len() - 1
    } else {
        last_dot(s.drop_last())
    }
}

/// The extension of a file basename: the part after the last `'.'`,
/// absent when the name holds no `'.'` or only a leading one
/// (a hidden file such as `.gitignore` has no extension).
pub open spec fn ext_of(name: Seq<char>) -> Option<Seq<char>> {
    if last_dot(name) >= 1 {
        Some(name.skip(last_dot(name) + 1))
    } else {
        None
    }
}

/// An allowlist entry normalized for comparison: leading dots stripped,
/// then folded to lowercase.
pub open spec fn norm_entry(e: Seq<char>) -> Seq<char> {
    lower_seq(strip_dots(e))
}

/// Relies on `String::push`: appends exactly the given character.
#[verifier::external_body]
fn push_char(s: &mut String, c: char)
    ensures
        final(s)@ == old(s)@.push(c),
{
    s.push(c)
}

/// Builds the ASCII-lowercase form of a string.
pub fn to_lower(s: &str) -> (r: String)
    ensures
        r@ == lower_seq(s@),
{
    let n: usize = s.unicode_len();
    let mut out: String = String::new();
    let mut i: usize = 0;
    while i < n
        invariant
            n == s@.len(),
            i <= n,
            out@ =~= lower_seq(s@.take(i as int)),
        decreases n - i,
    {
        let c: char = s.get_char(i);
        let lc: char;
        if 'A' <= c && c <= 'Z' {
            let u: u32 = c as u32;
            let b: u8 = (u + 32) as u8;
            lc = b as char;
        } else {
            lc = c;
        }
        proof {
            assert(lc == lower_char(c));
            assert(s@.take(i + 1) =~= s@.take(i as int).push(c));
            assert(lower_seq(s@.take(i + 1)) =~= lower_seq(s@.take(i as int)).push(lower_char(c)));
        }
        push_char(&mut out, lc);
        i += 1;
    }
    proof {
        assert(s@.take(n as int) =~= s@);
    }
    out
}

pub proof fn lemma_last_dot_none(s: Seq<char>)
    requires
        forall|k: int| 0 <= k < s.len() ==> s[k] != '.',
    ensures
        last_dot(s) == -1,
    decreases s.len(),
{
    if s.len() > 0 {
        lemma_last_dot_none(s.drop_last());
    }
}

pub proof fn lemma_last_dot_at(s: Seq<char>, d: int)
    requires
        0 <= d < s.len(),
        s[d] == '.',
        forall|k: int| d < k < s.len() ==> s[k] != '.',
    ensures
        last_dot(s) == d,
    decreases s.len(),
{
    if d < s.len() - 1 {
        lemma_last_dot_at(s.drop_last(), d);
    }
}

pub proof fn lemma_strip_dots_at(s: Seq<char>, d: int)
    requires
        0 <= d <= s.len(),
        forall|k: int| 0 <= k < d ==> s[k] == '.',
        d < s.len() ==> s[d] != '.',
    ensures
        strip_dots(s) == s.skip(d),
    decreases d,
{
    if d == 0 {
        assert(s.skip(0) =~= s);
    } else {
        assert(s[0] == '.');
        lemma_strip_dots_at(s.skip(1), d - 1);
        assert(s.skip(1).skip(d - 1) =~= s.skip(d));
    }
}

/// The file-name extension, if the basename has one: the part after the
/// last `'.'`, absent for dotless names and for hidden files whose only
/// `'.'` is the leading one.
pub fn extension_of(name: &str) -> (r: Option<String>)
    ensures
        (match r {
            Some(e) => ext_of(name@) == Some(e@),
            None => ext_of(name@) is None,
        }),
{
    let n: usize = name.unicode_len();
    let mut j: usize = n;
    loop
        invariant
            n == name@.len(),
            j <= n,
            forall|k: int| j <= k < n ==> name@[k] != '.',
        ensures
            j <= n,
            forall|k: int| j <= k < n ==> name@[k] != '.',
            j > 0 ==> name@[j - 1] == '.',
        decreases j,
    {
        if j == 0 {
            break;
        }
        if name.get_char(j - 1) == '.' {
            break;
        }
        j -= 1;
    }
    if j <= 1 {
        // no dot at all, or only a leading one
        proof {
            if j == 0 {
                lemma_last_dot_none(name@);
            } else {
                lemma_last_dot_at(name@, 0);
            }
        }
        return None;
    }
    proof {
        lemma_last_dot_at(name@, j - 1);
    }
    let ext: &str = name.substring_char(j, n);
    proof {
        assert(name@.skip(last_dot(name@) + 1) =~= name@.subrange(j as int, n as int));
    }
    Some(ext.to_owned())
}

/// The string with its leading `'.'` characters removed.
pub fn strip_dots_front(s: &str) -> (r: &str)
    ensures
        r@ == strip_dots(s@),
{
    let n: usize = s.unicode_len();
    let mut d: usize = 0;
    loop
        invariant
            n == s@.len(),
            d <= n,
            forall|k: int| 0 <= k < d ==> s@[k] == '.',
        ensures
            d <= n,
            forall|k: int| 0 <= k < d ==> s@[k] == '.',
            d < n ==> s@[d as int] != '.',
        decreases n - d,
    {
        if d >= n {
            break;
        }
        if s.get_char(d) != '.' {
            break;
        }
        d += 1;
    }
    proof {
        lemma_strip_dots_at(s@, d as int);
    }
    let r: &str = s.substring_char(d, n);
    proof {
        assert(s@.subrange(d as int, n as int) =~= s@.skip(d as int));
    }
    r
}

/// Whether two strings hold the same characters.
pub fn str_eq(a: &str, b: &str) -> (r: bool)
    ensures
        r == (a@ == b@),
{
    let la: usize = a.unicode_len();
    let lb: usize = b.unicode_len();
    if la != lb {
        proof {
            assert(a@.len() != b@.len());
        }
        return false;
    }
    let mut i: usize = 0;
    while i < la
        invariant
            la == a@.len(),
            lb == b@.len(),
            la == lb,
            i <= la,
            forall|j: int| 0 <= j < i ==> a@[j] == b@[j],
        decreases la - i,
    {
        if a.get_char(i) != b.get_char(i) {
            proof {
                assert(a@[i as int] != b@[i as int]);
            }
            return false;
        }
        i += 1;
    }
    proof {
        assert(a@ =~= b@);
    }
    true
}

/// Whether two strings are equal under ASCII case folding.
pub fn eq_lower(a: &str, b: &str) -> (r: bool)
    ensures
        r == (lower_seq(a@) == lower_seq(b@)),
{
    let la: usize = a.unicode_len();
    let lb: usize = b.unicode_len();
    if la != lb {
        proof {
            assert(lower_seq(a@).len() != lower_seq(b@).len());
        }
        return false;
    }
    let mut i: usize = 0;
    while i < la
        invariant
            la == a@.len(),
            lb == b@.len(),
            la == lb,
            i <= la,
            forall|j: int| 0 <= j < i ==> lower_char(a@[j]) == lower_char(b@[j]),
        decreases la - i,
    {
        let ca: char = a.get_char(i);
        let cb: char = b.get_char(i);
        let mut ua: u32 = ca as u32;
        let mut ub: u32 = cb as u32;
        if 65 <= ua && ua <= 90 {
            ua = ua + 32;
        }
        if 65 <= ub && ub <= 90 {
            ub = ub + 32;
        }
        if ua != ub {
            proof {
                assert(lower_char(a@[i as int]) != lower_char(b@[i as int]));
                assert(lower_seq(a@)[i as int] != lower_seq(b@)[i as int]);
            }
            return false;
        }
        proof {
            assert(lower_char(a@[i as int]) == lower_char(b@[i as int]));
        }
        i += 1;
    }
    proof {
        assert forall|j: int| 0 <= j < la implies lower_seq(a@)[j] == lower_seq(b@)[j] by {
            assert(lower_char(a@[j]) == lower_char(b@[j]));
        }
        assert(lower_seq(a@) =~= lower_seq(b@));
    }
    true
}

} // verus!
