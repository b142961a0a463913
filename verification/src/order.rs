//! Lexicographic order on character sequences, its algebraic laws, and
//! order-preserving insertion into a sorted vector of strings. The collector
//! uses this order to return its file list and extension lists sorted.
use vstd::prelude::*;
use vstd::relations::{sorted_by, total_ordering};
use vstd::seq_lib::{group_to_multiset_ensures, to_multiset_insert};
use vstd::utf8::char_u32_cast;

use crate::text::views_of;

verus! {

/// Lexicographic order on character sequences, by Unicode scalar value:
/// the order in which the collector's file list is returned.
pub open spec fn chars_le(a: Seq<char>, b: Seq<char>) -> bool
    decreases a.len(),
{
    if a.len() == 0 {
        true
    } else if b.len() == 0 {
        false
    } else if a[0] != b[0] {
        (a[0] as u32) < (b[0] as u32)
    } else {
        chars_le(a.skip(1), b.skip(1))
    }
}

/// The lexicographic order as a relation value, for vstd's ordering lemmas.
pub open spec fn str_le_order() -> spec_fn(Seq<char>, Seq<char>) -> bool {
    |a: Seq<char>, b: Seq<char>| chars_le(a, b)
}

/// Two characters with the same scalar value are the same character.
proof fn lemma_char_inj(x: char, y: char)
    requires
        x as u32 == y as u32,
    ensures
        x == y,
{
    char_u32_cast(x, x as u32);
    char_u32_cast(y, y as u32);
}

pub proof fn lemma_chars_le_refl(a: Seq<char>)
    ensures
        chars_le(a, a),
    decreases a.len(),
{
    if a.len() > 0 {
        lemma_chars_le_refl(a.skip(1));
    }
}

pub proof fn lemma_chars_le_antisym(a: Seq<char>, b: Seq<char>)
    requires
        chars_le(a, b),
        chars_le(b, a),
    ensures
        a == b,
    decreases a.len(),
{
    if a.len() == 0 {
        assert(b.len() == 0);
        assert(a =~= b);
    } else {
        assert(b.len() > 0);
        if a[0] != b[0] {
            assert((a[0] as u32) < (b[0] as u32) && (b[0] as u32) < (a[0] as u32));
            assert(false);
        } else {
            lemma_chars_le_antisym(a.skip(1), b.skip(1));
            assert(a.len() == b.len());
            assert forall|i: int| 0 <= i < a.len() implies a[i] == b[i] by {
                if i > 0 {
                    assert(a.skip(1)[i - 1] == b.skip(1)[i - 1]);
                }
            }
            assert(a =~= b);
        }
    }
}

pub proof fn lemma_chars_le_connected(a: Seq<char>, b: Seq<char>)
    ensures
        chars_le(a, b) || chars_le(b, a),
    decreases a.len(),
{
    if a.len() > 0 && b.len() > 0 {
        if a[0] == b[0] {
            lemma_chars_le_connected(a.skip(1), b.skip(1));
        } else if (a[0] as u32) == (b[0] as u32) {
            lemma_char_inj(a[0], b[0]);
        }
    }
}

pub proof fn lemma_chars_le_trans(a: Seq<char>, b: Seq<char>, c: Seq<char>)
    requires
        chars_le(a, b),
        chars_le(b, c),
    ensures
        chars_le(a, c),
    decreases a.len(),
{
    if a.len() > 0 {
        assert(b.len() > 0);
        assert(c.len() > 0);
        if a[0] == b[0] && b[0] == c[0] {
            lemma_chars_le_trans(a.skip(1), b.skip(1), c.skip(1));
        } else if a[0] != c[0] && (a[0] as u32) == (c[0] as u32) {
            lemma_char_inj(a[0], c[0]);
        }
    }
}

/// The lexicographic order is a total ordering.
pub proof fn lemma_str_le_total_ordering()
    ensures
        total_ordering(str_le_order()),
{
    let le = str_le_order();
    assert forall|x: Seq<char>| #[trigger] le(x, x) by {
        lemma_chars_le_refl(x);
    }
    assert forall|x: Seq<char>, y: Seq<char>| #[trigger] le(x, y) && #[trigger] le(y, x)
        implies x == y by {
        lemma_chars_le_antisym(x, y);
    }
    assert forall|x: Seq<char>, y: Seq<char>, z: Seq<char>|
        #[trigger] le(x, y) && #[trigger] le(y, z) implies le(x, z) by {
        lemma_chars_le_trans(x, y, z);
    }
    assert forall|x: Seq<char>, y: Seq<char>| #[trigger] le(x, y) || #[trigger] le(y, x) by {
        lemma_chars_le_connected(x, y);
    }
}

/// Decides the lexicographic order on two strings.
pub fn str_le(a: &str, b: &str) -> (r: bool)
    ensures
        r == chars_le(a@, b@),
{
    let la: usize = a.unicode_len();
    let lb: usize = b.unicode_len();
    let mut i: usize = 0;
    proof {
        assert(a@.skip(0) =~= a@);
        assert(b@.skip(0) =~= b@);
    }
    loop
        invariant
            la == a@.len(),
            lb == b@.len(),
            i <= la,
            i <= lb,
            chars_le(a@, b@) == chars_le(a@.skip(i as int), b@.skip(i as int)),
        decreases la - i,
    {
        if i >= la {
            proof {
                assert(a@.skip(i as int).len() == 0);
            }
            return true;
        }
        if i >= lb {
            proof {
                assert(b@.skip(i as int).len() == 0);
                assert(a@.skip(i as int).len() > 0);
            }
            return false;
        }
        let ca: char = a.get_char(i);
        let cb: char = b.get_char(i);
        let ua: u32 = ca as u32;
        let ub: u32 = cb as u32;
        proof {
            assert(a@.skip(i as int)[0] == a@[i as int]);
            assert(b@.skip(i as int)[0] == b@[i as int]);
        }
        if ua < ub {
            proof {
                assert(ca != cb);
            }
            return true;
        }
        if ua > ub {
            proof {
                assert(ca != cb);
            }
            return false;
        }
        proof {
            lemma_char_inj(ca, cb);
            assert(a@.skip(i as int).skip(1) =~= a@.skip(i + 1));
            assert(b@.skip(i as int).skip(1) =~= b@.skip(i + 1));
        }
        i += 1;
    }
}

/// Inserts a string into a vector kept in lexicographic order, preserving
/// the order and adding exactly the new element to the contents.
pub fn insert_sorted(v: &mut Vec<String>, s: String)
    requires
        sorted_by(views_of(old(v)@), str_le_order()),
    ensures
        sorted_by(views_of(final(v)@), str_le_order()),
        views_of(final(v)@).to_multiset() == views_of(old(v)@).to_multiset().insert(s@),
        views_of(final(v)@).to_set() == views_of(old(v)@).to_set().insert(s@),
        final(v)@.len() == old(v)@.len() + 1,
        views_of(old(v)@).no_duplicates() && !views_of(old(v)@).contains(s@)
            ==> views_of(final(v)@).no_duplicates(),
{
    let ghost le = str_le_order();
    let n: usize = v.len();
    let mut p: usize = 0;
    loop
        invariant
            n == v@.len(),
            p <= n,
            v@ == old(v)@,
            forall|j: int| 0 <= j < p ==> chars_le(views_of(v@)[j], s@),
        ensures
            p <= n,
            v@ == old(v)@,
            forall|j: int| 0 <= j < p ==> chars_le(views_of(v@)[j], s@),
            p < n ==> chars_le(s@, views_of(v@)[p as int]),
        decreases n - p,
    {
        if p >= n {
            break;
        }
        if str_le(s.as_str(), v[p].as_str()) {
            proof {
                assert(views_of(v@)[p as int] == v@[p as int]@);
            }
            break;
        }
        proof {
            lemma_chars_le_connected(s@, v@[p as int]@);
            assert(views_of(v@)[p as int] == v@[p as int]@);
        }
        p += 1;
    }
    let ghost pre = v@;
    v.insert(p, s);
    proof {
        let vs = views_of(v@);
        let ovs = views_of(pre);
        assert(v@ == pre.insert(p as int, s));
        pre.insert_ensures(p as int, s);
        ovs.insert_ensures(p as int, s@);
        assert(vs =~= ovs.insert(p as int, s@));
        // order: everything before the insertion point is below `s`,
        // everything after is above it, and old pairs keep their order
        assert forall|i: int, j: int| 0 <= i < j < vs.len() implies le(vs[i], vs[j]) by {
            ovs.insert_ensures(p as int, s@);
            if i == p {
                if j - 1 > p {
                    assert(le(ovs[p as int], ovs[j - 1]));
                    lemma_chars_le_trans(s@, ovs[p as int], ovs[j - 1]);
                }
            } else if j == p {
                // i < p: below the insertion point
            } else if i < p && j > p {
                assert(chars_le(ovs[i], s@));
                assert(chars_le(s@, ovs[p as int]));
                if j - 1 > p {
                    assert(le(ovs[p as int], ovs[j - 1]));
                    lemma_chars_le_trans(s@, ovs[p as int], ovs[j - 1]);
                }
                lemma_chars_le_trans(ovs[i], s@, ovs[j - 1]);
            } else {
                let i0 = if i < p { i } else { i - 1 };
                let j0 = if j < p { j } else { j - 1 };
                assert(le(ovs[i0], ovs[j0]));
            }
        }
        to_multiset_insert(ovs, p as int, s@);
        assert(vs.to_set() =~= ovs.to_set().insert(s@)) by {
            assert forall|x: Seq<char>| vs.to_set().contains(x)
                implies ovs.to_set().insert(s@).contains(x) by {
                let k = choose|k: int| 0 <= k < vs.len() && vs[k] == x;
                if k != p {
                    let k0 = if k < p { k } else { k - 1 };
                    assert(ovs[k0] == x);
                    assert(ovs.to_set().contains(x));
                }
            }
            assert forall|x: Seq<char>| ovs.to_set().insert(s@).contains(x)
                implies vs.to_set().contains(x) by {
                if x == s@ {
                    assert(vs[p as int] == x);
                } else {
                    let k = choose|k: int| 0 <= k < ovs.len() && ovs[k] == x;
                    let k1 = if k < p { k } else { k + 1 };
                    assert(vs[k1] == x);
                }
            }
        }
        if ovs.no_duplicates() && !ovs.contains(s@) {
            assert forall|i: int, j: int|
                0 <= i < vs.len() && 0 <= j < vs.len() && i != j implies vs[i] != vs[j] by {
                ovs.insert_ensures(p as int, s@);
                if i == p {
                    if vs[i] == vs[j] {
                        let j0 = if j < p { j } else { j - 1 };
                        assert(ovs[j0] == s@);
                        assert(ovs.contains(s@));
                    }
                } else if j == p {
                    if vs[i] == vs[j] {
                        let i0 = if i < p { i } else { i - 1 };
                        assert(ovs[i0] == s@);
                        assert(ovs.contains(s@));
                    }
                } else {
                    let i0 = if i < p { i } else { i - 1 };
                    let j0 = if j < p { j } else { j - 1 };
                    assert(vs[i] == ovs[i0] && vs[j] == ovs[j0]);
                }
            }
            assert(vs.no_duplicates());
        }
    }
}

} // verus!
