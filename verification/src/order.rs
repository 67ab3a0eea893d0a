//! Lexicographic ordering of strings by code point, and sorted, duplicate-free
//! string vectors: the normal form shared by the registry and the site lists.

use vstd::prelude::*;

verus! {

/// The sequence of views of a vector of strings: the mathematical value that
/// contracts in this crate speak of.
pub open spec fn views(v: Seq<String>) -> Seq<Seq<char>> {
    v.map_values(|s: String| s@)
}

/// Lexicographic order on character sequences, by code point; total.
pub open spec fn lex_le(a: Seq<char>, b: Seq<char>) -> bool
    decreases a.len(),
{
    if a.len() == 0 {
        true
    } else if b.len() == 0 {
        false
    } else if a[0] != b[0] {
        (a[0] as u32) < (b[0] as u32)
    } else {
        lex_le(a.skip(1), b.skip(1))
    }
}

/// Strict lexicographic order.
pub open spec fn lex_lt(a: Seq<char>, b: Seq<char>) -> bool {
    lex_le(a, b) && a != b
}

/// Compares two strings lexicographically by code point, starting at
/// character position `i`.
fn str_le_from(a: &str, b: &str, i: usize, a_len: usize, b_len: usize) -> (r: bool)
    requires
        a_len == a@.len(),
        b_len == b@.len(),
        i <= a_len,
        i <= b_len,
    ensures
        r == lex_le(a@.skip(i as int), b@.skip(i as int)),
    decreases a_len - i,
{
    if i == a_len {
        true
    } else if i == b_len {
        false
    } else {
        let ca = a.get_char(i);
        let cb = b.get_char(i);
        if ca != cb {
            (ca as u32) < (cb as u32)
        } else {
            proof {
                assert(a@.skip(i as int).skip(1) =~= a@.skip(i + 1));
                assert(b@.skip(i as int).skip(1) =~= b@.skip(i + 1));
            }
            str_le_from(a, b, i + 1, a_len, b_len)
        }
    }
}

/// Distinct characters have distinct code points, so one is below the other.
proof fn lemma_char_order(c: char, d: char)
    requires
        c != d,
    ensures
        (c as u32) < (d as u32) || (d as u32) < (c as u32),
{
}

/// `lex_le` relates every pair of sequences one way or the other.
pub proof fn lemma_lex_le_total(a: Seq<char>, b: Seq<char>)
    ensures
        lex_le(a, b) || lex_le(b, a),
    decreases a.len(),
{
    if a.len() == 0 {
    } else if b.len() == 0 {
    } else if a[0] == b[0] {
        lemma_lex_le_total(a.skip(1), b.skip(1));
    } else {
        lemma_char_order(a[0], b[0]);
    }
}

/// `lex_le` in both directions only holds between equal sequences.
pub proof fn lemma_lex_le_antisymmetric(a: Seq<char>, b: Seq<char>)
    requires
        lex_le(a, b),
        lex_le(b, a),
    ensures
        a == b,
    decreases a.len(),
{
    if a.len() == 0 {
        assert(b.len() == 0);
        assert(a =~= b);
    } else if b.len() == 0 {
        assert(false);
    } else if a[0] == b[0] {
        lemma_lex_le_antisymmetric(a.skip(1), b.skip(1));
        assert(a == seq![a[0]] + a.skip(1));
        assert(b == seq![b[0]] + b.skip(1));
    } else {
        assert(false);
    }
}

/// `lex_le` is transitive.
pub proof fn lemma_lex_le_transitive(a: Seq<char>, b: Seq<char>, c: Seq<char>)
    requires
        lex_le(a, b),
        lex_le(b, c),
    ensures
        lex_le(a, c),
    decreases a.len(),
{
    if a.len() != 0 && b.len() != 0 && c.len() != 0 && a[0] == b[0] && b[0] == c[0] {
        lemma_lex_le_transitive(a.skip(1), b.skip(1), c.skip(1));
    }
}

/// Strict order in one direction or the other between distinct sequences.
pub proof fn lemma_lex_lt_flip(a: Seq<char>, b: Seq<char>)
    requires
        !lex_lt(a, b),
        a != b,
    ensures
        lex_lt(b, a),
{
    lemma_lex_le_total(a, b);
}

/// `lex_lt` is transitive.
pub proof fn lemma_lex_lt_transitive(a: Seq<char>, b: Seq<char>, c: Seq<char>)
    requires
        lex_lt(a, b),
        lex_lt(b, c),
    ensures
        lex_lt(a, c),
{
    lemma_lex_le_transitive(a, b, c);
    if a == c {
        lemma_lex_le_antisymmetric(a, b);
    }
}

/// Lexicographic comparison of two strings: `r == lex_le(a@, b@)`.
pub fn str_le(a: &str, b: &str) -> (r: bool)
    ensures
        r == lex_le(a@, b@),
{
    let a_len = a.unicode_len();
    let b_len = b.unicode_len();
    proof {
        assert(a@.skip(0) =~= a@);
        assert(b@.skip(0) =~= b@);
    }
    str_le_from(a, b, 0, a_len, b_len)
}

/// Strict lexicographic comparison of two strings.
pub fn str_lt(a: &String, b: &String) -> (r: bool)
    ensures
        r == lex_lt(a@, b@),
{
    let le = str_le(a.as_str(), b.as_str());
    let ge = str_le(b.as_str(), a.as_str());
    proof {
        if le && ge {
            lemma_lex_le_antisymmetric(a@, b@);
        }
        if le && !ge && a@ == b@ {
            assert(false);
        }
    }
    le && !ge
}

/// A vector of strings is in normal form when its views are strictly
/// ascending: sorted, and therefore free of duplicates.
pub open spec fn strictly_sorted(s: Seq<Seq<char>>) -> bool {
    forall|i: int, j: int| 0 <= i < j < s.len() ==> lex_lt(s[i], s[j])
}

/// A strictly sorted sequence lists each value at one position only.
pub proof fn lemma_sorted_position_unique(s: Seq<Seq<char>>, i: int, j: int)
    requires
        strictly_sorted(s),
        0 <= i < s.len(),
        0 <= j < s.len(),
        s[i] == s[j],
    ensures
        i == j,
{
    if i < j {
        assert(lex_lt(s[i], s[j]));
        assert(false);
    } else if j < i {
        assert(lex_lt(s[j], s[i]));
        assert(false);
    }
}

/// Strictly sorted sequences are determined by the set of their values: the
/// normal form of a registry category or a site list is canonical.
pub proof fn lemma_sorted_unique_canonical(a: Seq<Seq<char>>, b: Seq<Seq<char>>)
    requires
        strictly_sorted(a),
        strictly_sorted(b),
        a.to_set() == b.to_set(),
    ensures
        a == b,
    decreases a.len(),
{
    if a.len() == 0 {
        if b.len() > 0 {
            assert(b.to_set().contains(b[0]));
            assert(a.to_set().contains(b[0]));
            assert(false);
        }
        assert(a =~= b);
    } else if b.len() == 0 {
        assert(a.to_set().contains(a[0]));
        assert(b.to_set().contains(a[0]));
        assert(false);
    } else {
        // The heads agree: each is the strict minimum of the shared set.
        assert(a.to_set().contains(a[0]));
        assert(b.to_set().contains(b[0]));
        assert(a.contains(b[0]));
        assert(b.contains(a[0]));
        let i = choose|i: int| 0 <= i < a.len() && a[i] == b[0];
        let j = choose|j: int| 0 <= j < b.len() && b[j] == a[0];
        if i > 0 && j > 0 {
            lemma_lex_lt_transitive(a[0], a[i], b[j]);
            assert(false);
        }
        assert(a[0] == b[0]);
        // The tails cover the shared set without its minimum.
        assert(a.skip(1).to_set() =~= b.skip(1).to_set()) by {
            assert forall|x: Seq<char>| a.skip(1).to_set().contains(x) implies b.skip(
                1,
            ).to_set().contains(x) by {
                let k = choose|k: int| 0 <= k < a.skip(1).len() && a.skip(1)[k] == x;
                assert(a[k + 1] == x);
                assert(a.to_set().contains(x));
                let m = choose|m: int| 0 <= m < b.len() && b[m] == x;
                assert(m != 0) by {
                    if m == 0 {
                        lemma_sorted_position_unique(a, 0, k + 1);
                    }
                }
                assert(b.skip(1)[m - 1] == x);
                assert(b.skip(1).contains(x));
            }
            assert forall|x: Seq<char>| b.skip(1).to_set().contains(x) implies a.skip(
                1,
            ).to_set().contains(x) by {
                let k = choose|k: int| 0 <= k < b.skip(1).len() && b.skip(1)[k] == x;
                assert(b[k + 1] == x);
                assert(b.to_set().contains(x));
                let m = choose|m: int| 0 <= m < a.len() && a[m] == x;
                assert(m != 0) by {
                    if m == 0 {
                        lemma_sorted_position_unique(b, 0, k + 1);
                    }
                }
                assert(a.skip(1)[m - 1] == x);
                assert(a.skip(1).contains(x));
            }
        }
        assert(strictly_sorted(a.skip(1)));
        assert(strictly_sorted(b.skip(1)));
        lemma_sorted_unique_canonical(a.skip(1), b.skip(1));
        assert(a =~= b) by {
            assert(forall|k: int| 1 <= k < a.len() ==> a[k] == a.skip(1)[k - 1]);
        }
    }
}

/// Mapping to views commutes with insertion.
pub proof fn lemma_views_insert(s: Seq<String>, i: int, x: String)
    requires
        0 <= i <= s.len(),
    ensures
        views(s.insert(i, x)) =~= views(s).insert(i, x@),
{
    let lhs = views(s.insert(i, x));
    let rhs = views(s).insert(i, x@);
    assert(lhs.len() == rhs.len());
    assert forall|k: int| 0 <= k < lhs.len() implies lhs[k] == rhs[k] by {
        if k < i {
            assert(s.insert(i, x)[k] == s[k]);
        } else if k == i {
            assert(s.insert(i, x)[k] == x);
        } else {
            assert(s.insert(i, x)[k] == s[k - 1]);
        }
    }
}

/// Mapping to views commutes with removal.
pub proof fn lemma_views_remove(s: Seq<String>, i: int)
    requires
        0 <= i < s.len(),
    ensures
        views(s.remove(i)) =~= views(s).remove(i),
{
    let lhs = views(s.remove(i));
    let rhs = views(s).remove(i);
    assert(lhs.len() == rhs.len());
    assert forall|k: int| 0 <= k < lhs.len() implies lhs[k] == rhs[k] by {
        if k < i {
            assert(s.remove(i)[k] == s[k]);
        } else {
            assert(s.remove(i)[k] == s[k + 1]);
        }
    }
}

/// Inserting into a sequence adds exactly one value to the set of its values.
pub proof fn lemma_insert_to_set(s: Seq<Seq<char>>, i: int, x: Seq<char>)
    requires
        0 <= i <= s.len(),
    ensures
        s.insert(i, x).to_set() =~= s.to_set().insert(x),
{
    let t = s.insert(i, x);
    assert forall|y: Seq<char>| t.to_set().contains(y) implies s.to_set().insert(x).contains(y) by {
        let k = choose|k: int| 0 <= k < t.len() && t[k] == y;
        if k < i {
            assert(s[k] == y);
            assert(s.contains(y));
        } else if k > i {
            assert(s[k - 1] == y);
            assert(s.contains(y));
        }
    }
    assert forall|y: Seq<char>| s.to_set().insert(x).contains(y) implies t.to_set().contains(y) by {
        if y == x {
            assert(t[i] == y);
            assert(t.contains(y));
        } else {
            let k = choose|k: int| 0 <= k < s.len() && s[k] == y;
            if k < i {
                assert(t[k] == y);
            } else {
                assert(t[k + 1] == y);
            }
            assert(t.contains(y));
        }
    }
}

/// Appending a value to a sequence adds it to the set of its values.
pub proof fn lemma_push_to_set(s: Seq<Seq<char>>, x: Seq<char>)
    ensures
        s.push(x).to_set() =~= s.to_set().insert(x),
{
    assert(s.push(x) =~= s.insert(s.len() as int, x));
    lemma_insert_to_set(s, s.len() as int, x);
}

/// Removing the one position holding a value removes exactly that value from
/// the set of a strictly sorted sequence.
pub proof fn lemma_sorted_remove_to_set(s: Seq<Seq<char>>, i: int)
    requires
        strictly_sorted(s),
        0 <= i < s.len(),
    ensures
        s.remove(i).to_set() =~= s.to_set().remove(s[i]),
{
    let t = s.remove(i);
    assert forall|y: Seq<char>| t.to_set().contains(y) implies s.to_set().remove(s[i]).contains(
        y,
    ) by {
        let k = choose|k: int| 0 <= k < t.len() && t[k] == y;
        let p = if k < i {
            k
        } else {
            k + 1
        };
        assert(s[p] == y);
        assert(s.contains(y));
        if y == s[i] {
            lemma_sorted_position_unique(s, p, i);
            assert(false);
        }
    }
    assert forall|y: Seq<char>| s.to_set().remove(s[i]).contains(y) implies t.to_set().contains(
        y,
    ) by {
        let k = choose|k: int| 0 <= k < s.len() && s[k] == y;
        assert(k != i);
        if k < i {
            assert(t[k] == y);
        } else {
            assert(t[k - 1] == y);
        }
        assert(t.contains(y));
    }
}

/// Finds the position of a string among the views of a vector's entries.
pub fn find_string(v: &Vec<String>, value: &String) -> (r: Option<usize>)
    ensures
        match r {
            Some(i) => i < v@.len() && views(v@)[i as int] == value@,
            None => !views(v@).contains(value@),
        },
{
    let mut i: usize = 0;
    while i < v.len()
        invariant
            i <= v@.len(),
            forall|k: int| 0 <= k < i ==> views(v@)[k] != value@,
        decreases v@.len() - i,
    {
        let le = str_le(v[i].as_str(), value.as_str());
        let ge = str_le(value.as_str(), v[i].as_str());
        if le && ge {
            proof {
                lemma_lex_le_antisymmetric(views(v@)[i as int], value@);
            }
            return Some(i);
        }
        proof {
            if views(v@)[i as int] == value@ {
                lemma_lex_le_total(value@, value@);
                assert(false);
            }
        }
        i += 1;
    }
    proof {
        if views(v@).contains(value@) {
            let k = choose|k: int| 0 <= k < views(v@).len() && views(v@)[k] == value@;
            assert(false);
        }
    }
    None
}

/// The first position whose entry is not strictly below `value`.
fn lower_bound(v: &Vec<String>, value: &String) -> (i: usize)
    requires
        strictly_sorted(views(v@)),
    ensures
        i <= v@.len(),
        forall|k: int| 0 <= k < i ==> lex_lt(views(v@)[k], value@),
        i < v@.len() ==> !lex_lt(views(v@)[i as int], value@),
{
    let mut i: usize = 0;
    while i < v.len() && str_lt(&v[i], value)
        invariant
            i <= v@.len(),
            forall|k: int| 0 <= k < i ==> lex_lt(views(v@)[k], value@),
        decreases v@.len() - i,
    {
        i += 1;
    }
    i
}

/// Inserts a string into a vector in normal form, keeping it in normal form;
/// reports whether the value was new. A value that is already present leaves
/// the vector exactly as it was.
pub fn insert_sorted(v: &mut Vec<String>, value: String) -> (inserted: bool)
    requires
        strictly_sorted(views(old(v)@)),
    ensures
        strictly_sorted(views(final(v)@)),
        inserted == !views(old(v)@).contains(value@),
        views(final(v)@).to_set() == views(old(v)@).to_set().insert(value@),
        !inserted ==> final(v)@ == old(v)@,
        inserted ==> views(final(v)@).len() == views(old(v)@).len() + 1,
{
    let ghost s = views(v@);
    let i = lower_bound(v, &value);
    let mut duplicate = false;
    if i < v.len() {
        let le = str_le(v[i].as_str(), value.as_str());
        let ge = str_le(value.as_str(), v[i].as_str());
        if le && ge {
            proof {
                lemma_lex_le_antisymmetric(s[i as int], value@);
            }
            duplicate = true;
        } else {
            proof {
                if s[i as int] == value@ {
                    lemma_lex_le_total(value@, value@);
                    assert(false);
                }
            }
        }
    }
    if duplicate {
        proof {
            assert(s.contains(value@));
            assert(s.to_set().insert(value@) =~= s.to_set());
        }
        false
    } else {
        proof {
            // Everything at or after the insertion point lies strictly above.
            if i < s.len() {
                lemma_lex_lt_flip(s[i as int], value@);
            }
            assert forall|k: int| i <= k < s.len() implies lex_lt(value@, s[k]) by {
                if k > i {
                    lemma_lex_lt_transitive(value@, s[i as int], s[k]);
                }
            }
            assert(forall|k: int| 0 <= k < s.len() ==> s[k] != value@);
            assert(!s.contains(value@));
        }
        v.insert(i, value);
        proof {
            lemma_views_insert(old(v)@, i as int, value);
            let t = s.insert(i as int, value@);
            assert(views(v@) == t);
            assert forall|p: int, q: int| 0 <= p < q < t.len() implies lex_lt(t[p], t[q]) by {
                if q < i {
                } else if p < i && q == i {
                    assert(t[p] == s[p] && t[q] == value@);
                } else if p < i && q > i {
                    assert(t[p] == s[p] && t[q] == s[q - 1]);
                    assert(lex_lt(value@, s[q - 1]));
                    lemma_lex_lt_transitive(s[p], value@, s[q - 1]);
                } else if p == i {
                    assert(t[p] == value@ && t[q] == s[q - 1]);
                } else {
                    assert(t[p] == s[p - 1] && t[q] == s[q - 1]);
                }
            }
            lemma_insert_to_set(s, i as int, value@);
        }
        true
    }
}

/// Removes the entry at a position of a vector in normal form.
pub fn remove_at(v: &mut Vec<String>, i: usize) -> (removed: String)
    requires
        strictly_sorted(views(old(v)@)),
        i < old(v)@.len(),
    ensures
        strictly_sorted(views(final(v)@)),
        views(final(v)@) == views(old(v)@).remove(i as int),
        removed@ == views(old(v)@)[i as int],
        final(v)@.len() + 1 == old(v)@.len(),
{
    let ghost s = views(v@);
    let removed = v.remove(i);
    proof {
        lemma_views_remove(old(v)@, i as int);
        let t = s.remove(i as int);
        assert(views(v@) == t);
        assert forall|p: int, q: int| 0 <= p < q < t.len() implies lex_lt(t[p], t[q]) by {
            if q < i {
            } else if p < i {
                assert(t[p] == s[p] && t[q] == s[q + 1]);
            } else {
                assert(t[p] == s[p + 1] && t[q] == s[q + 1]);
            }
        }
    }
    removed
}

/// Brings a list of strings into normal form: strictly sorted, free of
/// duplicates, with exactly the set of values of the input.
pub fn normalize(input: &Vec<String>) -> (r: Vec<String>)
    ensures
        strictly_sorted(views(r@)),
        views(r@).to_set() == views(input@).to_set(),
{
    let mut out: Vec<String> = Vec::new();
    let mut i: usize = 0;
    proof {
        assert(views(out@).to_set() =~= views(input@.take(0)).to_set());
    }
    while i < input.len()
        invariant
            i <= input@.len(),
            strictly_sorted(views(out@)),
            views(out@).to_set() == views(input@.take(i as int)).to_set(),
        decreases input@.len() - i,
    {
        let ghost before = views(out@);
        insert_sorted(&mut out, input[i].clone());
        proof {
            assert(views(input@.take(i + 1)) =~= views(input@.take(i as int)).push(
                input@[i as int]@,
            ));
            lemma_push_to_set(views(input@.take(i as int)), input@[i as int]@);
        }
        i += 1;
    }
    proof {
        assert(input@.take(input@.len() as int) =~= input@);
    }
    out
}

} // verus!
