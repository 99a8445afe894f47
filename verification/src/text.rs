//! Small string operations that the rest of the library builds on.

use vstd::prelude::*;

verus! {

/// Appends `c` to `s` through `String::push`, whose documentation says that
/// it appends the given char to the end of the string.
#[verifier::external_body]
pub(crate) fn push_char(s: &mut String, c: char)
    ensures
        final(s)@ == old(s)@.push(c),
{
    s.push(c);
}

} // verus!

verus! {

/// Whether `a` comes strictly before `b` in the order of `String`'s `<`:
/// character by character by code point, a proper prefix first.
pub open spec fn chars_less(a: Seq<char>, b: Seq<char>) -> bool
    decreases a.len(),
{
    if a.len() == 0 {
        b.len() > 0
    } else if b.len() == 0 {
        false
    } else if a[0] != b[0] {
        (a[0] as u32) < (b[0] as u32)
    } else {
        chars_less(a.drop_first(), b.drop_first())
    }
}

/// Whether `a` sorts strictly before `b`, as `a < b` on strings.
pub fn str_less(a: &str, b: &str) -> (r: bool)
    ensures
        r == chars_less(a@, b@),
{
    let la = a.unicode_len();
    let lb = b.unicode_len();
    let mut i: usize = 0;
    proof {
        assert(a@.skip(0) =~= a@);
        assert(b@.skip(0) =~= b@);
    }
    while i < la && i < lb
        invariant
            la == a@.len(),
            lb == b@.len(),
            i <= la,
            i <= lb,
            chars_less(a@, b@) == chars_less(a@.skip(i as int), b@.skip(i as int)),
        decreases la - i,
    {
        let ca = a.get_char(i);
        let cb = b.get_char(i);
        proof {
            assert(a@.skip(i as int)[0] == ca);
            assert(b@.skip(i as int)[0] == cb);
            assert(a@.skip(i as int).drop_first() =~= a@.skip(i + 1));
            assert(b@.skip(i as int).drop_first() =~= b@.skip(i + 1));
        }
        if ca != cb {
            return (ca as u32) < (cb as u32);
        }
        i += 1;
    }
    la - i < lb - i
}

pub proof fn lemma_chars_less_irreflexive(a: Seq<char>)
    ensures
        !chars_less(a, a),
    decreases a.len(),
{
    if a.len() > 0 {
        lemma_chars_less_irreflexive(a.drop_first());
    }
}

pub proof fn lemma_chars_less_transitive(a: Seq<char>, b: Seq<char>, c: Seq<char>)
    requires
        chars_less(a, b),
        chars_less(b, c),
    ensures
        chars_less(a, c),
    decreases a.len(),
{
    if a.len() > 0 && b.len() > 0 && c.len() > 0 && a[0] == b[0] && b[0] == c[0] {
        lemma_chars_less_transitive(a.drop_first(), b.drop_first(), c.drop_first());
    }
}

pub proof fn lemma_chars_less_total(a: Seq<char>, b: Seq<char>)
    requires
        a != b,
    ensures
        chars_less(a, b) || chars_less(b, a),
    decreases a.len(),
{
    if a.len() == 0 {
        if b.len() == 0 {
            assert(a =~= b);
        }
    } else if b.len() == 0 {
    } else if a[0] == b[0] {
        if a.drop_first() == b.drop_first() {
            assert(a =~= seq![a[0]] + a.drop_first());
            assert(b =~= seq![b[0]] + b.drop_first());
        }
        lemma_chars_less_total(a.drop_first(), b.drop_first());
    } else {
        vstd::utf8::char_u32_cast(a[0], a[0] as u32);
        vstd::utf8::char_u32_cast(b[0], b[0] as u32);
    }
}

} // verus!

verus! {

/// The strings of `v`, each strictly before the next.
pub open spec fn strictly_ascending(v: Seq<String>) -> bool {
    forall|a: int, b: int| 0 <= a < b < v.len() ==> chars_less((#[trigger] v[a])@, (#[trigger] v[b])@)
}

/// No two strings of `v` are equal.
pub open spec fn all_distinct(v: Seq<String>) -> bool {
    forall|a: int, b: int| 0 <= a < b < v.len() ==> (#[trigger] v[a])@ != (#[trigger] v[b])@
}

/// Whether some string of `v` reads `s`.
pub open spec fn holds_text(v: Seq<String>, s: Seq<char>) -> bool {
    exists|i: int| 0 <= i < v.len() && (#[trigger] v[i])@ == s
}

/// Sorts distinct strings into ascending order.
pub fn sort_distinct(names: Vec<String>) -> (r: Vec<String>)
    requires
        all_distinct(names@),
    ensures
        r@.len() == names@.len(),
        strictly_ascending(r@),
        forall|s: Seq<char>| holds_text(r@, s) <==> holds_text(names@, s),
{
    let n = names.len();
    let mut r: Vec<String> = Vec::new();
    let mut i: usize = 0;
    while i < n
        invariant
            n == names@.len(),
            all_distinct(names@),
            i <= n,
            r@.len() == i,
            strictly_ascending(r@),
            forall|j: int| 0 <= j < r@.len() ==> exists|k: int| 0 <= k < i && (#[trigger] r@[j])@ == (#[trigger] names@[k])@,
            forall|k: int| 0 <= k < i ==> holds_text(r@, (#[trigger] names@[k])@),
        decreases n - i,
    {
        let x = names[i].clone();
        let mut p: usize = 0;
        while p < r.len() && str_less(r[p].as_str(), x.as_str())
            invariant
                p <= r@.len(),
                forall|j: int| 0 <= j < p ==> chars_less((#[trigger] r@[j])@, x@),
            decreases r@.len() - p,
        {
            p += 1;
        }
        let ghost old_r = r@;
        proof {
            // `x` is not yet among the sorted strings
            assert forall|j: int| 0 <= j < old_r.len() implies (#[trigger] old_r[j])@ != x@ by {
                let k = choose|k: int| 0 <= k < i && old_r[j]@ == (#[trigger] names@[k])@;
                assert(names@[k]@ != names@[i as int]@);
            }
            if p < old_r.len() {
                lemma_chars_less_total(old_r[p as int]@, x@);
            }
        }
        r.insert(p, x);
        proof {
            old_r.insert_ensures(p as int, x);
            assert forall|a: int, b: int| 0 <= a < b < r@.len() implies chars_less((#[trigger] r@[a])@, (#[trigger] r@[b])@) by {
                if b < p {
                } else if a < p && b == p {
                } else if a < p {
                    assert(r@[b] == old_r[b - 1]);
                } else if a == p {
                    assert(r@[b] == old_r[b - 1]);
                    if b - 1 > p {
                        lemma_chars_less_transitive(x@, old_r[p as int]@, old_r[b - 1]@);
                    }
                } else {
                    assert(r@[a] == old_r[a - 1]);
                    assert(r@[b] == old_r[b - 1]);
                }
            }
            assert forall|j: int| 0 <= j < r@.len() implies exists|k: int| 0 <= k < i + 1 && (#[trigger] r@[j])@ == (#[trigger] names@[k])@ by {
                if j < p {
                    let k = choose|k: int| 0 <= k < i && old_r[j]@ == (#[trigger] names@[k])@;
                    assert(r@[j]@ == names@[k]@);
                } else if j == p {
                    assert(r@[j]@ == names@[i as int]@);
                } else {
                    let k = choose|k: int| 0 <= k < i && old_r[j - 1]@ == (#[trigger] names@[k])@;
                    assert(r@[j]@ == names@[k]@);
                }
            }
            assert forall|k: int| 0 <= k < i + 1 implies holds_text(r@, (#[trigger] names@[k])@) by {
                if k == i {
                    assert(r@[p as int]@ == names@[k]@);
                } else {
                    assert(holds_text(old_r, names@[k]@));
                    let j = choose|j: int| 0 <= j < old_r.len() && (#[trigger] old_r[j])@ == names@[k]@;
                    if j < p {
                        assert(r@[j]@ == names@[k]@);
                    } else {
                        assert(r@[j + 1]@ == names@[k]@);
                    }
                }
            }
        }
        i += 1;
    }
    proof {
        assert forall|s: Seq<char>| holds_text(r@, s) <==> holds_text(names@, s) by {
            if holds_text(r@, s) {
                let j = choose|j: int| 0 <= j < r@.len() && (#[trigger] r@[j])@ == s;
                let k = choose|k: int| 0 <= k < i && r@[j]@ == (#[trigger] names@[k])@;
                assert(names@[k]@ == s);
            }
            if holds_text(names@, s) {
                let k = choose|k: int| 0 <= k < names@.len() && (#[trigger] names@[k])@ == s;
                assert(holds_text(r@, names@[k]@));
            }
        }
    }
    r
}

} // verus!

verus! {

/// Whether `pat` occurs in `s` as a run of consecutive characters.
pub open spec fn has_infix(s: Seq<char>, pat: Seq<char>) -> bool {
    exists|i: int| 0 <= i && i + pat.len() <= s.len() && #[trigger] s.subrange(i, i + pat.len()) == pat
}

fn matches_at(s: &str, pat: &str, at: usize, ls: usize, lp: usize) -> (r: bool)
    requires
        ls == s@.len(),
        lp == pat@.len(),
        at + lp <= ls,
    ensures
        r == (s@.subrange(at as int, at + lp) == pat@),
{
    let mut j: usize = 0;
    while j < lp
        invariant
            ls == s@.len(),
            lp == pat@.len(),
            at + lp <= ls,
            j <= lp,
            forall|k: int| 0 <= k < j ==> s@[at + k] == pat@[k],
        decreases lp - j,
    {
        if s.get_char(at + j) != pat.get_char(j) {
            proof {
                assert(s@.subrange(at as int, at + lp)[j as int] != pat@[j as int]);
            }
            return false;
        }
        j += 1;
    }
    assert(s@.subrange(at as int, at + lp) =~= pat@);
    true
}

/// Whether `pat` occurs in `s`, as `s.contains(pat)`.
pub fn str_contains(s: &str, pat: &str) -> (r: bool)
    ensures
        r == has_infix(s@, pat@),
{
    let ls = s.unicode_len();
    let lp = pat.unicode_len();
    if lp > ls {
        return false;
    }
    let mut i: usize = 0;
    while i < ls - lp
        invariant
            ls == s@.len(),
            lp == pat@.len(),
            lp <= ls,
            i <= ls - lp,
            forall|k: int| 0 <= k < i ==> #[trigger] s@.subrange(k, k + lp) != pat@,
        decreases ls - lp - i,
    {
        if matches_at(s, pat, i, ls, lp) {
            return true;
        }
        i += 1;
    }
    matches_at(s, pat, i, ls, lp)
}

} // verus!
