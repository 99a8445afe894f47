//! A JSON document as the statistics endpoint sends it, and the lookups of
//! dotted paths such as `"totals.hit_rate"` that the dashboard makes in it.

use vstd::prelude::*;
use vstd::string::StrSliceExecFns;

verus! {

/// A JSON number, kept as serde_json keeps it: a non-negative integer, a
/// negative integer, or a floating-point value. The floating-point value is
/// carried as its IEEE-754 bit pattern (`f64::to_bits`); the library never
/// reads it as a number.
#[derive(Clone, Copy, Debug, PartialEq, Eq)]
pub enum JsonNumber {
    PosInt(u64),
    NegInt(i64),
    Float(u64),
}

/// A JSON value. An object keeps its members in order, each key once.
#[derive(Debug)]
pub enum Json {
    Null,
    Bool(bool),
    Number(JsonNumber),
    String(String),
    Array(Vec<Json>),
    Object(Vec<(String, Json)>),
}

/// The value stored under `key` among the members `entries`: that of the
/// first member with that key.
pub open spec fn member_value(entries: Seq<(String, Json)>, key: Seq<char>) -> Option<Json>
    decreases entries.len(),
{
    if entries.len() == 0 {
        None
    } else if entries[0].0@ == key {
        Some(entries[0].1)
    } else {
        member_value(entries.drop_first(), key)
    }
}

/// `v[key]` where `v` is an object with that key; nothing otherwise. This is
/// what `serde_json::Value::get` gives for a string index.
pub open spec fn json_get(v: Json, key: Seq<char>) -> Option<Json> {
    match v {
        Json::Object(entries) => member_value(entries@, key),
        _ => None,
    }
}

/// The value as a `u64` where it is a non-negative integer, as
/// `serde_json::Value::as_u64` gives it.
pub open spec fn json_as_u64(v: Json) -> Option<u64> {
    match v {
        Json::Number(JsonNumber::PosInt(n)) => Some(n),
        _ => None,
    }
}

/// The pieces of `s` between the dots, as `str::split('.')` yields them:
/// `"a.b"` gives `["a", "b"]`, `""` gives `[""]`, `"a."` gives `["a", ""]`.
pub open spec fn split_on_dots(s: Seq<char>) -> Seq<Seq<char>>
    decreases s.len(),
{
    if s.len() == 0 {
        seq![Seq::<char>::empty()]
    } else {
        let pieces = split_on_dots(s.drop_last());
        if s.last() == '.' {
            pieces.push(Seq::<char>::empty())
        } else {
            pieces.update(pieces.len() - 1, pieces.last().push(s.last()))
        }
    }
}

/// The pieces joined again with a dot between each two.
pub open spec fn join_with_dots(pieces: Seq<Seq<char>>) -> Seq<char>
    decreases pieces.len(),
{
    if pieces.len() <= 1 {
        if pieces.len() == 0 { Seq::<char>::empty() } else { pieces[0] }
    } else {
        join_with_dots(pieces.drop_last()) + seq!['.'] + pieces.last()
    }
}

/// The value reached from `v` by taking the members `keys` in turn; nothing
/// once a step finds no member.
pub open spec fn follow_keys(v: Json, keys: Seq<Seq<char>>) -> Option<Json>
    decreases keys.len(),
{
    if keys.len() == 0 {
        Some(v)
    } else {
        match follow_keys(v, keys.drop_last()) {
            Some(x) => json_get(x, keys.last()),
            None => None,
        }
    }
}

/// The value at the dot-separated `path` in `v`.
pub open spec fn json_at_path(v: Json, path: Seq<char>) -> Option<Json> {
    follow_keys(v, split_on_dots(path))
}

/// The `u64` at `path` in `v`, or 0 where there is none.
pub open spec fn u64_at_path(v: Json, path: Seq<char>) -> u64 {
    match json_at_path(v, path) {
        Some(x) => match json_as_u64(x) {
            Some(n) => n,
            None => 0,
        },
        None => 0,
    }
}

/// The value a reference points at, inside an `Option`.
pub open spec fn deref_json(o: Option<&Json>) -> Option<Json> {
    match o {
        Some(x) => Some(*x),
        None => None,
    }
}

impl Json {
    /// The member `key` of an object; nothing for another key or another
    /// kind of value.
    pub fn get(&self, key: &str) -> (r: Option<&Json>)
        ensures
            deref_json(r) == json_get(*self, key@),
    {
        match self {
            Json::Object(entries) => {
                let wanted = key.to_owned();
                let mut i: usize = 0;
                assert(entries@.skip(0) =~= entries@);
                while i < entries.len()
                    invariant
                        i <= entries@.len(),
                        wanted@ == key@,
                        json_get(*self, key@) == member_value(entries@, key@),
                        member_value(entries@, key@) == member_value(entries@.skip(i as int), key@),
                    decreases entries@.len() - i,
                {
                    assert(entries@.skip(i as int)[0] == entries@[i as int]);
                    if entries[i].0 == wanted {
                        assert(entries@[i as int].0@ == key@);
                        return Some(&entries[i].1);
                    }
                    assert(entries@.skip(i as int).drop_first() =~= entries@.skip(i + 1));
                    i += 1;
                }
                assert(entries@.skip(i as int).len() == 0);
                None
            },
            _ => None,
        }
    }

    /// The value as a `u64` where it is a non-negative integer.
    pub fn as_u64(&self) -> (r: Option<u64>)
        ensures
            r == json_as_u64(*self),
    {
        match self {
            Json::Number(JsonNumber::PosInt(n)) => Some(*n),
            _ => None,
        }
    }
}

proof fn lemma_split_nonempty(s: Seq<char>)
    ensures
        split_on_dots(s).len() >= 1,
    decreases s.len(),
{
    if s.len() > 0 {
        lemma_split_nonempty(s.drop_last());
    }
}

/// Takes the member `key` from the value `acc` holds, if it holds one.
fn step<'a>(acc: Option<&'a Json>, key: &str) -> (r: Option<&'a Json>)
    ensures
        deref_json(r) == match deref_json(acc) {
            Some(x) => json_get(x, key@),
            None => None,
        },
{
    match acc {
        Some(x) => x.get(key),
        None => None,
    }
}

/// The value at the dot-separated `path` in `v`: the path is cut at each dot
/// and the pieces are taken as members in turn.
pub fn lookup_path<'a>(v: &'a Json, path: &str) -> (r: Option<&'a Json>)
    ensures
        deref_json(r) == json_at_path(*v, path@),
{
    let n = path.unicode_len();
    let mut acc: Option<&Json> = Some(v);
    let mut start: usize = 0;
    let mut i: usize = 0;
    proof {
        assert(path@.take(0) =~= Seq::<char>::empty());
    }
    while i < n
        invariant
            n == path@.len(),
            start <= i <= n,
            split_on_dots(path@.take(i as int)).len() >= 1,
            split_on_dots(path@.take(i as int)).last() == path@.subrange(start as int, i as int),
            deref_json(acc) == follow_keys(*v, split_on_dots(path@.take(i as int)).drop_last()),
        decreases n - i,
    {
        let c = path.get_char(i);
        let ghost before = split_on_dots(path@.take(i as int));
        proof {
            assert(path@.take(i + 1).drop_last() =~= path@.take(i as int));
            assert(path@.take(i + 1).last() == c);
        }
        if c == '.' {
            let key = path.substring_char(start, i);
            acc = step(acc, key);
            start = i + 1;
            proof {
                let after = split_on_dots(path@.take(i + 1));
                assert(after == before.push(Seq::<char>::empty()));
                assert(after.drop_last() =~= before);
                assert(path@.subrange(start as int, i + 1) =~= Seq::<char>::empty());
            }
        } else {
            proof {
                let after = split_on_dots(path@.take(i + 1));
                assert(after == before.update(before.len() - 1, before.last().push(c)));
                assert(after.drop_last() =~= before.drop_last());
                assert(path@.subrange(start as int, i + 1) =~= path@.subrange(start as int, i as int).push(c));
            }
        }
        i += 1;
    }
    let key = path.substring_char(start, n);
    proof {
        assert(path@.take(n as int) =~= path@);
    }
    step(acc, key)
}

/// The `u64` at the dot-separated `path` in `v`, or 0 where the path leads
/// nowhere or to something other than a non-negative integer.
pub fn jval_u64(v: &Json, path: &str) -> (r: u64)
    ensures
        r == u64_at_path(*v, path@),
{
    match lookup_path(v, path) {
        Some(x) => match x.as_u64() {
            Some(n) => n,
            None => 0,
        },
        None => 0,
    }
}

} // verus!

verus! {

proof fn lemma_join_extend_last(p: Seq<Seq<char>>, c: char)
    requires
        p.len() >= 1,
    ensures
        join_with_dots(p.update(p.len() - 1, p.last().push(c))) == join_with_dots(p).push(c),
{
    let q = p.update(p.len() - 1, p.last().push(c));
    if p.len() > 1 {
        assert(q.drop_last() =~= p.drop_last());
        assert(join_with_dots(q) =~= join_with_dots(p).push(c));
    }
}

/// Cutting a path at its dots loses nothing: no piece holds a dot, and the
/// pieces joined with dots give the path back.
pub proof fn split_then_join(s: Seq<char>)
    ensures
        join_with_dots(split_on_dots(s)) == s,
        forall|i: int| 0 <= i < split_on_dots(s).len() ==> !(#[trigger] split_on_dots(s)[i]).contains('.'),
    decreases s.len(),
{
    lemma_split_nonempty(s);
    if s.len() == 0 {
        assert(split_on_dots(s)[0] =~= Seq::<char>::empty());
    } else {
        let p = split_on_dots(s.drop_last());
        split_then_join(s.drop_last());
        lemma_split_nonempty(s.drop_last());
        if s.last() == '.' {
            assert(split_on_dots(s).drop_last() =~= p);
            assert(join_with_dots(split_on_dots(s)) =~= s);
            assert forall|i: int| 0 <= i < split_on_dots(s).len() implies !(#[trigger] split_on_dots(s)[i]).contains('.') by {
                if i < p.len() {
                    assert(split_on_dots(s)[i] == p[i]);
                } else {
                    assert(split_on_dots(s)[i] =~= Seq::<char>::empty());
                }
            }
        } else {
            lemma_join_extend_last(p, s.last());
            assert(s =~= s.drop_last().push(s.last()));
            assert forall|i: int| 0 <= i < split_on_dots(s).len() implies !(#[trigger] split_on_dots(s)[i]).contains('.') by {
                if i < p.len() - 1 {
                    assert(split_on_dots(s)[i] == p[i]);
                } else {
                    let piece = split_on_dots(s)[i];
                    assert(piece == p.last().push(s.last()));
                    assert(!p[p.len() - 1].contains('.'));
                    if piece.contains('.') {
                        let k = choose|k: int| 0 <= k < piece.len() && piece[k] == '.';
                        if k < piece.len() - 1 {
                            assert(p.last()[k] == '.');
                        }
                    }
                }
            }
        }
    }
}

proof fn lemma_split_around_dot(a: Seq<char>, b: Seq<char>)
    ensures
        split_on_dots(a + seq!['.'] + b) == split_on_dots(a) + split_on_dots(b),
    decreases b.len(),
{
    let s = a + seq!['.'] + b;
    if b.len() == 0 {
        assert(s =~= a.push('.'));
        assert(s.drop_last() =~= a);
        assert(split_on_dots(b) =~= seq![Seq::<char>::empty()]);
        assert(split_on_dots(s) =~= split_on_dots(a) + split_on_dots(b));
    } else {
        lemma_split_around_dot(a, b.drop_last());
        lemma_split_nonempty(b.drop_last());
        assert(s.drop_last() =~= a + seq!['.'] + b.drop_last());
        assert(s.last() == b.last());
        let x = split_on_dots(a);
        let y = split_on_dots(b.drop_last());
        if b.last() == '.' {
            assert(split_on_dots(s) =~= x + split_on_dots(b));
        } else {
            assert((x + y).update((x + y).len() - 1, (x + y).last().push(b.last()))
                =~= x + y.update(y.len() - 1, y.last().push(b.last())));
            assert(split_on_dots(s) =~= x + split_on_dots(b));
        }
    }
}

proof fn lemma_follow_append(v: Json, a: Seq<Seq<char>>, b: Seq<Seq<char>>)
    ensures
        follow_keys(v, a + b) == match follow_keys(v, a) {
            Some(x) => follow_keys(x, b),
            None => None,
        },
    decreases b.len(),
{
    if b.len() == 0 {
        assert(a + b =~= a);
    } else {
        lemma_follow_append(v, a, b.drop_last());
        assert((a + b).drop_last() =~= a + b.drop_last());
        assert((a + b).last() == b.last());
    }
}

/// Looking up `p.q` is looking up `p`, then `q` in what was found there.
pub proof fn lookup_path_composes(v: Json, p: Seq<char>, q: Seq<char>)
    ensures
        json_at_path(v, p + seq!['.'] + q) == match json_at_path(v, p) {
            Some(x) => json_at_path(x, q),
            None => None,
        },
{
    lemma_split_around_dot(p, q);
    lemma_follow_append(v, split_on_dots(p), split_on_dots(q));
}

} // verus!
