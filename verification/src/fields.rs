use vstd::prelude::*;
use crate::text::{seq_lt, chars_of, order_chars, KeyOrder, lemma_seq_lt_total, lemma_seq_lt_irreflexive, lemma_seq_lt_asymmetric, lemma_seq_lt_transitive};

verus! {

// A field list is a sequence of (name, value) pairs. The language keeps the
// names of a struct's fields in ascending order, so that two structs with the
// same fields have the same representation whatever the order of assignment.

/// Appending nothing to a sequence leaves it as it was.
pub broadcast proof fn lemma_seq_add_empty<A>(s: Seq<A>)
    ensures
        #[trigger] (s + Seq::<A>::empty()) == s,
{
    assert(s + Seq::<A>::empty() =~= s);
}

/// The names of a field list are strictly ascending.
pub open spec fn sorted_keys<W>(s: Seq<(Seq<char>, W)>) -> bool {
    forall|i: int, j: int| 0 <= i < j < s.len() ==> seq_lt(#[trigger] s[i].0, #[trigger] s[j].0)
}

/// The value stored under a name: that of the first entry with the name.
pub open spec fn field_get<W>(s: Seq<(Seq<char>, W)>, k: Seq<char>) -> Option<W>
    decreases s.len(),
{
    if s.len() == 0 {
        None
    } else if s[0].0 == k {
        Some(s[0].1)
    } else {
        field_get(s.drop_first(), k)
    }
}

/// Stores a value under a name: an entry with that name is replaced,
/// otherwise a new entry goes before the first name that comes after it.
pub open spec fn field_put<W>(s: Seq<(Seq<char>, W)>, k: Seq<char>, v: W) -> Seq<(Seq<char>, W)>
    decreases s.len(),
{
    if s.len() == 0 {
        seq![(k, v)]
    } else if s[0].0 == k {
        seq![(k, v)] + s.drop_first()
    } else if seq_lt(k, s[0].0) {
        seq![(k, v)] + s
    } else {
        seq![s[0]] + field_put(s.drop_first(), k, v)
    }
}

/// The same lookup on the stored pairs themselves, comparing names by their characters.
pub open spec fn raw_get<V>(s: Seq<(String, V)>, k: Seq<char>) -> Option<V>
    decreases s.len(),
{
    if s.len() == 0 {
        None
    } else if s[0].0@ == k {
        Some(s[0].1)
    } else {
        raw_get(s.drop_first(), k)
    }
}

/// The same insertion on the stored pairs themselves.
pub open spec fn raw_put<V>(s: Seq<(String, V)>, k: String, v: V) -> Seq<(String, V)>
    decreases s.len(),
{
    if s.len() == 0 {
        seq![(k, v)]
    } else if s[0].0@ == k@ {
        seq![(k, v)] + s.drop_first()
    } else if seq_lt(k@, s[0].0@) {
        seq![(k, v)] + s
    } else {
        seq![s[0]] + raw_put(s.drop_first(), k, v)
    }
}

/// Inserting into an ascending field list keeps it ascending.
pub proof fn lemma_field_put_sorted<W>(s: Seq<(Seq<char>, W)>, k: Seq<char>, v: W)
    requires
        sorted_keys(s),
    ensures
        sorted_keys(field_put(s, k, v)),
        forall|i: int| 0 <= i < field_put(s, k, v).len() ==>
            (#[trigger] field_put(s, k, v)[i].0 == k || exists|j: int| 0 <= j < s.len() && s[j].0 == field_put(s, k, v)[i].0),
    decreases s.len(),
{
    let r = field_put(s, k, v);
    if s.len() == 0 {
    } else if s[0].0 == k {
        assert forall|i: int, j: int| 0 <= i < j < r.len() implies seq_lt(#[trigger] r[i].0, #[trigger] r[j].0) by {
            assert(r[i].0 == s[i].0);
            assert(r[j].0 == s[j].0);
        }
        assert forall|i: int| 0 <= i < r.len() implies (#[trigger] r[i].0 == k || exists|j: int| 0 <= j < s.len() && s[j].0 == r[i].0) by {
            if i > 0 {
                assert(r[i].0 == s[i].0);
            }
        }
    } else if seq_lt(k, s[0].0) {
        assert forall|i: int, j: int| 0 <= i < j < r.len() implies seq_lt(#[trigger] r[i].0, #[trigger] r[j].0) by {
            if i == 0 {
                if j > 1 {
                    assert(r[j].0 == s[j - 1].0);
                    lemma_seq_lt_transitive(k, s[0].0, s[j - 1].0);
                }
            } else {
                assert(r[i].0 == s[i - 1].0);
                assert(r[j].0 == s[j - 1].0);
            }
        }
        assert forall|i: int| 0 <= i < r.len() implies (#[trigger] r[i].0 == k || exists|j: int| 0 <= j < s.len() && s[j].0 == r[i].0) by {
            if i > 0 {
                assert(r[i].0 == s[i - 1].0);
            }
        }
    } else {
        let rest = s.drop_first();
        assert(sorted_keys(rest)) by {
            assert forall|i: int, j: int| 0 <= i < j < rest.len() implies seq_lt(#[trigger] rest[i].0, #[trigger] rest[j].0) by {
                assert(rest[i] == s[i + 1]);
                assert(rest[j] == s[j + 1]);
            }
        }
        lemma_field_put_sorted(rest, k, v);
        let tail = field_put(rest, k, v);
        lemma_seq_lt_total(k, s[0].0);
        assert forall|i: int, j: int| 0 <= i < j < r.len() implies seq_lt(#[trigger] r[i].0, #[trigger] r[j].0) by {
            if i == 0 {
                assert(r[j] == tail[j - 1]);
                if tail[j - 1].0 == k {
                } else {
                    let m = choose|m: int| 0 <= m < rest.len() && rest[m].0 == tail[j - 1].0;
                    assert(rest[m] == s[m + 1]);
                }
            } else {
                assert(r[i] == tail[i - 1]);
                assert(r[j] == tail[j - 1]);
            }
        }
        assert forall|i: int| 0 <= i < r.len() implies (#[trigger] r[i].0 == k || exists|j: int| 0 <= j < s.len() && s[j].0 == r[i].0) by {
            if i > 0 {
                assert(r[i] == tail[i - 1]);
                if tail[i - 1].0 != k {
                    let m = choose|m: int| 0 <= m < rest.len() && rest[m].0 == tail[i - 1].0;
                    assert(rest[m] == s[m + 1]);
                }
            }
        }
    }
}

/// After storing a value under a name, looking the name up gives that value.
pub proof fn lemma_field_put_get<W>(s: Seq<(Seq<char>, W)>, k: Seq<char>, v: W, k2: Seq<char>)
    ensures
        field_get(field_put(s, k, v), k2) == if k2 == k { Some(v) } else { field_get(s, k2) },
    decreases s.len(),
{
    let r = field_put(s, k, v);
    if s.len() == 0 {
        assert(r[0] == (k, v));
        assert(r.drop_first().len() == 0);
        assert(field_get(r.drop_first(), k2) is None);
    } else if s[0].0 == k {
        assert(r[0] == (k, v));
        assert(r.drop_first() =~= s.drop_first());
    } else if seq_lt(k, s[0].0) {
        assert(r[0] == (k, v));
        assert(r.drop_first() =~= s);
    } else {
        lemma_field_put_get(s.drop_first(), k, v, k2);
        assert(r[0] == s[0]);
        assert(r.drop_first() =~= field_put(s.drop_first(), k, v));
    }
}

/// Finds the entry stored under a name.
pub fn get_field<'a, V>(m: &'a Vec<(String, V)>, key: &String) -> (r: Option<&'a V>)
    ensures
        match r {
            Some(x) => raw_get(m@, key@) == Some(*x),
            None => raw_get(m@, key@) is None,
        },
{
    let mut i: usize = 0;
    assert(m@.skip(0) =~= m@);
    while i < m.len()
        invariant
            i <= m.len(),
            raw_get(m@, key@) == raw_get(m@.skip(i as int), key@),
        decreases m.len() - i,
    {
        if m[i].0 == *key {
            return Some(&m[i].1);
        }
        assert(m@.skip(i as int).drop_first() =~= m@.skip(i + 1));
        i = i + 1;
    }
    None
}

/// Stores a value under a name, replacing an entry with that name or
/// inserting a new one before the first name that comes after it.
pub fn put_field<V>(m: &mut Vec<(String, V)>, key: String, value: V)
    ensures
        final(m)@ == raw_put(old(m)@, key, value),
{
    let ghost s0 = m@;
    let kc = chars_of(key.as_str());
    let mut i: usize = 0;
    assert(s0.skip(0) =~= s0);
    assert(s0.subrange(0, 0) + raw_put(s0, key, value) =~= raw_put(s0, key, value));
    while i < m.len()
        invariant
            i <= m.len(),
            m@ == s0,
            old(m)@ == s0,
            kc@ == key@,
            raw_put(s0, key, value) == s0.subrange(0, i as int) + raw_put(s0.skip(i as int), key, value),
        decreases m.len() - i,
    {
        let ec = chars_of(m[i].0.as_str());
        let o = order_chars(&ec, &kc);
        match o {
            KeyOrder::Before => {
                proof {
                    let t = s0.skip(i as int);
                    lemma_seq_lt_irreflexive(key@);
                    lemma_seq_lt_asymmetric(t[0].0@, key@);
                    assert(t.drop_first() =~= s0.skip(i + 1));
                    assert(s0.subrange(0, i + 1) =~= s0.subrange(0, i as int) + seq![t[0]]);
                    assert(raw_put(t, key, value) == seq![t[0]] + raw_put(s0.skip(i + 1), key, value));
                    assert(s0.subrange(0, i as int) + (seq![t[0]] + raw_put(s0.skip(i + 1), key, value))
                        =~= s0.subrange(0, i + 1) + raw_put(s0.skip(i + 1), key, value));
                }
                i = i + 1;
            }
            _ => {
                let ghost t = s0.skip(i as int);
                proof {
                    lemma_seq_lt_total(t[0].0@, key@);
                }
                if let KeyOrder::Same = o {
                    assert(t.drop_first() =~= s0.skip(i + 1));
                    assert(raw_put(s0, key, value) =~= s0.subrange(0, i as int) + seq![(key, value)] + s0.skip(i + 1));
                    m.set(i, (key, value));
                    assert(m@ =~= s0.subrange(0, i as int) + seq![(key, value)] + s0.skip(i + 1));
                } else {
                    assert(raw_put(s0, key, value) =~= s0.subrange(0, i as int) + seq![(key, value)] + t);
                    m.insert(i, (key, value));
                    assert(m@ =~= s0.subrange(0, i as int) + seq![(key, value)] + t);
                }
                return;
            }
        }
    }
    assert(s0.skip(i as int).len() == 0);
    assert(raw_put(s0, key, value) =~= s0 + seq![(key, value)]);
    m.push((key, value));
}

} // verus!
