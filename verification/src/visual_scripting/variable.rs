//! The values that visual scripting documents read and write.
//!
//! A dictionary is held as a list of entries whose keys are distinct; its
//! equality is that of a hash map: same size, and every entry of the left
//! side found, equal, under its key on the right side.
use vstd::prelude::*;
use crate::text;

verus! {

/// How a variable is meant to be read by the elements that use it.
#[derive(Debug, Clone, Copy, PartialEq, Eq, Structural)]
pub enum VariableInterpretAs {
    NonSpecific,
    Member,
    Message,
}

/// A value of a visual scripting document.
#[derive(Debug)]
pub struct Variable {
    pub kind: VariableKind,
    pub interpret_as: VariableInterpretAs,
}

/// The shape of a variable's value.
#[derive(Debug)]
pub enum VariableKind {
    /// Entries keyed by name; storing under a key already held replaces its
    /// value, so that the library's builders hold each key once. They are
    /// kept as a `Vec` of pairs, whose contents vstd specifies, rather than
    /// a `HashMap`: vstd's specification of a `HashMap` holds only for key
    /// types that obey its key model, which it grants to integers, `bool`
    /// and boxes of them, not to `String`.
    Dictionary(Vec<(String, Variable)>),
    List(Vec<Variable>),
    String(String),
    UnsignedInteger(u64),
}

/// The first index at or after `i` whose entry has the key `k`.
pub open spec fn dict_index_from(m: Seq<(String, Variable)>, k: Seq<char>, i: int) -> Option<int>
    decreases m.len() - i,
{
    if i < 0 || i >= m.len() {
        None
    } else if m[i].0@ == k {
        Some(i)
    } else {
        dict_index_from(m, k, i + 1)
    }
}

/// The index of the entry with the key `k`, if there is one.
pub open spec fn dict_index(m: Seq<(String, Variable)>, k: Seq<char>) -> Option<int> {
    dict_index_from(m, k, 0)
}

/// The value stored under the key `k`, if there is one.
pub open spec fn dict_get(m: Seq<(String, Variable)>, k: Seq<char>) -> Option<Variable> {
    match dict_index(m, k) {
        Some(i) => Some(m[i].1),
        None => None,
    }
}

/// No two entries share a key.
pub open spec fn keys_distinct(m: Seq<(String, Variable)>) -> bool {
    forall|i: int, j: int| 0 <= i < j < m.len() ==> #[trigger] m[i].0@ != #[trigger] m[j].0@
}

/// The entries after storing `v` under the key of `k`: the value of an entry
/// with that key is replaced, else the pair is added at the end.
pub open spec fn dict_insert(m: Seq<(String, Variable)>, k: String, v: Variable) -> Seq<(String, Variable)> {
    match dict_index(m, k@) {
        Some(i) => m.update(i, (m[i].0, v)),
        None => m.push((k, v)),
    }
}

/// `new` is `old` after storing `v` under the key `k`, the key of a new
/// entry being any string that reads `k`.
pub open spec fn dict_inserted(
    old: Seq<(String, Variable)>,
    new: Seq<(String, Variable)>,
    k: Seq<char>,
    v: Variable,
) -> bool {
    match dict_index(old, k) {
        Some(i) => new == old.update(i, (old[i].0, v)),
        None => new.len() == old.len() + 1 && new.drop_last() == old && new.last().0@ == k
            && new.last().1 == v,
    }
}

/// The entries that storing the pairs of `e` one after the other gives.
pub open spec fn dict_from(e: Seq<(String, Variable)>) -> Seq<(String, Variable)>
    decreases e.len(),
{
    if e.len() == 0 {
        Seq::empty()
    } else {
        dict_insert(dict_from(e.drop_last()), e.last().0, e.last().1)
    }
}

/// Every dictionary inside `v`, `v` included, has distinct keys.
pub open spec fn well_formed(v: Variable) -> bool
    decreases v,
{
    match v.kind {
        VariableKind::Dictionary(m) => keys_distinct(m@) && forall|i: int|
            0 <= i < m@.len() ==> well_formed(#[trigger] m@[i].1),
        VariableKind::List(l) => forall|i: int| 0 <= i < l@.len() ==> well_formed(#[trigger] l@[i]),
        _ => true,
    }
}

/// What `a == b` answers: same reading, same shape and equal contents, two
/// dictionaries being equal when they have the same size, every entry of
/// `a` has an equal value under its key in `b`, and every entry of `b` an
/// equal value under its key in `a`.
pub open spec fn variables_equal(a: Variable, b: Variable) -> bool
    decreases a,
{
    a.interpret_as == b.interpret_as && match (a.kind, b.kind) {
        (VariableKind::Dictionary(x), VariableKind::Dictionary(y)) => x@.len() == y@.len()
            && (forall|i: int|
            0 <= i < x@.len() ==> match dict_get(y@, (#[trigger] x@[i]).0@) {
                Some(w) => variables_equal(x@[i].1, w),
                None => false,
            }) && (forall|j: int|
            0 <= j < y@.len() ==> match dict_index(x@, (#[trigger] y@[j]).0@) {
                Some(i) => 0 <= i < x@.len() && variables_equal(x@[i].1, y@[j].1),
                None => false,
            }),
        (VariableKind::List(x), VariableKind::List(y)) => x@.len() == y@.len() && forall|i: int|
            0 <= i < x@.len() ==> variables_equal(#[trigger] x@[i], y@[i]),
        (VariableKind::String(x), VariableKind::String(y)) => x@ == y@,
        (VariableKind::UnsignedInteger(x), VariableKind::UnsignedInteger(y)) => x == y,
        _ => false,
    }
}

/// `a` and `b` hold the same entries in the same order: what a deep copy gives.
pub open spec fn identical(a: Variable, b: Variable) -> bool
    decreases a,
{
    a.interpret_as == b.interpret_as && match (a.kind, b.kind) {
        (VariableKind::Dictionary(x), VariableKind::Dictionary(y)) => x@.len() == y@.len()
            && forall|i: int|
            0 <= i < x@.len() ==> (#[trigger] x@[i]).0@ == y@[i].0@ && identical(x@[i].1, y@[i].1),
        (VariableKind::List(x), VariableKind::List(y)) => x@.len() == y@.len() && forall|i: int|
            0 <= i < x@.len() ==> identical(#[trigger] x@[i], y@[i]),
        (VariableKind::String(x), VariableKind::String(y)) => x@ == y@,
        (VariableKind::UnsignedInteger(x), VariableKind::UnsignedInteger(y)) => x == y,
        _ => false,
    }
}

/// The index of the entry with the key `key`, if there is one.
fn find_key(m: &Vec<(String, Variable)>, key: &String) -> (r: Option<usize>)
    ensures
        match r {
            Some(i) => dict_index(m@, key@) == Some(i as int),
            None => dict_index(m@, key@).is_none(),
        },
{
    let len = m.len();
    let mut i: usize = 0;
    while i < len
        invariant
            i <= len,
            len == m@.len(),
            dict_index(m@, key@) == dict_index_from(m@, key@, i as int),
        decreases len - i,
    {
        if m[i].0.eq(key) {
            return Some(i);
        }
        i = i + 1;
    }
    None
}

/// Stores `v` under the key `k` in the entries `m`.
fn dict_put(m: &mut Vec<(String, Variable)>, k: String, v: Variable)
    ensures
        final(m)@ == dict_insert(old(m)@, k, v),
{
    proof { lemma_dict_index(old(m)@, k@); }
    match find_key(m, &k) {
        Some(i) => {
            let old_key = m[i].0.clone();
            assert(old_key == old(m)@[i as int].0);
            m.set(i, (old_key, v));
            assert(m@ == old(m)@.update(i as int, (old_key, v)));
            assert(m@ == dict_insert(old(m)@, k, v));
        },
        None => {
            m.push((k, v));
            assert(m@ == old(m)@.push((k, v)));
            assert(m@ == dict_insert(old(m)@, k, v));
        },
    }
}

/// Storing a pair keeps the keys distinct.
pub proof fn lemma_dict_insert_distinct(m: Seq<(String, Variable)>, k: String, v: Variable)
    requires
        keys_distinct(m),
    ensures
        keys_distinct(dict_insert(m, k, v)),
{
    lemma_dict_index(m, k@);
}

/// The index found for a key holds that key, and no entry before it does;
/// where none is found, no entry holds it.
pub proof fn lemma_dict_index(m: Seq<(String, Variable)>, k: Seq<char>)
    ensures
        match dict_index(m, k) {
            Some(i) => 0 <= i < m.len() && m[i].0@ == k && forall|j: int|
                0 <= j < i ==> m[j].0@ != k,
            None => forall|j: int| 0 <= j < m.len() ==> m[j].0@ != k,
        },
{
    lemma_dict_index_from(m, k, 0);
}

proof fn lemma_dict_index_from(m: Seq<(String, Variable)>, k: Seq<char>, i: int)
    requires
        0 <= i,
    ensures
        match dict_index_from(m, k, i) {
            Some(j) => i <= j < m.len() && m[j].0@ == k && forall|l: int|
                i <= l < j ==> m[l].0@ != k,
            None => forall|l: int| i <= l < m.len() ==> m[l].0@ != k,
        },
    decreases m.len() - i,
{
    if i < m.len() && m[i].0@ != k {
        lemma_dict_index_from(m, k, i + 1);
    }
}

/// With distinct keys, the entry at `i` is the one found under its key.
pub proof fn lemma_dict_index_distinct(m: Seq<(String, Variable)>, i: int)
    requires
        keys_distinct(m),
        0 <= i < m.len(),
    ensures
        dict_index(m, m[i].0@) == Some(i),
{
    lemma_dict_index(m, m[i].0@);
    match dict_index(m, m[i].0@) {
        Some(j) => {
            if j < i {
                assert(m[j].0@ != m[i].0@);
            } else if j > i {
                assert(m[i].0@ != m[j].0@);
            }
        },
        None => {},
    }
}

/// Building a dictionary from pairs gives distinct keys.
pub proof fn lemma_dict_from_distinct(e: Seq<(String, Variable)>)
    ensures
        keys_distinct(dict_from(e)),
    decreases e.len(),
{
    if e.len() > 0 {
        lemma_dict_from_distinct(e.drop_last());
        lemma_dict_insert_distinct(dict_from(e.drop_last()), e.last().0, e.last().1);
    }
}

/// Law: after storing `v` under `k`, reading `k` gives `v`, and reading any
/// other key gives what it gave before.
pub proof fn lemma_dict_insert_get(m: Seq<(String, Variable)>, k: String, v: Variable, other: Seq<char>)
    requires
        keys_distinct(m),
    ensures
        dict_get(dict_insert(m, k, v), k@) == Some(v),
        other != k@ ==> dict_get(dict_insert(m, k, v), other) == dict_get(m, other),
{
    let n = dict_insert(m, k, v);
    lemma_dict_insert_distinct(m, k, v);
    lemma_dict_index(m, k@);
    lemma_dict_index(m, other);
    lemma_dict_index(n, k@);
    lemma_dict_index(n, other);
    match dict_index(m, k@) {
        Some(i) => {
            lemma_dict_index_distinct(n, i);
            match dict_index(m, other) {
                Some(j) => {
                    if other != k@ {
                        lemma_dict_index_distinct(n, j);
                    }
                },
                None => {},
            }
        },
        None => {
            lemma_dict_index_distinct(n, m.len() as int);
            match dict_index(m, other) {
                Some(j) => {
                    if other != k@ {
                        lemma_dict_index_distinct(n, j);
                    }
                },
                None => {},
            }
        },
    }
}

/// The value of the last pair of `e` with the key `k`, if any.
pub open spec fn last_value(e: Seq<(String, Variable)>, k: Seq<char>) -> Option<Variable>
    decreases e.len(),
{
    if e.len() == 0 {
        None
    } else if e.last().0@ == k {
        Some(e.last().1)
    } else {
        last_value(e.drop_last(), k)
    }
}

/// Law: reading a key of a dictionary that `create_map` built from pairs
/// gives the value of the last pair with that key, and nothing where no
/// pair has it.
pub proof fn lemma_create_map_get(e: Seq<(String, Variable)>, k: Seq<char>)
    ensures
        dict_get(dict_from(e), k) == last_value(e, k),
    decreases e.len(),
{
    if e.len() > 0 {
        lemma_create_map_get(e.drop_last(), k);
        lemma_dict_from_distinct(e.drop_last());
        lemma_dict_insert_get(dict_from(e.drop_last()), e.last().0, e.last().1, k);
    }
}

/// The key found at an index of distinct keys is found there and nowhere else.
proof fn lemma_index_of_key(m: Seq<(String, Variable)>, i: int, k: Seq<char>)
    requires
        keys_distinct(m),
        0 <= i < m.len(),
        m[i].0@ == k,
    ensures
        dict_index(m, k) == Some(i),
        dict_get(m, k) == Some(m[i].1),
{
    lemma_dict_index_distinct(m, i);
}

/// Law: storing a well-formed value under a key of a well-formed
/// dictionary, as `set` does, keeps it well-formed; reading that key then
/// gives the value, and reading any other key gives what it gave before.
pub proof fn lemma_set_get(before: Variable, after: Variable, key: Seq<char>, value: Variable, other: Seq<char>)
    requires
        well_formed(before),
        well_formed(value),
        before.kind is Dictionary,
        after.kind is Dictionary,
        dict_inserted(before.kind->Dictionary_0@, after.kind->Dictionary_0@, key, value),
    ensures
        well_formed(after),
        dict_get(after.kind->Dictionary_0@, key) == Some(value),
        other != key ==> dict_get(after.kind->Dictionary_0@, other) == dict_get(before.kind->Dictionary_0@, other),
{
    let m = before.kind->Dictionary_0@;
    let n = after.kind->Dictionary_0@;
    lemma_dict_index(m, key);
    lemma_dict_index(m, other);
    match dict_index(m, key) {
        Some(i) => {
            assert(n == m.update(i, (m[i].0, value)));
            assert(keys_distinct(n)) by {
                assert forall|a: int, b: int| 0 <= a < b < n.len() implies #[trigger] n[a].0@ != #[trigger] n[b].0@ by {
                    assert(n[a].0 == m[a].0);
                    assert(n[b].0 == m[b].0);
                }
            }
            assert forall|j: int| 0 <= j < n.len() implies well_formed(#[trigger] n[j].1) by {
                if j != i {
                    assert(n[j] == m[j]);
                }
            }
            lemma_index_of_key(n, i, key);
            match dict_index(m, other) {
                Some(j) => {
                    if other != key {
                        assert(n[j] == m[j]);
                        lemma_index_of_key(n, j, other);
                    }
                },
                None => {
                    lemma_dict_index(n, other);
                    if other != key {
                        assert forall|j: int| 0 <= j < n.len() implies n[j].0@ != other by {
                            assert(n[j].0 == m[j].0);
                        }
                    }
                },
            }
        },
        None => {
            assert(n.drop_last() == m);
            assert forall|j: int| 0 <= j < m.len() implies #[trigger] n[j] == m[j] by {
                assert(n.drop_last()[j] == n[j]);
            }
            assert(keys_distinct(n)) by {
                assert forall|a: int, b: int| 0 <= a < b < n.len() implies #[trigger] n[a].0@ != #[trigger] n[b].0@ by {
                    if b < m.len() {
                        assert(n[a] == m[a]);
                        assert(n[b] == m[b]);
                    } else {
                        assert(n[a] == m[a]);
                    }
                }
            }
            assert forall|j: int| 0 <= j < n.len() implies well_formed(#[trigger] n[j].1) by {
                if j < m.len() {
                    assert(n[j] == m[j]);
                }
            }
            lemma_index_of_key(n, m.len() as int, key);
            match dict_index(m, other) {
                Some(j) => {
                    if other != key {
                        lemma_index_of_key(n, j, other);
                    }
                },
                None => {
                    lemma_dict_index(n, other);
                    if other != key {
                        assert forall|j: int| 0 <= j < n.len() implies n[j].0@ != other by {
                            if j < m.len() {
                                assert(n[j] == m[j]);
                            }
                        }
                    }
                },
            }
        },
    }
}

/// Every variable is identical to itself.
pub proof fn lemma_identical_reflexive(a: Variable)
    ensures
        identical(a, a),
    decreases a,
{
    match a.kind {
        VariableKind::Dictionary(x) => {
            assert forall|i: int| 0 <= i < x@.len() implies (#[trigger] x@[i]).0@ == x@[i].0@ && identical(
                x@[i].1,
                x@[i].1,
            ) by {
                assert(decreases_to!(a => a.kind));
                assert(decreases_to!(a.kind => a.kind->Dictionary_0));
                assert(decreases_to!(x => x@));
                assert(decreases_to!(x@ => x@[i]));
                assert(decreases_to!(x@[i] => x@[i].1));
                lemma_identical_reflexive(x@[i].1);
            }
        },
        VariableKind::List(x) => {
            assert forall|i: int| 0 <= i < x@.len() implies identical(#[trigger] x@[i], x@[i]) by {
                assert(decreases_to!(a => a.kind));
                assert(decreases_to!(a.kind => a.kind->List_0));
                assert(decreases_to!(x => x@));
                assert(decreases_to!(x@ => x@[i]));
                lemma_identical_reflexive(x@[i]);
            }
        },
        _ => {},
    }
}

/// Law: a copy of a well-formed variable equals it, as `clone` gives one:
/// `a.clone() == a`.
pub proof fn lemma_copy_equal(a: Variable, b: Variable)
    requires
        well_formed(a),
        identical(a, b),
    ensures
        variables_equal(a, b),
    decreases a,
{
    match (a.kind, b.kind) {
        (VariableKind::Dictionary(x), VariableKind::Dictionary(y)) => {
            assert(keys_distinct(y@)) by {
                assert forall|i: int, j: int| 0 <= i < j < y@.len() implies #[trigger] y@[i].0@ != #[trigger] y@[j].0@ by {
                    assert(x@[i].0@ == y@[i].0@);
                    assert(x@[j].0@ == y@[j].0@);
                }
            }
            assert forall|i: int| 0 <= i < x@.len() implies match dict_get(y@, (#[trigger] x@[i]).0@) {
                Some(w) => variables_equal(x@[i].1, w),
                None => false,
            } by {
                assert(x@[i].0@ == y@[i].0@);
                lemma_dict_index_distinct(y@, i);
                assert(decreases_to!(a => a.kind));
                assert(decreases_to!(a.kind => a.kind->Dictionary_0));
                assert(decreases_to!(x => x@));
                assert(decreases_to!(x@ => x@[i]));
                assert(decreases_to!(x@[i] => x@[i].1));
                assert(well_formed(x@[i].1));
                lemma_copy_equal(x@[i].1, y@[i].1);
            }
            assert forall|j: int| 0 <= j < y@.len() implies match dict_index(x@, (#[trigger] y@[j]).0@) {
                Some(i) => 0 <= i < x@.len() && variables_equal(x@[i].1, y@[j].1),
                None => false,
            } by {
                assert(x@[j].0@ == y@[j].0@);
                lemma_dict_index_distinct(x@, j);
                assert(decreases_to!(a => a.kind));
                assert(decreases_to!(a.kind => a.kind->Dictionary_0));
                assert(decreases_to!(x => x@));
                assert(decreases_to!(x@ => x@[j]));
                assert(decreases_to!(x@[j] => x@[j].1));
                assert(well_formed(x@[j].1));
                lemma_copy_equal(x@[j].1, y@[j].1);
            }
        },
        (VariableKind::List(x), VariableKind::List(y)) => {
            assert forall|i: int| 0 <= i < x@.len() implies variables_equal(#[trigger] x@[i], y@[i]) by {
                assert(decreases_to!(a => a.kind));
                assert(decreases_to!(a.kind => a.kind->List_0));
                assert(decreases_to!(x => x@));
                assert(decreases_to!(x@ => x@[i]));
                assert(well_formed(x@[i]));
                lemma_copy_equal(x@[i], y@[i]);
            }
        },
        _ => {},
    }
}


/// Law: `==` answers the same either way round.
pub proof fn lemma_equal_symmetric(a: Variable, b: Variable)
    requires
        variables_equal(a, b),
    ensures
        variables_equal(b, a),
    decreases a,
{
    match (a.kind, b.kind) {
        (VariableKind::Dictionary(x), VariableKind::Dictionary(y)) => {
            assert forall|j: int| 0 <= j < y@.len() implies match dict_get(x@, (#[trigger] y@[j]).0@) {
                Some(w) => variables_equal(y@[j].1, w),
                None => false,
            } by {
                let i = dict_index(x@, y@[j].0@).unwrap();
                assert(decreases_to!(a => a.kind));
                assert(decreases_to!(a.kind => a.kind->Dictionary_0));
                assert(decreases_to!(x => x@));
                assert(decreases_to!(x@ => x@[i]));
                assert(decreases_to!(x@[i] => x@[i].1));
                lemma_equal_symmetric(x@[i].1, y@[j].1);
            }
            assert forall|i: int| 0 <= i < x@.len() implies match dict_index(y@, (#[trigger] x@[i]).0@) {
                Some(j) => 0 <= j < y@.len() && variables_equal(y@[j].1, x@[i].1),
                None => false,
            } by {
                lemma_dict_index(y@, x@[i].0@);
                let j = dict_index(y@, x@[i].0@).unwrap();
                assert(decreases_to!(a => a.kind));
                assert(decreases_to!(a.kind => a.kind->Dictionary_0));
                assert(decreases_to!(x => x@));
                assert(decreases_to!(x@ => x@[i]));
                assert(decreases_to!(x@[i] => x@[i].1));
                lemma_equal_symmetric(x@[i].1, y@[j].1);
            }
        },
        (VariableKind::List(x), VariableKind::List(y)) => {
            assert forall|i: int| 0 <= i < y@.len() implies variables_equal(#[trigger] y@[i], x@[i]) by {
                assert(decreases_to!(a => a.kind));
                assert(decreases_to!(a.kind => a.kind->List_0));
                assert(decreases_to!(x => x@));
                assert(decreases_to!(x@ => x@[i]));
                lemma_equal_symmetric(x@[i], y@[i]);
            }
        },
        _ => {},
    }
}

/// Some item `y[j]` of `y` is such that `v == y[j]`.
pub open spec fn equals_some(v: Variable, y: Seq<Variable>) -> bool {
    exists|j: int| 0 <= j < y.len() && variables_equal(v, #[trigger] y[j])
}

/// Every item of `x` equals some item of `y`, each compared as `x[i] == y[j]`.
pub open spec fn each_listed(x: Seq<Variable>, y: Seq<Variable>) -> bool {
    forall|i: int| 0 <= i < x.len() ==> equals_some(#[trigger] x[i], y)
}

/// `v` equals some item of `y` whichever way round they are compared.
proof fn lemma_equals_some(v: Variable, y: Seq<Variable>)
    ensures
        equals_some(v, y) == list_has(y, v),
{
    if equals_some(v, y) {
        let j = choose|j: int| 0 <= j < y.len() && variables_equal(v, #[trigger] y[j]);
        lemma_equal_symmetric(v, y[j]);
    }
    if list_has(y, v) {
        let j = choose|j: int| 0 <= j < y.len() && variables_equal(#[trigger] y[j], v);
        lemma_equal_symmetric(y[j], v);
    }
}

proof fn lemma_all_listed_each(x: Seq<Variable>, y: Seq<Variable>)
    ensures
        all_listed(x, y) == each_listed(x, y),
{
    assert forall|i: int| 0 <= i < x.len() implies equals_some(#[trigger] x[i], y) == list_has(y, x[i]) by {
        lemma_equals_some(x[i], y);
    }
}

/// Law: a variable contains only what another holds exactly when both are
/// lists and every item of the first, each one, equals some item of the
/// second.
pub proof fn lemma_contains_only_every_item(a: Variable, b: Variable)
    ensures
        contains_only_spec(a, b) <==> match (a.kind, b.kind) {
            (VariableKind::List(x), VariableKind::List(y)) => each_listed(x@, y@),
            _ => false,
        },
{
    match (a.kind, b.kind) {
        (VariableKind::List(x), VariableKind::List(y)) => {
            lemma_all_listed_each(x@, y@);
        },
        _ => {},
    }
}

/// Law: a variable contains one of what another holds exactly when both are
/// lists and some item of the first equals some item of the second.
pub proof fn lemma_contains_one_of_some_item(a: Variable, b: Variable)
    ensures
        contains_one_of_spec(a, b) <==> match (a.kind, b.kind) {
            (VariableKind::List(x), VariableKind::List(y)) => exists|i: int, j: int|
                0 <= i < x@.len() && 0 <= j < y@.len() && variables_equal(#[trigger] x@[i], #[trigger] y@[j]),
            _ => false,
        },
{
    match (a.kind, b.kind) {
        (VariableKind::List(x), VariableKind::List(y)) => {
            if any_listed(x@, y@) {
                let i = choose|i: int| 0 <= i < x@.len() && list_has(y@, #[trigger] x@[i]);
                let j = choose|j: int| 0 <= j < y@.len() && variables_equal(#[trigger] y@[j], x@[i]);
                lemma_equal_symmetric(y@[j], x@[i]);
                assert(variables_equal(x@[i], y@[j]));
            }
            if exists|i: int, j: int|
                0 <= i < x@.len() && 0 <= j < y@.len() && variables_equal(#[trigger] x@[i], #[trigger] y@[j]) {
                let (i, j) = choose|i: int, j: int|
                    0 <= i < x@.len() && 0 <= j < y@.len() && variables_equal(#[trigger] x@[i], #[trigger] y@[j]);
                lemma_equal_symmetric(x@[i], y@[j]);
                assert(list_has(y@, x@[i]));
            }
        },
        _ => {},
    }
}

/// Law: `contains_one_of` answers the same either way round.
pub proof fn lemma_contains_one_of_symmetric(a: Variable, b: Variable)
    ensures
        contains_one_of_spec(a, b) == contains_one_of_spec(b, a),
{
    match (a.kind, b.kind) {
        (VariableKind::List(x), VariableKind::List(y)) => {
            if any_listed(x@, y@) {
                let i = choose|i: int| 0 <= i < x@.len() && list_has(y@, #[trigger] x@[i]);
                let j = choose|j: int| 0 <= j < y@.len() && variables_equal(#[trigger] y@[j], x@[i]);
                lemma_equal_symmetric(y@[j], x@[i]);
                assert(list_has(x@, y@[j]));
            }
            if any_listed(y@, x@) {
                let j = choose|j: int| 0 <= j < y@.len() && list_has(x@, #[trigger] y@[j]);
                let i = choose|i: int| 0 <= i < x@.len() && variables_equal(#[trigger] x@[i], y@[j]);
                lemma_equal_symmetric(x@[i], y@[j]);
                assert(list_has(y@, x@[i]));
            }
        },
        _ => {},
    }
}

/// Law: `==` is reflexive on well-formed variables.
pub proof fn lemma_equal_reflexive(a: Variable)
    requires
        well_formed(a),
    ensures
        variables_equal(a, a),
{
    lemma_identical_reflexive(a);
    lemma_copy_equal(a, a);
}

/// Whether `a` and `b` carry the same reading.
fn same_interpretation(a: &VariableInterpretAs, b: &VariableInterpretAs) -> (r: bool)
    ensures
        r == (*a == *b),
{
    match (a, b) {
        (VariableInterpretAs::NonSpecific, VariableInterpretAs::NonSpecific) => true,
        (VariableInterpretAs::Member, VariableInterpretAs::Member) => true,
        (VariableInterpretAs::Message, VariableInterpretAs::Message) => true,
        _ => false,
    }
}

impl Variable {
    /// Whether `self == other`.
    pub fn equals(&self, other: &Variable) -> (r: bool)
        ensures
            r == variables_equal(*self, *other),
        decreases self,
    {
        if !same_interpretation(&self.interpret_as, &other.interpret_as) {
            return false;
        }
        match (&self.kind, &other.kind) {
            (VariableKind::Dictionary(x), VariableKind::Dictionary(y)) => {
                if x.len() != y.len() {
                    return false;
                }
                let len = x.len();
                let mut i: usize = 0;
                while i < len
                    invariant
                        i <= len,
                        len == x@.len(),
                        x@.len() == y@.len(),
                        self.kind == VariableKind::Dictionary(*x),
                        other.kind == VariableKind::Dictionary(*y),
                        self.interpret_as == other.interpret_as,
                        forall|j: int|
                            0 <= j < i ==> match dict_get(y@, (#[trigger] x@[j]).0@) {
                                Some(w) => variables_equal(x@[j].1, w),
                                None => false,
                            },
                    decreases len - i,
                {
                    proof {
                        let ghost k = self.kind;
                        assert(decreases_to!(*self => k));
                        assert(decreases_to!(k => k->Dictionary_0));
                        assert(decreases_to!(*x => x@));
                        assert(decreases_to!(x@ => x@[i as int]));
                        assert(decreases_to!(x@[i as int] => x@[i as int].1));
                    }
                    match find_key(y, &x[i].0) {
                        Some(j) => {
                            proof { lemma_dict_index(y@, x@[i as int].0@); }
                            if !x[i].1.equals(&y[j].1) {
                                return false;
                            }
                        },
                        None => {
                            return false;
                        },
                    }
                    i = i + 1;
                }
                let mut j: usize = 0;
                while j < len
                    invariant
                        j <= len,
                        len == x@.len(),
                        x@.len() == y@.len(),
                        self.kind == VariableKind::Dictionary(*x),
                        other.kind == VariableKind::Dictionary(*y),
                        self.interpret_as == other.interpret_as,
                        forall|l: int|
                            0 <= l < len ==> match dict_get(y@, (#[trigger] x@[l]).0@) {
                                Some(w) => variables_equal(x@[l].1, w),
                                None => false,
                            },
                        forall|l: int|
                            0 <= l < j ==> match dict_index(x@, (#[trigger] y@[l]).0@) {
                                Some(i) => 0 <= i < x@.len() && variables_equal(x@[i].1, y@[l].1),
                                None => false,
                            },
                    decreases len - j,
                {
                    match find_key(x, &y[j].0) {
                        Some(i) => {
                            proof {
                                lemma_dict_index(x@, y@[j as int].0@);
                                let ghost k = self.kind;
                                assert(decreases_to!(*self => k));
                                assert(decreases_to!(k => k->Dictionary_0));
                                assert(decreases_to!(*x => x@));
                                assert(decreases_to!(x@ => x@[i as int]));
                                assert(decreases_to!(x@[i as int] => x@[i as int].1));
                            }
                            if !x[i].1.equals(&y[j].1) {
                                return false;
                            }
                        },
                        None => {
                            return false;
                        },
                    }
                    j = j + 1;
                }
                true
            },
            (VariableKind::List(x), VariableKind::List(y)) => {
                if x.len() != y.len() {
                    return false;
                }
                let len = x.len();
                let mut i: usize = 0;
                while i < len
                    invariant
                        i <= len,
                        len == x@.len(),
                        x@.len() == y@.len(),
                        self.kind == VariableKind::List(*x),
                        other.kind == VariableKind::List(*y),
                        self.interpret_as == other.interpret_as,
                        forall|j: int| 0 <= j < i ==> variables_equal(#[trigger] x@[j], y@[j]),
                    decreases len - i,
                {
                    proof {
                        let ghost k = self.kind;
                        assert(decreases_to!(*self => k));
                        assert(decreases_to!(k => k->List_0));
                        assert(decreases_to!(*x => x@));
                        assert(decreases_to!(x@ => x@[i as int]));
                    }
                    if !x[i].equals(&y[i]) {
                        return false;
                    }
                    i = i + 1;
                }
                true
            },
            (VariableKind::String(x), VariableKind::String(y)) => x.eq(y),
            (VariableKind::UnsignedInteger(x), VariableKind::UnsignedInteger(y)) => *x == *y,
            _ => false,
        }
    }

    /// A deep copy of `self`.
    pub fn duplicate(&self) -> (r: Variable)
        ensures
            identical(*self, r),
        decreases self,
    {
        let kind = match &self.kind {
            VariableKind::Dictionary(x) => {
                let len = x.len();
                let mut out: Vec<(String, Variable)> = Vec::new();
                let mut i: usize = 0;
                while i < len
                    invariant
                        i <= len,
                        len == x@.len(),
                        out@.len() == i,
                        self.kind == VariableKind::Dictionary(*x),
                        forall|j: int|
                            0 <= j < i ==> (#[trigger] x@[j]).0@ == out@[j].0@ && identical(
                                x@[j].1,
                                out@[j].1,
                            ),
                    decreases len - i,
                {
                    proof {
                        let ghost k = self.kind;
                        assert(decreases_to!(*self => k));
                        assert(decreases_to!(k => k->Dictionary_0));
                        assert(decreases_to!(*x => x@));
                        assert(decreases_to!(x@ => x@[i as int]));
                        assert(decreases_to!(x@[i as int] => x@[i as int].1));
                    }
                    let key = x[i].0.clone();
                    let value = x[i].1.duplicate();
                    out.push((key, value));
                    i = i + 1;
                }
                VariableKind::Dictionary(out)
            },
            VariableKind::List(x) => {
                let len = x.len();
                let mut out: Vec<Variable> = Vec::new();
                let mut i: usize = 0;
                while i < len
                    invariant
                        i <= len,
                        len == x@.len(),
                        out@.len() == i,
                        self.kind == VariableKind::List(*x),
                        forall|j: int| 0 <= j < i ==> identical(#[trigger] x@[j], out@[j]),
                    decreases len - i,
                {
                    proof {
                        let ghost k = self.kind;
                        assert(decreases_to!(*self => k));
                        assert(decreases_to!(k => k->List_0));
                        assert(decreases_to!(*x => x@));
                        assert(decreases_to!(x@ => x@[i as int]));
                    }
                    let value = x[i].duplicate();
                    out.push(value);
                    i = i + 1;
                }
                VariableKind::List(out)
            },
            VariableKind::String(x) => VariableKind::String(x.clone()),
            VariableKind::UnsignedInteger(x) => VariableKind::UnsignedInteger(*x),
        };
        Variable { kind, interpret_as: self.interpret_as }
    }
}

impl PartialEq for Variable {
    fn eq(&self, other: &Self) -> (r: bool) {
        self.equals(other)
    }
}

impl vstd::std_specs::cmp::PartialEqSpecImpl for Variable {
    open spec fn obeys_eq_spec() -> bool {
        true
    }

    open spec fn eq_spec(&self, other: &Self) -> bool {
        variables_equal(*self, *other)
    }
}

impl Clone for Variable {
    fn clone(&self) -> (r: Self)
        ensures
            identical(*self, r),
    {
        self.duplicate()
    }
}

/// The reading that `create_map` gives when none is asked for.
pub open spec fn interpretation_or_default(i: Option<VariableInterpretAs>) -> VariableInterpretAs {
    match i {
        Some(x) => x,
        None => VariableInterpretAs::NonSpecific,
    }
}

/// Some value under the key `k` of the entries `m` equals `v`.
pub open spec fn dict_has_value(m: Seq<(String, Variable)>, v: Variable) -> bool {
    exists|i: int| 0 <= i < m.len() && variables_equal(#[trigger] m[i].1, v)
}

/// Some item of `l` equals `v`.
pub open spec fn list_has(l: Seq<Variable>, v: Variable) -> bool {
    exists|i: int| 0 <= i < l.len() && variables_equal(#[trigger] l[i], v)
}

/// Every item of `x` equals some item of `y`.
pub open spec fn all_listed(x: Seq<Variable>, y: Seq<Variable>) -> bool {
    forall|i: int| 0 <= i < x.len() ==> list_has(y, #[trigger] x[i])
}

/// Some item of `x` equals some item of `y`.
pub open spec fn any_listed(x: Seq<Variable>, y: Seq<Variable>) -> bool {
    exists|i: int| 0 <= i < x.len() && list_has(y, #[trigger] x[i])
}

/// What `self.contains(variable)` answers.
pub open spec fn contains_spec(a: Variable, b: Variable) -> bool {
    match a.kind {
        VariableKind::Dictionary(m) => dict_has_value(m@, b),
        VariableKind::List(l) => list_has(l@, b),
        VariableKind::String(x) => text::contains_seq(x@, b.kind->String_0@),
        VariableKind::UnsignedInteger(_) => false,
    }
}

/// What `self.contains_only(variable)` answers: both are lists and every
/// item of the first equals some item of the second.
pub open spec fn contains_only_spec(a: Variable, b: Variable) -> bool {
    match (a.kind, b.kind) {
        (VariableKind::List(x), VariableKind::List(y)) => all_listed(x@, y@),
        _ => false,
    }
}

/// What `self.contains_one_of(variable)` answers: both are lists and some
/// item of the first equals some item of the second.
pub open spec fn contains_one_of_spec(a: Variable, b: Variable) -> bool {
    match (a.kind, b.kind) {
        (VariableKind::List(x), VariableKind::List(y)) => any_listed(x@, y@),
        _ => false,
    }
}

/// What `self.starts_with(variable)` answers.
pub open spec fn starts_with_spec(a: Variable, b: Variable) -> bool {
    match a.kind {
        VariableKind::List(l) => l@.len() > 0 && variables_equal(l@[0], b),
        VariableKind::String(x) => text::starts_with_seq(x@, b.kind->String_0@),
        _ => false,
    }
}

/// What `self.ends_with(variable)` answers.
pub open spec fn ends_with_spec(a: Variable, b: Variable) -> bool {
    match a.kind {
        VariableKind::List(l) => l@.len() > 0 && variables_equal(l@[l@.len() - 1], b),
        VariableKind::String(x) => text::ends_with_seq(x@, b.kind->String_0@),
        _ => false,
    }
}

/// What `self.is_empty()` answers.
pub open spec fn is_empty_spec(a: Variable) -> bool {
    match a.kind {
        VariableKind::Dictionary(m) => m@.len() == 0,
        VariableKind::List(l) => l@.len() == 0,
        VariableKind::String(x) => x@.len() == 0,
        VariableKind::UnsignedInteger(_) => false,
    }
}

/// A string comparison on `a` reads `b` as a string: that is where the
/// comparison does not stop.
pub open spec fn string_argument_ok(a: Variable, b: Variable) -> bool {
    a.kind is String ==> b.kind is String
}

impl Variable {
    /// A dictionary built from the pairs, a later pair replacing the value
    /// of an earlier one with the same key.
    pub fn create_map(value: Vec<(String, Variable)>, interpret_as: Option<VariableInterpretAs>) -> (r: Variable)
        ensures
            r.kind is Dictionary,
            r.kind->Dictionary_0@ == dict_from(value@),
            r.interpret_as == interpretation_or_default(interpret_as),
    {
        let ghost orig = value@;
        let n = value.len();
        let mut rest = value;
        let mut out: Vec<(String, Variable)> = Vec::new();
        let mut i: usize = 0;
        while rest.len() > 0
            invariant
                i <= orig.len(),
                n == orig.len(),
                i + rest@.len() == n,
                rest@ == orig.skip(i as int),
                out@ == dict_from(orig.take(i as int)),
            decreases rest@.len(),
        {
            let (k, v) = rest.remove(0);
            proof {
                assert(orig.take(i + 1).drop_last() =~= orig.take(i as int));
                assert(orig.take(i + 1).last() == orig[i as int]);
                assert(orig.skip(i as int).remove(0) =~= orig.skip(i + 1));
            }
            dict_put(&mut out, k, v);
            i = i + 1;
        }
        assert(orig.take(i as int) =~= orig);
        let interpret_as = match interpret_as {
            Some(x) => x,
            None => VariableInterpretAs::NonSpecific,
        };
        Variable { kind: VariableKind::Dictionary(out), interpret_as }
    }

    /// The value under `key` of this dictionary.
    pub fn get(&self, key: &str) -> (r: &Variable)
        requires
            self.kind is Dictionary,
            dict_get(self.kind->Dictionary_0@, key@).is_some(),
        ensures
            *r == dict_get(self.kind->Dictionary_0@, key@).unwrap(),
    {
        let k = String::from_str(key);
        match &self.kind {
            VariableKind::Dictionary(m) => {
                proof { lemma_dict_index(m@, key@); }
                let i = find_key(m, &k).unwrap();
                &m[i].1
            },
            _ => {
                proof { assert(false); }
                self
            },
        }
    }

    /// The value under `key`, where this is a dictionary that holds one.
    pub fn lookup(&self, key: &str) -> (r: Option<&Variable>)
        ensures
            match self.kind {
                VariableKind::Dictionary(m) => match dict_get(m@, key@) {
                    Some(v) => r matches Some(x) && *x == v,
                    None => r is None,
                },
                _ => r is None,
            },
    {
        match &self.kind {
            VariableKind::Dictionary(m) => {
                let k = String::from_str(key);
                proof { lemma_dict_index(m@, key@); }
                match find_key(m, &k) {
                    Some(i) => Some(&m[i].1),
                    None => None,
                }
            },
            _ => None,
        }
    }

    /// Stores `value` under `key` in this dictionary.
    pub fn set(&mut self, key: &str, value: Variable)
        requires
            old(self).kind is Dictionary,
        ensures
            final(self).kind is Dictionary,
            final(self).interpret_as == old(self).interpret_as,
            dict_inserted(old(self).kind->Dictionary_0@, final(self).kind->Dictionary_0@, key@, value),
    {
        let k = String::from_str(key);
        match &mut self.kind {
            VariableKind::Dictionary(m) => {
                let ghost om = m@;
                dict_put(m, k, value);
                proof {
                    match dict_index(om, key@) {
                        Some(i) => {},
                        None => {
                            assert(m@.drop_last() =~= om);
                        },
                    }
                }
            },
            _ => {},
        }
    }

    /// This variable's entries, where it is a dictionary.
    pub fn as_map(&self) -> (r: Option<&Vec<(String, Variable)>>)
        ensures
            match r {
                Some(m) => self.kind == VariableKind::Dictionary(*m),
                None => !(self.kind is Dictionary),
            },
    {
        match &self.kind {
            VariableKind::Dictionary(m) => Some(m),
            _ => None,
        }
    }

    /// This variable's string, where it is a string.
    pub fn cast_str(&self) -> (r: &str)
        requires
            self.kind is String,
        ensures
            r@ == self.kind->String_0@,
    {
        match &self.kind {
            VariableKind::String(x) => x.as_str(),
            _ => {
                proof { assert(false); }
                ""
            },
        }
    }

    /// This variable as a string: a string as it is, a number in decimal.
    pub fn cast_string(&self) -> (r: String)
        requires
            self.kind is String || self.kind is UnsignedInteger,
        ensures
            r@ == match self.kind {
                VariableKind::String(x) => x@,
                VariableKind::UnsignedInteger(n) => text::decimal(n as nat),
                _ => Seq::empty(),
            },
    {
        match &self.kind {
            VariableKind::String(x) => x.clone(),
            VariableKind::UnsignedInteger(n) => text::decimal_string(*n),
            _ => {
                proof { assert(false); }
                String::new()
            },
        }
    }

    /// The snowflake id that this variable's string writes.
    pub fn cast_id(&self) -> (r: u64)
        requires
            self.kind is String,
            text::parse_bounded(self.kind->String_0@, u64::MAX as nat) matches Some(n) && n != 0,
        ensures
            text::parse_bounded(self.kind->String_0@, u64::MAX as nat) == Some(r as nat),
    {
        text::parse_u64(self.cast_str()).unwrap()
    }

    /// Whether this variable holds nothing.
    pub fn is_empty(&self) -> (r: bool)
        ensures
            r == is_empty_spec(*self),
    {
        match &self.kind {
            VariableKind::Dictionary(m) => m.len() == 0,
            VariableKind::List(l) => l.len() == 0,
            VariableKind::String(x) => x.as_str().unicode_len() == 0,
            VariableKind::UnsignedInteger(_) => false,
        }
    }

    /// Whether this variable holds `variable`: as a value of a dictionary,
    /// an item of a list, or a piece of a string.
    pub fn contains(&self, variable: &Variable) -> (r: bool)
        requires
            string_argument_ok(*self, *variable),
        ensures
            r == contains_spec(*self, *variable),
    {
        match &self.kind {
            VariableKind::Dictionary(m) => {
                let len = m.len();
                let mut i: usize = 0;
                while i < len
                    invariant
                        i <= len,
                        len == m@.len(),
                        self.kind == VariableKind::Dictionary(*m),
                        forall|j: int| 0 <= j < i ==> !variables_equal(#[trigger] m@[j].1, *variable),
                    decreases len - i,
                {
                    if m[i].1.equals(variable) {
                        assert(variables_equal(m@[i as int].1, *variable));
                        return true;
                    }
                    i = i + 1;
                }
                false
            },
            VariableKind::List(l) => list_contains(l, variable),
            VariableKind::String(x) => text::str_contains(x.as_str(), variable.cast_str()),
            VariableKind::UnsignedInteger(_) => false,
        }
    }

    /// Whether both are lists and every item of this one is in `variable`.
    pub fn contains_only(&self, variable: &Variable) -> (r: bool)
        ensures
            r == contains_only_spec(*self, *variable),
    {
        match (&self.kind, &variable.kind) {
            (VariableKind::List(x), VariableKind::List(y)) => {
                let len = x.len();
                let mut i: usize = 0;
                while i < len
                    invariant
                        i <= len,
                        len == x@.len(),
                        self.kind == VariableKind::List(*x),
                        variable.kind == VariableKind::List(*y),
                        forall|j: int| 0 <= j < i ==> list_has(y@, #[trigger] x@[j]),
                    decreases len - i,
                {
                    if !list_contains(y, &x[i]) {
                        assert(!list_has(y@, x@[i as int]));
                        return false;
                    }
                    i = i + 1;
                }
                true
            },
            _ => false,
        }
    }

    /// Whether both are lists and some item of this one is in `variable`.
    pub fn contains_one_of(&self, variable: &Variable) -> (r: bool)
        ensures
            r == contains_one_of_spec(*self, *variable),
    {
        match (&self.kind, &variable.kind) {
            (VariableKind::List(x), VariableKind::List(y)) => {
                let len = x.len();
                let mut i: usize = 0;
                while i < len
                    invariant
                        i <= len,
                        len == x@.len(),
                        self.kind == VariableKind::List(*x),
                        variable.kind == VariableKind::List(*y),
                        forall|j: int| 0 <= j < i ==> !list_has(y@, #[trigger] x@[j]),
                    decreases len - i,
                {
                    if list_contains(y, &x[i]) {
                        assert(list_has(y@, x@[i as int]));
                        return true;
                    }
                    i = i + 1;
                }
                false
            },
            _ => false,
        }
    }

    /// Whether this list's first item, or this string's beginning, is `variable`.
    pub fn starts_with(&self, variable: &Variable) -> (r: bool)
        requires
            string_argument_ok(*self, *variable),
        ensures
            r == starts_with_spec(*self, *variable),
    {
        match &self.kind {
            VariableKind::List(l) => l.len() > 0 && l[0].equals(variable),
            VariableKind::String(x) => text::str_starts_with(x.as_str(), variable.cast_str()),
            _ => false,
        }
    }

    /// Whether this list's last item, or this string's end, is `variable`.
    pub fn ends_with(&self, variable: &Variable) -> (r: bool)
        requires
            string_argument_ok(*self, *variable),
        ensures
            r == ends_with_spec(*self, *variable),
    {
        match &self.kind {
            VariableKind::List(l) => l.len() > 0 && l[l.len() - 1].equals(variable),
            VariableKind::String(x) => text::str_ends_with(x.as_str(), variable.cast_str()),
            _ => false,
        }
    }
}

/// Whether some item of `l` equals `v`.
fn list_contains(l: &Vec<Variable>, v: &Variable) -> (r: bool)
    ensures
        r == list_has(l@, *v),
{
    let len = l.len();
    let mut i: usize = 0;
    while i < len
        invariant
            i <= len,
            len == l@.len(),
            forall|j: int| 0 <= j < i ==> !variables_equal(#[trigger] l@[j], *v),
        decreases len - i,
    {
        if l[i].equals(v) {
            assert(variables_equal(l@[i as int], *v));
            return true;
        }
        i = i + 1;
    }
    false
}

impl Variable {
    /// This variable's entries, to change them, where it is a dictionary.
    pub fn as_map_mut(&mut self) -> (r: Option<&mut Vec<(String, Variable)>>)
        ensures
            old(self).kind is Dictionary <==> r is Some,
            r is None ==> *final(self) == *old(self),
            r matches Some(m) ==> *m == old(self).kind->Dictionary_0 && *final(self) == (Variable {
                kind: VariableKind::Dictionary(*final(m)),
                interpret_as: old(self).interpret_as,
            }),
    {
        match &mut self.kind {
            VariableKind::Dictionary(m) => Some(m),
            _ => None,
        }
    }
}

/// A path to a variable inside another, its keys joined by `::`; a key
/// that meets a list is that list's index.
#[derive(Debug)]
pub struct VariableReference {
    path: String,
}

/// One step of a lookup: `Some(found)` where the step can be taken (`found`
/// being `None` where nothing is there), `None` where a list meets a key
/// that is no index.
pub open spec fn resolve_step(current: Variable, key: Seq<char>) -> Option<Option<Variable>> {
    match current.kind {
        VariableKind::Dictionary(m) => Some(dict_get(m@, key)),
        VariableKind::List(l) => match text::parse_bounded(key, usize::MAX as nat) {
            Some(n) => Some(if n < l@.len() { Some(l@[n as int]) } else { None }),
            None => None,
        },
        _ => Some(None),
    }
}

/// Following the keys one by one from `current`: `None` where a list meets
/// a key that is no index, else what is found, if anything.
pub open spec fn resolve_keys(current: Variable, keys: Seq<Seq<char>>) -> Option<Option<Variable>>
    decreases keys.len(),
{
    if keys.len() == 0 {
        Some(Some(current))
    } else {
        match resolve_step(current, keys[0]) {
            None => None,
            Some(None) => Some(None),
            Some(Some(next)) => resolve_keys(next, keys.drop_first()),
        }
    }
}

impl VariableReference {
    /// A reference to the variable at `path`.
    pub fn new(path: String) -> (r: VariableReference)
        ensures
            r.path_view() == path@,
    {
        VariableReference { path }
    }

    /// The path that this reference follows.
    pub closed spec fn path_view(&self) -> Seq<char> {
        self.path@
    }

    /// What the path reaches from `root`, where every key that meets a list is an index.
    pub open spec fn target(&self, root: Variable) -> Option<Option<Variable>> {
        resolve_keys(root, text::split_path(self.path_view()))
    }

    /// A copy of the variable that the path reaches from `root_variable`, if any.
    pub fn resolve(&self, root_variable: &Variable) -> (r: Option<Variable>)
        requires
            self.target(*root_variable).is_some(),
        ensures
            match self.target(*root_variable).unwrap() {
                Some(v) => r matches Some(x) && identical(v, x),
                None => r is None,
            },
    {
        match self.resolve_ref(root_variable) {
            Some(v) => Some(v.duplicate()),
            None => None,
        }
    }

    /// The variable that the path reaches from `root_variable`, if any.
    pub fn resolve_ref<'a>(&self, root_variable: &'a Variable) -> (r: Option<&'a Variable>)
        requires
            self.target(*root_variable).is_some(),
        ensures
            match self.target(*root_variable).unwrap() {
                Some(v) => r matches Some(x) && *x == v,
                None => r is None,
            },
    {
        self.try_resolve_ref(root_variable).unwrap()
    }

    /// The variable that the path reaches from `root_variable`, if any;
    /// `None` where a key that meets a list is no index.
    pub fn try_resolve_ref<'a>(&self, root_variable: &'a Variable) -> (r: Option<Option<&'a Variable>>)
        ensures
            match self.target(*root_variable) {
                None => r is None,
                Some(None) => r == Some(None::<&Variable>),
                Some(Some(v)) => r matches Some(Some(x)) && *x == v,
            },
    {
        let keys = text::split_path_str(self.path.as_str());
        let ghost ks = text::split_path(self.path@);
        proof { text::lemma_split_path_nonempty(self.path@); }
        let len = keys.len();
        let mut current: &'a Variable = root_variable;
        let mut i: usize = 0;
        assert(ks.skip(0) =~= ks);
        while i < len
            invariant
                ks == text::split_path(self.path_view()),
                i <= len,
                len == keys@.len(),
                len == ks.len(),
                forall|j: int| 0 <= j < keys@.len() ==> #[trigger] keys@[j]@ == ks[j],
                resolve_keys(*root_variable, ks) == resolve_keys(*current, ks.skip(i as int)),
            decreases len - i,
        {
            let key = &keys[i];
            assert(ks.skip(i as int)[0] == key@);
            assert(ks.skip(i as int).drop_first() =~= ks.skip(i + 1));
            match &current.kind {
                VariableKind::Dictionary(m) => {
                    match find_key(m, key) {
                        Some(j) => {
                            proof { lemma_dict_index(m@, key@); }
                            current = &m[j].1;
                        },
                        None => {
                            return Some(None);
                        },
                    }
                },
                VariableKind::List(l) => {
                    match text::parse_usize(key.as_str()) {
                        Some(n) => {
                            if n < l.len() {
                                current = &l[n];
                            } else {
                                return Some(None);
                            }
                        },
                        None => {
                            return None;
                        },
                    }
                },
                _ => {
                    return Some(None);
                },
            }
            i = i + 1;
        }
        assert(ks.skip(len as int) =~= Seq::<Seq<char>>::empty());
        Some(Some(current))
    }
}

/// A variable of no particular reading with the given shape.
pub open spec fn plain(kind: VariableKind) -> Variable {
    Variable { kind, interpret_as: VariableInterpretAs::NonSpecific }
}

impl From<String> for Variable {
    fn from(value: String) -> (r: Self) {
        Variable { kind: VariableKind::String(value), interpret_as: VariableInterpretAs::NonSpecific }
    }
}

impl vstd::std_specs::convert::FromSpecImpl<String> for Variable {
    open spec fn obeys_from_spec() -> bool {
        true
    }

    open spec fn from_spec(v: String) -> Self {
        plain(VariableKind::String(v))
    }
}

impl From<u64> for Variable {
    fn from(value: u64) -> (r: Self) {
        Variable { kind: VariableKind::UnsignedInteger(value), interpret_as: VariableInterpretAs::NonSpecific }
    }
}

impl vstd::std_specs::convert::FromSpecImpl<u64> for Variable {
    open spec fn obeys_from_spec() -> bool {
        true
    }

    open spec fn from_spec(v: u64) -> Self {
        plain(VariableKind::UnsignedInteger(v))
    }
}

impl From<VariableKind> for Variable {
    fn from(value: VariableKind) -> (r: Self) {
        Variable { kind: value, interpret_as: VariableInterpretAs::NonSpecific }
    }
}

impl vstd::std_specs::convert::FromSpecImpl<VariableKind> for Variable {
    open spec fn obeys_from_spec() -> bool {
        true
    }

    open spec fn from_spec(v: VariableKind) -> Self {
        plain(v)
    }
}

impl From<Vec<Variable>> for Variable {
    fn from(value: Vec<Variable>) -> (r: Self) {
        Variable { kind: VariableKind::List(value), interpret_as: VariableInterpretAs::NonSpecific }
    }
}

impl vstd::std_specs::convert::FromSpecImpl<Vec<Variable>> for Variable {
    open spec fn obeys_from_spec() -> bool {
        true
    }

    open spec fn from_spec(v: Vec<Variable>) -> Self {
        plain(VariableKind::List(v))
    }
}

impl Variable {
    /// The variable for a snowflake id: its decimal notation, as a string.
    pub fn from_id(id: u64) -> (r: Variable)
        ensures
            r.kind is String,
            r.kind->String_0@ == text::decimal(id as nat),
            r.interpret_as == VariableInterpretAs::NonSpecific,
    {
        Variable::from(text::decimal_string(id))
    }

    /// A list of the variables for the given snowflake ids, in order.
    pub fn from_ids(ids: &Vec<u64>) -> (r: Variable)
        ensures
            r.kind is List,
            r.interpret_as == VariableInterpretAs::NonSpecific,
            r.kind->List_0@.len() == ids@.len(),
            forall|i: int| 0 <= i < ids@.len() ==> {
                let x = #[trigger] r.kind->List_0@[i];
                &&& x.kind is String
                &&& x.kind->String_0@ == text::decimal(ids@[i] as nat)
                &&& x.interpret_as == VariableInterpretAs::NonSpecific
            },
    {
        let len = ids.len();
        let mut out: Vec<Variable> = Vec::new();
        let mut i: usize = 0;
        while i < len
            invariant
                i <= len,
                len == ids@.len(),
                out@.len() == i,
                forall|j: int| 0 <= j < i ==> {
                    let x = #[trigger] out@[j];
                    &&& x.kind is String
                    &&& x.kind->String_0@ == text::decimal(ids@[j] as nat)
                    &&& x.interpret_as == VariableInterpretAs::NonSpecific
                },
            decreases len - i,
        {
            out.push(Variable::from_id(ids[i]));
            i = i + 1;
        }
        Variable::from(out)
    }
}

} // verus!
