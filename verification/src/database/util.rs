use vstd::prelude::*;

use crate::paths::str_eq;

verus! {

/// The id map resolved at init time: names of solvers or test sets paired
/// with the integer ids the store assigned them; a name resolves to its
/// first entry.
pub type IDMap = Vec<(String, i32)>;

/// The id stored under `name`: the first entry whose key matches.
pub open spec fn idmap_get(m: Seq<(String, i32)>, name: Seq<char>) -> Option<i32>
    decreases m.len(),
{
    if m.len() == 0 {
        None
    } else if m[0].0@ == name {
        Some(m[0].1)
    } else {
        idmap_get(m.drop_first(), name)
    }
}

/// Whether `name` is a key of the map.
pub open spec fn idmap_contains(m: Seq<(String, i32)>, name: Seq<char>) -> bool {
    idmap_get(m, name) is Some
}

/// What a name resolves to after appending a fresh entry: existing names keep
/// their id, the new name gains the new id.
pub proof fn lemma_idmap_get_push(m: Seq<(String, i32)>, name: String, id: i32, n: Seq<char>)
    ensures
        idmap_get(m.push((name, id)), n) == (if idmap_contains(m, n) {
            idmap_get(m, n)
        } else if n == name@ {
            Some(id)
        } else {
            None::<i32>
        }),
    decreases m.len(),
{
    if m.len() == 0 {
        assert(m.push((name, id))[0] == (name, id));
        assert(m.push((name, id)).drop_first() =~= m);
    } else {
        lemma_idmap_get_push(m.drop_first(), name, id, n);
        assert(m.push((name, id)).drop_first() =~= m.drop_first().push((name, id)));
        assert(m.push((name, id))[0] == m[0]);
    }
}

/// Appending a fresh entry does not change what existing names resolve to,
/// and the new name resolves to the new id unless it was already present.
pub proof fn lemma_idmap_push(m: Seq<(String, i32)>, name: String, id: i32)
    ensures
        forall|n: Seq<char>|
            idmap_contains(m, n) ==> idmap_get(m.push((name, id)), n) == idmap_get(m, n),
        idmap_contains(m.push((name, id)), name@),
{
    assert forall|n: Seq<char>| idmap_contains(m, n) implies idmap_get(m.push((name, id)), n)
        == idmap_get(m, n) by {
        lemma_idmap_get_push(m, name, id, n);
    }
    lemma_idmap_get_push(m, name, id, name@);
}

/// Look a name up in an id map.
#[verifier::loop_isolation(false)]
pub fn idmap_lookup(m: &IDMap, name: &String) -> (r: Option<i32>)
    ensures
        r == idmap_get(m@, name@),
{
    assert(m@.skip(0) =~= m@);
    let mut i: usize = 0;
    while i < m.len()
        invariant
            0 <= i <= m@.len(),
            idmap_get(m@, name@) == idmap_get(m@.skip(i as int), name@),
        decreases m@.len() - i,
    {
        proof {
            assert(m@.skip(i as int)[0] == m@[i as int]);
            assert(m@.skip(i as int).drop_first() =~= m@.skip(i as int + 1));
        }
        if str_eq(m[i].0.as_str(), name.as_str()) {
            return Some(m[i].1);
        }
        i = i + 1;
    }
    proof {
        assert(m@.skip(m@.len() as int).len() == 0);
    }
    None
}

/// Record the id assigned to a name.
pub fn idmap_insert(m: &mut IDMap, name: String, id: i32)
    ensures
        final(m)@ == old(m)@.push((name, id)),
{
    m.push((name, id));
}

} // verus!
