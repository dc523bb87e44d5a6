use vstd::prelude::*;

verus! {

/// An association list from key codes to action indices.
pub type KeyList = Seq<(i32, usize)>;

/// No key occurs twice.
pub open spec fn keys_unique(s: KeyList) -> bool {
    forall|i: int, j: int| 0 <= i < j < s.len() ==> s[i].0 != s[j].0
}

/// The map that an association list stands for.
pub open spec fn map_of(s: KeyList) -> Map<i32, usize>
    decreases s.len(),
{
    if s.len() == 0 {
        Map::empty()
    } else {
        map_of(s.drop_last()).insert(s.last().0, s.last().1)
    }
}

pub proof fn lemma_map_of_dom(s: KeyList, k: i32)
    ensures
        map_of(s).contains_key(k) <==> exists|i: int| 0 <= i < s.len() && s[i].0 == k,
    decreases s.len(),
{
    if s.len() > 0 {
        lemma_map_of_dom(s.drop_last(), k);
        if exists|i: int| 0 <= i < s.len() && s[i].0 == k {
            let i = choose|i: int| 0 <= i < s.len() && s[i].0 == k;
            if i < s.len() - 1 {
                assert(s.drop_last()[i].0 == k);
            }
        }
        if exists|i: int| 0 <= i < s.len() - 1 && s.drop_last()[i].0 == k {
            let i = choose|i: int| 0 <= i < s.len() - 1 && s.drop_last()[i].0 == k;
            assert(s[i].0 == k);
        }
    }
}

pub proof fn lemma_map_of_index(s: KeyList, i: int)
    requires
        keys_unique(s),
        0 <= i < s.len(),
    ensures
        map_of(s).contains_key(s[i].0),
        map_of(s)[s[i].0] == s[i].1,
    decreases s.len(),
{
    if i < s.len() - 1 {
        lemma_map_of_index(s.drop_last(), i);
    }
}

pub proof fn lemma_map_of_update(s: KeyList, i: int, v: usize)
    requires
        keys_unique(s),
        0 <= i < s.len(),
    ensures
        keys_unique(s.update(i, (s[i].0, v))),
        map_of(s.update(i, (s[i].0, v))) =~= map_of(s).insert(s[i].0, v),
    decreases s.len(),
{
    let t = s.update(i, (s[i].0, v));
    if i < s.len() - 1 {
        assert(t.drop_last() =~= s.drop_last().update(i, (s[i].0, v)));
        lemma_map_of_update(s.drop_last(), i, v);
    } else {
        assert(t.drop_last() =~= s.drop_last());
        lemma_map_of_dom(s.drop_last(), s[i].0);
    }
}

pub proof fn lemma_map_of_remove(s: KeyList, i: int)
    requires
        keys_unique(s),
        0 <= i < s.len(),
    ensures
        keys_unique(s.remove(i)),
        map_of(s.remove(i)) =~= map_of(s).remove(s[i].0),
    decreases s.len(),
{
    let t = s.remove(i);
    if i < s.len() - 1 {
        assert(t.drop_last() =~= s.drop_last().remove(i));
        lemma_map_of_remove(s.drop_last(), i);
    } else {
        assert(t =~= s.drop_last());
        lemma_map_of_dom(s.drop_last(), s[i].0);
    }
}

/// Position of `key` in `v`, if it is there.
pub fn find_key(v: &Vec<(i32, usize)>, key: i32) -> (r: Option<usize>)
    ensures
        match r {
            Some(i) => i < v@.len() && v@[i as int].0 == key,
            None => forall|i: int| 0 <= i < v@.len() ==> v@[i].0 != key,
        },
{
    let mut i: usize = 0;
    while i < v.len()
        invariant
            i <= v@.len(),
            forall|j: int| 0 <= j < i ==> v@[j].0 != key,
        decreases v@.len() - i,
    {
        if v[i].0 == key {
            return Some(i);
        }
        i = i + 1;
    }
    None
}

/// The value under `key`.
pub fn lookup(v: &Vec<(i32, usize)>, key: i32) -> (r: Option<usize>)
    requires
        keys_unique(v@),
    ensures
        r == map_of(v@).get(key),
{
    proof {
        lemma_map_of_dom(v@, key);
    }
    match find_key(v, key) {
        Some(i) => {
            proof {
                lemma_map_of_index(v@, i as int);
            }
            Some(v[i].1)
        },
        None => None,
    }
}

/// Sets `key` to `value`, replacing what was under it.
pub fn insert_key(v: &mut Vec<(i32, usize)>, key: i32, value: usize)
    requires
        keys_unique(old(v)@),
    ensures
        keys_unique(final(v)@),
        map_of(final(v)@) == map_of(old(v)@).insert(key, value),
        forall|j: int| 0 <= j < final(v)@.len() ==> (#[trigger] final(v)@[j]).1 == value || exists|
            i: int,
        | 0 <= i < old(v)@.len() && old(v)@[i] == final(v)@[j],
{
    match find_key(v, key) {
        Some(i) => {
            proof {
                lemma_map_of_update(v@, i as int, value);
            }
            v.set(i, (key, value));
        },
        None => {
            let ghost s = v@;
            v.push((key, value));
            proof {
                assert(v@.drop_last() =~= s);
                assert forall|j: int| 0 <= j < v@.len() implies (#[trigger] v@[j]).1 == value
                    || exists|i: int| 0 <= i < s.len() && s[i] == v@[j] by {
                    if j < s.len() {
                        assert(s[j] == v@[j]);
                    }
                }
            }
        },
    }
}

/// Takes `key` out.
pub fn remove_key(v: &mut Vec<(i32, usize)>, key: i32)
    requires
        keys_unique(old(v)@),
    ensures
        keys_unique(final(v)@),
        map_of(final(v)@) == map_of(old(v)@).remove(key),
        forall|j: int|
            0 <= j < final(v)@.len() ==> exists|i: int|
                0 <= i < old(v)@.len() && old(v)@[i] == #[trigger] final(v)@[j],
{
    proof {
        lemma_map_of_dom(v@, key);
    }
    match find_key(v, key) {
        Some(i) => {
            let ghost s = v@;
            proof {
                lemma_map_of_remove(v@, i as int);
            }
            v.remove(i);
            proof {
                assert forall|j: int| 0 <= j < v@.len() implies exists|k: int|
                    0 <= k < s.len() && s[k] == #[trigger] v@[j] by {
                    if j < i {
                        assert(s[j] == v@[j]);
                    } else {
                        assert(s[j + 1] == v@[j]);
                    }
                }
            }
        },
        None => {
            assert(map_of(v@).remove(key) =~= map_of(v@));
        },
    }
}

} // verus!
