//! The versioned sweep shared by the catalog containers: every entry carries
//! the version of the pass that last touched it, and a sweep drops the entries
//! that the current pass did not touch.

use std::collections::HashMap;
use std::hash::Hash;
use vstd::prelude::*;
use vstd::std_specs::hash::*;
use vstd::std_specs::iter::IteratorSpec;

verus! {

broadcast use vstd::std_specs::hash::group_hash_axioms;

/// An entry of a swept container.
pub trait Stamped: Sized {
    /// The entry survives a sweep at `version`.
    spec fn stays(&self, version: u32) -> bool;

    /// `self` is what a sweep at `version` leaves of `before`.
    spec fn swept_from(&self, before: &Self, version: u32) -> bool;

    /// Whether the entry survives a sweep at `version`.
    fn check_stays(&self, version: u32) -> (b: bool)
        ensures
            b == self.stays(version),
    ;

    /// Sweeps what the entry holds.
    fn sweep(&mut self, version: u32)
        requires
            old(self).stays(version),
        ensures
            final(self).swept_from(old(self), version),
    ;
}

/// The keys of `m`, each once, in the order in which the map hands them out.
pub fn keys_of<K: Copy + Eq + Hash, V>(m: &HashMap<K, V>) -> (keys: Vec<K>)
    requires
        obeys_key_model::<K>(),
    ensures
        keys@.no_duplicates(),
        forall|k: K| keys@.contains(k) <==> m@.contains_key(k),
{
    let mut out: Vec<K> = Vec::new();
    let it0 = m.keys();
    let ghost all = it0.remaining().unref();
    proof {
        assert(all.to_set() == m@.dom());
        assert(it0.remaining().no_duplicates());
    }
    for k in it: it0
        invariant
            out@.len() == it.index(),
            forall|j: int| 0 <= j < out@.len() ==> out@[j] == *it.seq()[j],
    {
        out.push(*k);
    }
    proof {
        assert(out@ =~= all);
        assert forall|k: K| out@.contains(k) <==> m@.contains_key(k) by {
            assert(all.to_set().contains(k) <==> m@.dom().contains(k));
        }
    }
    out
}

/// The entries of `m` that stay at `version`.
pub open spec fn staying<K, V: Stamped>(m: Map<K, V>, version: u32) -> Map<K, V> {
    Map::new(|k: K| m.contains_key(k) && m[k].stays(version), |k: K| m[k])
}

/// One of the first `i` keys is `k`.
pub open spec fn seen<K>(keys: Seq<K>, i: int, k: K) -> bool {
    exists|j: int| 0 <= j < i && j < keys.len() && keys[j] == k
}

/// Sweeps `m` at `version`: the entries that do not stay are removed, the
/// others are swept in their turn.
pub fn sweep_map<K: Copy + Eq + Hash, V: Stamped>(m: &mut HashMap<K, V>, version: u32)
    requires
        obeys_key_model::<K>(),
    ensures
        forall|k: K| #[trigger]
            final(m)@.contains_key(k) <==> old(m)@.contains_key(k) && old(m)@[k].stays(version),
        forall|k: K| #[trigger]
            final(m)@.contains_key(k) ==> final(m)@[k].swept_from(&old(m)@[k], version),
{
    let keys = keys_of(m);
    let ghost before = m@;
    let mut i: usize = 0;
    while i < keys.len()
        invariant
            obeys_key_model::<K>(),
            i <= keys@.len(),
            keys@.no_duplicates(),
            forall|k: K| keys@.contains(k) <==> before.contains_key(k),
            forall|k: K| #[trigger]
                m@.contains_key(k) <==> before.contains_key(k) && (seen(keys@, i as int, k)
                    ==> before[k].stays(version)),
            forall|k: K| #[trigger]
                m@.contains_key(k) ==> if seen(keys@, i as int, k) {
                    m@[k].swept_from(&before[k], version)
                } else {
                    m@[k] == before[k]
                },
        decreases keys@.len() - i,
    {
        let key = keys[i];
        let ghost prev = m@;
        assert(keys@.contains(key));
        assert(!seen(keys@, i as int, key)) by {
            if seen(keys@, i as int, key) {
                let j = choose|j: int| 0 <= j < i && j < keys@.len() && keys@[j] == key;
                assert(keys@[j] == keys@[i as int]);
            }
        }
        assert(prev.contains_key(key));
        let taken = m.remove(&key);
        match taken {
            Some(mut v) => {
                if v.check_stays(version) {
                    v.sweep(version);
                    m.insert(key, v);
                }
            },
            None => {},
        }
        proof {
            assert(seen(keys@, i + 1, key));
            assert forall|k: K| k != key implies (seen(keys@, i + 1, k) <==> seen(
                keys@,
                i as int,
                k,
            )) by {
                if seen(keys@, i + 1, k) {
                    let j = choose|j: int| 0 <= j < i + 1 && j < keys@.len() && keys@[j] == k;
                    assert(j < i);
                }
            }
            assert forall|k: K| #[trigger]
                m@.contains_key(k) <==> before.contains_key(k) && (seen(keys@, i + 1, k)
                    ==> before[k].stays(version)) by {
                if k != key {
                    assert(m@.contains_key(k) <==> prev.contains_key(k));
                }
            }
            assert forall|k: K| #[trigger] m@.contains_key(k) implies if seen(keys@, i + 1, k) {
                m@[k].swept_from(&before[k], version)
            } else {
                m@[k] == before[k]
            } by {
                if k != key {
                    assert(prev.contains_key(k));
                    assert(m@[k] == prev[k]);
                }
            }
        }
        i += 1;
    }
    proof {
        assert forall|k: K| before.contains_key(k) implies seen(keys@, i as int, k) by {
            assert(keys@.contains(k));
            let j = choose|j: int| 0 <= j < keys@.len() && keys@[j] == k;
            assert(keys@[j] == k);
        }
    }
}

} // verus!
