//! The entity handle table.
//!
//! Guests never see host scene-graph handles; they see opaque 64-bit ids.
//! This table is the sole translation layer between the two spaces. Ids are
//! allocated monotonically and never reused, each host entity has at most
//! one id at a time, and ids whose host entity has disappeared are removed
//! by a periodic sweep. Host entities are carried here as the plain 64-bit
//! values the host shell uses to name them.

use vstd::prelude::*;

verus! {

/// An association list of (plugin-facing id, host entity) pairs.
type Entries = Seq<(u64, u64)>;

/// The entity mapped to `id`, if any.
pub open spec fn spec_lookup(s: Entries, id: u64) -> Option<u64>
    decreases s.len(),
{
    if s.len() == 0 {
        None
    } else if s.last().0 == id {
        Some(s.last().1)
    } else {
        spec_lookup(s.drop_last(), id)
    }
}

/// The id mapped to `entity`, if any.
pub open spec fn spec_reverse_lookup(s: Entries, entity: u64) -> Option<u64>
    decreases s.len(),
{
    if s.len() == 0 {
        None
    } else if s.last().1 == entity {
        Some(s.last().0)
    } else {
        spec_reverse_lookup(s.drop_last(), entity)
    }
}

/// The entries that survive removing `id`.
pub open spec fn spec_remove_id(s: Entries, id: u64) -> Entries
    decreases s.len(),
{
    if s.len() == 0 {
        Seq::empty()
    } else if s.last().0 == id {
        spec_remove_id(s.drop_last(), id)
    } else {
        spec_remove_id(s.drop_last(), id).push(s.last())
    }
}

/// The entries whose entity is in `valid`.
pub open spec fn spec_keep_valid(s: Entries, valid: Seq<u64>) -> Entries
    decreases s.len(),
{
    if s.len() == 0 {
        Seq::empty()
    } else if valid.contains(s.last().1) {
        spec_keep_valid(s.drop_last(), valid).push(s.last())
    } else {
        spec_keep_valid(s.drop_last(), valid)
    }
}

pub open spec fn unique_ids(s: Entries) -> bool {
    forall|j: int, k: int| 0 <= j < k < s.len() ==> (#[trigger] s[j]).0 != (#[trigger] s[k]).0
}

pub open spec fn unique_entities(s: Entries) -> bool {
    forall|j: int, k: int| 0 <= j < k < s.len() ==> (#[trigger] s[j]).1 != (#[trigger] s[k]).1
}

pub open spec fn ids_below(s: Entries, next: u64) -> bool {
    forall|j: int| 0 <= j < s.len() ==> 1 <= (#[trigger] s[j]).0 < next
}

// ---------------------------------------------------------------------------
// Lemmas about the spec functions
// ---------------------------------------------------------------------------

/// An id that occurs nowhere in the table resolves to nothing.
pub proof fn lemma_lookup_absent(s: Entries, id: u64)
    requires
        forall|j: int| 0 <= j < s.len() ==> (#[trigger] s[j]).0 != id,
    ensures
        spec_lookup(s, id) is None,
    decreases s.len(),
{
    if s.len() > 0 {
        assert(s.last() == s[s.len() - 1]);
        lemma_lookup_absent(s.drop_last(), id);
    }
}

/// The entry at any index resolves to its own entity, when ids are unique.
pub proof fn lemma_lookup_at(s: Entries, j: int)
    requires
        unique_ids(s),
        0 <= j < s.len(),
    ensures
        spec_lookup(s, s[j].0) == Some(s[j].1),
    decreases s.len(),
{
    if j == s.len() - 1 {
        assert(s.last() == s[j]);
    } else {
        assert(s.last() == s[s.len() - 1]);
        assert(s[j].0 != s[s.len() - 1].0);
        assert(s.drop_last()[j] == s[j]);
        lemma_lookup_at(s.drop_last(), j);
    }
}

/// The reverse direction of `lemma_lookup_at`, for the entity side.
pub proof fn lemma_reverse_lookup_at(s: Entries, j: int)
    requires
        unique_entities(s),
        0 <= j < s.len(),
    ensures
        spec_reverse_lookup(s, s[j].1) == Some(s[j].0),
    decreases s.len(),
{
    if j == s.len() - 1 {
        assert(s.last() == s[j]);
    } else {
        assert(s.last() == s[s.len() - 1]);
        assert(s[j].1 != s[s.len() - 1].1);
        assert(s.drop_last()[j] == s[j]);
        lemma_reverse_lookup_at(s.drop_last(), j);
    }
}

/// A reverse hit names an entry of the table.
pub proof fn lemma_reverse_lookup_present(s: Entries, entity: u64)
    requires
        spec_reverse_lookup(s, entity) is Some,
    ensures
        exists|j: int|
            0 <= j < s.len() && (#[trigger] s[j]).1 == entity && s[j].0 == spec_reverse_lookup(
                s,
                entity,
            ).unwrap(),
    decreases s.len(),
{
    if s.len() > 0 {
        if s.last().1 == entity {
            assert(s[s.len() - 1].1 == entity);
        } else {
            lemma_reverse_lookup_present(s.drop_last(), entity);
            let j = choose|j: int|
                0 <= j < s.drop_last().len() && (#[trigger] s.drop_last()[j]).1 == entity
                    && s.drop_last()[j].0 == spec_reverse_lookup(s.drop_last(), entity).unwrap();
            assert(s[j] == s.drop_last()[j]);
        }
    }
}

/// A forward hit names an entry of the table.
pub proof fn lemma_lookup_present(s: Entries, id: u64)
    requires
        spec_lookup(s, id) is Some,
    ensures
        exists|j: int|
            0 <= j < s.len() && (#[trigger] s[j]).0 == id && s[j].1 == spec_lookup(s, id).unwrap(),
    decreases s.len(),
{
    if s.len() > 0 {
        if s.last().0 == id {
            assert(s[s.len() - 1].0 == id);
        } else {
            lemma_lookup_present(s.drop_last(), id);
            let j = choose|j: int|
                0 <= j < s.drop_last().len() && (#[trigger] s.drop_last()[j]).0 == id
                    && s.drop_last()[j].1 == spec_lookup(s.drop_last(), id).unwrap();
            assert(s[j] == s.drop_last()[j]);
        }
    }
}

/// An entity that occurs nowhere has no reverse hit.
pub proof fn lemma_reverse_lookup_absent(s: Entries, entity: u64)
    requires
        forall|j: int| 0 <= j < s.len() ==> (#[trigger] s[j]).1 != entity,
    ensures
        spec_reverse_lookup(s, entity) is None,
    decreases s.len(),
{
    if s.len() > 0 {
        assert(s.last() == s[s.len() - 1]);
        lemma_reverse_lookup_absent(s.drop_last(), entity);
    }
}

/// What removing an id does to every lookup, and to the table's shape.
pub proof fn lemma_remove_id_props(s: Entries, id: u64, next: u64)
    requires
        unique_ids(s),
        unique_entities(s),
        ids_below(s, next),
    ensures
        unique_ids(spec_remove_id(s, id)),
        unique_entities(spec_remove_id(s, id)),
        ids_below(spec_remove_id(s, id), next),
        forall|k: int|
            0 <= k < spec_remove_id(s, id).len() ==> s.contains(#[trigger] spec_remove_id(
                s,
                id,
            )[k]),
        spec_lookup(spec_remove_id(s, id), id) is None,
        forall|o: u64| o != id ==> spec_lookup(spec_remove_id(s, id), o) == spec_lookup(s, o),
        forall|e: u64|
            spec_lookup(s, id) != Some(e) ==> spec_reverse_lookup(spec_remove_id(s, id), e)
                == spec_reverse_lookup(s, e),
        spec_lookup(s, id) matches Some(e) ==> spec_reverse_lookup(spec_remove_id(s, id), e)
            is None,
        spec_remove_id(s, id).len() == s.len() - (
        if spec_lookup(s, id) is Some {
            1int
        } else {
            0int
        }),
    decreases s.len(),
{
    let out = spec_remove_id(s, id);
    if s.len() == 0 {
    } else {
        let d = s.drop_last();
        assert(s.last() == s[s.len() - 1]);
        assert(forall|j: int| 0 <= j < d.len() ==> d[j] == s[j]);
        lemma_remove_id_props(d, id, next);
        let dout = spec_remove_id(d, id);
        if s.last().0 == id {
            // The dropped entry is the unique bearer of `id`.
            assert(forall|j: int| 0 <= j < d.len() ==> (#[trigger] d[j]).0 != id);
            lemma_lookup_absent(d, id);
            assert(out == dout);
            assert(forall|k: int| 0 <= k < out.len() ==> d.contains(#[trigger] out[k]));
            assert forall|k: int| 0 <= k < out.len() implies s.contains(#[trigger] out[k]) by {
                let j = choose|j: int| 0 <= j < d.len() && d[j] == out[k];
                assert(s[j] == out[k]);
            }
            assert(spec_lookup(s, id) == Some(s.last().1));
            assert forall|e: u64|
                spec_lookup(s, id) != Some(e) implies spec_reverse_lookup(out, e)
                == spec_reverse_lookup(s, e) by {
                assert(e != s.last().1);
                assert(spec_lookup(d, id) != Some(e));
                assert(spec_reverse_lookup(spec_remove_id(d, id), e) == spec_reverse_lookup(d, e));
                assert(spec_reverse_lookup(s, e) == spec_reverse_lookup(d, e));
            }
            assert forall|e: u64| spec_lookup(s, id) == Some(e) implies spec_reverse_lookup(
                out,
                e,
            ) is None by {
                assert(e == s.last().1);
                assert(forall|j: int| 0 <= j < d.len() ==> (#[trigger] d[j]).1 != e);
                assert(forall|j: int| 0 <= j < dout.len() ==> d.contains(#[trigger] dout[j]));
                assert forall|j: int| 0 <= j < out.len() implies (#[trigger] out[j]).1 != e by {
                    let k = choose|k: int| 0 <= k < d.len() && d[k] == out[j];
                }
                lemma_reverse_lookup_absent(out, e);
            }
            assert forall|o: u64| o != id implies spec_lookup(out, o) == spec_lookup(s, o) by {
                assert(spec_lookup(spec_remove_id(d, id), o) == spec_lookup(d, o));
                assert(spec_lookup(s, o) == spec_lookup(d, o));
            }
        } else {
            assert(out == dout.push(s.last()));
            assert(out.last() == s.last());
            assert(out.drop_last() =~= dout);
            assert(forall|k: int| 0 <= k < dout.len() ==> d.contains(#[trigger] dout[k]));
            assert forall|k: int| 0 <= k < out.len() implies s.contains(#[trigger] out[k]) by {
                if k < out.len() - 1 {
                    assert(out[k] == dout[k]);
                    let j = choose|j: int| 0 <= j < d.len() && d[j] == dout[k];
                    assert(s[j] == out[k]);
                } else {
                    assert(out[k] == s[s.len() - 1]);
                }
            }
            assert(unique_ids(out)) by {
                assert forall|j: int, k: int| 0 <= j < k < out.len() implies (
                #[trigger] out[j]).0 != (#[trigger] out[k]).0 by {
                    if k == out.len() - 1 {
                        let jj = choose|jj: int| 0 <= jj < d.len() && d[jj] == out[j];
                        assert(s[jj] == out[j]);
                        assert(s[jj].0 != s[s.len() - 1].0);
                    }
                }
            }
            assert(unique_entities(out)) by {
                assert forall|j: int, k: int| 0 <= j < k < out.len() implies (
                #[trigger] out[j]).1 != (#[trigger] out[k]).1 by {
                    if k == out.len() - 1 {
                        let jj = choose|jj: int| 0 <= jj < d.len() && d[jj] == out[j];
                        assert(s[jj] == out[j]);
                        assert(s[jj].1 != s[s.len() - 1].1);
                    }
                }
            }
            assert forall|o: u64| o != id implies spec_lookup(out, o) == spec_lookup(s, o) by {
                if s.last().0 != o {
                    assert(spec_lookup(spec_remove_id(d, id), o) == spec_lookup(d, o));
                    assert(spec_lookup(out, o) == spec_lookup(dout, o));
                    assert(spec_lookup(s, o) == spec_lookup(d, o));
                }
            }
            assert forall|e: u64|
                spec_lookup(s, id) != Some(e) implies spec_reverse_lookup(out, e)
                == spec_reverse_lookup(s, e) by {
                if s.last().1 != e {
                    assert(spec_lookup(d, id) != Some(e)) by {
                        if s.last().0 == id {
                            assert(forall|j: int| 0 <= j < d.len() ==> (#[trigger] d[j]).0 != id);
                            lemma_lookup_absent(d, id);
                        }
                    }
                    assert(spec_reverse_lookup(spec_remove_id(d, id), e) == spec_reverse_lookup(
                        d,
                        e,
                    ));
                    assert(spec_reverse_lookup(out, e) == spec_reverse_lookup(dout, e));
                    assert(spec_reverse_lookup(s, e) == spec_reverse_lookup(d, e));
                }
            }
            assert(spec_lookup(out, id) is None) by {
                assert(s.last().0 != id);
                assert(spec_lookup(spec_remove_id(d, id), id) is None);
            }
            assert forall|e: u64| spec_lookup(s, id) == Some(e) implies spec_reverse_lookup(
                out,
                e,
            ) is None by {
                assert(spec_lookup(s, id) == spec_lookup(d, id));
                lemma_lookup_present(d, id);
                let j = choose|j: int|
                    0 <= j < d.len() && (#[trigger] d[j]).0 == id && d[j].1 == spec_lookup(
                        d,
                        id,
                    ).unwrap();
                assert(d[j] == s[j]);
                assert(s[j].1 != s[s.len() - 1].1);
                assert(e != s.last().1);
                assert(spec_reverse_lookup(out, e) == spec_reverse_lookup(dout, e));
            }
        }
    }
}

/// What the validity sweep does to every lookup, and to the table's shape.
pub proof fn lemma_keep_valid_props(s: Entries, valid: Seq<u64>, next: u64)
    requires
        unique_ids(s),
        unique_entities(s),
        ids_below(s, next),
    ensures
        unique_ids(spec_keep_valid(s, valid)),
        unique_entities(spec_keep_valid(s, valid)),
        ids_below(spec_keep_valid(s, valid), next),
        forall|k: int|
            0 <= k < spec_keep_valid(s, valid).len() ==> s.contains(#[trigger] spec_keep_valid(
                s,
                valid,
            )[k]),
        forall|k: int|
            0 <= k < spec_keep_valid(s, valid).len() ==> valid.contains(
                (#[trigger] spec_keep_valid(s, valid)[k]).1,
            ),
        forall|id: u64|
            #[trigger] spec_lookup(spec_keep_valid(s, valid), id) == (match spec_lookup(s, id) {
                Some(e) => if valid.contains(e) {
                    Some(e)
                } else {
                    None
                },
                None => None::<u64>,
            }),
        spec_keep_valid(s, valid).len() <= s.len(),
    decreases s.len(),
{
    let out = spec_keep_valid(s, valid);
    if s.len() == 0 {
    } else {
        let d = s.drop_last();
        assert(s.last() == s[s.len() - 1]);
        assert(forall|j: int| 0 <= j < d.len() ==> d[j] == s[j]);
        lemma_keep_valid_props(d, valid, next);
        let dout = spec_keep_valid(d, valid);
        assert(forall|k: int| 0 <= k < dout.len() ==> d.contains(#[trigger] dout[k]));
        if valid.contains(s.last().1) {
            assert(out == dout.push(s.last()));
            assert(out.last() == s.last());
            assert(out.drop_last() =~= dout);
            assert forall|k: int| 0 <= k < out.len() implies s.contains(#[trigger] out[k]) by {
                if k < out.len() - 1 {
                    assert(out[k] == dout[k]);
                    let j = choose|j: int| 0 <= j < d.len() && d[j] == dout[k];
                    assert(s[j] == out[k]);
                } else {
                    assert(out[k] == s[s.len() - 1]);
                }
            }
            assert(unique_ids(out)) by {
                assert forall|j: int, k: int| 0 <= j < k < out.len() implies (
                #[trigger] out[j]).0 != (#[trigger] out[k]).0 by {
                    if k == out.len() - 1 {
                        let jj = choose|jj: int| 0 <= jj < d.len() && d[jj] == out[j];
                        assert(s[jj] == out[j]);
                        assert(s[jj].0 != s[s.len() - 1].0);
                    }
                }
            }
            assert(unique_entities(out)) by {
                assert forall|j: int, k: int| 0 <= j < k < out.len() implies (
                #[trigger] out[j]).1 != (#[trigger] out[k]).1 by {
                    if k == out.len() - 1 {
                        let jj = choose|jj: int| 0 <= jj < d.len() && d[jj] == out[j];
                        assert(s[jj] == out[j]);
                        assert(s[jj].1 != s[s.len() - 1].1);
                    }
                }
            }
            assert forall|id: u64| #[trigger] spec_lookup(out, id) == (match spec_lookup(s, id) {
                Some(e) => if valid.contains(e) {
                    Some(e)
                } else {
                    None
                },
                None => None::<u64>,
            }) by {
                if s.last().0 != id {
                    assert(spec_lookup(spec_keep_valid(d, valid), id) == (match spec_lookup(
                        d,
                        id,
                    ) {
                        Some(e) => if valid.contains(e) {
                            Some(e)
                        } else {
                            None
                        },
                        None => None::<u64>,
                    }));
                    assert(spec_lookup(out, id) == spec_lookup(dout, id));
                    assert(spec_lookup(s, id) == spec_lookup(d, id));
                }
            }
        } else {
            assert(out == dout);
            assert forall|k: int| 0 <= k < out.len() implies s.contains(#[trigger] out[k]) by {
                let j = choose|j: int| 0 <= j < d.len() && d[j] == out[k];
                assert(s[j] == out[k]);
            }
            assert forall|id: u64| #[trigger] spec_lookup(out, id) == (match spec_lookup(s, id) {
                Some(e) => if valid.contains(e) {
                    Some(e)
                } else {
                    None
                },
                None => None::<u64>,
            }) by {
                if s.last().0 == id {
                    assert(spec_lookup(s, id) == Some(s.last().1));
                    assert(forall|j: int| 0 <= j < d.len() ==> (#[trigger] d[j]).0 != id);
                    lemma_lookup_absent(d, id);
                    assert(spec_lookup(spec_keep_valid(d, valid), id) is None);
                } else {
                    assert(spec_lookup(spec_keep_valid(d, valid), id) == (match spec_lookup(
                        d,
                        id,
                    ) {
                        Some(e) => if valid.contains(e) {
                            Some(e)
                        } else {
                            None
                        },
                        None => None::<u64>,
                    }));
                    assert(spec_lookup(s, id) == spec_lookup(d, id));
                }
            }
        }
    }
}

/// An id that resolves keeps resolving to the same entity until something
/// removes it: removing a different id leaves it untouched, and a sweep
/// that still vouches for its entity keeps it. Together with `register`'s
/// contract — a fresh or existing id always resolves to the entity just
/// registered — this is the table's persistence law.
pub proof fn lemma_lookup_stable(s: Entries, id: u64, e: u64, other: u64, valid: Seq<u64>, next: u64)
    requires
        unique_ids(s),
        unique_entities(s),
        ids_below(s, next),
        spec_lookup(s, id) == Some(e),
    ensures
        other != id ==> spec_lookup(spec_remove_id(s, other), id) == Some(e),
        valid.contains(e) ==> spec_lookup(spec_keep_valid(s, valid), id) == Some(e),
{
    lemma_remove_id_props(s, other, next);
    lemma_keep_valid_props(s, valid, next);
}

// ---------------------------------------------------------------------------
// The table
// ---------------------------------------------------------------------------

/// The bidirectional id/entity map, with monotonic, never-reused ids.
pub struct HandleTable {
    entries: Vec<(u64, u64)>,
    next_id: u64,
}

impl HandleTable {
    /// The association list this table holds.
    pub closed spec fn view(&self) -> Entries {
        self.entries@
    }

    /// The next id the table will allocate.
    pub closed spec fn spec_next_id(&self) -> u64 {
        self.next_id
    }

    /// Well-formedness: ids and entities are unique, ids are positive and
    /// below the allocation cursor.
    pub closed spec fn inv(&self) -> bool {
        &&& unique_ids(self.entries@)
        &&& unique_entities(self.entries@)
        &&& ids_below(self.entries@, self.next_id)
        &&& self.next_id >= 1
    }

    pub fn new() -> (t: HandleTable)
        ensures
            t.inv(),
            t@ == Seq::<(u64, u64)>::empty(),
            t.spec_next_id() == 1,
    {
        HandleTable { entries: Vec::new(), next_id: 1 }
    }

    pub fn len(&self) -> (n: usize)
        ensures
            n == self@.len(),
    {
        self.entries.len()
    }

    /// The next id the table will allocate.
    pub fn next_id(&self) -> (id: u64)
        ensures
            id == self.spec_next_id(),
    {
        self.next_id
    }

    /// The entity behind a plugin-facing id.
    pub fn lookup(&self, id: u64) -> (r: Option<u64>)
        ensures
            r == spec_lookup(self@, id),
    {
        proof {
            assert(self.entries@.take(self.entries@.len() as int) =~= self.entries@);
        }
        let mut j: usize = self.entries.len();
        while j > 0
            invariant
                j <= self.entries@.len(),
                spec_lookup(self.entries@, id) == spec_lookup(self.entries@.take(j as int), id),
            decreases j,
        {
            j = j - 1;
            let (eid, ent) = self.entries[j];
            proof {
                assert(self.entries@.take(j + 1 as int).last() == self.entries@[j as int]);
                assert(self.entries@.take(j + 1 as int).drop_last() =~= self.entries@.take(
                    j as int,
                ));
            }
            if eid == id {
                return Some(ent);
            }
        }
        proof {
            assert(self.entries@.take(0) =~= Seq::<(u64, u64)>::empty());
        }
        None
    }

    /// Maps a host entity to a plugin-facing id. An entity that is already
    /// mapped keeps its id; a new one gets the next monotonic id.
    pub fn register(&mut self, entity: u64) -> (id: u64)
        requires
            old(self).inv(),
            old(self).spec_next_id() < u64::MAX,
        ensures
            final(self).inv(),
            spec_lookup(final(self)@, id) == Some(entity),
            spec_reverse_lookup(final(self)@, entity) == Some(id),
            old(self)@.len() <= final(self)@.len() <= old(self)@.len() + 1,
            spec_reverse_lookup(old(self)@, entity) matches Some(i) ==> id == i && final(self)@
                == old(self)@ && final(self).spec_next_id() == old(self).spec_next_id(),
            spec_reverse_lookup(old(self)@, entity) is None ==> id == old(self).spec_next_id()
                && final(self)@ == old(self)@.push((id, entity)) && final(self).spec_next_id()
                == old(self).spec_next_id() + 1,
            forall|o: u64|
                o != id ==> spec_lookup(final(self)@, o) == spec_lookup(old(self)@, o),
    {
        let ghost sv = self.entries@;
        proof {
            assert(sv.take(sv.len() as int) =~= sv);
        }
        let mut j: usize = self.entries.len();
        while j > 0
            invariant
                *self == *old(self),
                sv == self.entries@,
                old(self).inv(),
                j <= sv.len(),
                spec_reverse_lookup(sv, entity) == spec_reverse_lookup(
                    sv.take(j as int),
                    entity,
                ),
            decreases j,
        {
            j = j - 1;
            let (eid, ent) = self.entries[j];
            proof {
                assert(sv.take(j + 1 as int).last() == sv[j as int]);
                assert(sv.take(j + 1 as int).drop_last() =~= sv.take(j as int));
            }
            if ent == entity {
                proof {
                    lemma_lookup_at(sv, j as int);
                    lemma_reverse_lookup_at(sv, j as int);
                }
                return eid;
            }
        }
        proof {
            assert(self.entries@.take(0) =~= Seq::<(u64, u64)>::empty());
        }
        let id = self.next_id;
        self.entries.push((id, entity));
        self.next_id = self.next_id + 1;
        proof {
            let t = self.entries@;
            assert(t.last() == (id, entity));
            assert(t.drop_last() =~= sv);
            assert(unique_ids(t)) by {
                assert forall|a: int, b: int| 0 <= a < b < t.len() implies (#[trigger] t[a]).0 != (
                #[trigger] t[b]).0 by {
                    if b == t.len() - 1 {
                        assert(t[a] == sv[a]);
                        assert(1 <= sv[a].0 < id);
                    } else {
                        assert(t[a] == sv[a] && t[b] == sv[b]);
                    }
                }
            }
            assert(unique_entities(t)) by {
                assert forall|a: int, b: int| 0 <= a < b < t.len() implies (#[trigger] t[a]).1 != (
                #[trigger] t[b]).1 by {
                    if b == t.len() - 1 {
                        assert(t[a] == sv[a]);
                        if sv[a].1 == entity {
                            lemma_reverse_lookup_at(sv, a);
                        }
                    } else {
                        assert(t[a] == sv[a] && t[b] == sv[b]);
                    }
                }
            }
            assert(ids_below(t, self.next_id)) by {
                assert forall|a: int| 0 <= a < t.len() implies 1 <= (#[trigger] t[a]).0
                    < self.next_id by {
                    if a < t.len() - 1 {
                        assert(t[a] == sv[a]);
                    }
                }
            }
            lemma_lookup_at(t, t.len() - 1);
            lemma_reverse_lookup_at(t, t.len() - 1);
            assert forall|o: u64| o != id implies spec_lookup(t, o) == spec_lookup(sv, o) by {}
        }
        id
    }

    /// Removes an id and its entity; an unknown id leaves the table as it
    /// was.
    pub fn unregister(&mut self, id: u64)
        requires
            old(self).inv(),
        ensures
            final(self).inv(),
            final(self)@ == spec_remove_id(old(self)@, id),
            final(self).spec_next_id() == old(self).spec_next_id(),
            spec_lookup(final(self)@, id) is None,
            forall|o: u64|
                o != id ==> spec_lookup(final(self)@, o) == spec_lookup(old(self)@, o),
            spec_lookup(old(self)@, id) matches Some(e) ==> spec_reverse_lookup(final(self)@, e)
                is None,
    {
        let ghost sv = self.entries@;
        let mut kept: Vec<(u64, u64)> = Vec::new();
        let mut j: usize = 0;
        while j < self.entries.len()
            invariant
                j <= self.entries@.len(),
                sv == self.entries@,
                kept@ == spec_remove_id(sv.take(j as int), id),
            decreases self.entries@.len() - j,
        {
            let (eid, ent) = self.entries[j];
            proof {
                assert(sv.take(j + 1 as int).last() == sv[j as int]);
                assert(sv.take(j + 1 as int).drop_last() =~= sv.take(j as int));
            }
            if eid != id {
                kept.push((eid, ent));
            }
            j = j + 1;
        }
        proof {
            assert(sv.take(sv.len() as int) =~= sv);
        }
        self.entries = kept;
        proof {
            lemma_remove_id_props(sv, id, self.next_id);
        }
    }

    /// The periodic sweep: keeps exactly the entries whose host entity is
    /// in `valid`, and reports how many were dropped. Every surviving id
    /// still resolves to an entity the host vouched for.
    pub fn gc(&mut self, valid: &Vec<u64>) -> (removed: usize)
        requires
            old(self).inv(),
        ensures
            final(self).inv(),
            final(self)@ == spec_keep_valid(old(self)@, valid@),
            final(self).spec_next_id() == old(self).spec_next_id(),
            removed == old(self)@.len() - final(self)@.len(),
            forall|k: int|
                0 <= k < final(self)@.len() ==> valid@.contains((#[trigger] final(self)@[k]).1),
            forall|id: u64|
                #[trigger] spec_lookup(final(self)@, id) == (match spec_lookup(old(self)@, id) {
                    Some(e) => if valid@.contains(e) {
                        Some(e)
                    } else {
                        None
                    },
                    None => None::<u64>,
                }),
    {
        let ghost sv = self.entries@;
        let mut kept: Vec<(u64, u64)> = Vec::new();
        let mut j: usize = 0;
        while j < self.entries.len()
            invariant
                j <= self.entries@.len(),
                sv == self.entries@,
                kept@ == spec_keep_valid(sv.take(j as int), valid@),
                kept@.len() <= j,
            decreases self.entries@.len() - j,
        {
            let (eid, ent) = self.entries[j];
            proof {
                assert(sv.take(j + 1 as int).last() == sv[j as int]);
                assert(sv.take(j + 1 as int).drop_last() =~= sv.take(j as int));
            }
            if contains_u64(valid, ent) {
                kept.push((eid, ent));
            }
            j = j + 1;
        }
        proof {
            assert(sv.take(sv.len() as int) =~= sv);
        }
        let removed = self.entries.len() - kept.len();
        self.entries = kept;
        proof {
            lemma_keep_valid_props(sv, valid@, self.next_id);
        }
        removed
    }
}

/// Whether a value occurs in a vector.
pub fn contains_u64(v: &Vec<u64>, x: u64) -> (r: bool)
    ensures
        r == v@.contains(x),
{
    let mut j: usize = 0;
    while j < v.len()
        invariant
            j <= v@.len(),
            forall|k: int| 0 <= k < j ==> v@[k] != x,
        decreases v@.len() - j,
    {
        if v[j] == x {
            return true;
        }
        j = j + 1;
    }
    proof {
        assert(!v@.contains(x)) by {
            if v@.contains(x) {
                let k = choose|k: int| 0 <= k < v@.len() && v@[k] == x;
            }
        }
    }
    false
}

} // verus!
