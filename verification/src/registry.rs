//! A directory of entries, each found by the number it carries.

use vstd::prelude::*;

verus! {

/// Something that carries the number it is filed under.
pub trait Keyed: Sized {
    spec fn key(&self) -> u32;
}

/// An entry that can tell its number.
pub trait Entry: Keyed {
    fn id(&self) -> (r: u32)
        ensures
            r == self.key(),
    ;
}

/// The entries are in the order of their numbers, and no number occurs twice.
pub open spec fn ascending<E: Keyed>(s: Seq<E>) -> bool {
    forall|i: int, j: int|
        0 <= i < j < s.len() ==> (#[trigger] s[i]).key() < (#[trigger] s[j]).key()
}

/// The entry at the place `i` is filed under `id`.
pub open spec fn filed<E: Keyed>(s: Seq<E>, id: u32, i: int) -> bool {
    0 <= i < s.len() && s[i].key() == id
}

/// Some entry is filed under `id`.
pub open spec fn listed<E: Keyed>(s: Seq<E>, id: u32) -> bool {
    exists|i: int| filed(s, id, i)
}

/// The entries by their numbers.
pub open spec fn directory<E: Keyed>(s: Seq<E>) -> Map<u32, E> {
    Map::new(|id: u32| listed(s, id), |id: u32| s[choose|i: int| filed(s, id, i)])
}

/// In a directory each entry is found under its own number.
pub proof fn entry_is_found<E: Keyed>(s: Seq<E>, i: int)
    requires
        ascending(s),
        0 <= i < s.len(),
    ensures
        directory(s).contains_key(s[i].key()),
        directory(s)[s[i].key()] == s[i],
{
    let id = s[i].key();
    assert(filed(s, id, i));
    let j = choose|j: int| filed(s, id, j);
    assert(j == i);
}

/// What a number leads to stands among the entries.
pub proof fn found_is_entry<E: Keyed>(s: Seq<E>, id: u32) -> (i: int)
    requires
        directory(s).contains_key(id),
    ensures
        filed(s, id, i),
        directory(s)[id] == s[i],
{
    choose|i: int| filed(s, id, i)
}

/// Two directories that lead to the same entries list them in the same order.
pub proof fn directory_determines_order<E: Keyed>(s: Seq<E>, t: Seq<E>)
    requires
        ascending(s),
        ascending(t),
        directory(s) == directory(t),
    ensures
        s == t,
    decreases s.len(),
{
    if s.len() == 0 {
        if t.len() > 0 {
            entry_is_found(t, 0);
        }
        assert(s =~= t);
    } else {
        entry_is_found(s, s.len() - 1);
        let k = found_is_entry(t, s.last().key());
        if k < t.len() - 1 {
            entry_is_found(t, t.len() - 1);
            let m = found_is_entry(s, t.last().key());
            assert(false);
        }
        assert(t.last() == s.last());
        let a = s.drop_last();
        let b = t.drop_last();
        assert forall|id: u32| #[trigger] directory(a).contains_key(id) implies {
            &&& directory(b).contains_key(id)
            &&& directory(a)[id] == directory(b)[id]
        } by {
            let i = found_is_entry(a, id);
            entry_is_found(s, i);
            let j = found_is_entry(t, id);
            assert(b[j] == t[j]);
            entry_is_found(b, j);
            entry_is_found(a, i);
        }
        assert forall|id: u32| #[trigger] directory(b).contains_key(id) implies directory(
            a,
        ).contains_key(id) by {
            let i = found_is_entry(b, id);
            entry_is_found(t, i);
            let j = found_is_entry(s, id);
            assert(a[j] == s[j]);
            entry_is_found(a, j);
        }
        assert(directory(a).dom() =~= directory(b).dom());
        assert(directory(a) =~= directory(b));
        directory_determines_order(a, b);
        assert(s =~= a.push(s.last()));
        assert(t =~= b.push(t.last()));
    }
}

/// The entries in the order of their numbers.
pub open spec fn listing<E: Keyed>(map: Map<u32, E>) -> Seq<E> {
    choose|s: Seq<E>| ascending(s) && #[trigger] directory(s) == map
}

/// The entries of a directory are listed in their order.
pub proof fn listing_of_directory<E: Keyed>(s: Seq<E>)
    requires
        ascending(s),
    ensures
        listing(directory(s)) == s,
{
    let t = listing(directory(s));
    assert(ascending(t) && directory(t) == directory(s));
    directory_determines_order(s, t);
}

/// A change of the entries that keeps their numbers changes what the numbers lead to.
pub proof fn directory_of_images<E: Keyed, F: Keyed>(s: Seq<E>, image: spec_fn(E) -> F)
    requires
        ascending(s),
        forall|e: E| #[trigger] image(e).key() == e.key(),
    ensures
        ascending(s.map_values(image)),
        directory(s.map_values(image)) == directory(s).map_values(image),
        listing(directory(s).map_values(image)) == s.map_values(image),
{
    let t = s.map_values(image);
    assert forall|i: int, j: int| 0 <= i < j < t.len() implies (#[trigger] t[i]).key() < (
    #[trigger] t[j]).key() by {
        assert(t[i] == image(s[i]) && t[j] == image(s[j]));
        assert(s[i].key() < s[j].key());
    }
    assert forall|k: u32| #[trigger] directory(t).contains_key(k) implies directory(s).contains_key(
        k,
    ) && directory(t)[k] == image(directory(s)[k]) by {
        let i = found_is_entry(t, k);
        assert(t[i] == image(s[i]));
        entry_is_found(s, i);
    }
    assert forall|k: u32| #[trigger] directory(s).contains_key(k) implies directory(
        t,
    ).contains_key(k) by {
        let i = found_is_entry(s, k);
        assert(t[i] == image(s[i]));
        entry_is_found(t, i);
    }
    assert(directory(t).dom() =~= directory(s).map_values(image).dom());
    assert(directory(t) =~= directory(s).map_values(image));
    listing_of_directory(t);
}

/// What is known of the entries after one was filed: its image is filed.
pub proof fn image_of_insert<E, F>(map: Map<u32, E>, image: spec_fn(E) -> F, id: u32, entry: E)
    ensures
        map.insert(id, entry).map_values(image) == map.map_values(image).insert(id, image(entry)),
{
    assert(map.insert(id, entry).map_values(image) =~= map.map_values(image).insert(
        id,
        image(entry),
    ));
}

/// What is known of the entries after one was removed: its image is removed.
pub proof fn image_of_remove<E, F>(map: Map<u32, E>, image: spec_fn(E) -> F, id: u32)
    ensures
        map.remove(id).map_values(image) == map.map_values(image).remove(id),
{
    assert(map.remove(id).map_values(image) =~= map.map_values(image).remove(id));
}

/// The entries that are currently filed.
pub struct Registry<E: Entry> {
    entries: Vec<E>,
}

impl<E: Entry> View for Registry<E> {
    type V = Seq<E>;

    closed spec fn view(&self) -> Seq<E> {
        self.entries@
    }
}

impl<E: Entry> Registry<E> {
    /// The entries are in order, and no number occurs twice.
    pub open spec fn wf(&self) -> bool {
        ascending(self@)
    }

    /// The entries by their numbers.
    pub open spec fn map(&self) -> Map<u32, E> {
        directory(self@)
    }

    /// A registry without entries.
    pub fn new() -> (r: Registry<E>)
        ensures
            r.wf(),
            r@ == Seq::<E>::empty(),
            r.map() == Map::<u32, E>::empty(),
    {
        let r = Registry { entries: Vec::new() };
        assert(r.map() =~= Map::<u32, E>::empty());
        r
    }

    /// How many entries are filed.
    pub fn len(&self) -> (r: usize)
        ensures
            r == self@.len(),
    {
        self.entries.len()
    }

    /// The entry at the place `i` of the order.
    pub fn at(&self, i: usize) -> (r: &E)
        requires
            i < self@.len(),
        ensures
            *r == self@[i as int],
    {
        &self.entries[i]
    }

    /// Removes every entry.
    pub fn clear(&mut self)
        ensures
            final(self).wf(),
            final(self)@ == Seq::<E>::empty(),
            final(self).map() == Map::<u32, E>::empty(),
    {
        self.entries.clear();
        assert(self.map() =~= Map::<u32, E>::empty());
    }

    /// The first place whose number is not below `id`.
    fn rank(&self, id: u32) -> (r: usize)
        requires
            self.wf(),
        ensures
            r <= self@.len(),
            forall|i: int| 0 <= i < r ==> (#[trigger] self@[i]).key() < id,
            forall|i: int| r <= i < self@.len() ==> (#[trigger] self@[i]).key() >= id,
    {
        let mut i: usize = 0;
        while i < self.entries.len() && self.entries[i].id() < id
            invariant
                i <= self@.len(),
                forall|j: int| 0 <= j < i ==> (#[trigger] self@[j]).key() < id,
            decreases self@.len() - i,
        {
            i = i + 1;
        }
        i
    }

    /// The place of the entry that is filed under `id`.
    pub fn position(&self, id: u32) -> (r: Option<usize>)
        requires
            self.wf(),
        ensures
            match r {
                Some(i) => filed(self@, id, i as int) && self.map().contains_key(id)
                    && self.map()[id] == self@[i as int],
                None => !self.map().contains_key(id),
            },
    {
        let i = self.rank(id);
        if i < self.entries.len() && self.entries[i].id() == id {
            proof {
                entry_is_found(self@, i as int);
            }
            Some(i)
        } else {
            proof {
                if listed(self@, id) {
                    let j = choose|j: int| filed(self@, id, j);
                    assert(self@[j].key() == id);
                }
            }
            None
        }
    }

    /// The entry that is filed under `id`.
    pub fn get(&self, id: u32) -> (r: Option<&E>)
        requires
            self.wf(),
        ensures
            match r {
                Some(entry) => self.map().contains_key(id) && *entry == self.map()[id],
                None => !self.map().contains_key(id),
            },
    {
        match self.position(id) {
            Some(i) => Some(&self.entries[i]),
            None => None,
        }
    }

    /// The entry at the place `i` of the order, for a change that keeps its number.
    pub fn at_mut(&mut self, i: usize) -> (r: &mut E)
        requires
            old(self).wf(),
            i < old(self)@.len(),
        ensures
            *r == old(self)@[i as int],
            final(self)@ == old(self)@.update(i as int, *final(r)),
            final(r).key() == r.key() ==> {
                &&& final(self).wf()
                &&& final(self).map() == old(self).map().insert(r.key(), *final(r))
            },
    {
        let ghost s = self@;
        assert forall|e: E| #[trigger] e.key() == s[i as int].key() implies {
            &&& ascending(s.update(i as int, e))
            &&& directory(s.update(i as int, e)) == directory(s).insert(e.key(), e)
        } by {
            update_is_insert(s, i as int, e);
        }
        &mut self.entries[i]
    }

    /// Puts `entry` in the place `i` of an entry with the same number.
    pub fn replace(&mut self, i: usize, entry: E)
        requires
            old(self).wf(),
            filed(old(self)@, entry.key(), i as int),
        ensures
            final(self).wf(),
            final(self)@ == old(self)@.update(i as int, entry),
            final(self).map() == old(self).map().insert(entry.key(), entry),
    {
        self.entries.set(i, entry);
        proof {
            update_is_insert(old(self)@, i as int, entry);
        }
    }

    /// Files `entry` under its number, in place of one that was filed there.
    pub fn insert(&mut self, entry: E)
        requires
            old(self).wf(),
        ensures
            final(self).wf(),
            final(self).map() == old(self).map().insert(entry.key(), entry),
    {
        let id = entry.id();
        match self.position(id) {
            Some(i) => {
                self.replace(i, entry);
            },
            None => {
                let i = self.rank(id);
                self.entries.insert(i, entry);
                proof {
                    let s = old(self)@;
                    let t = self@;
                    assert forall|a: int, b: int| 0 <= a < b < t.len() implies (
                    #[trigger] t[a]).key() < (#[trigger] t[b]).key() by {
                        if a < i {
                            assert(t[a] == s[a]);
                        } else if a > i {
                            assert(t[a] == s[a - 1]);
                        }
                        if b < i {
                            assert(t[b] == s[b]);
                        } else if b > i {
                            assert(t[b] == s[b - 1]);
                            assert(s[b - 1].key() != id) by {
                                assert(s[b - 1].key() == id ==> filed(s, id, b - 1));
                            }
                        }
                    }
                    let wanted = directory(s).insert(id, entry);
                    assert forall|k: u32| #[trigger] wanted.contains_key(k) implies {
                        &&& directory(t).contains_key(k)
                        &&& directory(t)[k] == wanted[k]
                    } by {
                        if k == id {
                            entry_is_found(t, i as int);
                        } else {
                            let j = found_is_entry(s, k);
                            if j < i {
                                assert(t[j] == s[j]);
                                entry_is_found(t, j);
                            } else {
                                assert(t[j + 1] == s[j]);
                                entry_is_found(t, j + 1);
                            }
                        }
                    }
                    assert forall|k: u32| #[trigger] directory(t).contains_key(k) implies {
                        wanted.contains_key(k)
                    } by {
                        let j = found_is_entry(t, k);
                        if j < i {
                            entry_is_found(s, j);
                        } else if j > i {
                            entry_is_found(s, j - 1);
                        }
                    }
                    assert(directory(t).dom() =~= wanted.dom());
                    assert(directory(t) =~= wanted);
                }
            },
        }
    }

    /// Removes the entry that is filed under `id`, if there is one.
    pub fn remove(&mut self, id: u32)
        requires
            old(self).wf(),
        ensures
            final(self).wf(),
            final(self).map() == old(self).map().remove(id),
    {
        match self.position(id) {
            Some(i) => {
                self.entries.remove(i);
                proof {
                    let s = old(self)@;
                    let t = self@;
                    assert(t =~= s.remove(i as int));
                    assert forall|a: int, b: int| 0 <= a < b < t.len() implies (
                    #[trigger] t[a]).key() < (#[trigger] t[b]).key() by {
                        let c = if a < i { a } else { a + 1 };
                        let d = if b < i { b } else { b + 1 };
                        assert(t[a] == s[c] && t[b] == s[d]);
                    }
                    let wanted = directory(s).remove(id);
                    assert forall|k: u32| #[trigger] wanted.contains_key(k) implies {
                        &&& directory(t).contains_key(k)
                        &&& directory(t)[k] == wanted[k]
                    } by {
                        let j = found_is_entry(s, k);
                        let c = if j < i { j } else { j - 1 };
                        assert(t[c] == s[j]);
                        entry_is_found(t, c);
                    }
                    assert forall|k: u32| #[trigger] directory(t).contains_key(k) implies {
                        wanted.contains_key(k)
                    } by {
                        let j = found_is_entry(t, k);
                        let c = if j < i { j } else { j + 1 };
                        assert(s[c] == t[j]);
                        entry_is_found(s, c);
                        assert(s[c].key() != s[i as int].key());
                    }
                    assert(directory(t).dom() =~= wanted.dom());
                    assert(directory(t) =~= wanted);
                }
            },
            None => {
                assert(self.map().remove(id) =~= self.map());
            },
        }
    }

    /// The entry that is filed under `id`, for a change that keeps its number.
    pub fn get_mut(&mut self, id: u32) -> (r: Option<&mut E>)
        requires
            old(self).wf(),
        ensures
            match r {
                Some(entry) => {
                    &&& old(self).map().contains_key(id)
                    &&& *entry == old(self).map()[id]
                    &&& final(entry).key() == id ==> {
                        &&& final(self).wf()
                        &&& final(self).map() == old(self).map().insert(id, *final(entry))
                    }
                },
                None => !old(self).map().contains_key(id) && *final(self) == *old(self),
            },
    {
        match self.position(id) {
            Some(i) => {
                let ghost s = self@;
                assert forall|e: E| #[trigger] e.key() == id implies {
                    &&& ascending(s.update(i as int, e))
                    &&& directory(s.update(i as int, e)) == directory(s).insert(id, e)
                } by {
                    update_is_insert(s, i as int, e);
                }
                let entry = &mut self.entries[i];
                Some(entry)
            },
            None => None,
        }
    }
}

/// Overwriting an entry by one with the same number files it anew.
proof fn update_is_insert<E: Keyed>(s: Seq<E>, i: int, entry: E)
    requires
        ascending(s),
        filed(s, entry.key(), i),
    ensures
        ascending(s.update(i, entry)),
        directory(s.update(i, entry)) == directory(s).insert(entry.key(), entry),
{
    let t = s.update(i, entry);
    let id = entry.key();
    assert forall|a: int, b: int| 0 <= a < b < t.len() implies (#[trigger] t[a]).key() < (
    #[trigger] t[b]).key() by {
        assert(t[a].key() == s[a].key() && t[b].key() == s[b].key());
    }
    let wanted = directory(s).insert(id, entry);
    assert forall|k: u32| #[trigger] wanted.contains_key(k) implies {
        &&& directory(t).contains_key(k)
        &&& directory(t)[k] == wanted[k]
    } by {
        if k == id {
            entry_is_found(t, i);
        } else {
            let j = found_is_entry(s, k);
            entry_is_found(t, j);
        }
    }
    assert forall|k: u32| #[trigger] directory(t).contains_key(k) implies wanted.contains_key(
        k,
    ) by {
        let j = found_is_entry(t, k);
        entry_is_found(s, j);
    }
    assert(directory(t).dom() =~= wanted.dom());
    assert(directory(t) =~= wanted);
}

} // verus!
