//! The handles of the downloads that are running, by download id.

use vstd::prelude::*;

verus! {

/// Law: the handle registered under an id is the one a removal under that
/// id hands back, and the removal leaves every other registration as it
/// was before the id was registered.
pub proof fn lemma_register_then_remove<H>(before: Map<Seq<char>, H>, id: Seq<char>, handle: H)
    ensures
        before.insert(id, handle).dom().contains(id),
        before.insert(id, handle)[id] == handle,
        before.insert(id, handle).remove(id) == before.remove(id),
{
    assert(before.insert(id, handle).remove(id) =~= before.remove(id));
}

/// Running tasks keyed by download id: starting a download registers its
/// handle, and deleting a download or finishing it takes the handle out.
pub struct TaskRegistry<H> {
    entries: Vec<(String, H)>,
}

impl<H> TaskRegistry<H> {
    /// No id is registered twice.
    #[verifier::type_invariant]
    spec fn ids_distinct(&self) -> bool {
        forall|i: int, j: int|
            0 <= i < self.entries@.len() && 0 <= j < self.entries@.len() && i != j
                ==> #[trigger] self.entries@[i].0@ != #[trigger] self.entries@[j].0@
    }

    closed spec fn has_key_at(s: Seq<(String, H)>, k: Seq<char>, i: int) -> bool {
        0 <= i < s.len() && s[i].0@ == k
    }

    closed spec fn map_of(s: Seq<(String, H)>) -> Map<Seq<char>, H> {
        Map::new(
            |k: Seq<char>| exists|i: int| Self::has_key_at(s, k, i),
            |k: Seq<char>| s[choose|i: int| Self::has_key_at(s, k, i)].1,
        )
    }

    /// The registered handles as a map from download id.
    pub closed spec fn handles(&self) -> Map<Seq<char>, H> {
        Self::map_of(self.entries@)
    }

    proof fn lemma_value_at(s: Seq<(String, H)>, i: int)
        requires
            0 <= i < s.len(),
            forall|a: int, b: int|
                0 <= a < s.len() && 0 <= b < s.len() && a != b ==> #[trigger] s[a].0@
                    != #[trigger] s[b].0@,
        ensures
            Self::map_of(s).dom().contains(s[i].0@),
            Self::map_of(s)[s[i].0@] == s[i].1,
    {
        assert(Self::has_key_at(s, s[i].0@, i));
        let j = choose|j: int| Self::has_key_at(s, s[i].0@, j);
        assert(j == i);
    }

    /// An empty registry.
    pub fn new() -> (r: TaskRegistry<H>)
        ensures
            r.handles() == Map::<Seq<char>, H>::empty(),
    {
        let r = TaskRegistry { entries: Vec::new() };
        assert(r.handles() =~= Map::<Seq<char>, H>::empty());
        r
    }

    fn find_in(entries: &Vec<(String, H)>, id: &String) -> (r: Option<usize>)
        ensures
            match r {
                Some(i) => i < entries@.len() && entries@[i as int].0@ == id@,
                None => forall|i: int|
                    0 <= i < entries@.len() ==> #[trigger] entries@[i].0@ != id@,
            },
    {
        let n = entries.len();
        let mut i: usize = 0;
        while i < n
            invariant
                n == entries@.len(),
                i <= n,
                forall|j: int| 0 <= j < i ==> #[trigger] entries@[j].0@ != id@,
            decreases n - i,
        {
            if entries[i].0 == *id {
                return Some(i);
            }
            i = i + 1;
        }
        None
    }

    /// Whether a handle is registered for `id`.
    pub fn contains(&self, id: &str) -> (r: bool)
        ensures
            r == self.handles().dom().contains(id@),
    {
        proof {
            use_type_invariant(self);
        }
        let key = String::from_str(id);
        match Self::find_in(&self.entries, &key) {
            Some(i) => {
                proof {
                    Self::lemma_value_at(self.entries@, i as int);
                }
                true
            },
            None => {
                assert(!self.handles().dom().contains(id@));
                false
            },
        }
    }

    /// Registers `handle` under `id`, as `HashMap::insert` does: a handle
    /// already registered under `id` is replaced and handed back.
    pub fn insert(&mut self, id: String, handle: H) -> (previous: Option<H>)
        ensures
            final(self).handles() == old(self).handles().insert(id@, handle),
            match previous {
                Some(h) => old(self).handles().dom().contains(id@) && h == old(self).handles()[id@],
                None => !old(self).handles().dom().contains(id@),
            },
    {
        proof {
            use_type_invariant(&*self);
        }
        let ghost old_entries = self.entries@;
        let ghost key = id@;
        let mut entries: Vec<(String, H)> = Vec::new();
        std::mem::swap(&mut entries, &mut self.entries);
        match Self::find_in(&entries, &id) {
            Some(i) => {
                proof {
                    Self::lemma_value_at(old_entries, i as int);
                }
                let (_, previous) = entries.remove(i);
                entries.push((id, handle));
                let ghost s = entries@;
                assert forall|a: int, b: int|
                    0 <= a < s.len() && 0 <= b < s.len() && a != b implies #[trigger] s[a].0@
                    != #[trigger] s[b].0@ by {
                    if a < s.len() - 1 && b < s.len() - 1 {
                        let a0 = if a < i { a } else { a + 1 };
                        let b0 = if b < i { b } else { b + 1 };
                        assert(s[a] == old_entries[a0]);
                        assert(s[b] == old_entries[b0]);
                    } else if a < s.len() - 1 {
                        let a0 = if a < i { a } else { a + 1 };
                        assert(s[a] == old_entries[a0]);
                        assert(old_entries[a0].0@ != old_entries[i as int].0@);
                    } else {
                        let b0 = if b < i { b } else { b + 1 };
                        assert(s[b] == old_entries[b0]);
                        assert(old_entries[b0].0@ != old_entries[i as int].0@);
                    }
                }
                proof {
                    let m_new = Self::map_of(s);
                    let m_old = Self::map_of(old_entries).insert(key, handle);
                    assert forall|k: Seq<char>| m_new.dom().contains(k) <==> m_old.dom().contains(
                        k,
                    ) by {
                        if m_new.dom().contains(k) {
                            let a = choose|a: int| Self::has_key_at(s, k, a);
                            if a < s.len() - 1 {
                                let a0 = if a < i { a } else { a + 1 };
                                assert(Self::has_key_at(old_entries, k, a0));
                            }
                        }
                        if m_old.dom().contains(k) && k != key {
                            let a0 = choose|a: int| Self::has_key_at(old_entries, k, a);
                            assert(a0 != i);
                            let a = if a0 < i { a0 } else { a0 - 1 };
                            assert(s[a] == old_entries[a0]);
                            assert(Self::has_key_at(s, k, a));
                        }
                        if k == key {
                            assert(Self::has_key_at(s, k, s.len() - 1));
                        }
                    }
                    assert forall|k: Seq<char>| #[trigger] m_new.dom().contains(k) implies m_new[k]
                        == m_old[k] by {
                        let a = choose|a: int| Self::has_key_at(s, k, a);
                        Self::lemma_value_at(s, a);
                        if a < s.len() - 1 {
                            let a0 = if a < i { a } else { a + 1 };
                            assert(s[a] == old_entries[a0]);
                            Self::lemma_value_at(old_entries, a0);
                        }
                    }
                    assert(m_new =~= m_old);
                }
                self.entries = entries;
                Some(previous)
            },
            None => {
                entries.push((id, handle));
                let ghost s = entries@;
                assert forall|a: int, b: int|
                    0 <= a < s.len() && 0 <= b < s.len() && a != b implies #[trigger] s[a].0@
                    != #[trigger] s[b].0@ by {
                    if a < s.len() - 1 && b < s.len() - 1 {
                        assert(s[a] == old_entries[a]);
                        assert(s[b] == old_entries[b]);
                    } else if a < s.len() - 1 {
                        assert(s[a] == old_entries[a]);
                    } else {
                        assert(s[b] == old_entries[b]);
                    }
                }
                proof {
                    let m_new = Self::map_of(s);
                    let m_old = Self::map_of(old_entries).insert(key, handle);
                    assert forall|k: Seq<char>| m_new.dom().contains(k) <==> m_old.dom().contains(
                        k,
                    ) by {
                        if m_new.dom().contains(k) {
                            let a = choose|a: int| Self::has_key_at(s, k, a);
                            if a < s.len() - 1 {
                                assert(Self::has_key_at(old_entries, k, a));
                            }
                        }
                        if m_old.dom().contains(k) && k != key {
                            let a0 = choose|a: int| Self::has_key_at(old_entries, k, a);
                            assert(s[a0] == old_entries[a0]);
                            assert(Self::has_key_at(s, k, a0));
                        }
                        if k == key {
                            assert(Self::has_key_at(s, k, s.len() - 1));
                        }
                    }
                    assert forall|k: Seq<char>| #[trigger] m_new.dom().contains(k) implies m_new[k]
                        == m_old[k] by {
                        let a = choose|a: int| Self::has_key_at(s, k, a);
                        Self::lemma_value_at(s, a);
                        if a < s.len() - 1 {
                            assert(s[a] == old_entries[a]);
                            Self::lemma_value_at(old_entries, a);
                        }
                    }
                    assert(m_new =~= m_old);
                    assert(!Self::map_of(old_entries).dom().contains(key));
                }
                self.entries = entries;
                None
            },
        }
    }

    /// Takes the handle registered under `id` out, as `HashMap::remove` does.
    pub fn remove(&mut self, id: &str) -> (removed: Option<H>)
        ensures
            final(self).handles() == old(self).handles().remove(id@),
            match removed {
                Some(h) => old(self).handles().dom().contains(id@) && h == old(self).handles()[id@],
                None => !old(self).handles().dom().contains(id@),
            },
    {
        proof {
            use_type_invariant(&*self);
        }
        let ghost old_entries = self.entries@;
        let key = String::from_str(id);
        let mut entries: Vec<(String, H)> = Vec::new();
        std::mem::swap(&mut entries, &mut self.entries);
        match Self::find_in(&entries, &key) {
            Some(i) => {
                proof {
                    Self::lemma_value_at(old_entries, i as int);
                }
                let (_, h) = entries.remove(i);
                let ghost s = entries@;
                assert forall|a: int, b: int|
                    0 <= a < s.len() && 0 <= b < s.len() && a != b implies #[trigger] s[a].0@
                    != #[trigger] s[b].0@ by {
                    let a0 = if a < i { a } else { a + 1 };
                    let b0 = if b < i { b } else { b + 1 };
                    assert(s[a] == old_entries[a0]);
                    assert(s[b] == old_entries[b0]);
                }
                proof {
                    let m_new = Self::map_of(s);
                    let m_old = Self::map_of(old_entries).remove(id@);
                    assert forall|k: Seq<char>| m_new.dom().contains(k) <==> m_old.dom().contains(
                        k,
                    ) by {
                        if m_new.dom().contains(k) {
                            let a = choose|a: int| Self::has_key_at(s, k, a);
                            let a0 = if a < i { a } else { a + 1 };
                            assert(s[a] == old_entries[a0]);
                            assert(Self::has_key_at(old_entries, k, a0));
                            assert(a0 != i);
                        }
                        if m_old.dom().contains(k) {
                            let a0 = choose|a: int| Self::has_key_at(old_entries, k, a);
                            assert(a0 != i);
                            let a = if a0 < i { a0 } else { a0 - 1 };
                            assert(s[a] == old_entries[a0]);
                            assert(Self::has_key_at(s, k, a));
                        }
                    }
                    assert forall|k: Seq<char>| #[trigger] m_new.dom().contains(k) implies m_new[k]
                        == m_old[k] by {
                        let a = choose|a: int| Self::has_key_at(s, k, a);
                        Self::lemma_value_at(s, a);
                        let a0 = if a < i { a } else { a + 1 };
                        assert(s[a] == old_entries[a0]);
                        Self::lemma_value_at(old_entries, a0);
                    }
                    assert(m_new =~= m_old);
                }
                self.entries = entries;
                Some(h)
            },
            None => {
                self.entries = entries;
                assert(!self.handles().dom().contains(id@));
                assert(self.handles().remove(id@) =~= self.handles());
                None
            },
        }
    }
}

} // verus!
