//! The registry of running tasks: one control handle per reminder name.

use vstd::prelude::*;

verus! {

/// A registered task: its reminder's name, the id it was given and the
/// handle that reaches it.
pub struct Entry<H> {
    pub name: String,
    pub id: u64,
    pub handle: H,
}

/// Running tasks by name. Names are unique; ids are handed out in
/// increasing order, so a task that ended can never remove its successor.
pub struct Registry<H> {
    pub entries: Vec<Entry<H>>,
    pub next_id: u64,
}

pub open spec fn names_unique<H>(s: Seq<Entry<H>>) -> bool {
    forall|i: int, j: int|
        0 <= i < s.len() && 0 <= j < s.len() && i != j ==> s[i].name@ != s[j].name@
}

pub open spec fn has_name<H>(s: Seq<Entry<H>>, n: Seq<char>) -> bool {
    exists|i: int| 0 <= i < s.len() && #[trigger] s[i].name@ == n
}

/// What the entries hold: name to id and handle.
pub open spec fn table<H>(s: Seq<Entry<H>>) -> Map<Seq<char>, (u64, H)> {
    Map::new(
        |n: Seq<char>| has_name(s, n),
        |n: Seq<char>|
            {
                let i = choose|i: int| 0 <= i < s.len() && #[trigger] s[i].name@ == n;
                (s[i].id, s[i].handle)
            },
    )
}

/// The table after activating `handle` under `name` with id `id`, and the
/// handle it replaced.
pub open spec fn activated<H>(m: Map<Seq<char>, (u64, H)>, name: Seq<char>, id: u64, handle: H) -> (
    Map<Seq<char>, (u64, H)>,
    Option<H>,
) {
    (
        m.insert(name, (id, handle)),
        if m.contains_key(name) {
            Some(m[name].1)
        } else {
            None
        },
    )
}

/// The table after the task `id` under `name` left it: only that very
/// task's entry goes.
pub open spec fn removed<H>(m: Map<Seq<char>, (u64, H)>, name: Seq<char>, id: u64) -> Map<
    Seq<char>,
    (u64, H),
> {
    if m.contains_key(name) && m[name].0 == id {
        m.remove(name)
    } else {
        m
    }
}

proof fn lemma_table_at<H>(s: Seq<Entry<H>>, i: int)
    requires
        names_unique(s),
        0 <= i < s.len(),
    ensures
        table(s).contains_key(s[i].name@),
        table(s)[s[i].name@] == (s[i].id, s[i].handle),
{
    let n = s[i].name@;
    assert(has_name(s, n));
    let j = choose|j: int| 0 <= j < s.len() && #[trigger] s[j].name@ == n;
    assert(j == i);
}

proof fn lemma_table_remove<H>(s: Seq<Entry<H>>, i: int)
    requires
        names_unique(s),
        0 <= i < s.len(),
    ensures
        names_unique(s.remove(i)),
        table(s.remove(i)) =~= table(s).remove(s[i].name@),
{
    let r = s.remove(i);
    assert forall|a: int, b: int|
        0 <= a < r.len() && 0 <= b < r.len() && a != b implies r[a].name@ != r[b].name@ by {
        let a0 = if a < i { a } else { a + 1 };
        let b0 = if b < i { b } else { b + 1 };
        assert(r[a] == s[a0] && r[b] == s[b0]);
    }
    assert forall|n: Seq<char>| #[trigger] table(r).contains_key(n) == table(s).remove(
        s[i].name@,
    ).contains_key(n) by {
        if has_name(r, n) {
            let a = choose|a: int| 0 <= a < r.len() && #[trigger] r[a].name@ == n;
            let a0 = if a < i { a } else { a + 1 };
            assert(r[a] == s[a0]);
            assert(has_name(s, n));
        }
        if has_name(s, n) && n != s[i].name@ {
            let a = choose|a: int| 0 <= a < s.len() && #[trigger] s[a].name@ == n;
            let a1 = if a < i { a } else { a - 1 };
            assert(r[a1] == s[a]);
            assert(has_name(r, n));
        }
    }
    assert forall|n: Seq<char>| #[trigger] table(r).contains_key(n) implies table(r)[n] == table(
        s,
    )[n] by {
        let a = choose|a: int| 0 <= a < r.len() && #[trigger] r[a].name@ == n;
        let a0 = if a < i { a } else { a + 1 };
        assert(r[a] == s[a0]);
        lemma_table_at(r, a);
        lemma_table_at(s, a0);
    }
}

proof fn lemma_table_push<H>(s: Seq<Entry<H>>, e: Entry<H>)
    requires
        names_unique(s),
        !has_name(s, e.name@),
    ensures
        names_unique(s.push(e)),
        table(s.push(e)) =~= table(s).insert(e.name@, (e.id, e.handle)),
{
    let r = s.push(e);
    assert forall|a: int, b: int|
        0 <= a < r.len() && 0 <= b < r.len() && a != b implies r[a].name@ != r[b].name@ by {
        if a < s.len() && b < s.len() {
            assert(r[a] == s[a] && r[b] == s[b]);
        } else if a < s.len() {
            assert(r[a] == s[a]);
        } else if b < s.len() {
            assert(r[b] == s[b]);
        }
    }
    assert forall|n: Seq<char>| #[trigger] table(r).contains_key(n) == table(s).insert(
        e.name@,
        (e.id, e.handle),
    ).contains_key(n) by {
        if has_name(r, n) && n != e.name@ {
            let a = choose|a: int| 0 <= a < r.len() && #[trigger] r[a].name@ == n;
            assert(r[a] == s[a]);
        }
        if has_name(s, n) {
            let a = choose|a: int| 0 <= a < s.len() && #[trigger] s[a].name@ == n;
            assert(r[a] == s[a]);
        }
        if n == e.name@ {
            assert(r[s.len() as int] == e);
        }
    }
    assert forall|n: Seq<char>| #[trigger] table(r).contains_key(n) implies table(r)[n] == table(
        s,
    ).insert(e.name@, (e.id, e.handle))[n] by {
        let a = choose|a: int| 0 <= a < r.len() && #[trigger] r[a].name@ == n;
        lemma_table_at(r, a);
        if a < s.len() {
            assert(r[a] == s[a]);
            lemma_table_at(s, a);
        }
    }
}

impl<H> Registry<H> {
    pub open spec fn wf(&self) -> bool {
        &&& names_unique(self.entries@)
        &&& forall|i: int| 0 <= i < self.entries@.len() ==> #[trigger] self.entries@[i].id
            < self.next_id
    }

    /// Name to the id and handle of the task registered under it.
    pub open spec fn view(&self) -> Map<Seq<char>, (u64, H)> {
        table(self.entries@)
    }

    pub fn new() -> (r: Registry<H>)
        ensures
            r.wf(),
            r.view() == Map::<Seq<char>, (u64, H)>::empty(),
    {
        let r = Registry { entries: Vec::new(), next_id: 0 };
        assert(r.view() =~= Map::<Seq<char>, (u64, H)>::empty());
        r
    }

    /// Where `name` stands among the entries.
    fn position(&self, name: &String) -> (r: Option<usize>)
        requires
            self.wf(),
        ensures
            r is None ==> !has_name(self.entries@, name@),
            r matches Some(i) ==> i < self.entries@.len() && self.entries@[i as int].name@
                == name@,
    {
        let mut i: usize = 0;
        while i < self.entries.len()
            invariant
                0 <= i <= self.entries@.len(),
                forall|k: int| 0 <= k < i ==> #[trigger] self.entries@[k].name@ != name@,
            decreases self.entries@.len() - i,
        {
            if self.entries[i].name == *name {
                return Some(i);
            }
            i += 1;
        }
        None
    }

    /// Registers the task reached by `handle` under `name` and gives it a
    /// fresh id. A task already registered under that name is replaced, and
    /// its handle is returned so that the caller can delete that task.
    pub fn activate(&mut self, name: String, handle: H) -> (r: (u64, Option<H>))
        requires
            old(self).wf(),
            old(self).next_id < u64::MAX,
        ensures
            final(self).wf(),
            r.0 == old(self).next_id,
            final(self).next_id == old(self).next_id + 1,
            (final(self).view(), r.1) == activated(old(self).view(), name@, r.0, handle),
    {
        let ghost n = name@;
        let ghost h = handle;
        let id = self.next_id;
        let previous = match self.position(&name) {
            Some(i) => {
                proof {
                    lemma_table_at(self.entries@, i as int);
                    lemma_table_remove(self.entries@, i as int);
                }
                let old_entry = self.entries.remove(i);
                Some(old_entry.handle)
            },
            None => None,
        };
        proof {
            assert(!has_name(self.entries@, n)) by {
                if has_name(self.entries@, n) {
                    let a = choose|a: int| 0 <= a < self.entries@.len() && #[trigger] self.entries@[a].name@ == n;
                    lemma_table_at(self.entries@, a);
                }
            }
            lemma_table_push(self.entries@, Entry { name, id, handle });
        }
        self.entries.push(Entry { name, id, handle });
        self.next_id = id + 1;
        proof {
            assert(self.view().contains_key(n));
            assert(self.view() =~= old(self).view().insert(n, (id, h)));
        }
        (id, previous)
    }

    /// Removes the entry of task `id` under `name`, if it is still the one
    /// registered there.
    pub fn remove(&mut self, name: &String, id: u64) -> (r: bool)
        requires
            old(self).wf(),
        ensures
            final(self).wf(),
            final(self).next_id == old(self).next_id,
            final(self).view() == removed(old(self).view(), name@, id),
            r == (old(self).view().contains_key(name@) && old(self).view()[name@].0 == id),
    {
        match self.position(name) {
            Some(i) => {
                proof {
                    lemma_table_at(self.entries@, i as int);
                }
                if self.entries[i].id == id {
                    proof {
                        lemma_table_remove(self.entries@, i as int);
                    }
                    self.entries.remove(i);
                    true
                } else {
                    false
                }
            },
            None => false,
        }
    }

    /// The handle of the task registered under `name`.
    pub fn lookup(&self, name: &String) -> (r: Option<&H>)
        requires
            self.wf(),
        ensures
            r is Some <==> self.view().contains_key(name@),
            r matches Some(h) ==> *h == self.view()[name@].1,
    {
        match self.position(name) {
            Some(i) => {
                proof {
                    lemma_table_at(self.entries@, i as int);
                }
                Some(&self.entries[i].handle)
            },
            None => None,
        }
    }

    /// The names of the registered tasks.
    pub fn list(&self) -> (r: Vec<String>)
        requires
            self.wf(),
        ensures
            forall|n: Seq<char>| #[trigger]
                self.view().contains_key(n) <==> exists|i: int| 0 <= i < r@.len() && r@[i]@ == n,
            forall|i: int, j: int| 0 <= i < r@.len() && 0 <= j < r@.len() && i != j ==> r@[i]@ != r@[j]@,
    {
        let mut r: Vec<String> = Vec::new();
        let mut i: usize = 0;
        while i < self.entries.len()
            invariant
                0 <= i <= self.entries@.len(),
                r@.len() == i,
                forall|k: int| 0 <= k < i ==> #[trigger] r@[k]@ == self.entries@[k].name@,
            decreases self.entries@.len() - i,
        {
            r.push(self.entries[i].name.clone());
            i += 1;
        }
        proof {
            assert forall|n: Seq<char>| #[trigger] self.view().contains_key(n) <==> exists|k: int|
                0 <= k < r@.len() && r@[k]@ == n by {
                if self.view().contains_key(n) {
                    let a = choose|a: int| 0 <= a < self.entries@.len() && #[trigger] self.entries@[a].name@ == n;
                    assert(r@[a]@ == n);
                }
                if exists|k: int| 0 <= k < r@.len() && r@[k]@ == n {
                    let k = choose|k: int| 0 <= k < r@.len() && r@[k]@ == n;
                    assert(self.entries@[k].name@ == n);
                }
            }
            assert forall|a: int, b: int| 0 <= a < r@.len() && 0 <= b < r@.len() && a != b implies r@[a]@ != r@[b]@ by {
                assert(r@[a]@ == self.entries@[a].name@ && r@[b]@ == self.entries@[b].name@);
            }
        }
        r
    }
}

/// Activating two tasks under one name leaves exactly one entry for that
/// name, the second task's, and hands back the first task's handle for
/// deletion; no other name changes.
pub proof fn lemma_activate_same_name_twice<H>(
    m: Map<Seq<char>, (u64, H)>,
    name: Seq<char>,
    id1: u64,
    h1: H,
    id2: u64,
    h2: H,
)
    ensures
        ({
            let m1 = activated(m, name, id1, h1).0;
            let (m2, replaced) = activated(m1, name, id2, h2);
            &&& replaced == Some(h1)
            &&& m2[name] == (id2, h2)
            &&& m2.dom() == m.dom().insert(name)
            &&& forall|k: Seq<char>| k != name && m.contains_key(k) ==> m2[k] == m[k]
        }),
{
    let m1 = activated(m, name, id1, h1).0;
    let m2 = activated(m1, name, id2, h2).0;
    assert(m2.dom() =~= m.dom().insert(name));
}

} // verus!
