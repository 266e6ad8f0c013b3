use std::sync::Arc;

use vstd::prelude::*;
use vstd::rwlock::{RwLock, RwLockPredicate};

use crate::timetable::{Timetable, TimetableDescriptor, TimetableId, TimetableView};

verus! {

/// The key of a stored timetable: the views of its namespace and of its id.
pub type TimetableKey = (Seq<char>, Seq<char>);

/// The stored timetables have pairwise distinct keys.
pub open spec fn keys_distinct(s: Seq<Timetable>) -> bool {
    forall|a: int, b: int|
        0 <= a < s.len() && 0 <= b < s.len() && a != b ==> #[trigger] s[a].key() != #[trigger] s[b].key()
}

pub open spec fn key_at(s: Seq<Timetable>, k: TimetableKey) -> bool {
    exists|i: int| 0 <= i < s.len() && #[trigger] s[i].key() == k
}

/// The map from key to timetable that a sequence of entries stands for.
pub open spec fn map_of(s: Seq<Timetable>) -> Map<TimetableKey, TimetableView> {
    Map::new(
        |k: TimetableKey| key_at(s, k),
        |k: TimetableKey| s[choose|i: int| 0 <= i < s.len() && #[trigger] s[i].key() == k]@,
    )
}

proof fn lemma_map_of_at(s: Seq<Timetable>, i: int)
    requires
        keys_distinct(s),
        0 <= i < s.len(),
    ensures
        map_of(s).contains_key(s[i].key()),
        map_of(s)[s[i].key()] == s[i]@,
{
    let k = s[i].key();
    assert(key_at(s, k));
    let j = choose|j: int| 0 <= j < s.len() && #[trigger] s[j].key() == k;
    assert(j == i);
}

proof fn lemma_map_of_update(s: Seq<Timetable>, i: int, t: Timetable)
    requires
        keys_distinct(s),
        0 <= i < s.len(),
        s[i].key() == t.key(),
    ensures
        keys_distinct(s.update(i, t)),
        map_of(s.update(i, t)) == map_of(s).insert(t.key(), t@),
{
    let s2 = s.update(i, t);
    assert forall|a: int, b: int|
        0 <= a < s2.len() && 0 <= b < s2.len() && a != b implies #[trigger] s2[a].key()
        != #[trigger] s2[b].key() by {
        if a != i && b != i {
            assert(s2[a] == s[a] && s2[b] == s[b]);
        } else if a == i {
            assert(s[i].key() != s[b].key());
        } else {
            assert(s[a].key() != s[i].key());
        }
    }
    let m = map_of(s).insert(t.key(), t@);
    assert forall|k: TimetableKey| #[trigger] map_of(s2).contains_key(k) <==> m.contains_key(k) by {
        if map_of(s2).contains_key(k) {
            let j = choose|j: int| 0 <= j < s2.len() && #[trigger] s2[j].key() == k;
            if j != i {
                assert(s[j].key() == k);
                assert(key_at(s, k));
            }
        }
        if m.contains_key(k) {
            if k == t.key() {
                assert(s2[i].key() == k);
            } else {
                let j = choose|j: int| 0 <= j < s.len() && #[trigger] s[j].key() == k;
                assert(j != i);
                assert(s2[j].key() == k);
            }
            assert(key_at(s2, k));
        }
    }
    assert forall|k: TimetableKey| #[trigger] map_of(s2).contains_key(k) implies map_of(s2)[k]
        == m[k] by {
        if k == t.key() {
            lemma_map_of_at(s2, i);
        } else {
            let j = choose|j: int| 0 <= j < s.len() && #[trigger] s[j].key() == k;
            lemma_map_of_at(s, j);
            lemma_map_of_at(s2, j);
        }
    }
    assert(map_of(s2) =~= m);
}

proof fn lemma_map_of_push(s: Seq<Timetable>, t: Timetable)
    requires
        keys_distinct(s),
        !key_at(s, t.key()),
    ensures
        keys_distinct(s.push(t)),
        map_of(s.push(t)) == map_of(s).insert(t.key(), t@),
{
    let s2 = s.push(t);
    let n = s.len() as int;
    assert forall|a: int, b: int|
        0 <= a < s2.len() && 0 <= b < s2.len() && a != b implies #[trigger] s2[a].key()
        != #[trigger] s2[b].key() by {
        if a != n && b != n {
            assert(s2[a] == s[a] && s2[b] == s[b]);
        } else if a == n {
            assert(s2[b] == s[b]);
        } else {
            assert(s2[a] == s[a]);
        }
    }
    let m = map_of(s).insert(t.key(), t@);
    assert forall|k: TimetableKey| #[trigger] map_of(s2).contains_key(k) <==> m.contains_key(k) by {
        if map_of(s2).contains_key(k) {
            let j = choose|j: int| 0 <= j < s2.len() && #[trigger] s2[j].key() == k;
            if j != n {
                assert(s[j].key() == k);
                assert(key_at(s, k));
            }
        }
        if m.contains_key(k) {
            if k == t.key() {
                assert(s2[n].key() == k);
            } else {
                let j = choose|j: int| 0 <= j < s.len() && #[trigger] s[j].key() == k;
                assert(s2[j].key() == k);
            }
            assert(key_at(s2, k));
        }
    }
    assert forall|k: TimetableKey| #[trigger] map_of(s2).contains_key(k) implies map_of(s2)[k]
        == m[k] by {
        if k == t.key() {
            lemma_map_of_at(s2, n);
        } else {
            let j = choose|j: int| 0 <= j < s.len() && #[trigger] s[j].key() == k;
            lemma_map_of_at(s, j);
            lemma_map_of_at(s2, j);
        }
    }
    assert(map_of(s2) =~= m);
}

/// Whether some stored timetable lies in namespace `ns`.
pub open spec fn holds_namespace(m: Map<TimetableKey, TimetableView>, ns: Seq<char>) -> bool {
    exists|k: TimetableKey| #[trigger] m.contains_key(k) && k.0 == ns
}

/// `r` is what a lookup of `key` in `m` answers: a copy of the stored
/// timetable, or `None` where nothing is stored under it.
pub open spec fn answers(m: Map<TimetableKey, TimetableView>, key: TimetableKey, r: Option<Timetable>) -> bool {
    match r {
        Some(t) => m.contains_key(key) && t@ == m[key],
        None => !m.contains_key(key),
    }
}

/// `names` lists every namespace of `m` once, and nothing else.
pub open spec fn lists_namespaces(m: Map<TimetableKey, TimetableView>, names: Seq<String>) -> bool {
    &&& names_distinct(names)
    &&& forall|n: Seq<char>| listed(names, n) <==> holds_namespace(m, n)
}

/// `r` is the listing of namespace `ns` in `m`: `None` where `ns` holds no
/// timetable, else the descriptor of each timetable stored under `ns`, once.
pub open spec fn lists_descriptors(
    m: Map<TimetableKey, TimetableView>,
    ns: Seq<char>,
    r: Option<Vec<TimetableDescriptor>>,
) -> bool {
    &&& r is None <==> !holds_namespace(m, ns)
    &&& r matches Some(v) ==> {
        &&& forall|j: int|
            0 <= j < v@.len() ==> {
                &&& (#[trigger] v@[j]).id.namespace@ == ns
                &&& m.contains_key(v@[j].id@)
                &&& m[v@[j].id@].descriptor == v@[j]
            }
        &&& forall|k: TimetableKey|
            #[trigger] m.contains_key(k) && k.0 == ns ==> exists|j: int|
                0 <= j < v@.len() && #[trigger] v@[j].id@ == k
        &&& forall|a: int, b: int|
            0 <= a < v@.len() && 0 <= b < v@.len() && a != b ==> #[trigger] v@[a].id@
                != #[trigger] v@[b].id@
    }
}

/// Whether some entry of `s` lies in namespace `ns`.
pub open spec fn in_namespace(s: Seq<Timetable>, ns: Seq<char>) -> bool {
    exists|i: int| 0 <= i < s.len() && #[trigger] s[i].descriptor.id.namespace@ == ns
}

/// Whether `names` lists `name`.
pub open spec fn listed(names: Seq<String>, name: Seq<char>) -> bool {
    exists|j: int| 0 <= j < names.len() && #[trigger] names[j]@ == name
}

/// No name is listed twice.
pub open spec fn names_distinct(names: Seq<String>) -> bool {
    forall|a: int, b: int|
        0 <= a < names.len() && 0 <= b < names.len() && a != b ==> #[trigger] names[a]@
            != #[trigger] names[b]@
}

proof fn lemma_holds_namespace(s: Seq<Timetable>, ns: Seq<char>)
    requires
        keys_distinct(s),
    ensures
        holds_namespace(map_of(s), ns) <==> in_namespace(s, ns),
{
    if in_namespace(s, ns) {
        let i = choose|i: int| 0 <= i < s.len() && #[trigger] s[i].descriptor.id.namespace@ == ns;
        lemma_map_of_at(s, i);
        assert(map_of(s).contains_key(s[i].key()));
    }
    if holds_namespace(map_of(s), ns) {
        let k = choose|k: TimetableKey| #[trigger] map_of(s).contains_key(k) && k.0 == ns;
        let i = choose|i: int| 0 <= i < s.len() && #[trigger] s[i].key() == k;
        assert(s[i].descriptor.id.namespace@ == ns);
    }
}

/// Adds `name` to `names` unless it is listed already.
fn add_name(names: &mut Vec<String>, name: &String)
    requires
        names_distinct(old(names)@),
    ensures
        names_distinct(final(names)@),
        forall|n: Seq<char>| listed(final(names)@, n) <==> (listed(old(names)@, n) || n == name@),
{
    let mut i: usize = 0;
    while i < names.len()
        invariant
            i <= names@.len(),
            names_distinct(names@),
            forall|j: int| 0 <= j < i ==> #[trigger] names@[j]@ != name@,
        decreases names@.len() - i,
    {
        if names[i] == *name {
            return;
        }
        i = i + 1;
    }
    let ghost before = names@;
    names.push(name.clone());
    assert forall|n: Seq<char>| listed(names@, n) <==> (listed(before, n) || n == name@) by {
        if listed(names@, n) {
            let j = choose|j: int| 0 <= j < names@.len() && #[trigger] names@[j]@ == n;
            if j < before.len() {
                assert(before[j]@ == n);
            }
        }
        if listed(before, n) {
            let j = choose|j: int| 0 <= j < before.len() && #[trigger] before[j]@ == n;
            assert(names@[j]@ == n);
        }
        if n == name@ {
            assert(names@[before.len() as int]@ == n);
        }
    }
}

/// The in-memory index of the stored timetables: every timetable by its id,
/// and the namespaces that hold at least one of them.
pub struct TimetableRepository {
    timetables: Vec<Timetable>,
    namespaces: Vec<String>,
}

impl View for TimetableRepository {
    type V = Map<TimetableKey, TimetableView>;

    closed spec fn view(&self) -> Map<TimetableKey, TimetableView> {
        map_of(self.timetables@)
    }
}

impl TimetableRepository {
    /// The entries hold distinct keys, and the namespace index lists each
    /// namespace of an entry once and nothing else.
    pub closed spec fn wf(&self) -> bool {
        &&& keys_distinct(self.timetables@)
        &&& names_distinct(self.namespaces@)
        &&& forall|n: Seq<char>| listed(self.namespaces@, n) <==> in_namespace(self.timetables@, n)
    }

    pub fn new() -> (r: TimetableRepository)
        ensures
            r.wf(),
            r@ == Map::<TimetableKey, TimetableView>::empty(),
    {
        let r = TimetableRepository { timetables: Vec::new(), namespaces: Vec::new() };
        assert(map_of(r.timetables@) =~= Map::<TimetableKey, TimetableView>::empty());
        r
    }

    /// The position of the entry with the key of `id`, if any.
    fn position(&self, id: &TimetableId) -> (r: Option<usize>)
        ensures
            match r {
                Some(i) => i < self.timetables@.len() && self.timetables@[i as int].key() == id@,
                None => !key_at(self.timetables@, id@),
            },
    {
        let mut i: usize = 0;
        while i < self.timetables.len()
            invariant
                i <= self.timetables@.len(),
                forall|j: int| 0 <= j < i ==> #[trigger] self.timetables@[j].key() != id@,
            decreases self.timetables@.len() - i,
        {
            if self.timetables[i].descriptor.id == *id {
                return Some(i);
            }
            i = i + 1;
        }
        None
    }

    /// Stores `timetable` under its id, replacing wholesale whatever was
    /// stored there.
    pub fn insert(&mut self, timetable: Timetable)
        requires
            old(self).wf(),
        ensures
            final(self).wf(),
            final(self)@ == old(self)@.insert(timetable.key(), timetable@),
    {
        let ghost old_entries = self.timetables@;
        let ghost ns = timetable.descriptor.id.namespace@;
        add_name(&mut self.namespaces, &timetable.descriptor.id.namespace);
        let ghost at: int;
        match self.position(&timetable.descriptor.id) {
            Some(i) => {
                proof {
                    lemma_map_of_update(self.timetables@, i as int, timetable);
                    at = i as int;
                }
                self.timetables.set(i, timetable);
            },
            None => {
                proof {
                    lemma_map_of_push(self.timetables@, timetable);
                    at = self.timetables@.len() as int;
                }
                self.timetables.push(timetable);
            },
        }
        assert(0 <= at < self.timetables@.len() && self.timetables@[at] == timetable);
        assert forall|n: Seq<char>|
            in_namespace(self.timetables@, n) <==> (in_namespace(old_entries, n) || n == ns) by {
            let s = self.timetables@;
            if in_namespace(s, n) {
                let i = choose|i: int| 0 <= i < s.len() && #[trigger] s[i].descriptor.id.namespace@ == n;
                if i < old_entries.len() && s[i] == old_entries[i] {
                    assert(in_namespace(old_entries, n));
                }
            }
            if in_namespace(old_entries, n) {
                let i = choose|i: int| 0 <= i < old_entries.len() && #[trigger] old_entries[i].descriptor.id.namespace@ == n;
                if s[i] == old_entries[i] {
                    assert(in_namespace(s, n));
                } else {
                    assert(old_entries[i].key() == timetable.key());
                    assert(s[i].descriptor.id.namespace@ == n);
                }
            }
            if n == ns {
                assert(s[at].descriptor.id.namespace@ == n);
            }
        }
    }

    /// A copy of the timetable stored under `id`, if any.
    pub fn get(&self, id: &TimetableId) -> (r: Option<Timetable>)
        requires
            self.wf(),
        ensures
            answers(self@, id@, r),
    {
        match self.position(id) {
            Some(i) => {
                proof {
                    lemma_map_of_at(self.timetables@, i as int);
                }
                Some(self.timetables[i].clone())
            },
            None => None,
        }
    }

    /// Every namespace that holds a stored timetable, each once.
    pub fn namespaces(&self) -> (r: Vec<String>)
        requires
            self.wf(),
        ensures
            lists_namespaces(self@, r@),
    {
        let r = self.namespaces.clone();
        assert(r@ =~= self.namespaces@);
        proof {
            assert forall|n: Seq<char>| listed(r@, n) <==> holds_namespace(self@, n) by {
                lemma_holds_namespace(self.timetables@, n);
            }
        }
        r
    }

    /// The descriptors of the timetables stored under `namespace`, each once;
    /// `None` where the namespace holds none.
    pub fn available_timetables(&self, namespace: &str) -> (r: Option<Vec<TimetableDescriptor>>)
        requires
            self.wf(),
        ensures
            lists_descriptors(self@, namespace@, r),
    {
        let ghost s = self.timetables@;
        let wanted = String::from_str(namespace);
        let mut found: Vec<TimetableDescriptor> = Vec::new();
        let ghost mut from: Seq<int> = Seq::empty();
        let mut i: usize = 0;
        while i < self.timetables.len()
            invariant
                s == self.timetables@,
                wanted@ == namespace@,
                keys_distinct(s),
                i <= s.len(),
                from.len() == found@.len(),
                forall|j: int|
                    0 <= j < found@.len() ==> {
                        &&& 0 <= #[trigger] from[j] < i
                        &&& found@[j] == s[from[j]].descriptor
                        &&& s[from[j]].descriptor.id.namespace@ == namespace@
                    },
                forall|a: int, b: int| 0 <= a < b < from.len() ==> #[trigger] from[a] < #[trigger] from[b],
                forall|x: int|
                    0 <= x < i && #[trigger] s[x].descriptor.id.namespace@ == namespace@ ==> exists|j: int|
                        0 <= j < from.len() && from[j] == x,
            decreases s.len() - i,
        {
            let ghost prev = from;
            if self.timetables[i].descriptor.id.namespace == wanted {
                found.push(self.timetables[i].descriptor.clone());
                proof {
                    from = from.push(i as int);
                }
            }
            assert forall|x: int|
                0 <= x <= i && #[trigger] s[x].descriptor.id.namespace@ == namespace@ implies exists|j: int|
                    0 <= j < from.len() && from[j] == x by {
                if x == i {
                    assert(from[from.len() - 1] == x);
                } else {
                    let j = choose|j: int| 0 <= j < prev.len() && prev[j] == x;
                    assert(from[j] == x);
                }
            }
            i = i + 1;
        }
        proof {
            lemma_holds_namespace(s, namespace@);
        }
        if found.len() == 0 {
            assert(!in_namespace(s, namespace@)) by {
                if in_namespace(s, namespace@) {
                    let x = choose|x: int| 0 <= x < s.len() && #[trigger] s[x].descriptor.id.namespace@ == namespace@;
                }
            }
            return None;
        }
        assert(in_namespace(s, namespace@)) by {
            assert(s[from[0]].descriptor.id.namespace@ == namespace@);
        }
        assert forall|j: int| 0 <= j < found@.len() implies {
            &&& (#[trigger] found@[j]).id.namespace@ == namespace@
            &&& self@.contains_key(found@[j].id@)
            &&& self@[found@[j].id@].descriptor == found@[j]
        } by {
            lemma_map_of_at(s, from[j]);
        }
        assert forall|k: TimetableKey|
            #[trigger] self@.contains_key(k) && k.0 == namespace@ implies exists|j: int|
                0 <= j < found@.len() && #[trigger] found@[j].id@ == k by {
            let x = choose|x: int| 0 <= x < s.len() && #[trigger] s[x].key() == k;
            assert(s[x].descriptor.id.namespace@ == namespace@);
            let j = choose|j: int| 0 <= j < from.len() && from[j] == x;
            assert(found@[j].id@ == k);
        }
        assert forall|a: int, b: int|
            0 <= a < found@.len() && 0 <= b < found@.len() && a != b implies #[trigger] found@[a].id@
                != #[trigger] found@[b].id@ by {
            if a < b {
                assert(from[a] < from[b]);
            } else {
                assert(from[b] < from[a]);
            }
            assert(s[from[a]].key() != s[from[b]].key());
        }
        Some(found)
    }
}

impl Default for TimetableRepository {
    fn default() -> (r: Self)
        ensures
            r.wf(),
            r@ == Map::<TimetableKey, TimetableView>::empty(),
    {
        TimetableRepository::new()
    }
}

/// The repository's contents after ingesting `s` in order into an empty one.
pub open spec fn after_ingesting(s: Seq<Timetable>) -> Map<TimetableKey, TimetableView>
    decreases s.len(),
{
    if s.len() == 0 {
        Map::empty()
    } else {
        after_ingesting(s.drop_last()).insert(s.last().key(), s.last()@)
    }
}

/// Whether `i` is the last position of `s` that holds key `k`.
pub open spec fn last_with_key(s: Seq<Timetable>, k: TimetableKey, i: int) -> bool {
    &&& 0 <= i < s.len()
    &&& s[i].key() == k
    &&& forall|j: int| i < j < s.len() ==> #[trigger] s[j].key() != k
}

/// Last write wins: after ingesting `s`, an id that no timetable of `s` had
/// is absent, and an id that some had maps to the last of them.
pub proof fn law_last_write_wins(s: Seq<Timetable>, k: TimetableKey)
    ensures
        !key_at(s, k) ==> !after_ingesting(s).contains_key(k),
        forall|i: int| #[trigger] last_with_key(s, k, i) ==> after_ingesting(s).contains_key(k) && after_ingesting(s)[k] == s[i]@,
    decreases s.len(),
{
    if s.len() > 0 {
        let p = s.drop_last();
        law_last_write_wins(p, k);
        if !key_at(s, k) {
            assert(!key_at(p, k)) by {
                if key_at(p, k) {
                    let j = choose|j: int| 0 <= j < p.len() && #[trigger] p[j].key() == k;
                    assert(s[j].key() == k);
                }
            }
            assert(s[s.len() - 1].key() != k);
        }
        assert forall|i: int| #[trigger] last_with_key(s, k, i) implies after_ingesting(s).contains_key(k) && after_ingesting(s)[k] == s[i]@ by {
            assert(after_ingesting(s) == after_ingesting(p).insert(s.last().key(), s.last()@));
            if i < s.len() - 1 {
                assert(s[s.len() - 1].key() != k);
                assert(p[i] == s[i]);
                assert(last_with_key(p, k, i));
            } else {
                assert(s.last() == s[i]);
            }
        }
    }
}

/// The set of namespaces only grows: ingesting never removes one.
pub proof fn law_namespaces_grow(m: Map<TimetableKey, TimetableView>, t: Timetable, ns: Seq<char>)
    ensures
        holds_namespace(m, ns) ==> holds_namespace(m.insert(t.key(), t@), ns),
        holds_namespace(m.insert(t.key(), t@), t.descriptor.id.namespace@),
{
    if holds_namespace(m, ns) {
        let k = choose|k: TimetableKey| #[trigger] m.contains_key(k) && k.0 == ns;
        assert(m.insert(t.key(), t@).contains_key(k));
    }
    assert(m.insert(t.key(), t@).contains_key(t.key()));
}

impl TimetableRepository {
    /// A repository holding `timetables`, ingested in order.
    pub fn load(timetables: Vec<Timetable>) -> (r: TimetableRepository)
        ensures
            r.wf(),
            r@ == after_ingesting(timetables@),
    {
        let ghost all = timetables@;
        let mut r = TimetableRepository::new();
        let mut rest = timetables;
        assert(r@ =~= after_ingesting(all.take(0)));
        let mut i: usize = 0;
        let n = rest.len();
        while rest.len() > 0
            invariant
                r.wf(),
                n == all.len(),
                i <= all.len(),
                rest@ == all.skip(i as int),
                r@ == after_ingesting(all.take(i as int)),
            decreases rest@.len(),
        {
            let t = rest.remove(0);
            assert(t == all[i as int]);
            assert(all.take(i + 1).drop_last() =~= all.take(i as int));
            r.insert(t);
            i = i + 1;
            assert(rest@ =~= all.skip(i as int));
        }
        assert(all.take(all.len() as int) =~= all);
        r
    }
}

proof fn lemma_map_of_copy(s: Seq<Timetable>, c: Seq<Timetable>)
    requires
        keys_distinct(s),
        c.len() == s.len(),
        forall|i: int| 0 <= i < s.len() ==> (#[trigger] c[i])@ == s[i]@,
    ensures
        keys_distinct(c),
        map_of(c) == map_of(s),
        forall|n: Seq<char>| in_namespace(c, n) <==> in_namespace(s, n),
{
    assert forall|i: int| 0 <= i < s.len() implies (#[trigger] c[i]).key() == s[i].key()
        && c[i].descriptor.id.namespace@ == s[i].descriptor.id.namespace@ by {
        assert(c[i]@.descriptor == s[i]@.descriptor);
    }
    assert forall|a: int, b: int|
        0 <= a < c.len() && 0 <= b < c.len() && a != b implies #[trigger] c[a].key() != #[trigger] c[b].key() by {
        assert(s[a].key() != s[b].key());
    }
    assert forall|k: TimetableKey| #[trigger] map_of(c).contains_key(k) <==> map_of(s).contains_key(k) by {
        if key_at(c, k) {
            let i = choose|i: int| 0 <= i < c.len() && #[trigger] c[i].key() == k;
            assert(s[i].key() == k);
        }
        if key_at(s, k) {
            let i = choose|i: int| 0 <= i < s.len() && #[trigger] s[i].key() == k;
            assert(c[i].key() == k);
        }
    }
    assert forall|k: TimetableKey| #[trigger] map_of(c).contains_key(k) implies map_of(c)[k] == map_of(s)[k] by {
        let i = choose|i: int| 0 <= i < c.len() && #[trigger] c[i].key() == k;
        lemma_map_of_at(c, i);
        lemma_map_of_at(s, i);
    }
    assert(map_of(c) =~= map_of(s));
    assert forall|n: Seq<char>| in_namespace(c, n) <==> in_namespace(s, n) by {
        if in_namespace(c, n) {
            let i = choose|i: int| 0 <= i < c.len() && #[trigger] c[i].descriptor.id.namespace@ == n;
            assert(s[i].descriptor.id.namespace@ == n);
        }
        if in_namespace(s, n) {
            let i = choose|i: int| 0 <= i < s.len() && #[trigger] s[i].descriptor.id.namespace@ == n;
            assert(c[i].descriptor.id.namespace@ == n);
        }
    }
}

impl TimetableRepository {
    /// A copy of the whole index.
    pub fn snapshot(&self) -> (r: TimetableRepository)
        requires
            self.wf(),
        ensures
            r.wf(),
            r@ == self@,
    {
        let mut timetables: Vec<Timetable> = Vec::new();
        let mut i: usize = 0;
        while i < self.timetables.len()
            invariant
                i <= self.timetables@.len(),
                timetables@.len() == i,
                forall|j: int| 0 <= j < i ==> (#[trigger] timetables@[j])@ == self.timetables@[j]@,
            decreases self.timetables@.len() - i,
        {
            timetables.push(self.timetables[i].clone());
            i = i + 1;
        }
        let namespaces = self.namespaces.clone();
        assert(namespaces@ =~= self.namespaces@);
        proof {
            lemma_map_of_copy(self.timetables@, timetables@);
        }
        TimetableRepository { timetables, namespaces }
    }
}

/// The lock invariant of the shared repository: the index is well formed.
pub struct WellFormed;

impl RwLockPredicate<TimetableRepository> for WellFormed {
    open spec fn inv(self, v: TimetableRepository) -> bool {
        v.wf()
    }
}

/// The lock through which the writer publishes the index to its readers.
pub type SharedIndex = Arc<RwLock<TimetableRepository, WellFormed>>;

/// Relies on `Arc::clone`: a new pointer to the same allocation.
#[verifier::external_body]
fn share_lock(a: &SharedIndex) -> (r: SharedIndex)
    ensures
        r == *a,
{
    Arc::clone(a)
}

/// A reader's handle on the shared repository. Readers take the lock shared
/// and the writer exclusively, so a reader sees the index as one whole
/// published state.
pub struct InMemoryRepo {
    local: SharedIndex,
}

impl InMemoryRepo {
    /// The lock this handle reads through.
    pub closed spec fn handle(&self) -> SharedIndex {
        self.local
    }

    /// A second handle on the same repository.
    pub fn share(&self) -> (r: InMemoryRepo)
        ensures
            r.handle() == self.handle(),
    {
        InMemoryRepo { local: share_lock(&self.local) }
    }

    /// A copy of the timetable stored under `id`, read from one whole state
    /// of the repository.
    pub fn get(&self, id: &TimetableId) -> (r: Option<Timetable>)
        ensures
            exists|m: TimetableRepository| m.wf() && answers(m@, id@, r),
    {
        let handle = self.local.acquire_read();
        let r = handle.borrow().get(id);
        handle.release_read();
        r
    }

    /// The namespaces of one whole state of the repository.
    pub fn namespaces(&self) -> (r: Vec<String>)
        ensures
            exists|m: TimetableRepository| m.wf() && lists_namespaces(m@, r@),
    {
        let handle = self.local.acquire_read();
        let r = handle.borrow().namespaces();
        handle.release_read();
        r
    }

    /// The listing of `namespace` in one whole state of the repository.
    pub fn available_timetables(&self, namespace: &str) -> (r: Option<Vec<TimetableDescriptor>>)
        ensures
            exists|m: TimetableRepository| m.wf() && lists_descriptors(m@, namespace@, r),
    {
        let handle = self.local.acquire_read();
        let r = handle.borrow().available_timetables(namespace);
        handle.release_read();
        r
    }
}

/// The single writer of the shared repository. It keeps its own index, the
/// repository's contents, and after each write publishes a whole copy of it
/// under the write lock, so readers see either the copy before or the copy
/// after a write.
pub struct InMemoryWriter {
    local: SharedIndex,
    index: TimetableRepository,
}

impl InMemoryWriter {

    /// The lock this writer publishes through.
    pub closed spec fn handle(&self) -> SharedIndex {
        self.local
    }

    /// A copy of the timetable this writer last stored under `id`, if any.
    pub fn get(&self, id: &TimetableId) -> (r: Option<Timetable>)
        requires
            self.ready(),
        ensures
            answers(self.model(), id@, r),
    {
        self.index.get(id)
    }

    /// Stores `timetable` in the writer's index, then publishes a copy of the
    /// whole index to the readers.
    pub fn store(&mut self, timetable: Timetable)
        requires
            old(self).ready(),
        ensures
            final(self).ready(),
            final(self).model() == old(self).model().insert(timetable.key(), timetable@),
            final(self).handle() == old(self).handle(),
    {
        self.index.insert(timetable);
        let published = self.index.snapshot();
        let (_, handle) = self.local.acquire_write();
        handle.release_write(published);
    }

    /// A reader's handle on what this writer publishes.
    pub fn reader(&self) -> (r: InMemoryRepo)
        ensures
            r.handle() == self.handle(),
    {
        InMemoryRepo { local: share_lock(&self.local) }
    }
}

/// A writer and a reader on one new, empty repository.
pub fn in_memory_repo() -> (r: (InMemoryWriter, InMemoryRepo))
    ensures
        r.0.ready(),
        r.0.model() == Map::<TimetableKey, TimetableView>::empty(),
        r.1.handle() == r.0.handle(),
{
    let index = TimetableRepository::new();
    let published = index.snapshot();
    let writer = InMemoryWriter { local: Arc::new(RwLock::new(published, Ghost(WellFormed))), index };
    let reader = writer.reader();
    (writer, reader)
}

/// The write side of a repository, with the contents it stands for.
pub trait TimetableConsumer {
    /// The consumer's internal state is well formed.
    spec fn ready(&self) -> bool;

    /// The stored timetables by key.
    spec fn model(&self) -> Map<TimetableKey, TimetableView>;

    /// Stores `timetable` under its id, replacing wholesale whatever was
    /// stored there.
    fn consume(&mut self, timetable: Timetable)
        requires
            old(self).ready(),
        ensures
            final(self).ready(),
            final(self).model() == old(self).model().insert(timetable.key(), timetable@),
    ;
}

/// The read side of a repository.
pub trait TimetableProvider {
    fn get(&self, id: TimetableId) -> Option<Timetable>;

    fn namespaces(&self) -> Vec<String>;

    fn available_timetables(&self, namespace: &str) -> Option<Vec<TimetableDescriptor>>;
}

impl TimetableConsumer for InMemoryWriter {
    closed spec fn ready(&self) -> bool {
        self.index.wf()
    }

    closed spec fn model(&self) -> Map<TimetableKey, TimetableView> {
        self.index@
    }

    fn consume(&mut self, timetable: Timetable) {
        self.store(timetable)
    }
}

impl TimetableProvider for InMemoryRepo {
    fn get(&self, id: TimetableId) -> Option<Timetable> {
        InMemoryRepo::get(self, &id)
    }

    fn namespaces(&self) -> Vec<String> {
        InMemoryRepo::namespaces(self)
    }

    fn available_timetables(&self, namespace: &str) -> Option<Vec<TimetableDescriptor>> {
        InMemoryRepo::available_timetables(self, namespace)
    }
}

/// The read side handed to the read API.
pub struct ShareableTimetableProvider {
    actual: InMemoryRepo,
}

impl ShareableTimetableProvider {
    /// The handle this provider reads through.
    pub closed spec fn source(&self) -> InMemoryRepo {
        self.actual
    }

    pub fn new(actual: InMemoryRepo) -> (r: ShareableTimetableProvider)
        ensures
            r.source() == actual,
    {
        ShareableTimetableProvider { actual }
    }
}

impl Clone for ShareableTimetableProvider {
    fn clone(&self) -> (r: Self)
        ensures
            r.source().handle() == self.source().handle(),
    {
        ShareableTimetableProvider { actual: self.actual.share() }
    }
}

impl TimetableProvider for ShareableTimetableProvider {
    fn get(&self, id: TimetableId) -> Option<Timetable> {
        self.actual.get(&id)
    }

    fn namespaces(&self) -> Vec<String> {
        self.actual.namespaces()
    }

    fn available_timetables(&self, namespace: &str) -> Option<Vec<TimetableDescriptor>> {
        self.actual.available_timetables(namespace)
    }
}

/// What the ingestion loop does after one receive.
#[derive(Clone, Copy, PartialEq, Eq, Structural, Debug)]
pub enum IngestStep {
    /// Receive the next timetable.
    Continue,
    /// The channel is gone and the policy is to end the process.
    Exit,
}

/// Handles one receive of the ingestion loop: a received timetable goes to
/// `consumer`; a closed channel (`None`) ends the process where
/// `exit_on_failure` holds, and otherwise leaves the consumer untouched.
pub fn receive_timetable<C: TimetableConsumer>(
    received: Option<Timetable>,
    consumer: &mut C,
    exit_on_failure: bool,
) -> (r: IngestStep)
    requires
        old(consumer).ready(),
    ensures
        final(consumer).ready(),
        r == (if received is None && exit_on_failure {
            IngestStep::Exit
        } else {
            IngestStep::Continue
        }),
        received matches Some(t) ==> final(consumer).model() == old(consumer).model().insert(t.key(), t@),
        received is None ==> *final(consumer) == *old(consumer),
{
    match received {
        Some(timetable) => {
            consumer.consume(timetable);
            IngestStep::Continue
        },
        None => if exit_on_failure {
            IngestStep::Exit
        } else {
            IngestStep::Continue
        },
    }
}

} // verus!
