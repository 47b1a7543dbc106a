//! A map from text to values that lists its entries in the order of their keys.

use vstd::prelude::*;

use crate::text::chars_of;

verus! {

/// The order of two texts: by the first character in which they differ, a prefix first.
pub open spec fn text_before(a: Seq<char>, b: Seq<char>) -> bool
    decreases a.len(),
{
    if b.len() == 0 {
        false
    } else if a.len() == 0 {
        true
    } else if a[0] != b[0] {
        a[0] < b[0]
    } else {
        text_before(a.skip(1), b.skip(1))
    }
}

/// The order of texts is strict and total.
pub proof fn lemma_text_before(a: Seq<char>, b: Seq<char>)
    ensures
        !(text_before(a, b) && text_before(b, a)),
        text_before(a, b) || text_before(b, a) || a == b,
        a == b ==> !text_before(a, b),
    decreases a.len(),
{
    if a.len() > 0 && b.len() > 0 && a[0] == b[0] {
        lemma_text_before(a.skip(1), b.skip(1));
        if a.skip(1) == b.skip(1) {
            assert(a =~= seq![a[0]] + a.skip(1));
            assert(b =~= seq![b[0]] + b.skip(1));
        }
    } else if a.len() == 0 && b.len() == 0 {
        assert(a =~= b);
    }
}

/// The order of texts is decided by the first character in which they differ, by its code; a text
/// comes before every longer one that starts with it.
pub proof fn lemma_first_difference(same: Seq<char>, a: Seq<char>, b: Seq<char>)
    ensures
        a.len() > 0 && b.len() > 0 && a[0] < b[0] ==> text_before(same + a, same + b),
        a.len() == 0 && b.len() > 0 ==> text_before(same + a, same + b),
    decreases same.len(),
{
    if same.len() == 0 {
        assert(same + a =~= a);
        assert(same + b =~= b);
    } else {
        lemma_first_difference(same.skip(1), a, b);
        assert((same + a).skip(1) =~= same.skip(1) + a);
        assert((same + b).skip(1) =~= same.skip(1) + b);
    }
}

/// The order of texts is transitive.
pub proof fn lemma_text_before_transitive(a: Seq<char>, b: Seq<char>, c: Seq<char>)
    requires
        text_before(a, b),
        text_before(b, c),
    ensures
        text_before(a, c),
    decreases a.len(),
{
    if a.len() > 0 && a[0] == b[0] && b[0] == c[0] {
        lemma_text_before_transitive(a.skip(1), b.skip(1), c.skip(1));
    }
}

/// Whether `a` comes before `b`.
pub fn before(a: &str, b: &str) -> (r: bool)
    ensures
        r == text_before(a@, b@),
{
    let x = chars_of(a);
    let y = chars_of(b);
    let mut i: usize = 0;
    assert(x@.skip(0) =~= x@);
    assert(y@.skip(0) =~= y@);
    while i < x.len() && i < y.len()
        invariant
            i <= x.len(),
            i <= y.len(),
            x@ == a@,
            y@ == b@,
            text_before(a@, b@) == text_before(x@.skip(i as int), y@.skip(i as int)),
        decreases x.len() - i,
    {
        if x[i] != y[i] {
            return x[i] < y[i];
        }
        assert(x@.skip(i as int).skip(1) =~= x@.skip(i as int + 1));
        assert(y@.skip(i as int).skip(1) =~= y@.skip(i as int + 1));
        i += 1;
    }
    i < y.len()
}

/// Whether the entries have a key `k`.
pub open spec fn has_key<V>(entries: Seq<(String, V)>, k: Seq<char>) -> bool {
    exists|i: int| 0 <= i < entries.len() && #[trigger] entries[i].0@ == k
}

/// The position of the entry with key `k`.
pub open spec fn key_index<V>(entries: Seq<(String, V)>, k: Seq<char>) -> int {
    choose|i: int| 0 <= i < entries.len() && #[trigger] entries[i].0@ == k
}

/// The map that the entries list.
pub open spec fn entries_map<V>(entries: Seq<(String, V)>) -> Map<Seq<char>, V> {
    Map::new(|k: Seq<char>| has_key(entries, k), |k: Seq<char>| entries[key_index(entries, k)].1)
}

/// Every key comes before the keys of the entries behind it.
pub open spec fn keys_ordered<V>(entries: Seq<(String, V)>) -> bool {
    forall|i: int, j: int|
        0 <= i < j < entries.len() ==> text_before(
            #[trigger] entries[i].0@,
            #[trigger] entries[j].0@,
        )
}

/// In ordered entries a key stands at one place only.
pub proof fn lemma_key_unique<V>(entries: Seq<(String, V)>, i: int)
    requires
        keys_ordered(entries),
        0 <= i < entries.len(),
    ensures
        has_key(entries, entries[i].0@),
        key_index(entries, entries[i].0@) == i,
        entries_map(entries).contains_key(entries[i].0@),
        entries_map(entries)[entries[i].0@] == entries[i].1,
{
    let k = entries[i].0@;
    let j = key_index(entries, k);
    lemma_text_before(k, k);
    assert(entries[j].0@ == k);
}

/// The map of one entry more is the map with that entry inserted, under a new key.
pub proof fn lemma_entries_take<V>(entries: Seq<(String, V)>, i: int)
    requires
        keys_ordered(entries),
        0 <= i < entries.len(),
    ensures
        !entries_map(entries.take(i)).contains_key(entries[i].0@),
        entries_map(entries.take(i + 1)) == entries_map(entries.take(i)).insert(
            entries[i].0@,
            entries[i].1,
        ),
{
    let was = entries.take(i);
    let now = entries.take(i + 1);
    let k = entries[i].0@;
    assert forall|j: int| 0 <= j < i implies text_before(#[trigger] was[j].0@, k) by {
        assert(text_before(entries[j].0@, entries[i].0@));
    }
    assert(now =~= was.insert(i, now[i]));
    lemma_inserted(was, now, i, k, entries[i].1);
    if has_key(was, k) {
        lemma_text_before(k, k);
        assert(was[key_index(was, k)].0@ == k);
    }
}

/// A map from text to values, ordered by key.
#[derive(Debug, PartialEq, Eq)]
pub struct TextMap<V> {
    entries: Vec<(String, V)>,
}

impl<V> View for TextMap<V> {
    type V = Map<Seq<char>, V>;

    closed spec fn view(&self) -> Map<Seq<char>, V> {
        entries_map(self.entries@)
    }
}

impl<V> TextMap<V> {
    #[verifier::type_invariant]
    spec fn ordered(&self) -> bool {
        keys_ordered(self.entries@)
    }

    /// The empty map.
    pub fn new() -> (r: Self)
        ensures
            r@ == Map::<Seq<char>, V>::empty(),
    {
        let r = TextMap { entries: Vec::new() };
        assert(entries_map(r.entries@) =~= Map::empty());
        r
    }

    /// The entries, in the order of their keys.
    pub fn entries(&self) -> (r: &Vec<(String, V)>)
        ensures
            keys_ordered(r@),
            entries_map(r@) == self@,
    {
        proof {
            use_type_invariant(self);
        }
        &self.entries
    }

    /// The number of entries.
    pub fn len(&self) -> (r: usize)
        ensures
            self@.dom().finite(),
            r == self@.dom().len(),
    {
        proof {
            use_type_invariant(self);
            lemma_entries_count(self.entries@);
        }
        self.entries.len()
    }

    /// The place of the first entry whose key does not come before `k`.
    fn place(&self, k: &str) -> (r: usize)
        ensures
            r <= self.entries@.len(),
            forall|j: int| 0 <= j < r ==> text_before(#[trigger] self.entries@[j].0@, k@),
            r < self.entries@.len() ==> !text_before(self.entries@[r as int].0@, k@),
    {
        let mut i: usize = 0;
        while i < self.entries.len() && before(self.entries[i].0.as_str(), k)
            invariant
                i <= self.entries@.len(),
                forall|j: int| 0 <= j < i ==> text_before(#[trigger] self.entries@[j].0@, k@),
            decreases self.entries@.len() - i,
        {
            i += 1;
        }
        i
    }

    /// The value of key `k`, if the map has it.
    pub fn get(&self, k: &str) -> (r: Option<&V>)
        ensures
            match r {
                Some(v) => self@.contains_key(k@) && *v == self@[k@],
                None => !self@.contains_key(k@),
            },
    {
        proof {
            use_type_invariant(self);
        }
        let i = self.place(k);
        if i < self.entries.len() && !before(k, self.entries[i].0.as_str()) {
            proof {
                lemma_text_before(self.entries@[i as int].0@, k@);
                lemma_key_unique(self.entries@, i as int);
            }
            Some(&self.entries[i].1)
        } else {
            proof {
                if has_key(self.entries@, k@) {
                    let j = key_index(self.entries@, k@);
                    lemma_text_before(k@, k@);
                    if i < j {
                        lemma_text_before(self.entries@[i as int].0@, k@);
                    }
                }
            }
            None
        }
    }

    /// Whether the map has a key `k`.
    pub fn contains_key(&self, k: &str) -> (r: bool)
        ensures
            r == self@.contains_key(k@),
    {
        self.get(k).is_some()
    }

    /// Sets the value of key `k`, in place of an earlier one if there is one.
    pub fn insert(&mut self, k: String, v: V)
        ensures
            final(self)@ == old(self)@.insert(k@, v),
    {
        proof {
            use_type_invariant(&*self);
        }
        let i = self.place(k.as_str());
        let same = i < self.entries.len() && !before(k.as_str(), self.entries[i].0.as_str());
        let mut entries: Vec<(String, V)> = Vec::new();
        std::mem::swap(&mut entries, &mut self.entries);
        let ghost was = entries@;
        let ghost key = k@;
        if same {
            entries.set(i, (k, v));
            proof {
                lemma_text_before(was[i as int].0@, key);
                lemma_replaced(was, entries@, i as int, key, v);
            }
        } else {
            entries.insert(i, (k, v));
            proof {
                if i < was.len() {
                    lemma_text_before(was[i as int].0@, key);
                }
                lemma_inserted(was, entries@, i as int, key, v);
            }
        }
        self.entries = entries;
    }
}

impl<V: Clone> Clone for TextMap<V> {
    fn clone(&self) -> (r: Self)
        ensures
            r@.dom() == self@.dom(),
            forall|k: Seq<char>|
                self@.contains_key(k) ==> cloned::<V>(self@[k], #[trigger] r@[k]),
    {
        proof {
            use_type_invariant(self);
        }
        let mut entries: Vec<(String, V)> = Vec::new();
        let mut i: usize = 0;
        while i < self.entries.len()
            invariant
                i <= self.entries@.len(),
                entries@.len() == i,
                forall|j: int|
                    0 <= j < i ==> #[trigger] entries@[j].0@ == self.entries@[j].0@ && cloned::<V>(
                        self.entries@[j].1,
                        entries@[j].1,
                    ),
            decreases self.entries@.len() - i,
        {
            entries.push((self.entries[i].0.clone(), self.entries[i].1.clone()));
            i += 1;
        }
        proof {
            lemma_cloned(self.entries@, entries@);
        }
        TextMap { entries }
    }
}

proof fn lemma_cloned<V: Clone>(was: Seq<(String, V)>, now: Seq<(String, V)>)
    requires
        keys_ordered(was),
        now.len() == was.len(),
        forall|j: int|
            0 <= j < now.len() ==> #[trigger] now[j].0@ == was[j].0@ && cloned::<V>(
                was[j].1,
                now[j].1,
            ),
    ensures
        keys_ordered(now),
        entries_map(now).dom() == entries_map(was).dom(),
        forall|k: Seq<char>|
            entries_map(was).contains_key(k) ==> cloned::<V>(
                entries_map(was)[k],
                #[trigger] entries_map(now)[k],
            ),
{
    assert forall|x: Seq<char>| has_key(now, x) <==> has_key(was, x) by {
        if has_key(now, x) {
            assert(was[key_index(now, x)].0@ == x);
        }
        if has_key(was, x) {
            assert(now[key_index(was, x)].0@ == x);
        }
    }
    assert(entries_map(now).dom() =~= entries_map(was).dom());
    assert forall|k: Seq<char>| entries_map(was).contains_key(k) implies cloned::<V>(
        entries_map(was)[k],
        #[trigger] entries_map(now)[k],
    ) by {
        let j = key_index(now, k);
        lemma_key_unique(now, j);
        lemma_key_unique(was, j);
    }
}

proof fn lemma_entries_count<V>(entries: Seq<(String, V)>)
    requires
        keys_ordered(entries),
    ensures
        entries_map(entries).dom().finite(),
        entries_map(entries).dom().len() == entries.len(),
    decreases entries.len(),
{
    let m = entries_map(entries);
    if entries.len() == 0 {
        assert(m.dom() =~= Set::empty());
    } else {
        let init = entries.drop_last();
        let k = entries.last().0@;
        lemma_entries_count(init);
        assert forall|i: int| 0 <= i < init.len() implies #[trigger] init[i].0@ == entries[i].0@ by {}
        assert(!has_key(init, k)) by {
            if has_key(init, k) {
                let j = key_index(init, k);
                lemma_text_before(k, k);
                assert(text_before(entries[j].0@, entries[entries.len() - 1].0@));
            }
        }
        assert(m.dom() =~= entries_map(init).dom().insert(k)) by {
            assert forall|x: Seq<char>| m.dom().contains(x) <==> entries_map(init).dom().insert(
                k,
            ).contains(x) by {
                if has_key(entries, x) {
                    let j = key_index(entries, x);
                    if j < init.len() {
                        assert(init[j].0@ == x);
                    }
                }
                if has_key(init, x) {
                    let j = key_index(init, x);
                    assert(entries[j].0@ == x);
                }
                assert(entries[entries.len() - 1].0@ == k);
            }
        }
    }
}

proof fn lemma_replaced<V>(
    was: Seq<(String, V)>,
    now: Seq<(String, V)>,
    i: int,
    k: Seq<char>,
    v: V,
)
    requires
        keys_ordered(was),
        0 <= i < was.len(),
        was[i].0@ == k,
        now == was.update(i, now[i]),
        now[i].0@ == k,
        now[i].1 == v,
    ensures
        keys_ordered(now),
        entries_map(now) == entries_map(was).insert(k, v),
{
    assert forall|j: int| 0 <= j < was.len() implies #[trigger] now[j].0@ == was[j].0@ by {}
    assert forall|x: Seq<char>| has_key(now, x) <==> has_key(was, x) by {
        if has_key(now, x) {
            assert(was[key_index(now, x)].0@ == x);
        }
        if has_key(was, x) {
            assert(now[key_index(was, x)].0@ == x);
        }
    }
    assert forall|x: Seq<char>| has_key(now, x) implies entries_map(now)[x] == entries_map(
        was,
    ).insert(k, v)[x] by {
        let j = key_index(now, x);
        lemma_key_unique(now, j);
        lemma_key_unique(was, j);
        lemma_key_unique(was, i);
    }
    assert(has_key(was, k));
    assert(entries_map(now) =~= entries_map(was).insert(k, v));
}

proof fn lemma_inserted<V>(
    was: Seq<(String, V)>,
    now: Seq<(String, V)>,
    i: int,
    k: Seq<char>,
    v: V,
)
    requires
        keys_ordered(was),
        0 <= i <= was.len(),
        forall|j: int| 0 <= j < i ==> text_before(#[trigger] was[j].0@, k),
        i < was.len() ==> text_before(k, was[i].0@),
        now == was.insert(i, now[i]),
        now.len() == was.len() + 1,
        now[i].0@ == k,
        now[i].1 == v,
    ensures
        keys_ordered(now),
        entries_map(now) == entries_map(was).insert(k, v),
{
    assert forall|j: int| 0 <= j < i implies #[trigger] now[j] == was[j] by {}
    assert forall|j: int| i < j < now.len() implies #[trigger] now[j] == was[j - 1] by {}
    assert forall|a: int, b: int| 0 <= a < b < now.len() implies text_before(
        #[trigger] now[a].0@,
        #[trigger] now[b].0@,
    ) by {
        let x = if a < i {
            was[a].0@
        } else {
            was[a - 1].0@
        };
        if a == i {
            if b - 1 > i {
                lemma_text_before_transitive(k, was[i].0@, was[b - 1].0@);
            }
        } else if b == i {
        } else if a < i && b > i {
            assert(text_before(was[a].0@, was[b - 1].0@));
        }
    }
    assert forall|x: Seq<char>| has_key(now, x) <==> (has_key(was, x) || x == k) by {
        if has_key(now, x) {
            let j = key_index(now, x);
            if j < i {
                assert(was[j].0@ == x);
            } else if j > i {
                assert(was[j - 1].0@ == x);
            }
        }
        if has_key(was, x) {
            let j = key_index(was, x);
            if j < i {
                assert(now[j].0@ == x);
            } else {
                assert(now[j + 1].0@ == x);
            }
        }
        assert(now[i].0@ == k);
    }
    assert forall|x: Seq<char>| has_key(now, x) implies entries_map(now)[x] == entries_map(
        was,
    ).insert(k, v)[x] by {
        let j = key_index(now, x);
        lemma_key_unique(now, j);
        if j < i {
            lemma_key_unique(was, j);
            lemma_text_before(k, k);
        } else if j > i {
            lemma_key_unique(was, j - 1);
            lemma_text_before(k, now[j].0@);
        } else {
        }
    }
    assert(entries_map(now) =~= entries_map(was).insert(k, v));
}

} // verus!
