//! Maps from names to values.
use crate::text::{precedes, text_equal, text_less, text_less_total, text_less_transitive, texts};
use vstd::prelude::*;

verus! {

/// The place of the first entry with the given name, or the length where there is none.
pub open spec fn place_of<V>(entries: Seq<(String, V)>, name: Seq<char>) -> int
    decreases entries.len(),
{
    if entries.len() == 0 || entries[0].0@ == name {
        0
    } else {
        1 + place_of(entries.skip(1), name)
    }
}

/// The value that a list of entries gives a name: that of the first entry with the name.
pub open spec fn entry_of<V>(entries: Seq<(String, V)>, name: Seq<char>) -> Option<V> {
    let i = place_of(entries, name);
    if i < entries.len() {
        Some(entries[i].1)
    } else {
        None
    }
}

/// The first entry with a name is at the place of the name.
pub proof fn place_of_first<V>(entries: Seq<(String, V)>, name: Seq<char>, i: int)
    requires
        0 <= i <= entries.len(),
        forall|j: int| 0 <= j < i ==> (#[trigger] entries[j]).0@ != name,
        i < entries.len() ==> entries[i].0@ == name,
    ensures
        place_of(entries, name) == i,
    decreases entries.len(),
{
    if i > 0 {
        let rest = entries.skip(1);
        assert forall|j: int| 0 <= j < i - 1 implies (#[trigger] rest[j]).0@ != name by {
            assert(rest[j] == entries[j + 1]);
        }
        assert(entries[0].0@ != name);
        place_of_first(rest, name, i - 1);
    }
}

/// At the place of a name stands the first entry with the name, or none does.
pub proof fn place_of_bounds<V>(entries: Seq<(String, V)>, name: Seq<char>)
    ensures
        0 <= place_of(entries, name) <= entries.len(),
        place_of(entries, name) < entries.len() ==> entries[place_of(entries, name)].0@ == name,
        forall|j: int|
            0 <= j < place_of(entries, name) ==> (#[trigger] entries[j]).0@ != name,
    decreases entries.len(),
{
    if entries.len() > 0 && entries[0].0@ != name {
        let rest = entries.skip(1);
        place_of_bounds(rest, name);
        assert forall|j: int| 0 <= j < place_of(entries, name) implies (#[trigger] entries[j]).0@
            != name by {
            if j > 0 {
                assert(entries[j] == rest[j - 1]);
            }
        }
    }
}

/// Whether no two entries have one name.
pub open spec fn distinct_names<V>(entries: Seq<(String, V)>) -> bool {
    forall|i: int, j: int|
        0 <= i < j < entries.len() ==> (#[trigger] entries[i]).0@ != (#[trigger] entries[j]).0@
}

/// Whether `listed` are the elements of `names`, each once, in order.
pub open spec fn is_sorted_listing(listed: Seq<Seq<char>>, names: Set<Seq<char>>) -> bool {
    &&& forall|i: int, j: int|
        0 <= i < j < listed.len() ==> text_less(#[trigger] listed[i], #[trigger] listed[j])
    &&& forall|name: Seq<char>| #[trigger] names.contains(name) <==> listed.contains(name)
}

/// A set of names has one sorted listing.
pub proof fn sorted_listing_is_unique(
    first: Seq<Seq<char>>,
    second: Seq<Seq<char>>,
    names: Set<Seq<char>>,
)
    requires
        is_sorted_listing(first, names),
        is_sorted_listing(second, names),
    ensures
        first == second,
    decreases first.len(),
{
    if first.len() == 0 {
        if second.len() > 0 {
            assert(second.contains(second[0]));
            assert(names.contains(second[0]));
        }
        assert(first =~= second);
    } else {
        let last = first.last();
        assert(first.contains(last));
        assert(names.contains(last));
        let k = choose|k: int| 0 <= k < second.len() && second[k] == last;
        let top = second.last();
        assert(second.contains(top));
        assert(names.contains(top));
        let l = choose|l: int| 0 <= l < first.len() && first[l] == top;
        text_less_total(last, top);
        text_less_total(top, last);
        assert(last == top) by {
            if k < second.len() - 1 {
                assert(text_less(second[k], second[second.len() - 1]));
                if l < first.len() - 1 {
                    assert(text_less(first[l], first[first.len() - 1]));
                }
            }
        }
        let rest = names.remove(last);
        let (head, tail) = (first.drop_last(), second.drop_last());
        assert forall|name: Seq<char>| #[trigger] rest.contains(name) <==> head.contains(name) by {
            if rest.contains(name) {
                assert(names.contains(name));
                let i = choose|i: int| 0 <= i < first.len() && first[i] == name;
                assert(head[i] == name);
            }
            if head.contains(name) {
                let i = choose|i: int| 0 <= i < head.len() && head[i] == name;
                assert(first[i] == name);
                assert(first.contains(name));
                assert(names.contains(name));
                assert(text_less(first[i], first[first.len() - 1]));
            }
        }
        assert forall|name: Seq<char>| #[trigger] rest.contains(name) <==> tail.contains(name) by {
            if rest.contains(name) {
                assert(names.contains(name));
                let i = choose|i: int| 0 <= i < second.len() && second[i] == name;
                assert(tail[i] == name);
            }
            if tail.contains(name) {
                let i = choose|i: int| 0 <= i < tail.len() && tail[i] == name;
                assert(second[i] == name);
                assert(second.contains(name));
                assert(names.contains(name));
                assert(text_less(second[i], second[second.len() - 1]));
            }
        }
        sorted_listing_is_unique(head, tail, rest);
        assert(first =~= head.push(last));
        assert(second =~= tail.push(top));
    }
}

/// A map from names to values.
#[derive(Debug)]
pub struct NameMap<V> {
    entries: Vec<(String, V)>,
}

impl<V: View> View for NameMap<V> {
    type V = Map<Seq<char>, V::V>;

    closed spec fn view(&self) -> Map<Seq<char>, V::V> {
        Map::new(
            |name: Seq<char>| entry_of(self.entries@, name) is Some,
            |name: Seq<char>| entry_of(self.entries@, name).unwrap()@,
        )
    }
}

impl<V> NameMap<V> {
    #[verifier::type_invariant]
    spec fn distinct(self) -> bool {
        distinct_names(self.entries@)
    }

    /// The place of a name.
    fn find(&self, name: &str) -> (res: usize)
        ensures
            res == place_of(self.entries@, name@),
            res <= self.entries@.len(),
    {
        let mut i: usize = 0;
        while i < self.entries.len()
            invariant
                i <= self.entries.len(),
                forall|j: int| 0 <= j < i ==> (#[trigger] self.entries@[j]).0@ != name@,
            decreases self.entries.len() - i,
        {
            if text_equal(self.entries[i].0.as_str(), name) {
                proof {
                    place_of_first(self.entries@, name@, i as int);
                }
                return i;
            }
            i += 1;
        }
        proof {
            place_of_first(self.entries@, name@, i as int);
        }
        i
    }
}

impl<V: View + Copy> NameMap<V> {
    /// The map without a name.
    pub fn new() -> (res: NameMap<V>)
        ensures
            res@ == Map::<Seq<char>, V::V>::empty(),
    {
        let res = NameMap { entries: Vec::new() };
        assert(res@ =~= Map::<Seq<char>, V::V>::empty());
        res
    }

    /// The number of names.
    pub fn len(&self) -> (res: usize)
        ensures
            self@.dom().finite(),
            res == self@.dom().len(),
    {
        proof {
            use_type_invariant(self);
            let names = self.entries@.map_values(|e: (String, V)| e.0@);
            assert(names.no_duplicates());
            names.unique_seq_to_set();
            assert forall|name: Seq<char>| #[trigger]
                self@.dom().contains(name) <==> names.to_set().contains(name) by {
                place_of_bounds(self.entries@, name);
                if self@.dom().contains(name) {
                    assert(names[place_of(self.entries@, name)] == name);
                }
                if names.contains(name) {
                    let i = choose|i: int| 0 <= i < names.len() && names[i] == name;
                    assert(self.entries@[i].0@ == name);
                }
            }
            assert(self@.dom() =~= names.to_set());
        }
        self.entries.len()
    }

    /// The value of a name.
    pub fn get(&self, name: &str) -> (res: Option<V>)
        ensures
            match res {
                Some(value) => self@.dom().contains(name@) && self@[name@] == value@,
                None => !self@.dom().contains(name@),
            },
    {
        let i = self.find(name);
        if i < self.entries.len() {
            Some(self.entries[i].1)
        } else {
            None
        }
    }

    /// Whether a name has a value.
    pub fn contains_key(&self, name: &str) -> (res: bool)
        ensures
            res == self@.dom().contains(name@),
    {
        self.get(name).is_some()
    }

    /// Gives a name a value.
    pub fn insert(&mut self, name: &str, value: V)
        ensures
            final(self)@ == old(self)@.insert(name@, value@),
    {
        proof {
            use_type_invariant(&*self);
            place_of_bounds(self.entries@, name@);
        }
        let i = self.find(name);
        let ghost before = self.entries@;
        let mut entries: Vec<(String, V)> = Vec::new();
        core::mem::swap(&mut entries, &mut self.entries);
        if i < entries.len() {
            entries.set(i, (name.to_owned(), value));
        } else {
            entries.push((name.to_owned(), value));
        }
        proof {
            assert(distinct_names(entries@));
            place_of_first(entries@, name@, i as int);
            assert forall|other: Seq<char>| other != name@ implies #[trigger] entry_of(
                entries@,
                other,
            ) == entry_of(before, other) by {
                place_of_bounds(before, other);
                let k = place_of(before, other);
                if k < before.len() {
                    place_of_first(entries@, other, k);
                } else {
                    place_of_first(entries@, other, entries@.len() as int);
                }
            }
        }
        self.entries = entries;
        assert(self@ =~= old(self)@.insert(name@, value@));
    }

    /// The names in order.
    pub fn sorted_names(&self) -> (res: Vec<String>)
        ensures
            is_sorted_listing(texts(res@), self@.dom()),
    {
        proof {
            use_type_invariant(self);
        }
        let mut res: Vec<String> = Vec::new();
        let mut i: usize = 0;
        while i < self.entries.len()
            invariant
                i <= self.entries.len(),
                distinct_names(self.entries@),
                forall|k: int, l: int|
                    0 <= k < l < res@.len() ==> text_less(
                        (#[trigger] res@[k])@,
                        (#[trigger] res@[l])@,
                    ),
                forall|k: int| #![trigger res@[k]]
                    0 <= k < res@.len() ==> exists|j: int|
                        0 <= j < i && (#[trigger] self.entries@[j]).0@ == res@[k]@,
                forall|j: int| #![trigger self.entries@[j]]
                    0 <= j < i ==> exists|k: int|
                        0 <= k < res@.len() && (#[trigger] res@[k])@ == self.entries@[j].0@,
            decreases self.entries.len() - i,
        {
            let name = self.entries[i].0.clone();
            let ghost before = res@;
            insert_sorted(&mut res, name);
            proof {
                let at = choose|at: int|
                    0 <= at <= before.len() && res@ == #[trigger] before.insert(at, name);
                assert forall|j: int| #![trigger self.entries@[j]]
                    0 <= j < i + 1 implies exists|k: int|
                    0 <= k < res@.len() && (#[trigger] res@[k])@ == self.entries@[j].0@ by {
                    if j == i {
                        assert(res@[at]@ == self.entries@[j].0@);
                    } else {
                        let k = choose|k: int|
                            0 <= k < before.len() && (#[trigger] before[k])@
                                == self.entries@[j].0@;
                        if k < at {
                            assert(res@[k] == before[k]);
                        } else {
                            assert(res@[k + 1] == before[k]);
                        }
                    }
                }
            }
            i += 1;
        }
        proof {
            let listed = texts(res@);
            assert forall|name: Seq<char>| #[trigger]
                self@.dom().contains(name) <==> listed.contains(name) by {
                place_of_bounds(self.entries@, name);
                if self@.dom().contains(name) {
                    let j = place_of(self.entries@, name);
                    assert(self.entries@[j].0@ == name);
                    let k = choose|k: int| 0 <= k < res@.len() && (#[trigger] res@[k])@ == name;
                    assert(listed[k] == name);
                }
                if listed.contains(name) {
                    let k = choose|k: int| 0 <= k < listed.len() && listed[k] == name;
                    assert(res@[k]@ == name);
                    let j = choose|j: int| 0 <= j < i && (#[trigger] self.entries@[j]).0@ == name;
                    assert(self.entries@[j].0@ == name);
                }
            }
        }
        res
    }

    /// The names with their values, each name once.
    pub fn to_entries(&self) -> (res: Vec<(String, V)>)
        ensures
            distinct_names(res@),
            forall|name: Seq<char>| #[trigger]
                self@.dom().contains(name) <==> entry_of(res@, name) is Some,
            forall|name: Seq<char>| #[trigger]
                self@.dom().contains(name) ==> entry_of(res@, name).unwrap()@ == self@[name],
    {
        proof {
            use_type_invariant(self);
        }
        let mut res: Vec<(String, V)> = Vec::new();
        let mut i: usize = 0;
        while i < self.entries.len()
            invariant
                i <= self.entries.len(),
                res@ == self.entries@.take(i as int),
            decreases self.entries.len() - i,
        {
            res.push((self.entries[i].0.clone(), self.entries[i].1));
            i += 1;
            assert(res@ =~= self.entries@.take(i as int));
        }
        assert(res@ =~= self.entries@);
        res
    }
}

/// Puts a name that is not yet there into a sorted list.
fn insert_sorted(list: &mut Vec<String>, name: String)
    requires
        forall|k: int, l: int|
            0 <= k < l < old(list)@.len() ==> text_less(
                (#[trigger] old(list)@[k])@,
                (#[trigger] old(list)@[l])@,
            ),
        forall|k: int| 0 <= k < old(list)@.len() ==> (#[trigger] old(list)@[k])@ != name@,
    ensures
        forall|k: int, l: int|
            0 <= k < l < final(list)@.len() ==> text_less(
                (#[trigger] final(list)@[k])@,
                (#[trigger] final(list)@[l])@,
            ),
        exists|at: int|
            0 <= at <= old(list)@.len() && final(list)@ == #[trigger] old(list)@.insert(at, name),
{
    let mut at: usize = 0;
    while at < list.len() && precedes(list[at].as_str(), name.as_str())
        invariant
            at <= list.len(),
            forall|k: int| 0 <= k < at ==> text_less((#[trigger] list@[k])@, name@),
        decreases list.len() - at,
    {
        at += 1;
    }
    let ghost before = list@;
    list.insert(at, name);
    proof {
        assert(list@ == before.insert(at as int, name));
        assert forall|k: int, l: int| 0 <= k < l < list@.len() implies text_less(
            (#[trigger] list@[k])@,
            (#[trigger] list@[l])@,
        ) by {
            if at < before.len() {
                text_less_total(name@, before[at as int]@);
            }
            if k < at && l == at {
            } else if k == at {
                assert(list@[l] == before[l - 1]);
                if l - 1 > at {
                    assert(text_less(before[at as int]@, before[l - 1]@));
                    text_less_transitive(name@, before[at as int]@, before[l - 1]@);
                }
            } else if k < at && l > at {
                assert(list@[k] == before[k] && list@[l] == before[l - 1]);
            } else if k > at {
                assert(list@[k] == before[k - 1] && list@[l] == before[l - 1]);
            } else {
                assert(list@[k] == before[k] && list@[l] == before[l]);
            }
        }
    }
}

} // verus!
