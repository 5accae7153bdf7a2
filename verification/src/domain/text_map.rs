//! Maps from text to values.

use vstd::prelude::*;
use vstd::string::StringExecFns;

use crate::domain::text::texts_equal;

verus! {

/// Map in which no key occurs twice.
pub struct TextMap<Value> {
    entries: Vec<(String, Value)>,
}

spec fn has_key<Value>(entries: Seq<(String, Value)>, key: Seq<char>) -> bool {
    exists|i: int| 0 <= i < entries.len() && (#[trigger] entries[i]).0@ == key
}

spec fn key_index<Value>(entries: Seq<(String, Value)>, key: Seq<char>) -> int {
    choose|i: int| 0 <= i < entries.len() && (#[trigger] entries[i]).0@ == key
}

spec fn keys_differ<Value>(entries: Seq<(String, Value)>) -> bool {
    forall|i: int, j: int|
        0 <= i < j < entries.len() ==> (#[trigger] entries[i]).0@ != (#[trigger] entries[j]).0@
}

spec fn contents<Value>(entries: Seq<(String, Value)>) -> Map<Seq<char>, Value> {
    Map::new(
        |key: Seq<char>| has_key(entries, key),
        |key: Seq<char>| entries[key_index(entries, key)].1,
    )
}

impl<Value> View for TextMap<Value> {
    type V = Map<Seq<char>, Value>;

    closed spec fn view(&self) -> Map<Seq<char>, Value> {
        contents(self.entries@)
    }
}

impl<Value> TextMap<Value> {
    #[verifier::type_invariant]
    spec fn is_valid(self) -> bool {
        keys_differ(self.entries@)
    }

    /// Creates an empty map.
    pub fn new() -> (created: Self)
        ensures
            created@ == Map::<Seq<char>, Value>::empty(),
    {
        let created = TextMap { entries: Vec::new() };
        proof {
            assert(created@ =~= Map::<Seq<char>, Value>::empty());
        }
        created
    }

    /// Number of entries.
    pub fn len(&self) -> (count: usize)
        ensures
            self@.dom().finite(),
            count == self@.dom().len(),
    {
        proof {
            use_type_invariant(self);
            lemma_size(self.entries@);
        }
        self.entries.len()
    }

    fn position(entries: &Vec<(String, Value)>, key: &str) -> (found: Option<usize>)
        requires
            keys_differ(entries@),
        ensures
            match found {
                Some(index) => index < entries@.len() && entries@[index as int].0@ == key@,
                None => !has_key(entries@, key@),
            },
    {
        let mut index: usize = 0;
        while index < entries.len()
            invariant
                index <= entries@.len(),
                forall|i: int| 0 <= i < index ==> (#[trigger] entries@[i]).0@ != key@,
            decreases entries@.len() - index,
        {
            if texts_equal(entries[index].0.as_str(), key) {
                return Some(index);
            }
            index = index + 1;
        }
        None
    }

    /// The value of a key.
    pub fn get(&self, key: &str) -> (found: Option<&Value>)
        ensures
            match found {
                Some(value) => self@.dom().contains(key@) && *value == self@[key@],
                None => !self@.dom().contains(key@),
            },
    {
        proof {
            use_type_invariant(self);
        }
        match TextMap::<Value>::position(&self.entries, key) {
            Some(index) => {
                proof {
                    lemma_found(self.entries@, index as int);
                }
                Some(&self.entries[index].1)
            },
            None => None,
        }
    }

    /// Sets the value of a key.
    pub fn insert(&mut self, key: String, value: Value)
        ensures
            final(self)@ == old(self)@.insert(key@, value),
    {
        proof {
            use_type_invariant(&*self);
        }
        let mut entries: Vec<(String, Value)> = Vec::new();
        std::mem::swap(&mut entries, &mut self.entries);
        let ghost before = entries@;
        let name = key.as_str();
        match TextMap::<Value>::position(&entries, name) {
            Some(index) => {
                let _earlier = entries.remove(index);
                proof {
                    lemma_removed(before, index as int);
                }
            },
            None => {
                proof {
                    assert(contents(before).remove(key@) =~= contents(before));
                }
            },
        }
        let ghost rest = entries@;
        entries.push((key, value));
        proof {
            assert(entries@ == rest.push((key, value)));
            assert(!has_key(rest, key@));
            lemma_pushed(rest, key, value);
            assert(contents(entries@) =~= contents(before).insert(key@, value));
        }
        self.entries = entries;
    }

    /// Takes a key out.
    pub fn remove(&mut self, key: &str) -> (taken: Option<Value>)
        ensures
            final(self)@ == old(self)@.remove(key@),
            match taken {
                Some(value) => old(self)@.dom().contains(key@) && value == old(self)@[key@],
                None => !old(self)@.dom().contains(key@),
            },
    {
        proof {
            use_type_invariant(&*self);
        }
        let mut entries: Vec<(String, Value)> = Vec::new();
        std::mem::swap(&mut entries, &mut self.entries);
        let ghost before = entries@;
        match TextMap::<Value>::position(&entries, key) {
            Some(index) => {
                let (_key, value) = entries.remove(index);
                proof {
                    lemma_removed(before, index as int);
                    lemma_found(before, index as int);
                }
                self.entries = entries;
                Some(value)
            },
            None => {
                proof {
                    assert(contents(before).remove(key@) =~= contents(before));
                }
                self.entries = entries;
                None
            },
        }
    }

    /// The keys, each of them once.
    pub fn keys(&self) -> (keys: Vec<String>)
        ensures
            forall|index: int|
                0 <= index < keys@.len() ==> self@.dom().contains((#[trigger] keys@[index])@),
            forall|key: Seq<char>| #[trigger]
                self@.dom().contains(key) ==> exists|index: int|
                    0 <= index < keys@.len() && (#[trigger] keys@[index])@ == key,
            forall|left: int, right: int|
                0 <= left < right < keys@.len() ==> (#[trigger] keys@[left])@ != (
                #[trigger] keys@[right])@,
    {
        proof {
            use_type_invariant(self);
        }
        let mut keys: Vec<String> = Vec::new();
        let mut index: usize = 0;
        while index < self.entries.len()
            invariant
                index <= self.entries@.len(),
                keys@.len() == index,
                forall|place: int|
                    0 <= place < index ==> (#[trigger] keys@[place])@ == self.entries@[place].0@,
            decreases self.entries@.len() - index,
        {
            keys.push(String::from_str(self.entries[index].0.as_str()));
            index += 1;
        }
        proof {
            assert forall|place: int| 0 <= place < keys@.len() implies self@.dom().contains(
                (#[trigger] keys@[place])@,
            ) by {
                assert(self.entries@[place].0@ == keys@[place]@);
            }
            assert forall|key: Seq<char>| #[trigger] self@.dom().contains(key) implies exists|
                place: int,
            |
                0 <= place < keys@.len() && (#[trigger] keys@[place])@ == key by {
                let place = key_index(self.entries@, key);
                assert(self.entries@[place].0@ == key);
                assert(keys@[place]@ == key);
            }
            assert forall|left: int, right: int| 0 <= left < right < keys@.len() implies (
            #[trigger] keys@[left])@ != (#[trigger] keys@[right])@ by {
                assert(self.entries@[left].0@ != self.entries@[right].0@);
            }
        }
        keys
    }
}

proof fn lemma_found<Value>(entries: Seq<(String, Value)>, index: int)
    requires
        keys_differ(entries),
        0 <= index < entries.len(),
    ensures
        contents(entries).dom().contains(entries[index].0@),
        contents(entries)[entries[index].0@] == entries[index].1,
{
    let key = entries[index].0@;
    assert(has_key(entries, key));
    let chosen = key_index(entries, key);
    assert(entries[chosen].0@ == key);
    if chosen < index {
        assert(entries[chosen].0@ != entries[index].0@);
    } else if chosen > index {
        assert(entries[index].0@ != entries[chosen].0@);
    }
}

proof fn lemma_removed<Value>(entries: Seq<(String, Value)>, index: int)
    requires
        keys_differ(entries),
        0 <= index < entries.len(),
    ensures
        keys_differ(entries.remove(index)),
        !has_key(entries.remove(index), entries[index].0@),
        contents(entries.remove(index)) == contents(entries).remove(entries[index].0@),
{
    let rest = entries.remove(index);
    let gone = entries[index].0@;
    assert forall|i: int| 0 <= i < rest.len() implies (#[trigger] rest[i]) == entries[if i < index {
        i
    } else {
        i + 1
    }] by {}
    assert(keys_differ(rest)) by {
        assert forall|i: int, j: int| 0 <= i < j < rest.len() implies (#[trigger] rest[i]).0@ != (
        #[trigger] rest[j]).0@ by {
            let a = if i < index {
                i
            } else {
                i + 1
            };
            let b = if j < index {
                j
            } else {
                j + 1
            };
            assert(entries[a].0@ != entries[b].0@);
        }
    }
    assert forall|i: int| 0 <= i < rest.len() implies (#[trigger] rest[i]).0@ != gone by {
        let a = if i < index {
            i
        } else {
            i + 1
        };
        if a < index {
            assert(entries[a].0@ != entries[index].0@);
        } else {
            assert(entries[index].0@ != entries[a].0@);
        }
    }
    assert forall|key: Seq<char>| key != gone implies has_key(rest, key) == has_key(entries, key)
        by {
        if has_key(entries, key) {
            let i = key_index(entries, key);
            let a = if i < index {
                i
            } else {
                i - 1
            };
            assert(rest[a].0@ == key);
        }
        if has_key(rest, key) {
            let i = key_index(rest, key);
            let a = if i < index {
                i
            } else {
                i + 1
            };
            assert(entries[a].0@ == key);
        }
    }
    assert forall|key: Seq<char>| has_key(rest, key) implies contents(rest)[key] == contents(
        entries,
    )[key] by {
        let i = key_index(rest, key);
        assert(rest[i].0@ == key);
        lemma_found(rest, i);
        lemma_found(
            entries,
            if i < index {
                i
            } else {
                i + 1
            },
        );
    }
    assert(contents(rest) =~= contents(entries).remove(gone));
}

proof fn lemma_pushed<Value>(entries: Seq<(String, Value)>, key: String, value: Value)
    requires
        keys_differ(entries),
        !has_key(entries, key@),
    ensures
        keys_differ(entries.push((key, value))),
        contents(entries.push((key, value))) == contents(entries).insert(key@, value),
{
    let all = entries.push((key, value));
    let last = entries.len() as int;
    assert(all[last] == (key, value));
    assert forall|i: int, j: int| 0 <= i < j < all.len() implies (#[trigger] all[i]).0@ != (
    #[trigger] all[j]).0@ by {
        if j == last {
            assert(entries[i].0@ != key@);
        } else {
            assert(entries[i].0@ != entries[j].0@);
        }
    }
    assert forall|name: Seq<char>| has_key(all, name) == (has_key(entries, name) || name == key@)
        by {
        if has_key(entries, name) {
            assert(all[key_index(entries, name)].0@ == name);
        }
        if name == key@ {
            assert(all[last].0@ == name);
        }
        if has_key(all, name) && name != key@ {
            assert(entries[key_index(all, name)].0@ == name);
        }
    }
    assert forall|name: Seq<char>| has_key(all, name) implies contents(all)[name] == contents(
        entries,
    ).insert(key@, value)[name] by {
        let i = key_index(all, name);
        assert(all[i].0@ == name);
        lemma_found(all, i);
        if i < last {
            lemma_found(entries, i);
        }
    }
    assert(contents(all) =~= contents(entries).insert(key@, value));
}

proof fn lemma_size<Value>(entries: Seq<(String, Value)>)
    requires
        keys_differ(entries),
    ensures
        contents(entries).dom().finite(),
        contents(entries).dom().len() == entries.len(),
    decreases entries.len(),
{
    if entries.len() == 0 {
        assert(contents(entries).dom() =~= Set::<Seq<char>>::empty());
    } else {
        let rest = entries.drop_last();
        let last = entries.last();
        assert forall|i: int, j: int| 0 <= i < j < rest.len() implies (#[trigger] rest[i]).0@ != (
        #[trigger] rest[j]).0@ by {
            assert(entries[i].0@ != entries[j].0@);
        }
        assert forall|i: int| 0 <= i < rest.len() implies (#[trigger] rest[i]).0@ != last.0@ by {
            assert(entries[i].0@ != entries[entries.len() - 1].0@);
        }
        lemma_size(rest);
        lemma_pushed(rest, last.0, last.1);
        assert(entries =~= rest.push((last.0, last.1)));
        assert(contents(entries).dom() =~= contents(rest).dom().insert(last.0@));
    }
}

} // verus!
