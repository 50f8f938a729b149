use crate::value::{ContextValue, StoredValue};
use std::sync::Arc;
use vstd::prelude::*;
use vstd::string::StringSliceAdditionalSpecFns;
use vstd::utf8::encode_utf8_decode_utf8;

verus! {

/// What a store holds, as mathematics: each key that is present, with the
/// stored value under it.
pub type ContextModel = Map<Seq<char>, StoredValue>;

/// What a typed read of `key` finds in `model`: the value if the key is
/// present and the value under it is of type `T`.
pub open spec fn lookup<T: ContextValue>(model: ContextModel, key: Seq<char>) -> Option<T> {
    if model.dom().contains(key) {
        T::held(model[key])
    } else {
        None
    }
}

struct Entry {
    key: String,
    value: StoredValue,
}

/// The key-value store that the stages of a pipeline share.
pub struct ServiceContext {
    entries: Vec<Entry>,
}

spec fn holds_key(entries: Seq<Entry>, key: Seq<char>, i: int) -> bool {
    0 <= i < entries.len() && entries[i].key@ == key
}

spec fn keys_distinct(entries: Seq<Entry>) -> bool {
    forall|i: int, j: int|
        0 <= i < entries.len() && #[trigger] holds_key(entries, entries[i].key@, j) ==> i == j
}

spec fn model_of(entries: Seq<Entry>) -> ContextModel {
    Map::new(
        |key: Seq<char>| exists|i: int| holds_key(entries, key, i),
        |key: Seq<char>| entries[choose|i: int| holds_key(entries, key, i)].value,
    )
}

/// With distinct keys, the model maps the key of each entry to that entry's
/// value.
proof fn lemma_model_at(entries: Seq<Entry>, i: int)
    requires
        keys_distinct(entries),
        0 <= i < entries.len(),
    ensures
        model_of(entries).dom().contains(entries[i].key@),
        model_of(entries)[entries[i].key@] == entries[i].value,
{
    let key = entries[i].key@;
    assert(holds_key(entries, key, i));
    let chosen = choose|c: int| holds_key(entries, key, c);
    assert(holds_key(entries, entries[i].key@, chosen));
}

/// Replacing the value of entry `i` under the same key replaces the value
/// under that key in the model.
proof fn lemma_model_replace(before: Seq<Entry>, i: int, entry: Entry)
    requires
        keys_distinct(before),
        holds_key(before, entry.key@, i),
    ensures
        keys_distinct(before.update(i, entry)),
        model_of(before.update(i, entry)) == model_of(before).insert(entry.key@, entry.value),
{
    let after = before.update(i, entry);
    assert forall|a: int, b: int|
        0 <= a < after.len() && #[trigger] holds_key(after, after[a].key@, b) implies a == b by {
        assert(holds_key(before, before[a].key@, b));
    }
    assert forall|key: Seq<char>|
        model_of(after).dom().contains(key) <==> #[trigger] model_of(before).insert(
            entry.key@,
            entry.value,
        ).dom().contains(key) by {
        if model_of(after).dom().contains(key) {
            let c = choose|c: int| holds_key(after, key, c);
            assert(holds_key(before, key, c));
        }
        if model_of(before).dom().contains(key) {
            let c = choose|c: int| holds_key(before, key, c);
            assert(holds_key(after, key, c));
        }
        if key == entry.key@ {
            assert(holds_key(after, key, i));
        }
    }
    assert forall|key: Seq<char>| #[trigger] model_of(after).dom().contains(key) implies model_of(
        after,
    )[key] == model_of(before).insert(entry.key@, entry.value)[key] by {
        let c = choose|c: int| holds_key(after, key, c);
        lemma_model_at(after, c);
        if key == entry.key@ {
            assert(holds_key(after, after[i].key@, c));
        } else {
            lemma_model_at(before, c);
        }
    }
    assert(model_of(after) =~= model_of(before).insert(entry.key@, entry.value));
}

/// Appending an entry under a key that no entry has adds the key to the
/// model.
proof fn lemma_model_append(before: Seq<Entry>, entry: Entry)
    requires
        keys_distinct(before),
        forall|i: int| !holds_key(before, entry.key@, i),
    ensures
        keys_distinct(before.push(entry)),
        model_of(before.push(entry)) == model_of(before).insert(entry.key@, entry.value),
{
    let after = before.push(entry);
    let last = before.len() as int;
    assert forall|a: int, b: int|
        0 <= a < after.len() && #[trigger] holds_key(after, after[a].key@, b) implies a == b by {
        if a < last && b < last {
            assert(holds_key(before, before[a].key@, b));
        } else if a < last {
            assert(holds_key(before, entry.key@, a));
        } else if b < last {
            assert(holds_key(before, entry.key@, b));
        }
    }
    assert forall|key: Seq<char>|
        model_of(after).dom().contains(key) <==> #[trigger] model_of(before).insert(
            entry.key@,
            entry.value,
        ).dom().contains(key) by {
        if model_of(after).dom().contains(key) {
            let c = choose|c: int| holds_key(after, key, c);
            if c < last {
                assert(holds_key(before, key, c));
            }
        }
        if model_of(before).dom().contains(key) {
            let c = choose|c: int| holds_key(before, key, c);
            assert(holds_key(after, key, c));
        }
        if key == entry.key@ {
            assert(holds_key(after, key, last));
        }
    }
    assert forall|key: Seq<char>| #[trigger] model_of(after).dom().contains(key) implies model_of(
        after,
    )[key] == model_of(before).insert(entry.key@, entry.value)[key] by {
        let c = choose|c: int| holds_key(after, key, c);
        lemma_model_at(after, c);
        if c < last {
            assert(holds_key(before, key, c));
            lemma_model_at(before, c);
        }
    }
    assert(model_of(after) =~= model_of(before).insert(entry.key@, entry.value));
}

/// Whether `a` and `b` hold the same characters. The bytes are compared, and
/// two texts have the same bytes only if they have the same characters.
fn same_text(a: &str, b: &str) -> (same: bool)
    ensures
        same == (a@ == b@),
{
    let left = a.as_bytes();
    let right = b.as_bytes();
    proof {
        encode_utf8_decode_utf8(a@);
        encode_utf8_decode_utf8(b@);
    }
    if left.len() != right.len() {
        return false;
    }
    let mut i: usize = 0;
    while i < left.len()
        invariant
            left@.len() == right@.len(),
            i <= left@.len(),
            forall|j: int| 0 <= j < i ==> left@[j] == right@[j],
            left@ == a.spec_bytes(),
            right@ == b.spec_bytes(),
        decreases left@.len() - i,
    {
        if left[i] != right[i] {
            return false;
        }
        i += 1;
    }
    assert(left@ =~= right@);
    true
}

impl View for ServiceContext {
    type V = ContextModel;

    closed spec fn view(&self) -> ContextModel {
        model_of(self.entries@)
    }
}

impl ServiceContext {
    /// No key occurs twice.
    #[verifier::type_invariant]
    spec fn well_formed(self) -> bool {
        keys_distinct(self.entries@)
    }

    /// An empty store.
    pub fn new() -> (context: Self)
        ensures
            context@ == Map::<Seq<char>, StoredValue>::empty(),
    {
        let context = ServiceContext { entries: Vec::new() };
        assert(context@ =~= Map::<Seq<char>, StoredValue>::empty());
        context
    }

    /// The index of the entry under `key`, if there is one.
    fn position(&self, key: &str) -> (found: Option<usize>)
        ensures
            match found {
                Some(i) => holds_key(self.entries@, key@, i as int),
                None => forall|i: int| !holds_key(self.entries@, key@, i),
            },
    {
        let mut i: usize = 0;
        while i < self.entries.len()
            invariant
                i <= self.entries@.len(),
                forall|j: int| 0 <= j < i ==> !holds_key(self.entries@, key@, j),
            decreases self.entries@.len() - i,
        {
            if same_text(self.entries[i].key.as_str(), key) {
                return Some(i);
            }
            i += 1;
        }
        None
    }

    /// Stores `value` under `key`. Whatever was under `key`, of whatever
    /// type, is replaced.
    pub fn insert<T: ContextValue>(&mut self, key: String, value: T)
        ensures
            final(self)@ == old(self)@.insert(key@, value.stored()),
    {
        proof {
            use_type_invariant(&*self);
        }
        let found = self.position(key.as_str());
        let entry = Entry { key, value: value.into_stored() };
        let mut entries: Vec<Entry> = Vec::new();
        std::mem::swap(&mut entries, &mut self.entries);
        match found {
            Some(i) => {
                proof {
                    lemma_model_replace(entries@, i as int, entry);
                }
                entries.set(i, entry);
            },
            None => {
                proof {
                    lemma_model_append(entries@, entry);
                }
                entries.push(entry);
            },
        }
        self.entries = entries;
    }

    /// A shared handle to the value under `key`, if the key is present and
    /// the value was stored as a `T`.
    pub fn get<T: ContextValue>(&self, key: &str) -> (handle: Option<Arc<T>>)
        ensures
            match handle {
                Some(h) => lookup::<T>(self@, key@) == Some(*h),
                None => lookup::<T>(self@, key@) is None,
            },
    {
        match self.position(key) {
            Some(i) => {
                proof {
                    use_type_invariant(self);
                    lemma_model_at(self.entries@, i as int);
                }
                T::from_stored(&self.entries[i].value)
            },
            None => None,
        }
    }
}

impl Default for ServiceContext {
    /// An empty store, as `new` makes it.
    fn default() -> (context: Self)
        ensures
            context@ == Map::<Seq<char>, StoredValue>::empty(),
    {
        ServiceContext::new()
    }
}

} // verus!
