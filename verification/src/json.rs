//! A JSON value as the library reads and writes it: request payloads, and the
//! field objects the UI hands to `update_issue` / `transition` / `create_issue`.
use vstd::prelude::*;
use crate::text::{owned, str_eq};

verus! {

/// A JSON value. Numbers keep their literal text; object entries keep their order.
#[derive(Debug, PartialEq, Eq)]
pub enum Json {
    Null,
    Bool(bool),
    Number(String),
    Str(String),
    Array(Vec<Json>),
    Object(Vec<(String, Json)>),
}

/// The value of the first entry named `key`.
pub open spec fn entry_of(entries: Seq<(String, Json)>, key: Seq<char>) -> Option<Json>
    decreases entries.len(),
{
    if entries.len() == 0 {
        None
    } else if entries[0].0@ == key {
        Some(entries[0].1)
    } else {
        entry_of(entries.skip(1), key)
    }
}

/// `entries` with `key` set to `value`: the first entry named `key` is replaced
/// in place, or a new entry is appended.
pub open spec fn with_entry(entries: Seq<(String, Json)>, key: String, value: Json) -> Seq<
    (String, Json),
>
    decreases entries.len(),
{
    if entries.len() == 0 {
        seq![(key, value)]
    } else if entries[0].0@ == key@ {
        seq![(key, value)] + entries.skip(1)
    } else {
        seq![entries[0]] + with_entry(entries.skip(1), key, value)
    }
}

impl Json {
    /// `self[key]` for an object, `None` otherwise.
    pub open spec fn get_of(&self, key: Seq<char>) -> Option<Json> {
        match *self {
            Json::Object(entries) => entry_of(entries@, key),
            _ => None,
        }
    }

    /// The string inside `self`, if it is one.
    pub open spec fn str_of(&self) -> Option<Seq<char>> {
        match *self {
            Json::Str(s) => Some(s@),
            _ => None,
        }
    }

    pub fn string(s: &str) -> (r: Json)
        ensures
            r matches Json::Str(t) && t@ == s@,
            r.view_of() == JsonView::Str(s@),
    {
        Json::Str(s.to_owned())
    }

    pub fn boolean(b: bool) -> (r: Json)
        ensures
            r == Json::Bool(b),
            r.view_of() == JsonView::Bool(b),
    {
        Json::Bool(b)
    }

    /// The empty object.
    pub fn object() -> (r: Json)
        ensures
            r matches Json::Object(e) && e@.len() == 0,
    {
        Json::Object(Vec::new())
    }

    /// Whether this is an object with at least one entry.
    pub fn is_nonempty_object(&self) -> (r: bool)
        ensures
            r == (self matches Json::Object(e) && e@.len() > 0),
    {
        match self {
            Json::Object(e) => e.len() > 0,
            _ => false,
        }
    }

    /// `as_str`: the string inside a string value.
    pub fn as_str(&self) -> (r: Option<&str>)
        ensures
            r matches Some(s) ==> self.str_of() == Some(s@),
            r is None ==> self.str_of() is None,
    {
        match self {
            Json::Str(s) => Some(s.as_str()),
            _ => None,
        }
    }

    /// The value under `key` of an object (first matching entry).
    pub fn get(&self, key: &str) -> (r: Option<&Json>)
        ensures
            r matches Some(v) ==> self.get_of(key@) == Some(*v),
            r is None ==> self.get_of(key@) is None,
    {
        match self {
            Json::Object(entries) => match find_entry(entries, key) {
                Some(i) => Some(&entries[i].1),
                None => None,
            },
            _ => None,
        }
    }

    /// Sets `key` to `value` on an object (replacing an existing entry); other
    /// values are left as they are.
    pub fn insert(&mut self, key: String, value: Json)
        ensures
            *old(self) matches Json::Object(e) ==> (*final(self) matches Json::Object(f) && f@
                == with_entry(e@, key, value)),
            !(*old(self) is Object) ==> *final(self) == *old(self),
    {
        if let Json::Object(entries) = self {
            set_entry(entries, key, value);
        }
    }
}

/// Index of the first entry named `key`.
pub fn find_entry(entries: &Vec<(String, Json)>, key: &str) -> (r: Option<usize>)
    ensures
        r matches Some(i) ==> i < entries@.len() && entries@[i as int].0@ == key@
            && entry_of(entries@, key@) == Some(entries@[i as int].1)
            && with_entry(entries@, entries@[i as int].0, entries@[i as int].1) == entries@,
        r matches Some(i) ==> forall|k: String, v: Json| k@ == key@ ==> #[trigger] with_entry(entries@, k, v)
            == entries@.take(i as int) + seq![(k, v)] + entries@.skip(i + 1),
        r is None ==> entry_of(entries@, key@) is None,
        r is None ==> forall|k: String, v: Json| k@ == key@ ==> #[trigger] with_entry(entries@, k, v)
            == entries@.push((k, v)),
{
    let ghost e0 = entries@;
    let mut i: usize = 0;
    assert(e0.skip(0) == e0);
    while i < entries.len()
        invariant
            i <= e0.len(),
            entries@ == e0,
            entry_of(e0, key@) == entry_of(e0.skip(i as int), key@),
            forall|k: String, v: Json| k@ == key@ ==> #[trigger] with_entry(e0, k, v)
                == e0.take(i as int) + with_entry(e0.skip(i as int), k, v),
        decreases entries.len() - i,
    {
        assert(e0.skip(i as int).skip(1) == e0.skip(i + 1));
        assert(e0.skip(i as int)[0] == e0[i as int]);
        if str_eq(entries[i].0.as_str(), key) {
            assert forall|k: String, v: Json| k@ == key@ implies #[trigger] with_entry(e0, k, v)
                == e0.take(i as int) + seq![(k, v)] + e0.skip(i + 1) by {
                assert(with_entry(e0.skip(i as int), k, v) == seq![(k, v)] + e0.skip(i + 1));
            }
            let ghost k0 = e0[i as int].0;
            let ghost v0 = e0[i as int].1;
            assert(with_entry(e0, k0, v0) =~= e0);
            return Some(i);
        }
        assert forall|k: String, v: Json| k@ == key@ implies #[trigger] with_entry(e0, k, v)
            == e0.take(i + 1) + with_entry(e0.skip(i + 1), k, v) by {
            assert(e0.take(i + 1) =~= e0.take(i as int) + seq![e0[i as int]]);
        }
        i = i + 1;
    }
    assert(e0.take(e0.len() as int) == e0);
    assert(e0.skip(e0.len() as int) =~= Seq::<(String, Json)>::empty());
    assert forall|k: String, v: Json| k@ == key@ implies #[trigger] with_entry(e0, k, v)
        == e0.push((k, v)) by {
        assert(e0.take(e0.len() as int) + seq![(k, v)] =~= e0.push((k, v)));
    }
    None
}

/// Sets `key` to `value` in an entry list (see [`with_entry`]).
pub fn set_entry(entries: &mut Vec<(String, Json)>, key: String, value: Json)
    ensures
        final(entries)@ == with_entry(old(entries)@, key, value),
{
    match find_entry(entries, key.as_str()) {
        Some(i) => {
            let ghost k = key;
            let ghost v = value;
            entries.set(i, (key, value));
            assert(entries@ =~= old(entries)@.take(i as int) + seq![(k, v)] + old(entries)@.skip(i + 1));
        },
        None => {
            entries.push((key, value));
        },
    }
}

/// Mathematical value of a [`Json`].
pub enum JsonView {
    Null,
    Bool(bool),
    Number(Seq<char>),
    Str(Seq<char>),
    Array(Seq<JsonView>),
    Object(Seq<(Seq<char>, JsonView)>),
}

impl Json {
    pub open spec fn view_of(&self) -> JsonView
        decreases self,
    {
        match self {
            Json::Null => JsonView::Null,
            Json::Bool(b) => JsonView::Bool(*b),
            Json::Number(n) => JsonView::Number(n@),
            Json::Str(s) => JsonView::Str(s@),
            Json::Array(v) => JsonView::Array(
                Seq::new(
                    v@.len(),
                    |i: int|
                        if 0 <= i < v@.len() {
                            proof {
                                vstd::std_specs::vec::axiom_vec_index_decreases(*v, i);
                            }
                            v@[i].view_of()
                        } else {
                            JsonView::Null
                        },
                ),
            ),
            Json::Object(e) => JsonView::Object(
                Seq::new(
                    e@.len(),
                    |i: int|
                        if 0 <= i < e@.len() {
                            proof {
                                vstd::std_specs::vec::axiom_vec_index_decreases(*e, i);
                            }
                            (e@[i].0@, e@[i].1.view_of())
                        } else {
                            (Seq::empty(), JsonView::Null)
                        },
                ),
            ),
        }
    }
}

/// View of an entry list.
pub open spec fn entries_view(e: Seq<(String, Json)>) -> Seq<(Seq<char>, JsonView)> {
    Seq::new(e.len(), |i: int| (e[i].0@, e[i].1.view_of()))
}

/// [`with_entry`] on views.
pub open spec fn set_view(entries: Seq<(Seq<char>, JsonView)>, key: Seq<char>, value: JsonView) -> Seq<(Seq<char>, JsonView)>
    decreases entries.len(),
{
    if entries.len() == 0 {
        seq![(key, value)]
    } else if entries[0].0 == key {
        seq![(key, value)] + entries.skip(1)
    } else {
        seq![entries[0]] + set_view(entries.skip(1), key, value)
    }
}

/// Every entry of `extra` set in turn on `acc`.
pub open spec fn merge_view(acc: Seq<(Seq<char>, JsonView)>, extra: Seq<(Seq<char>, JsonView)>) -> Seq<(Seq<char>, JsonView)>
    decreases extra.len(),
{
    if extra.len() == 0 {
        acc
    } else {
        set_view(merge_view(acc, extra.drop_last()), extra.last().0, extra.last().1)
    }
}

pub proof fn lemma_with_entry_view(e: Seq<(String, Json)>, key: String, value: Json)
    ensures
        entries_view(with_entry(e, key, value)) == set_view(entries_view(e), key@, value.view_of()),
    decreases e.len(),
{
    if e.len() > 0 {
        lemma_with_entry_view(e.skip(1), key, value);
        assert(entries_view(e).skip(1) =~= entries_view(e.skip(1)));
        if e[0].0@ == key@ {
            assert(entries_view(with_entry(e, key, value)) =~= seq![(key@, value.view_of())] + entries_view(e).skip(1));
        } else {
            assert(entries_view(with_entry(e, key, value)) =~= seq![entries_view(e)[0]] + entries_view(with_entry(e.skip(1), key, value)));
        }
    } else {
        assert(entries_view(with_entry(e, key, value)) =~= seq![(key@, value.view_of())]);
    }
}

/// The string members of a JSON array, in order.
pub open spec fn string_members(vs: Seq<Json>) -> Seq<Seq<char>>
    decreases vs.len(),
{
    if vs.len() == 0 {
        seq![]
    } else {
        let init = string_members(vs.drop_last());
        match vs.last().str_of() {
            Some(s) => init.push(s),
            None => init,
        }
    }
}

/// The string members of a JSON array.
pub fn strings_in(arr: &Vec<Json>) -> (r: Vec<String>)
    ensures
        r.deep_view() == string_members(arr@),
{
    let mut r: Vec<String> = Vec::new();
    let mut i: usize = 0;
    while i < arr.len()
        invariant
            i <= arr@.len(),
            r.deep_view() == string_members(arr@.take(i as int)),
        decreases arr.len() - i,
    {
        let ghost t = arr@.take(i + 1);
        assert(t.drop_last() == arr@.take(i as int));
        assert(t.last() == arr@[i as int]);
        if let Some(s) = arr[i].as_str() {
            let ghost before = r.deep_view();
            r.push(owned(s));
            assert(r.deep_view() =~= before.push(s@));
        }
        i = i + 1;
    }
    assert(arr@.take(arr@.len() as int) == arr@);
    r
}

/// Reading an object after setting a key gives the value just set, and leaves
/// every other key as it was.
pub proof fn law_set_then_get(entries: Seq<(String, Json)>, key: String, value: Json, other: Seq<char>)
    ensures
        entry_of(with_entry(entries, key, value), key@) == Some(value),
        other != key@ ==> entry_of(with_entry(entries, key, value), other) == entry_of(entries, other),
    decreases entries.len(),
{
    if entries.len() > 0 {
        law_set_then_get(entries.skip(1), key, value, other);
        if entries[0].0@ == key@ {
            let w = seq![(key, value)] + entries.skip(1);
            assert(w[0] == (key, value));
            assert(w.skip(1) =~= entries.skip(1));
        } else {
            let w = seq![entries[0]] + with_entry(entries.skip(1), key, value);
            assert(w[0] == entries[0]);
            assert((seq![entries[0]] + with_entry(entries.skip(1), key, value)).skip(1) =~= with_entry(
                entries.skip(1),
                key,
                value,
            ));
        }
    } else {
        let w = seq![(key, value)];
        assert(w[0] == (key, value));
        assert(w.skip(1) =~= Seq::<(String, Json)>::empty());
        assert(entry_of(w.skip(1), other) is None);
    }
}

} // verus!
