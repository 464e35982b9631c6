//! Form fields: names with values, kept in the order of their names.

use crate::text;
use crate::text::{precedes_text, same_text};
use vstd::prelude::*;

verus! {

/// Whether the names ascend, so that none occurs twice.
pub open spec fn ascending(entries: Seq<(Seq<char>, Seq<char>)>) -> bool {
    forall|i: int, j: int|
        0 <= i < j < entries.len() ==> text::precedes(
            (#[trigger] entries[i]).0,
            (#[trigger] entries[j]).0,
        )
}

/// The values by name.
pub open spec fn map_of(entries: Seq<(Seq<char>, Seq<char>)>) -> Map<Seq<char>, Seq<char>>
    decreases entries.len(),
{
    if entries.len() == 0 {
        Map::empty()
    } else {
        map_of(entries.drop_last()).insert(entries.last().0, entries.last().1)
    }
}

/// The fields of a map as a list in the order of their names.
pub open spec fn listed(fields: Map<Seq<char>, Seq<char>>) -> Seq<(Seq<char>, Seq<char>)> {
    choose|entries: Seq<(Seq<char>, Seq<char>)>|
        ascending(entries) && #[trigger] map_of(entries) == fields
}

/// Form fields: each name once, with its value.
#[derive(Debug)]
pub struct FieldMap {
    entries: Vec<(String, String)>,
}

impl DeepView for FieldMap {
    type V = Map<Seq<char>, Seq<char>>;

    closed spec fn deep_view(&self) -> Map<Seq<char>, Seq<char>> {
        map_of(self.entries.deep_view())
    }
}

impl FieldMap {
    #[verifier::type_invariant]
    spec fn names_ascend(self) -> bool {
        ascending(self.entries.deep_view())
    }

    /// No fields.
    pub fn new() -> (r: FieldMap)
        ensures
            r.deep_view() == Map::<Seq<char>, Seq<char>>::empty(),
    {
        let entries: Vec<(String, String)> = Vec::new();
        assert(entries.deep_view() =~= Seq::empty());
        FieldMap { entries }
    }

    /// The number of fields.
    pub fn len(&self) -> (r: usize)
        ensures
            r == self.deep_view().dom().len(),
    {
        proof {
            use_type_invariant(self);
            lemma_map_size(self.entries.deep_view());
        }
        self.entries.len()
    }

    /// The value of a field.
    pub fn get<'a>(&'a self, name: &str) -> (r: Option<&'a String>)
        ensures
            r.deep_view() == if self.deep_view().contains_key(name@) {
                Some(self.deep_view()[name@])
            } else {
                None
            },
    {
        let ghost all = self.entries.deep_view();
        proof {
            use_type_invariant(self);
        }
        for i in 0..self.entries.len()
            invariant
                all == self.entries.deep_view(),
                ascending(all),
                forall|k: int| 0 <= k < i ==> (#[trigger] all[k]).0 != name@,
        {
            assert(all[i as int] == (
                self.entries@[i as int].0@,
                self.entries@[i as int].1@,
            ));
            if same_text(self.entries[i].0.as_str(), name) {
                proof {
                    lemma_map_entry(all, i as int);
                }
                return Some(&self.entries[i].1);
            }
        }
        proof {
            if map_of(all).contains_key(name@) {
                let k = lemma_map_index(all, name@);
                assert(all[k].0 == name@);
            }
        }
        None
    }

    /// Sets the value of a field, which is added where it is new.
    pub fn insert(&mut self, name: String, value: String)
        ensures
            final(self).deep_view() == old(self).deep_view().insert(name@, value@),
    {
        proof {
            use_type_invariant(&*self);
        }
        let mut entries: Vec<(String, String)> = Vec::new();
        assert(entries.deep_view() =~= Seq::empty());
        std::mem::swap(&mut entries, &mut self.entries);
        let ghost all = entries.deep_view();
        let mut p: usize = 0;
        while p < entries.len() && precedes_text(entries[p].0.as_str(), name.as_str())
            invariant
                p <= entries@.len(),
                all == entries.deep_view(),
                forall|k: int| 0 <= k < p ==> text::precedes((#[trigger] all[k]).0, name@),
            decreases entries@.len() - p,
        {
            assert(all[p as int].0 == entries@[p as int].0@);
            p = p + 1;
        }
        let ghost entry = (name@, value@);
        if p < entries.len() && same_text(entries[p].0.as_str(), name.as_str()) {
            proof {
                assert(all[p as int].0 == entries@[p as int].0@);
                lemma_replace(all, p as int, entry);
            }
            entries.set(p, (name, value));
            assert(entries.deep_view() =~= all.update(p as int, entry));
        } else {
            proof {
                if p < all.len() {
                    assert(all[p as int].0 == entries@[p as int].0@);
                }
                lemma_add(all, p as int, entry);
            }
            entries.insert(p, (name, value));
            assert(entries.deep_view() =~= all.insert(p as int, entry));
        }
        self.entries = entries;
    }

    /// The fields in the order of their names.
    pub fn to_vec(&self) -> (r: Vec<(String, String)>)
        ensures
            r.deep_view() == listed(self.deep_view()),
            ascending(r.deep_view()),
            map_of(r.deep_view()) == self.deep_view(),
    {
        proof {
            use_type_invariant(self);
            lemma_listed(self.entries.deep_view());
        }
        copy_entries(&self.entries)
    }
}

impl Clone for FieldMap {
    fn clone(&self) -> (r: FieldMap)
        ensures
            r.deep_view() == self.deep_view(),
    {
        proof {
            use_type_invariant(self);
        }
        FieldMap { entries: copy_entries(&self.entries) }
    }
}

impl Default for FieldMap {
    fn default() -> (r: FieldMap)
        ensures
            r.deep_view() == Map::<Seq<char>, Seq<char>>::empty(),
    {
        FieldMap::new()
    }
}

fn copy_entries(entries: &Vec<(String, String)>) -> (r: Vec<(String, String)>)
    ensures
        r.deep_view() == entries.deep_view(),
{
    let mut r: Vec<(String, String)> = Vec::new();
    for i in 0..entries.len()
        invariant
            r@.len() == i,
            forall|k: int| 0 <= k < i ==> #[trigger] r@[k] == entries@[k],
    {
        r.push((entries[i].0.clone(), entries[i].1.clone()));
    }
    assert(r.deep_view() =~= entries.deep_view());
    r
}

/// Sets a field whose name is known; a field that the form does not have is left out.
#[verifier::opaque]
pub open spec fn with_field(
    fields: Map<Seq<char>, Seq<char>>,
    key: Option<Seq<char>>,
    value: Seq<char>,
) -> Map<Seq<char>, Seq<char>> {
    match key {
        Some(name) => fields.insert(name, value),
        None => fields,
    }
}

/// Sets a field whose name is known; a field that the form does not have is left out.
pub fn set_optional_field(fields: &mut FieldMap, key: Option<&String>, value: &str)
    ensures
        final(fields).deep_view() == with_field(old(fields).deep_view(), key.deep_view(), value@),
{
    proof {
        reveal(with_field);
    }
    if let Some(name) = key {
        fields.insert(name.clone(), value.to_owned());
    }
}

proof fn lemma_map_entry(entries: Seq<(Seq<char>, Seq<char>)>, i: int)
    requires
        ascending(entries),
        0 <= i < entries.len(),
    ensures
        map_of(entries).contains_key(entries[i].0),
        map_of(entries)[entries[i].0] == entries[i].1,
    decreases entries.len(),
{
    if i < entries.len() - 1 {
        let front = entries.drop_last();
        lemma_map_entry(front, i);
        assert(text::precedes(entries[i].0, entries.last().0));
        text::lemma_precedes_total(entries[i].0, entries[i].0);
    }
}

proof fn lemma_map_index(entries: Seq<(Seq<char>, Seq<char>)>, name: Seq<char>) -> (i: int)
    requires
        map_of(entries).contains_key(name),
    ensures
        0 <= i < entries.len(),
        entries[i].0 == name,
    decreases entries.len(),
{
    if entries.last().0 == name {
        entries.len() - 1
    } else {
        lemma_map_index(entries.drop_last(), name)
    }
}

proof fn lemma_map_size(entries: Seq<(Seq<char>, Seq<char>)>)
    requires
        ascending(entries),
    ensures
        map_of(entries).dom().finite(),
        map_of(entries).dom().len() == entries.len(),
    decreases entries.len(),
{
    if entries.len() > 0 {
        let front = entries.drop_last();
        lemma_map_size(front);
        if map_of(front).contains_key(entries.last().0) {
            let k = lemma_map_index(front, entries.last().0);
            assert(text::precedes(entries[k].0, entries.last().0));
            text::lemma_precedes_total(entries[k].0, entries[k].0);
        }
        assert(map_of(entries).dom() =~= map_of(front).dom().insert(entries.last().0));
    }
}

proof fn lemma_replace(
    entries: Seq<(Seq<char>, Seq<char>)>,
    p: int,
    entry: (Seq<char>, Seq<char>),
)
    requires
        ascending(entries),
        0 <= p < entries.len(),
        entries[p].0 == entry.0,
    ensures
        ascending(entries.update(p, entry)),
        map_of(entries.update(p, entry)) == map_of(entries).insert(entry.0, entry.1),
{
    let new = entries.update(p, entry);
    let target = map_of(entries).insert(entry.0, entry.1);
    assert forall|i: int, j: int| 0 <= i < j < new.len() implies text::precedes(
        (#[trigger] new[i]).0,
        (#[trigger] new[j]).0,
    ) by {
        assert(text::precedes(entries[i].0, entries[j].0));
    }
    assert forall|name: Seq<char>| #[trigger]
        map_of(new).contains_key(name) implies target.contains_key(name) && map_of(new)[name]
        == target[name] by {
        let k = lemma_map_index(new, name);
        lemma_map_entry(new, k);
        lemma_map_entry(entries, k);
        if k != p {
            lemma_distinct(entries, k, p);
        }
    }
    assert forall|name: Seq<char>| #[trigger] target.contains_key(name) implies map_of(
        new,
    ).contains_key(name) by {
        if name == entry.0 {
            lemma_map_entry(new, p);
        } else {
            let k = lemma_map_index(entries, name);
            assert(new[k] == entries[k]);
            lemma_map_entry(new, k);
        }
    }
    assert(map_of(new) =~= target);
}

proof fn lemma_distinct(entries: Seq<(Seq<char>, Seq<char>)>, i: int, j: int)
    requires
        ascending(entries),
        0 <= i < entries.len(),
        0 <= j < entries.len(),
        i != j,
    ensures
        entries[i].0 != entries[j].0,
{
    text::lemma_precedes_total(entries[i].0, entries[i].0);
    if i < j {
        assert(text::precedes(entries[i].0, entries[j].0));
    } else {
        assert(text::precedes(entries[j].0, entries[i].0));
    }
}

proof fn lemma_add(entries: Seq<(Seq<char>, Seq<char>)>, p: int, entry: (Seq<char>, Seq<char>))
    requires
        ascending(entries),
        0 <= p <= entries.len(),
        forall|k: int| 0 <= k < p ==> text::precedes((#[trigger] entries[k]).0, entry.0),
        p < entries.len() ==> !text::precedes(entries[p].0, entry.0) && entries[p].0 != entry.0,
    ensures
        ascending(entries.insert(p, entry)),
        map_of(entries.insert(p, entry)) == map_of(entries).insert(entry.0, entry.1),
{
    let new = entries.insert(p, entry);
    let target = map_of(entries).insert(entry.0, entry.1);
    assert forall|k: int| p <= k < entries.len() implies text::precedes(
        entry.0,
        (#[trigger] entries[k]).0,
    ) by {
        text::lemma_precedes_total(entries[p].0, entry.0);
        if k > p {
            assert(text::precedes(entries[p].0, entries[k].0));
            text::lemma_precedes_transitive(entry.0, entries[p].0, entries[k].0);
        }
    }
    assert forall|i: int, j: int| 0 <= i < j < new.len() implies text::precedes(
        (#[trigger] new[i]).0,
        (#[trigger] new[j]).0,
    ) by {
        let a = if i < p { i } else { i - 1 };
        let b = if j < p { j } else { j - 1 };
        if i == p {
            assert(new[j] == entries[b]);
        } else if j == p {
            assert(new[i] == entries[a]);
        } else {
            assert(new[i] == entries[a] && new[j] == entries[b]);
        }
    }
    assert forall|name: Seq<char>| #[trigger]
        map_of(new).contains_key(name) implies target.contains_key(name) && map_of(new)[name]
        == target[name] by {
        let k = lemma_map_index(new, name);
        lemma_map_entry(new, k);
        if k != p {
            lemma_distinct(new, k, p);
            lemma_map_entry(entries, if k < p { k } else { k - 1 });
        }
    }
    assert forall|name: Seq<char>| #[trigger] target.contains_key(name) implies map_of(
        new,
    ).contains_key(name) by {
        if name == entry.0 {
            lemma_map_entry(new, p);
        } else {
            let k = lemma_map_index(entries, name);
            lemma_map_entry(new, if k < p { k } else { k + 1 });
        }
    }
    assert(map_of(new) =~= target);
}

proof fn lemma_same_list(a: Seq<(Seq<char>, Seq<char>)>, b: Seq<(Seq<char>, Seq<char>)>)
    requires
        ascending(a),
        ascending(b),
        map_of(a) == map_of(b),
    ensures
        a == b,
    decreases a.len(),
{
    if a.len() == 0 {
        if b.len() > 0 {
            lemma_map_entry(b, 0);
        }
        assert(a =~= b);
    } else {
        lemma_map_entry(a, a.len() - 1);
        let j = lemma_map_index(b, a.last().0);
        lemma_map_entry(b, b.len() - 1);
        let i = lemma_map_index(a, b.last().0);
        if a.last().0 != b.last().0 {
            assert(text::precedes(b[j].0, b.last().0));
            assert(text::precedes(a[i].0, a.last().0));
            text::lemma_precedes_total(a.last().0, b.last().0);
        }
        lemma_without_last(a);
        lemma_without_last(b);
        lemma_same_list(a.drop_last(), b.drop_last());
        assert(a =~= a.drop_last().push(a.last()));
        assert(b =~= b.drop_last().push(b.last()));
    }
}

proof fn lemma_without_last(entries: Seq<(Seq<char>, Seq<char>)>)
    requires
        ascending(entries),
        entries.len() > 0,
    ensures
        map_of(entries.drop_last()) == map_of(entries).remove(entries.last().0),
{
    let front = entries.drop_last();
    if map_of(front).contains_key(entries.last().0) {
        let k = lemma_map_index(front, entries.last().0);
        lemma_distinct(entries, k, entries.len() - 1);
    }
    assert(map_of(front) =~= map_of(entries).remove(entries.last().0));
}

/// A list in the order of its names is the only one of its map.
pub proof fn lemma_listed(entries: Seq<(Seq<char>, Seq<char>)>)
    requires
        ascending(entries),
    ensures
        listed(map_of(entries)) == entries,
{
    let found = listed(map_of(entries));
    assert(ascending(found) && map_of(found) == map_of(entries));
    lemma_same_list(found, entries);
}

/// A field reads back the value it was set to last, and setting it leaves every other field as
/// it was.
pub proof fn law_field_set(
    fields: Map<Seq<char>, Seq<char>>,
    key: Seq<char>,
    value: Seq<char>,
    other: Seq<char>,
)
    requires
        other != key,
    ensures
        with_field(fields, Some(key), value).contains_key(key),
        with_field(fields, Some(key), value)[key] == value,
        with_field(fields, Some(key), value).contains_key(other) == fields.contains_key(other),
        fields.contains_key(other) ==> with_field(fields, Some(key), value)[other]
            == fields[other],
        with_field(fields, None, value) == fields,
{
    reveal(with_field);
}

proof fn lemma_list_exists(fields: Map<Seq<char>, Seq<char>>) -> (entries: Seq<
    (Seq<char>, Seq<char>),
>)
    requires
        fields.dom().finite(),
    ensures
        ascending(entries),
        map_of(entries) == fields,
    decreases fields.dom().len(),
{
    if fields.dom().len() == 0 {
        let none = Seq::<(Seq<char>, Seq<char>)>::empty();
        assert(fields.dom() =~= Set::empty());
        assert(map_of(none) =~= fields);
        none
    } else {
        let name = fields.dom().choose();
        let rest = fields.remove(name);
        assert(rest.dom() =~= fields.dom().remove(name));
        let entries = lemma_list_exists(rest);
        let p = lemma_place(entries, name);
        if p < entries.len() {
            lemma_map_entry(entries, p);
        }
        let entry = (name, fields[name]);
        lemma_add(entries, p, entry);
        assert(map_of(entries.insert(p, entry)) =~= fields);
        entries.insert(p, entry)
    }
}

proof fn lemma_place(entries: Seq<(Seq<char>, Seq<char>)>, name: Seq<char>) -> (p: int)
    ensures
        0 <= p <= entries.len(),
        forall|k: int| 0 <= k < p ==> text::precedes((#[trigger] entries[k]).0, name),
        p < entries.len() ==> !text::precedes(entries[p].0, name),
    decreases entries.len(),
{
    if entries.len() == 0 {
        0
    } else {
        let front = entries.drop_last();
        let p = lemma_place(front, name);
        assert(forall|k: int| 0 <= k < front.len() ==> (#[trigger] entries[k]) == front[k]);
        if p < front.len() || !text::precedes(entries.last().0, name) {
            p
        } else {
            p + 1
        }
    }
}

/// The list of some fields holds each of them with its value, once and in the order of the names,
/// and holds nothing else.
pub proof fn law_listed(
    fields: Map<Seq<char>, Seq<char>>,
    name: Seq<char>,
    value: Seq<char>,
)
    requires
        fields.dom().finite(),
    ensures
        forall|i: int, j: int|
            0 <= i < j < listed(fields).len() ==> text::precedes(
                (#[trigger] listed(fields)[i]).0,
                (#[trigger] listed(fields)[j]).0,
            ),
        listed(fields).len() == fields.dom().len(),
        listed(fields).contains((name, value)) <==> fields.contains_key(name) && fields[name]
            == value,
{
    let found = lemma_list_exists(fields);
    lemma_listed(found);
    let entries = listed(fields);
    lemma_map_size(entries);
    if entries.contains((name, value)) {
        let k = choose|k: int| 0 <= k < entries.len() && entries[k] == (name, value);
        lemma_map_entry(entries, k);
    }
    if fields.contains_key(name) {
        let k = lemma_map_index(entries, name);
        lemma_map_entry(entries, k);
        assert(entries[k] == (name, fields[name]));
    }
}

} // verus!
