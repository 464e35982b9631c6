//! Items of the server's lookups: employees, clients and activities.

use crate::json;
use crate::json::{as_string, parse_json, Json, JsonView};
use crate::sorting;
use crate::text;
use crate::text::precedes_text;
use vstd::prelude::*;
use vstd::string::StringExecFns;

verus! {

/// An item that a lookup found.
#[derive(Debug, PartialEq, Eq)]
pub struct LookupItem {
    pub id: String,
    pub text: String,
}

/// The content of a `LookupItem`.
pub struct LookupItemView {
    pub id: Seq<char>,
    pub text: Seq<char>,
}

impl DeepView for LookupItem {
    type V = LookupItemView;

    open spec fn deep_view(&self) -> LookupItemView {
        LookupItemView { id: self.id@, text: self.text@ }
    }
}

impl Clone for LookupItem {
    fn clone(&self) -> (r: LookupItem)
        ensures
            r == *self,
    {
        LookupItem { id: self.id.clone(), text: self.text.clone() }
    }
}

impl Default for LookupItem {
    fn default() -> (r: LookupItem)
        ensures
            r.id@.len() == 0,
            r.text@.len() == 0,
    {
        LookupItem { id: String::new(), text: String::new() }
    }
}

/// The first of two optional values that is there.
pub open spec fn either(a: Option<JsonView>, b: Option<JsonView>) -> Option<JsonView> {
    match a {
        Some(value) => Some(value),
        None => b,
    }
}

/// The value that identifies an object: under `id`, else `value`, else `key`.
pub open spec fn id_value(value: JsonView) -> Option<JsonView> {
    either(
        either(json::member(value, "id"@), json::member(value, "value"@)),
        json::member(value, "key"@),
    )
}

/// The value that names an object: under `text`, else `label`, else `name`, else `descrizione`.
pub open spec fn name_value(value: JsonView) -> Option<JsonView> {
    either(
        either(
            either(json::member(value, "text"@), json::member(value, "label"@)),
            json::member(value, "name"@),
        ),
        json::member(value, "descrizione"@),
    )
}

/// An optional value in text.
pub open spec fn written_value(value: Option<JsonView>) -> Option<Seq<char>> {
    match value {
        Some(inner) => json::written(inner),
        None => None,
    }
}

/// The item that a value of a lookup stands for. An object needs an identifier and is named by
/// it where it has no name; a text or a number is both; anything else is no item.
pub open spec fn item_of(value: JsonView) -> Option<LookupItemView> {
    match value {
        JsonView::Object(_) => match written_value(id_value(value)) {
            Some(id) => Some(
                LookupItemView {
                    id,
                    text: match written_value(name_value(value)) {
                        Some(name) => name,
                        None => id,
                    },
                },
            ),
            None => None,
        },
        JsonView::Text(s) => Some(LookupItemView { id: s, text: s }),
        JsonView::Number(_, digits) => Some(LookupItemView { id: digits, text: digits }),
        _ => None,
    }
}

fn either_value<'a>(a: Option<&'a Json>, b: Option<&'a Json>) -> (r: Option<&'a Json>)
    ensures
        json::borrowed(r) == either(json::borrowed(a), json::borrowed(b)),
{
    match a {
        Some(value) => Some(value),
        None => b,
    }
}

/// The item that a value of a lookup stands for.
pub fn parse_lookup_item(value: &Json) -> (r: Option<LookupItem>)
    ensures
        r.deep_view() == item_of(value.deep_view()),
{
    match value {
        Json::Object(_) => {
            let id_source = either_value(
                either_value(value.get("id"), value.get("value")),
                value.get("key"),
            );
            let id = match id_source {
                Some(inner) => match as_string(inner) {
                    Some(id) => id,
                    None => return None,
                },
                None => return None,
            };
            let name_source = either_value(
                either_value(
                    either_value(value.get("text"), value.get("label")),
                    value.get("name"),
                ),
                value.get("descrizione"),
            );
            let name = match name_source {
                Some(inner) => as_string(inner),
                None => None,
            };
            let text = match name {
                Some(name) => name,
                None => id.clone(),
            };
            Some(LookupItem { id, text })
        },
        Json::Text(s) => Some(LookupItem { id: s.clone(), text: s.clone() }),
        Json::Number(_, digits) => Some(LookupItem { id: digits.clone(), text: digits.clone() }),
        _ => None,
    }
}

/// The items among the values of a list, in their order.
pub open spec fn items_among(values: Seq<JsonView>) -> Seq<LookupItemView>
    decreases values.len(),
{
    if values.len() == 0 {
        Seq::empty()
    } else {
        match item_of(values.last()) {
            Some(item) => items_among(values.drop_last()).push(item),
            None => items_among(values.drop_last()),
        }
    }
}

/// The items of a reply: a list holds them itself, an object under `results`.
pub open spec fn items_of(reply: JsonView) -> Seq<LookupItemView> {
    match reply {
        JsonView::Array(values) => items_among(values),
        JsonView::Object(_) => match json::member(reply, "results"@) {
            Some(JsonView::Array(values)) => items_among(values),
            _ => Seq::empty(),
        },
        _ => Seq::empty(),
    }
}

fn list_items(values: &Vec<Json>) -> (r: Vec<LookupItem>)
    ensures
        r.deep_view() == items_among(values.deep_view()),
{
    let ghost all = values.deep_view();
    let mut r: Vec<LookupItem> = Vec::new();
    assert(r.deep_view() =~= items_among(all.take(0)));
    for i in 0..values.len()
        invariant
            all == values.deep_view(),
            r.deep_view() == items_among(all.take(i as int)),
    {
        let ghost before = r.deep_view();
        assert(all.take(i + 1).drop_last() =~= all.take(i as int));
        assert(all.take(i + 1).last() == values@[i as int].deep_view());
        if let Some(item) = parse_lookup_item(&values[i]) {
            r.push(item);
            assert(r.deep_view() =~= before.push(item.deep_view()));
        }
    }
    assert(all.take(all.len() as int) =~= all);
    r
}

/// The items of a reply.
pub fn lookup_items(reply: &Json) -> (r: Vec<LookupItem>)
    ensures
        r.deep_view() == items_of(reply.deep_view()),
{
    match reply {
        Json::Array(values) => {
            assert(values.deep_view() =~= reply.deep_view()->Array_0);
            list_items(values)
        },
        Json::Object(_) => match reply.get("results") {
            Some(Json::Array(values)) => {
                proof {
                    let found = Json::Array(*values).deep_view();
                    assert(values.deep_view() =~= found->Array_0);
                }
                list_items(values)
            },
            _ => {
                let r: Vec<LookupItem> = Vec::new();
                assert(r.deep_view() =~= Seq::empty());
                r
            },
        },
        _ => {
            let r: Vec<LookupItem> = Vec::new();
            assert(r.deep_view() =~= Seq::empty());
            r
        },
    }
}

/// The items of a reply in text, or the message that it is no JSON.
pub open spec fn items_read(body: Seq<char>) -> Result<Seq<LookupItemView>, Seq<char>> {
    match json::parsed_json(body) {
        Some(reply) => Ok(items_of(reply)),
        None => Err("failed to parse lookup response: "@ + text::trimmed(body)),
    }
}

/// The items of a reply in text.
pub fn parse_lookup_items(body: &str) -> (r: Result<Vec<LookupItem>, String>)
    ensures
        text::outcome(r) == items_read(body@),
{
    match parse_json(body) {
        Some(reply) => Ok(lookup_items(&reply)),
        None => Err("failed to parse lookup response: ".to_owned().concat(body.trim())),
    }
}

/// Whether the name of one item precedes that of another.
pub open spec fn named_before(a: LookupItemView, b: LookupItemView) -> bool {
    text::precedes(a.text, b.text)
}

/// Items by name; items of the same name keep their places relative to each other.
pub open spec fn by_name(items: Seq<LookupItemView>) -> Seq<LookupItemView> {
    sorting::arranged(items, |a: LookupItemView, b: LookupItemView| named_before(a, b))
}

/// Sorts items by name; items of the same name keep their places relative to each other.
pub fn sort_by_name(items: Vec<LookupItem>) -> (r: Vec<LookupItem>)
    ensures
        r.deep_view() == by_name(items.deep_view()),
{
    let ghost before = |a: LookupItemView, b: LookupItemView| named_before(a, b);
    let ghost all = items.deep_view();
    let mut r: Vec<LookupItem> = Vec::new();
    assert(r.deep_view() =~= sorting::arranged(all.take(0), before));
    for i in 0..items.len()
        invariant
            all == items.deep_view(),
            before == (|a: LookupItemView, b: LookupItemView| named_before(a, b)),
            r.deep_view() == sorting::arranged(all.take(i as int), before),
    {
        let item = items[i].clone();
        let ghost sorted = r.deep_view();
        let ghost x = item.deep_view();
        let mut p: usize = r.len();
        while p > 0 && precedes_text(item.text.as_str(), r[p - 1].text.as_str())
            invariant
                p <= r@.len(),
                sorted == r.deep_view(),
                x == item.deep_view(),
                before == (|a: LookupItemView, b: LookupItemView| named_before(a, b)),
                forall|q: int| p <= q < sorted.len() ==> before(x, #[trigger] sorted[q]),
            decreases p,
        {
            assert(sorted[p - 1] == r@[p - 1].deep_view());
            p = p - 1;
        }
        proof {
            if p > 0 {
                assert(sorted[p - 1] == r@[p - 1].deep_view());
            }
            sorting::lemma_placed_at(sorted, x, before, p as int);
        }
        r.insert(p, item);
        proof {
            assert(r.deep_view() =~= sorted.insert(p as int, x));
            assert(all.take(i + 1).drop_last() =~= all.take(i as int));
            assert(all.take(i + 1).last() == x);
        }
    }
    assert(all.take(all.len() as int) =~= all);
    r
}

proof fn lemma_named_before_strict()
    ensures
        sorting::strict_order(|a: LookupItemView, b: LookupItemView| named_before(a, b)),
{
    let before = |a: LookupItemView, b: LookupItemView| named_before(a, b);
    assert forall|a: LookupItemView, b: LookupItemView| #[trigger] before(a, b) implies !before(
        b,
        a,
    ) by {
        text::lemma_precedes_total(a.text, b.text);
    }
    assert forall|a: LookupItemView, b: LookupItemView, c: LookupItemView|
        !#[trigger] before(a, b) && !#[trigger] before(b, c) implies !before(a, c) by {
        text::lemma_precedes_total(a.text, b.text);
        text::lemma_precedes_total(b.text, c.text);
        text::lemma_precedes_total(a.text, c.text);
        if before(a, c) {
            if a.text == b.text {
            } else if b.text == c.text {
            } else {
                text::lemma_precedes_transitive(c.text, b.text, a.text);
            }
        }
    }
}

/// Sorting items by name puts them in the order of their names, keeps every item as often as it
/// occurs, and keeps items of the same name in the order in which they stood.
pub proof fn law_by_name(items: Seq<LookupItemView>, name: Seq<char>)
    ensures
        by_name(items).to_multiset() == items.to_multiset(),
        by_name(items).len() == items.len(),
        forall|i: int, j: int|
            0 <= i < j < items.len() ==> !text::precedes(
                (#[trigger] by_name(items)[j]).text,
                (#[trigger] by_name(items)[i]).text,
            ),
        by_name(items).filter(|item: LookupItemView| item.text == name) == items.filter(
            |item: LookupItemView| item.text == name,
        ),
{
    let before = |a: LookupItemView, b: LookupItemView| named_before(a, b);
    lemma_named_before_strict();
    sorting::lemma_arranged_in_order(items, before);
    sorting::lemma_arranged_multiset(items, before);
    let key = LookupItemView { id: name, text: name };
    sorting::lemma_arranged_stable(items, before, key);
    let by_tie = |item: LookupItemView| sorting::tied(item, key, before);
    let by_text = |item: LookupItemView| item.text == name;
    assert forall|item: LookupItemView| #[trigger] by_tie(item) == by_text(item) by {
        text::lemma_precedes_total(item.text, name);
    }
    assert(by_tie =~= by_text);
    assert forall|i: int, j: int| 0 <= i < j < items.len() implies !text::precedes(
        (#[trigger] by_name(items)[j]).text,
        (#[trigger] by_name(items)[i]).text,
    ) by {
        assert(!before(by_name(items)[j], by_name(items)[i]));
    }
}

/// How a value is written where it is a text, a number or a truth value.
pub open spec fn as_written(value: Option<JsonView>) -> Option<Seq<char>> {
    match value {
        Some(JsonView::Text(s)) => Some(s),
        Some(JsonView::Number(_, digits)) => Some(digits),
        Some(JsonView::Bool(true)) => Some("true"@),
        Some(JsonView::Bool(false)) => Some("false"@),
        _ => None,
    }
}

/// A text or a number is an item that is identified and named by it; a truth value, a list or
/// null is no item.
pub proof fn law_plain_item(s: Seq<char>, integer: Option<i64>, value: JsonView)
    ensures
        item_of(JsonView::Text(s)) == Some(LookupItemView { id: s, text: s }),
        item_of(JsonView::Number(integer, s)) == Some(LookupItemView { id: s, text: s }),
        value is Null || value is Bool || value is Array ==> item_of(value) is None,
{
}

/// An object is an item exactly where the first of `id`, `value` and `key` that it has is a text,
/// a number or a truth value, which identifies it. It is named by the first of `text`, `label`,
/// `name` and `descrizione` that it has, and by its identifier where that cannot be written.
pub proof fn law_object_item(value: JsonView)
    requires
        value is Object,
    ensures
        ({
            let id = json::member(value, "id"@);
            let under_value = json::member(value, "value"@);
            let key = json::member(value, "key"@);
            let text = json::member(value, "text"@);
            let label = json::member(value, "label"@);
            let name = json::member(value, "name"@);
            let description = json::member(value, "descrizione"@);
            let item = item_of(value);
            &&& item is Some ==> {
                &&& id is Some ==> as_written(id) == Some(item->0.id)
                &&& id is None && under_value is Some ==> as_written(under_value) == Some(
                    item->0.id,
                )
                &&& id is None && under_value is None ==> as_written(key) == Some(item->0.id)
            }
            &&& item is None ==> {
                &&& id is Some ==> as_written(id) is None
                &&& id is None && under_value is Some ==> as_written(under_value) is None
                &&& id is None && under_value is None ==> as_written(key) is None
            }
            &&& item is Some ==> {
                let found = if text is Some {
                    as_written(text)
                } else if label is Some {
                    as_written(label)
                } else if name is Some {
                    as_written(name)
                } else {
                    as_written(description)
                };
                &&& found is Some ==> item->0.text == found->0
                &&& found is None ==> item->0.text == item->0.id
            }
        }),
{
}

/// The items of a list are those of its values, one after the other; a value that is no item is
/// passed over.
pub proof fn law_items_in_order(first: Seq<JsonView>, later: Seq<JsonView>, value: JsonView)
    ensures
        items_among(Seq::empty()).len() == 0,
        item_of(value) is Some ==> items_among(seq![value]) == seq![item_of(value)->0],
        item_of(value) is None ==> items_among(seq![value]).len() == 0,
        items_among(first + later) == items_among(first) + items_among(later),
    decreases later.len(),
{
    assert(items_among(Seq::empty()) =~= Seq::<LookupItemView>::empty());
    assert(seq![value].drop_last() =~= Seq::empty());
    if later.len() == 0 {
        assert(first + later =~= first);
        assert(items_among(first) + Seq::<LookupItemView>::empty() =~= items_among(first));
    } else {
        law_items_in_order(first, later.drop_last(), value);
        assert((first + later).drop_last() =~= first + later.drop_last());
        assert(items_among(first + later) =~= items_among(first) + items_among(later));
    }
}

/// A reply that is a list and one that holds the same list under `results` list the same items,
/// which are those of the list. Any other reply lists none, and a text that is no JSON is refused.
pub proof fn law_results(
    values: Seq<JsonView>,
    reply: JsonView,
    body: Seq<char>,
)
    ensures
        items_of(JsonView::Array(values)) == items_among(values),
        reply is Object && json::member(reply, "results"@) == Some(JsonView::Array(values))
            ==> items_of(reply) == items_among(values),
        reply is Object && !(json::member(reply, "results"@) matches Some(JsonView::Array(_)))
            ==> items_of(reply).len() == 0,
        !(reply is Object) && !(reply is Array) ==> items_of(reply).len() == 0,
        json::parsed_json(body) == Some(reply) ==> items_read(body) == Ok::<
            Seq<LookupItemView>,
            Seq<char>,
        >(items_of(reply)),
        json::parsed_json(body) is None ==> items_read(body) == Err::<
            Seq<LookupItemView>,
            Seq<char>,
        >("failed to parse lookup response: "@ + text::trimmed(body)),
{
}

} // verus!
