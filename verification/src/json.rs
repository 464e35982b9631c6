//! JSON replies of the server: what they hold and what their messages say.

use crate::text;
use crate::text::{join_texts, same_text};
use vstd::prelude::*;

verus! {

/// A JSON value. A number is kept as the integer that it is, where a signed 64-bit integer holds
/// it, and as its text.
#[derive(Debug)]
pub enum Json {
    Null,
    Bool(bool),
    Number(Option<i64>, String),
    Text(String),
    Array(Vec<Json>),
    Object(Vec<(String, Json)>),
}

/// The content of a JSON value.
pub enum JsonView {
    Null,
    Bool(bool),
    Number(Option<i64>, Seq<char>),
    Text(Seq<char>),
    Array(Seq<JsonView>),
    Object(Seq<(Seq<char>, JsonView)>),
}

/// The content of a JSON value.
pub open spec fn content(value: Json) -> JsonView
    decreases value,
{
    match value {
        Json::Null => JsonView::Null,
        Json::Bool(b) => JsonView::Bool(b),
        Json::Number(integer, written) => JsonView::Number(integer, written@),
        Json::Text(s) => JsonView::Text(s@),
        Json::Array(items) => JsonView::Array(
            Seq::new(
                items@.len(),
                |i: int|
                    if 0 <= i < items@.len() {
                        content(items@[i])
                    } else {
                        JsonView::Null
                    },
            ),
        ),
        Json::Object(entries) => JsonView::Object(
            Seq::new(
                entries@.len(),
                |i: int|
                    if 0 <= i < entries@.len() {
                        (entries@[i].0@, content(entries@[i].1))
                    } else {
                        (Seq::empty(), JsonView::Null)
                    },
            ),
        ),
    }
}

impl DeepView for Json {
    type V = JsonView;

    open spec fn deep_view(&self) -> JsonView {
        content(*self)
    }
}

/// `serde_json::Value`, a JSON value as `serde_json` reads it.
#[verifier::external_type_specification]
#[verifier::external_body]
pub struct ExValue(serde_json::Value);

/// What a `serde_json::Value` holds.
pub uninterp spec fn value_content(value: serde_json::Value) -> JsonView;

/// What `serde_json::from_str` reads from a text.
pub uninterp spec fn parsed_json(text: Seq<char>) -> Option<JsonView>;

/// The outermost layer of a `serde_json::Value`.
enum ValueNode {
    Null,
    Bool(bool),
    Number(Option<i64>, String),
    Text(String),
    Array(Vec<serde_json::Value>),
    Object(Vec<(String, serde_json::Value)>),
}

spec fn node_content(node: ValueNode) -> JsonView {
    match node {
        ValueNode::Null => JsonView::Null,
        ValueNode::Bool(b) => JsonView::Bool(b),
        ValueNode::Number(integer, written) => JsonView::Number(integer, written@),
        ValueNode::Text(s) => JsonView::Text(s@),
        ValueNode::Array(items) => JsonView::Array(
            items@.map_values(|item: serde_json::Value| value_content(item)),
        ),
        ValueNode::Object(entries) => JsonView::Object(
            entries@.map_values(
                |entry: (String, serde_json::Value)| (entry.0@, value_content(entry.1)),
            ),
        ),
    }
}

/// `serde_json::from_str` reads one JSON value from a text, or fails.
#[verifier::external_body]
fn value_from_text(text: &str) -> (r: Option<serde_json::Value>)
    ensures
        match r {
            Some(value) => parsed_json(text@) == Some(value_content(value)),
            None => parsed_json(text@) is None,
        },
{
    serde_json::from_str(text).ok()
}

/// Takes the outermost layer off a `serde_json::Value`: its variant with what that holds. The
/// entries of an object keep the order of `serde_json::Map`.
#[verifier::external_body]
fn open_value(value: serde_json::Value) -> (r: ValueNode)
    ensures
        node_content(r) == value_content(value),
{
    match value {
        serde_json::Value::Null => ValueNode::Null,
        serde_json::Value::Bool(b) => ValueNode::Bool(b),
        serde_json::Value::Number(n) => ValueNode::Number(n.as_i64(), n.to_string()),
        serde_json::Value::String(s) => ValueNode::Text(s),
        serde_json::Value::Array(items) => ValueNode::Array(items),
        serde_json::Value::Object(map) => ValueNode::Object(map.into_iter().collect()),
    }
}

fn json_of(value: serde_json::Value) -> (r: Json)
    ensures
        r.deep_view() == value_content(value),
    decreases value_content(value),
{
    let ghost whole = value_content(value);
    match open_value(value) {
        ValueNode::Null => Json::Null,
        ValueNode::Bool(b) => Json::Bool(b),
        ValueNode::Number(integer, written) => Json::Number(integer, written),
        ValueNode::Text(s) => Json::Text(s),
        ValueNode::Array(items) => {
            let ghost all = items@;
            let mut read: Vec<Json> = Vec::new();
            for item in it: items
                invariant
                    it.seq() == all,
                    read@.len() == it.index(),
                    whole == value_content(value),
                    whole == JsonView::Array(
                        all.map_values(|item: serde_json::Value| value_content(item)),
                    ),
                    forall|k: int|
                        0 <= k < read@.len() ==> content(#[trigger] read@[k]) == value_content(
                            all[k],
                        ),
            {
                assert(whole->Array_0[it.index()] == value_content(item));
                read.push(json_of(item));
            }
            let r = Json::Array(read);
            assert(content(r)->Array_0 =~= whole->Array_0);
            r
        },
        ValueNode::Object(entries) => {
            let ghost all = entries@;
            let mut read: Vec<(String, Json)> = Vec::new();
            for entry in it: entries
                invariant
                    it.seq() == all,
                    read@.len() == it.index(),
                    whole == value_content(value),
                    whole == JsonView::Object(
                        all.map_values(
                            |entry: (String, serde_json::Value)| (entry.0@, value_content(entry.1)),
                        ),
                    ),
                    forall|k: int|
                        0 <= k < read@.len() ==> {
                            &&& (#[trigger] read@[k]).0@ == all[k].0@
                            &&& content(read@[k].1) == value_content(all[k].1)
                        },
            {
                assert(whole->Object_0[it.index()] == (entry.0@, value_content(entry.1)));
                assert(decreases_to!(whole => whole->Object_0));
                assert(decreases_to!(whole->Object_0 => whole->Object_0[it.index()]));
                assert(decreases_to!(whole->Object_0[it.index()] => whole->Object_0[it.index()].1));
                let (key, inner) = entry;
                read.push((key, json_of(inner)));
            }
            let r = Json::Object(read);
            assert(content(r)->Object_0 =~= whole->Object_0);
            r
        },
    }
}

/// Reads one JSON value from a text.
pub fn parse_json(text: &str) -> (r: Option<Json>)
    ensures
        r.deep_view() == parsed_json(text@),
{
    match value_from_text(text) {
        Some(value) => Some(json_of(value)),
        None => None,
    }
}

/// The value of the first entry with a given key.
pub open spec fn entry_of(entries: Seq<(Seq<char>, JsonView)>, key: Seq<char>) -> Option<JsonView>
    decreases entries.len(),
{
    if entries.len() == 0 {
        None
    } else if entries[0].0 == key {
        Some(entries[0].1)
    } else {
        entry_of(entries.drop_first(), key)
    }
}

/// The value under a key of an object; anything else has no keys.
pub open spec fn member(value: JsonView, key: Seq<char>) -> Option<JsonView> {
    match value {
        JsonView::Object(entries) => entry_of(entries, key),
        _ => None,
    }
}

/// The text that an optional value is, if it is one.
pub open spec fn text_of(value: Option<JsonView>) -> Option<Seq<char>> {
    match value {
        Some(JsonView::Text(s)) => Some(s),
        _ => None,
    }
}

/// What an optional borrowed value holds.
pub open spec fn borrowed(value: Option<&Json>) -> Option<JsonView> {
    match value {
        Some(inner) => Some(inner.deep_view()),
        None => None,
    }
}

impl Json {
    /// The value under a key of an object.
    pub fn get<'a>(&'a self, key: &str) -> (r: Option<&'a Json>)
        ensures
            borrowed(r) == member(self.deep_view(), key@),
    {
        match self {
            Json::Object(entries) => {
                let ghost all = self.deep_view()->Object_0;
                assert(all.skip(0) =~= all);
                for i in 0..entries.len()
                    invariant
                        self.deep_view() == JsonView::Object(all),
                        *self == Json::Object(*entries),
                        entry_of(all, key@) == entry_of(all.skip(i as int), key@),
                {
                    assert(all.skip(i as int)[0] == all[i as int]);
                    if same_text(entries[i].0.as_str(), key) {
                        return Some(&entries[i].1);
                    }
                    assert(all.skip(i as int).drop_first() =~= all.skip(i + 1));
                }
                None
            },
            _ => None,
        }
    }

    /// The text that the value is, if it is one.
    pub fn as_str<'a>(&'a self) -> (r: Option<&'a String>)
        ensures
            r.deep_view() == text_of(Some(self.deep_view())),
    {
        match self {
            Json::Text(s) => Some(s),
            _ => None,
        }
    }
}

/// The text under a key of an object, if there is one.
pub fn text_under<'a>(value: &'a Json, key: &str) -> (r: Option<&'a String>)
    ensures
        r.deep_view() == text_of(member(value.deep_view(), key@)),
{
    match value.get(key) {
        Some(inner) => inner.as_str(),
        None => None,
    }
}

/// Whether a value that may be missing counts as true.
pub open spec fn counts(value: Option<JsonView>) -> bool {
    match value {
        Some(JsonView::Bool(b)) => b,
        Some(JsonView::Text(s)) => !text::blank(s) && text::trimmed(s) != "0"@,
        Some(JsonView::Number(integer, _)) => integer matches Some(n) && n != 0,
        Some(JsonView::Array(items)) => items.len() != 0,
        Some(JsonView::Object(entries)) => entries.len() != 0,
        _ => false,
    }
}

/// Whether a value that may be missing counts as true.
pub fn truthy(value: Option<&Json>) -> (r: bool)
    ensures
        r == counts(borrowed(value)),
{
    match value {
        Some(Json::Bool(b)) => *b,
        Some(Json::Text(s)) => !s.as_str().trim().is_empty() && !same_text(s.as_str().trim(), "0"),
        Some(Json::Number(integer, _)) => match integer {
            Some(n) => *n != 0,
            None => false,
        },
        Some(Json::Array(items)) => items.len() != 0,
        Some(Json::Object(entries)) => entries.len() != 0,
        _ => false,
    }
}

/// The texts in a value that are not blank, trimmed, in the order in which they stand.
pub open spec fn messages(value: JsonView) -> Seq<Seq<char>>
    decreases value,
{
    match value {
        JsonView::Text(s) => if text::blank(s) {
            Seq::empty()
        } else {
            seq![text::trimmed(s)]
        },
        JsonView::Array(items) => item_messages(items),
        JsonView::Object(entries) => entry_messages(entries),
        _ => Seq::empty(),
    }
}

/// The messages of the items of a list, one item after the other.
pub open spec fn item_messages(items: Seq<JsonView>) -> Seq<Seq<char>>
    decreases items,
{
    if items.len() == 0 {
        Seq::empty()
    } else {
        item_messages(items.drop_last()) + messages(items.last())
    }
}

/// The messages of the values of an object, one entry after the other.
pub open spec fn entry_messages(entries: Seq<(Seq<char>, JsonView)>) -> Seq<Seq<char>>
    decreases entries,
{
    if entries.len() == 0 {
        Seq::empty()
    } else {
        entry_messages(entries.drop_last()) + messages(entries.last().1)
    }
}

/// Appends the texts in a value that are not blank, trimmed, in the order in which they stand.
pub fn collect_messages(value: &Json, messages: &mut Vec<String>)
    ensures
        final(messages).deep_view() == old(messages).deep_view() + self::messages(
            value.deep_view(),
        ),
    decreases value,
{
    let ghost before = messages.deep_view();
    match value {
        Json::Text(s) => {
            let trimmed = s.as_str().trim();
            if !trimmed.is_empty() {
                messages.push(trimmed.to_owned());
                assert(messages.deep_view() =~= before.push(text::trimmed(s@)));
            }
            assert(messages.deep_view() =~= before + self::messages(value.deep_view()));
        },
        Json::Array(items) => {
            let ghost all = value.deep_view()->Array_0;
            assert(messages.deep_view() =~= before + item_messages(all.take(0)));
            for i in 0..items.len()
                invariant
                    *value == Json::Array(*items),
                    value.deep_view() == JsonView::Array(all),
                    messages.deep_view() == before + item_messages(all.take(i as int)),
            {
                collect_messages(&items[i], messages);
                assert(all.take(i + 1).drop_last() =~= all.take(i as int));
                assert(all.take(i + 1).last() == content(items@[i as int]));
                assert(messages.deep_view() =~= before + item_messages(all.take(i + 1)));
            }
            assert(all.take(all.len() as int) =~= all);
        },
        Json::Object(entries) => {
            let ghost all = value.deep_view()->Object_0;
            assert(messages.deep_view() =~= before + entry_messages(all.take(0)));
            for i in 0..entries.len()
                invariant
                    *value == Json::Object(*entries),
                    value.deep_view() == JsonView::Object(all),
                    messages.deep_view() == before + entry_messages(all.take(i as int)),
            {
                collect_messages(&entries[i].1, messages);
                assert(all.take(i + 1).drop_last() =~= all.take(i as int));
                assert(all.take(i + 1).last().1 == content(entries@[i as int].1));
                assert(messages.deep_view() =~= before + entry_messages(all.take(i + 1)));
            }
            assert(all.take(all.len() as int) =~= all);
        },
        _ => {
            assert(messages.deep_view() =~= before + self::messages(value.deep_view()));
        },
    }
}

/// The message where the server refused a request without a word.
pub open spec fn no_detail() -> Seq<char> {
    "Il server ha restituito un errore non dettagliato"@
}

/// What a refusal says: the texts under `dettagli`, else the text under `error`, else a message
/// that there is none.
pub open spec fn detail_messages(body: JsonView) -> Seq<Seq<char>> {
    let details = match member(body, "dettagli"@) {
        Some(inner) => messages(inner),
        None => Seq::empty(),
    };
    if details.len() > 0 {
        details
    } else {
        match text_of(member(body, "error"@)) {
            Some(message) if !text::blank(message) => seq![text::trimmed(message)],
            _ => seq![no_detail()],
        }
    }
}

/// What a refusal says, message by message; never nothing.
pub fn extract_detail_messages(body: &Json) -> (r: Vec<String>)
    ensures
        r.deep_view() == detail_messages(body.deep_view()),
        r@.len() > 0,
{
    let mut messages: Vec<String> = Vec::new();
    assert(messages.deep_view() =~= Seq::<Seq<char>>::empty());
    if let Some(details) = body.get("dettagli") {
        collect_messages(details, &mut messages);
        assert(messages.deep_view() =~= self::messages(details.deep_view()));
    }
    assert(messages.deep_view().len() == messages@.len());
    if messages.len() == 0 {
        if let Some(message) = text_under(body, "error") {
            let trimmed = message.as_str().trim();
            if !trimmed.is_empty() {
                messages.push(trimmed.to_owned());
                assert(messages.deep_view() =~= seq![text::trimmed(message@)]);
            }
        }
        if messages.len() == 0 {
            messages.push("Il server ha restituito un errore non dettagliato".to_owned());
            assert(messages.deep_view() =~= seq![no_detail()]);
        }
    }
    messages
}

/// The message of a refusal in one text: the one under `error`, else the details line by line.
pub open spec fn primary_error(body: JsonView) -> Seq<char> {
    match text_of(member(body, "error"@)) {
        Some(message) if !text::blank(message) => text::trimmed(message),
        _ => text::joined(detail_messages(body), "\n"@),
    }
}

/// The message of a refusal in one text.
pub fn extract_primary_error(body: &Json) -> (r: String)
    ensures
        r@ == primary_error(body.deep_view()),
{
    if let Some(message) = text_under(body, "error") {
        let trimmed = message.as_str().trim();
        if !trimmed.is_empty() {
            return trimmed.to_owned();
        }
    }
    join_texts(&extract_detail_messages(body), "\n")
}

/// Whether a refusal is one that the user may override.
pub open spec fn forceable(body: JsonView) -> bool {
    match member(body, "dettagli"@) {
        Some(details) => {
            ||| member(details, "validita_sottotimbratura"@) is Some
            ||| member(details, "orario_tracimato"@) is Some
        },
        None => false,
    }
}

/// Whether a refusal is one that the user may override.
pub fn has_forceable_validation(body: &Json) -> (r: bool)
    ensures
        r == forceable(body.deep_view()),
{
    match body.get("dettagli") {
        Some(details) => details.get("validita_sottotimbratura").is_some() || details.get(
            "orario_tracimato",
        ).is_some(),
        None => false,
    }
}

/// A text, number or truth value in text; a list, an object or null has none.
pub open spec fn written(value: JsonView) -> Option<Seq<char>> {
    match value {
        JsonView::Text(s) => Some(s),
        JsonView::Number(_, digits) => Some(digits),
        JsonView::Bool(b) => Some(if b { "true"@ } else { "false"@ }),
        _ => None,
    }
}

/// A text, number or truth value in text.
pub fn as_string(value: &Json) -> (r: Option<String>)
    ensures
        r.deep_view() == written(value.deep_view()),
{
    match value {
        Json::Text(s) => Some(s.clone()),
        Json::Number(_, digits) => Some(digits.clone()),
        Json::Bool(b) => Some(if *b { "true".to_owned() } else { "false".to_owned() }),
        _ => None,
    }
}

/// Under a key of an object stands the value of the first entry with this key. There is none where
/// no entry has the key, nor in anything that is not an object.
pub proof fn law_member(entries: Seq<(Seq<char>, JsonView)>, key: Seq<char>, n: int)
    requires
        0 <= n <= entries.len(),
        forall|i: int| 0 <= i < n ==> (#[trigger] entries[i]).0 != key,
        n < entries.len() ==> entries[n].0 == key,
    ensures
        n < entries.len() ==> member(JsonView::Object(entries), key) == Some(entries[n].1),
        n == entries.len() ==> member(JsonView::Object(entries), key) is None,
        forall|value: JsonView| !(value is Object) ==> #[trigger] member(value, key) is None,
    decreases n,
{
    if n > 0 {
        let rest = entries.drop_first();
        assert(forall|i: int| 0 <= i < rest.len() ==> (#[trigger] rest[i]) == entries[i + 1]);
        law_member(rest, key, n - 1);
    }
}

/// What is missing or null does not count as true. A truth value counts as what it is, a number
/// where it is an integer other than zero, a list or an object where it holds anything, and a text
/// where something else than white space and a single zero is in it; the white space around it
/// makes no difference.
pub proof fn law_counts(
    truth: bool,
    integer: Option<i64>,
    text: Seq<char>,
    items: Seq<JsonView>,
    entries: Seq<(Seq<char>, JsonView)>,
)
    ensures
        !counts(None),
        !counts(Some(JsonView::Null)),
        counts(Some(JsonView::Bool(truth))) == truth,
        counts(Some(JsonView::Number(integer, text))) <==> integer is Some && integer->0 != 0,
        counts(Some(JsonView::Array(items))) <==> items.len() > 0,
        counts(Some(JsonView::Object(entries))) <==> entries.len() > 0,
        counts(Some(JsonView::Text(text))) <==> text::trimmed(text).len() > 0 && text::trimmed(text)
            != "0"@,
        counts(Some(JsonView::Text(text))) == counts(Some(JsonView::Text(text::trimmed(text)))),
{
    text::lemma_trimmed_twice(text);
}

/// The messages in a value are its texts that are not blank, trimmed, each once and in order:
/// those of a list or an object are those of its parts, one part after the other, and nothing but
/// a text, a list or an object holds any.
pub proof fn law_messages(
    text: Seq<char>,
    first: Seq<JsonView>,
    later: Seq<JsonView>,
    entries: Seq<(Seq<char>, JsonView)>,
    more: Seq<(Seq<char>, JsonView)>,
    value: JsonView,
    key: Seq<char>,
)
    ensures
        text::blank(text) ==> messages(JsonView::Text(text)).len() == 0,
        !text::blank(text) ==> messages(JsonView::Text(text)) == seq![text::trimmed(text)],
        value is Null || value is Bool || value is Number ==> messages(value).len() == 0,
        messages(JsonView::Array(Seq::empty())).len() == 0,
        messages(JsonView::Object(Seq::empty())).len() == 0,
        messages(JsonView::Array(seq![value])) == messages(value),
        messages(JsonView::Object(seq![(key, value)])) == messages(value),
        messages(JsonView::Array(first + later)) == messages(JsonView::Array(first)) + messages(
            JsonView::Array(later),
        ),
        messages(JsonView::Object(entries + more)) == messages(JsonView::Object(entries))
            + messages(JsonView::Object(more)),
{
    let none = Seq::<Seq<char>>::empty();
    assert(item_messages(Seq::empty()) =~= none);
    assert(entry_messages(Seq::empty()) =~= none);
    assert(seq![value].drop_last() =~= Seq::empty());
    assert(seq![(key, value)].drop_last() =~= Seq::empty());
    assert(none + messages(value) =~= messages(value));
    lemma_item_messages(first, later);
    lemma_entry_messages(entries, more);
}

proof fn lemma_item_messages(first: Seq<JsonView>, later: Seq<JsonView>)
    ensures
        item_messages(first + later) == item_messages(first) + item_messages(later),
    decreases later.len(),
{
    if later.len() == 0 {
        assert(first + later =~= first);
        assert(item_messages(first) + Seq::<Seq<char>>::empty() =~= item_messages(first));
    } else {
        lemma_item_messages(first, later.drop_last());
        assert((first + later).drop_last() =~= first + later.drop_last());
        assert(item_messages(first + later) =~= item_messages(first) + item_messages(later));
    }
}

proof fn lemma_entry_messages(
    first: Seq<(Seq<char>, JsonView)>,
    later: Seq<(Seq<char>, JsonView)>,
)
    ensures
        entry_messages(first + later) == entry_messages(first) + entry_messages(later),
    decreases later.len(),
{
    if later.len() == 0 {
        assert(first + later =~= first);
        assert(entry_messages(first) + Seq::<Seq<char>>::empty() =~= entry_messages(first));
    } else {
        lemma_entry_messages(first, later.drop_last());
        assert((first + later).drop_last() =~= first + later.drop_last());
        assert(entry_messages(first + later) =~= entry_messages(first) + entry_messages(later));
    }
}

/// A refusal is told by all the messages under `dettagli`. Only where there are none, it is told
/// by the text under `error`, and only where that is blank too, by a message of its own; so it is
/// never told by nothing.
pub proof fn law_details_first(body: JsonView)
    ensures
        ({
            let details = member(body, "dettagli"@);
            let any = details is Some && messages(details->0).len() > 0;
            let told = detail_messages(body);
            let said = match member(body, "error"@) {
                Some(JsonView::Text(message)) => text::trimmed(message),
                _ => Seq::empty(),
            };
            &&& told.len() > 0
            &&& any ==> told == messages(details->0)
            &&& !any && said.len() > 0 ==> told == seq![said]
            &&& !any && said.len() == 0 ==> told == seq![
                "Il server ha restituito un errore non dettagliato"@,
            ]
        }),
{
}

/// In one text a refusal is told by the text under `error`, trimmed, and only where that is blank
/// by the messages under `dettagli`, one in a line; where there is neither, by a message of its
/// own.
pub proof fn law_error_first(body: JsonView)
    ensures
        ({
            let details = member(body, "dettagli"@);
            let any = details is Some && messages(details->0).len() > 0;
            let said = match member(body, "error"@) {
                Some(JsonView::Text(message)) => text::trimmed(message),
                _ => Seq::empty(),
            };
            &&& said.len() > 0 ==> primary_error(body) == said
            &&& said.len() == 0 && any ==> primary_error(body) == text::joined(
                messages(details->0),
                "\n"@,
            )
            &&& said.len() == 0 && !any ==> primary_error(body)
                == "Il server ha restituito un errore non dettagliato"@
        }),
{
    let unsaid = "Il server ha restituito un errore non dettagliato"@;
    text::law_joined(Seq::empty(), Seq::empty(), unsaid, "\n"@);
}

/// A refusal may be overridden exactly where its details hold one of two keys, whatever stands
/// under them.
pub proof fn law_overridable(body: JsonView)
    ensures
        forceable(body) <==> exists|details: JsonView|
            member(body, "dettagli"@) == Some(details) && ((#[trigger] member(
                details,
                "validita_sottotimbratura"@,
            )) is Some || member(details, "orario_tracimato"@) is Some),
{
    if forceable(body) {
        let details = member(body, "dettagli"@)->0;
        let named = member(details, "validita_sottotimbratura"@);
        assert(named is Some || member(details, "orario_tracimato"@) is Some);
    }
}

/// A text is written as it is, a number by its digits and a truth value by its name. Anything else
/// is not written.
pub proof fn law_written(text: Seq<char>, integer: Option<i64>, value: JsonView)
    ensures
        written(JsonView::Text(text)) == Some(text),
        written(JsonView::Number(integer, text)) == Some(text),
        written(JsonView::Bool(true)) == Some("true"@),
        written(JsonView::Bool(false)) == Some("false"@),
        value is Null || value is Array || value is Object <==> written(value) is None,
{
}

} // verus!
