//! Pages of the site: the elements that matter here, as the HTML parser finds them.

use regex::Regex;
use scraper::{Html, Selector};
use vstd::prelude::*;

verus! {

/// An `input` of a form.
#[derive(Debug)]
pub struct InputElement {
    pub name: Option<String>,
    pub id: Option<String>,
    pub action: Option<String>,
    pub kind: Option<String>,
    pub value: Option<String>,
    pub disabled: bool,
    pub checked: bool,
}

/// The content of `InputElement`.
#[verifier::ext_equal]
pub struct InputElementView {
    pub name: Option<Seq<char>>,
    pub id: Option<Seq<char>>,
    pub action: Option<Seq<char>>,
    pub kind: Option<Seq<char>>,
    pub value: Option<Seq<char>>,
    pub disabled: bool,
    pub checked: bool,
}

impl DeepView for InputElement {
    type V = InputElementView;

    open spec fn deep_view(&self) -> InputElementView {
        InputElementView {
            name: self.name.deep_view(),
            id: self.id.deep_view(),
            action: self.action.deep_view(),
            kind: self.kind.deep_view(),
            value: self.value.deep_view(),
            disabled: self.disabled,
            checked: self.checked,
        }
    }
}

impl Clone for InputElement {
    fn clone(&self) -> (r: InputElement)
        ensures
            r.deep_view() == self.deep_view(),
    {
        InputElement {
            name: self.name.clone(),
            id: self.id.clone(),
            action: self.action.clone(),
            kind: self.kind.clone(),
            value: self.value.clone(),
            disabled: self.disabled,
            checked: self.checked,
        }
    }
}

/// A `textarea` of a form, with the texts in it.
#[derive(Debug)]
pub struct TextareaElement {
    pub name: Option<String>,
    pub id: Option<String>,
    pub texts: Vec<String>,
}

/// The content of `TextareaElement`.
#[verifier::ext_equal]
pub struct TextareaElementView {
    pub name: Option<Seq<char>>,
    pub id: Option<Seq<char>>,
    pub texts: Seq<Seq<char>>,
}

impl DeepView for TextareaElement {
    type V = TextareaElementView;

    open spec fn deep_view(&self) -> TextareaElementView {
        TextareaElementView {
            name: self.name.deep_view(),
            id: self.id.deep_view(),
            texts: self.texts.deep_view(),
        }
    }
}

impl Clone for TextareaElement {
    fn clone(&self) -> (r: TextareaElement)
        ensures
            r.deep_view() == self.deep_view(),
    {
        let texts = self.texts.clone();
        assert(texts.deep_view() =~= self.texts.deep_view());
        TextareaElement {
            name: self.name.clone(),
            id: self.id.clone(),
            texts,
        }
    }
}

/// An `option` of a choice, with the texts in it.
#[derive(Debug)]
pub struct OptionElement {
    pub value: Option<String>,
    pub texts: Vec<String>,
    pub selected: bool,
}

/// The content of `OptionElement`.
#[verifier::ext_equal]
pub struct OptionElementView {
    pub value: Option<Seq<char>>,
    pub texts: Seq<Seq<char>>,
    pub selected: bool,
}

impl DeepView for OptionElement {
    type V = OptionElementView;

    open spec fn deep_view(&self) -> OptionElementView {
        OptionElementView {
            value: self.value.deep_view(),
            texts: self.texts.deep_view(),
            selected: self.selected,
        }
    }
}

impl Clone for OptionElement {
    fn clone(&self) -> (r: OptionElement)
        ensures
            r.deep_view() == self.deep_view(),
    {
        let texts = self.texts.clone();
        assert(texts.deep_view() =~= self.texts.deep_view());
        OptionElement {
            value: self.value.clone(),
            texts,
            selected: self.selected,
        }
    }
}

/// A `select` of a form, with its options.
#[derive(Debug)]
pub struct SelectElement {
    pub name: Option<String>,
    pub id: Option<String>,
    pub action: Option<String>,
    pub options: Vec<OptionElement>,
}

/// The content of `SelectElement`.
#[verifier::ext_equal]
pub struct SelectElementView {
    pub name: Option<Seq<char>>,
    pub id: Option<Seq<char>>,
    pub action: Option<Seq<char>>,
    pub options: Seq<OptionElementView>,
}

impl DeepView for SelectElement {
    type V = SelectElementView;

    open spec fn deep_view(&self) -> SelectElementView {
        SelectElementView {
            name: self.name.deep_view(),
            id: self.id.deep_view(),
            action: self.action.deep_view(),
            options: self.options.deep_view(),
        }
    }
}

impl Clone for SelectElement {
    fn clone(&self) -> (r: SelectElement)
        ensures
            r.deep_view() == self.deep_view(),
    {
        let options = self.options.clone();
        assert(options.deep_view() =~= self.options.deep_view());
        SelectElement {
            name: self.name.clone(),
            id: self.id.clone(),
            action: self.action.clone(),
            options,
        }
    }
}

/// A form of a page: its attributes, its markup, and the controls in it that have a name.
#[derive(Debug)]
pub struct FormElement {
    pub id: Option<String>,
    pub action: Option<String>,
    pub success: Option<String>,
    pub html: String,
    pub inputs: Vec<InputElement>,
    pub textareas: Vec<TextareaElement>,
    pub selects: Vec<SelectElement>,
}

/// The content of `FormElement`.
#[verifier::ext_equal]
pub struct FormElementView {
    pub id: Option<Seq<char>>,
    pub action: Option<Seq<char>>,
    pub success: Option<Seq<char>>,
    pub html: Seq<char>,
    pub inputs: Seq<InputElementView>,
    pub textareas: Seq<TextareaElementView>,
    pub selects: Seq<SelectElementView>,
}

impl DeepView for FormElement {
    type V = FormElementView;

    open spec fn deep_view(&self) -> FormElementView {
        FormElementView {
            id: self.id.deep_view(),
            action: self.action.deep_view(),
            success: self.success.deep_view(),
            html: self.html@,
            inputs: self.inputs.deep_view(),
            textareas: self.textareas.deep_view(),
            selects: self.selects.deep_view(),
        }
    }
}

impl Clone for FormElement {
    fn clone(&self) -> (r: FormElement)
        ensures
            r.deep_view() == self.deep_view(),
    {
        let inputs = self.inputs.clone();
        assert(inputs.deep_view() =~= self.inputs.deep_view());
        let textareas = self.textareas.clone();
        assert(textareas.deep_view() =~= self.textareas.deep_view());
        let selects = self.selects.clone();
        assert(selects.deep_view() =~= self.selects.deep_view());
        FormElement {
            id: self.id.clone(),
            action: self.action.clone(),
            success: self.success.clone(),
            html: self.html.clone(),
            inputs,
            textareas,
            selects,
        }
    }
}

/// An element of a page that leads to another, with the texts in it.
#[derive(Debug)]
pub struct LinkElement {
    pub href: Option<String>,
    pub data_action: Option<String>,
    pub action: Option<String>,
    pub texts: Vec<String>,
}

/// The content of `LinkElement`.
#[verifier::ext_equal]
pub struct LinkElementView {
    pub href: Option<Seq<char>>,
    pub data_action: Option<Seq<char>>,
    pub action: Option<Seq<char>>,
    pub texts: Seq<Seq<char>>,
}

impl DeepView for LinkElement {
    type V = LinkElementView;

    open spec fn deep_view(&self) -> LinkElementView {
        LinkElementView {
            href: self.href.deep_view(),
            data_action: self.data_action.deep_view(),
            action: self.action.deep_view(),
            texts: self.texts.deep_view(),
        }
    }
}

impl Clone for LinkElement {
    fn clone(&self) -> (r: LinkElement)
        ensures
            r.deep_view() == self.deep_view(),
    {
        let texts = self.texts.clone();
        assert(texts.deep_view() =~= self.texts.deep_view());
        LinkElement {
            href: self.href.clone(),
            data_action: self.data_action.clone(),
            action: self.action.clone(),
            texts,
        }
    }
}

/// An element as the parser hands it out: the attributes that were asked for, and the texts in it.
#[derive(Debug)]
pub struct Element {
    pub attributes: Vec<Option<String>>,
    pub texts: Vec<String>,
}

/// The content of `Element`.
#[verifier::ext_equal]
pub struct ElementView {
    pub attributes: Seq<Option<Seq<char>>>,
    pub texts: Seq<Seq<char>>,
}

impl DeepView for Element {
    type V = ElementView;

    open spec fn deep_view(&self) -> ElementView {
        ElementView {
            attributes: self.attributes.deep_view(),
            texts: self.texts.deep_view(),
        }
    }
}

/// The selectors that are in use. All of them are well formed.
pub open spec fn static_selector(selector: Seq<char>) -> bool {
    ||| selector == "form#form1, form"@
    ||| selector == "input[name]"@
    ||| selector == "textarea[name]"@
    ||| selector == "select[name]"@
    ||| selector == "option"@
    ||| selector == "a[href]"@
    ||| selector == "[data-action]"@
    ||| selector == "form[action]"@
}

/// What `Html::select` finds in a page, with the attributes asked for.
pub uninterp spec fn selection(
    html: Seq<char>,
    selector: Seq<char>,
    attributes: Seq<Seq<char>>,
) -> Seq<ElementView>;

/// What `ElementRef::html` writes for each element that `Html::select` finds in a page.
pub uninterp spec fn selected_markup(html: Seq<char>, selector: Seq<char>) -> Seq<Seq<char>>;

/// What `ElementRef::select` finds in each element that `Html::select` finds in a page.
pub uninterp spec fn nested_selection(
    html: Seq<char>,
    outer: Seq<char>,
    inner: Seq<char>,
    attributes: Seq<Seq<char>>,
) -> Seq<Seq<ElementView>>;

/// What `ElementRef::select` finds in each element that `ElementRef::select` finds in each
/// element that `Html::select` finds in a page.
pub uninterp spec fn deep_selection(
    html: Seq<char>,
    outer: Seq<char>,
    middle: Seq<char>,
    inner: Seq<char>,
    attributes: Seq<Seq<char>>,
) -> Seq<Seq<Seq<ElementView>>>;

/// What `Regex::captures_iter` captures in a text under the name of a group, match by match, or
/// why `Regex::new` refuses the pattern.
pub uninterp spec fn captured(
    pattern: Seq<char>,
    group: Seq<char>,
    text: Seq<char>,
) -> Result<Seq<Option<Seq<char>>>, Seq<char>>;

/// `Html::parse_document` with `Html::select`: the elements of a page that match, in the order in
/// which they are found, each with the value of every attribute asked for (`Element::attr`) and
/// the texts in it (`ElementRef::text`).
#[verifier::external_body]
fn select_elements(html: &str, selector: &str, attributes: &Vec<&str>) -> (r: Vec<Element>)
    requires
        static_selector(selector@),
    ensures
        r.deep_view() == selection(html@, selector@, attributes.deep_view()),
        forall|i: int|
            0 <= i < r@.len() ==> (#[trigger] r@[i]).attributes@.len() == attributes@.len(),
{
    let selector = Selector::parse(selector).expect("static selector must be valid");
    let document = Html::parse_document(html);
    let found = document.select(&selector).map(
        |e| Element {
            attributes: attributes.iter().map(|a| e.value().attr(a).map(str::to_owned)).collect(),
            texts: e.text().map(str::to_owned).collect(),
        },
    );
    found.collect()
}

/// `Html::parse_document` with `Html::select` and `ElementRef::html`: the markup of the elements
/// of a page that match, in the order in which they are found.
#[verifier::external_body]
fn select_markup(html: &str, selector: &str) -> (r: Vec<String>)
    requires
        static_selector(selector@),
    ensures
        r.deep_view() == selected_markup(html@, selector@),
        forall|attributes: Seq<Seq<char>>|
            #[trigger] selection(html@, selector@, attributes).len() == r@.len(),
{
    let selector = Selector::parse(selector).expect("static selector must be valid");
    let document = Html::parse_document(html);
    let found = document.select(&selector).map(|e| e.html());
    found.collect()
}

/// `Html::select` with `ElementRef::select` on each element found: per outer element, the inner
/// ones that match, in the order in which they are found.
#[verifier::external_body]
fn select_nested(html: &str, outer: &str, inner: &str, attributes: &Vec<&str>) -> (r: Vec<
    Vec<Element>,
>)
    requires
        static_selector(outer@),
        static_selector(inner@),
    ensures
        r.deep_view() == nested_selection(html@, outer@, inner@, attributes.deep_view()),
        forall|names: Seq<Seq<char>>| #[trigger] selection(html@, outer@, names).len() == r@.len(),
        forall|i: int, j: int|
            0 <= i < r@.len() && 0 <= j < r@[i]@.len() ==> (#[trigger] r@[i]@[j]).attributes@.len()
                == attributes@.len(),
{
    let outer = Selector::parse(outer).expect("static selector must be valid");
    let inner = Selector::parse(inner).expect("static selector must be valid");
    let element = |e: scraper::ElementRef<'_>| Element {
        attributes: attributes.iter().map(|a| e.value().attr(a).map(str::to_owned)).collect(),
        texts: e.text().map(str::to_owned).collect(),
    };
    let document = Html::parse_document(html);
    let found = document.select(&outer).map(|o| o.select(&inner).map(element).collect());
    found.collect()
}

/// `Html::select` with `ElementRef::select` on each element found, and again on each of those:
/// per outer element and middle element, the inner ones that match, in the order in which they are
/// found.
#[verifier::external_body]
fn select_deep(html: &str, outer: &str, middle: &str, inner: &str, attributes: &Vec<&str>) -> (r:
    Vec<Vec<Vec<Element>>>)
    requires
        static_selector(outer@),
        static_selector(middle@),
        static_selector(inner@),
    ensures
        r.deep_view() == deep_selection(html@, outer@, middle@, inner@, attributes.deep_view()),
        forall|names: Seq<Seq<char>>| #[trigger] selection(html@, outer@, names).len() == r@.len(),
        forall|names: Seq<Seq<char>>, i: int|
            0 <= i < r@.len() ==> (#[trigger] nested_selection(html@, outer@, middle@, names)[i])
                .len() == r@[i]@.len(),
        forall|i: int, j: int, k: int|
            0 <= i < r@.len() && 0 <= j < r@[i]@.len() && 0 <= k < r@[i]@[j]@.len() ==> (
            #[trigger] r@[i]@[j]@[k]).attributes@.len() == attributes@.len(),
{
    let outer = Selector::parse(outer).expect("static selector must be valid");
    let middle = Selector::parse(middle).expect("static selector must be valid");
    let inner = Selector::parse(inner).expect("static selector must be valid");
    let element = |e: scraper::ElementRef<'_>| Element {
        attributes: attributes.iter().map(|a| e.value().attr(a).map(str::to_owned)).collect(),
        texts: e.text().map(str::to_owned).collect(),
    };
    let inside = |m: scraper::ElementRef<'_>| m.select(&inner).map(element).collect();
    let document = Html::parse_document(html);
    let found = document.select(&outer).map(|o| o.select(&middle).map(inside).collect());
    found.collect()
}

/// `Regex::new` with `Regex::captures_iter` and `Captures::name`: what a group captured, match by
/// match.
#[verifier::external_body]
pub(crate) fn capture_texts(pattern: &str, group: &str, text: &str) -> (r: Result<
    Vec<Option<String>>,
    String,
>)
    ensures
        crate::text::outcome(r) == captured(pattern@, group@, text@),
{
    match Regex::new(pattern) {
        Ok(regex) => {
            let found = regex.captures_iter(text);
            Ok(found.map(|c| c.name(group).map(|m| m.as_str().to_owned())).collect())
        },
        Err(error) => Err(error.to_string()),
    }
}

/// The attributes that are read of a form.
pub open spec fn form_attributes() -> Seq<Seq<char>> {
    seq!["id"@, "action"@, "data-success"@]
}

/// The attributes that are read of an `input`.
pub open spec fn input_attributes() -> Seq<Seq<char>> {
    seq!["name"@, "id"@, "data-action"@, "type"@, "value"@, "disabled"@, "checked"@]
}

/// The attributes that are read of a `textarea`.
pub open spec fn textarea_attributes() -> Seq<Seq<char>> {
    seq!["name"@, "id"@]
}

/// The attributes that are read of a `select`.
pub open spec fn select_attributes() -> Seq<Seq<char>> {
    seq!["name"@, "id"@, "data-action"@]
}

/// The attributes that are read of an `option`.
pub open spec fn option_attributes() -> Seq<Seq<char>> {
    seq!["value"@, "selected"@]
}

/// The attributes that are read of an element that leads somewhere.
pub open spec fn link_attributes() -> Seq<Seq<char>> {
    seq!["href"@, "data-action"@, "action"@]
}

/// An `input` from the attributes read of it.
pub open spec fn input_of(e: ElementView) -> InputElementView {
    InputElementView {
        name: e.attributes[0],
        id: e.attributes[1],
        action: e.attributes[2],
        kind: e.attributes[3],
        value: e.attributes[4],
        disabled: e.attributes[5] is Some,
        checked: e.attributes[6] is Some,
    }
}

/// A `textarea` from the attributes read of it.
pub open spec fn textarea_of(e: ElementView) -> TextareaElementView {
    TextareaElementView { name: e.attributes[0], id: e.attributes[1], texts: e.texts }
}

/// An `option` from the attributes read of it.
pub open spec fn option_of(e: ElementView) -> OptionElementView {
    OptionElementView { value: e.attributes[0], texts: e.texts, selected: e.attributes[1] is Some }
}

/// A `select` from the attributes read of it and its options.
pub open spec fn select_of(e: ElementView, options: Seq<ElementView>) -> SelectElementView {
    SelectElementView {
        name: e.attributes[0],
        id: e.attributes[1],
        action: e.attributes[2],
        options: options.map_values(|o: ElementView| option_of(o)),
    }
}

/// An element that leads somewhere from the attributes read of it.
pub open spec fn link_of(e: ElementView) -> LinkElementView {
    LinkElementView {
        href: e.attributes[0],
        data_action: e.attributes[1],
        action: e.attributes[2],
        texts: e.texts,
    }
}

/// The forms of a page, in the order in which they are found.
pub open spec fn forms_of(html: Seq<char>) -> Seq<FormElementView> {
    let forms = "form#form1, form"@;
    let found = selection(html, forms, form_attributes());
    let inputs = nested_selection(html, forms, "input[name]"@, input_attributes());
    let textareas = nested_selection(html, forms, "textarea[name]"@, textarea_attributes());
    let selects = nested_selection(html, forms, "select[name]"@, select_attributes());
    let options = deep_selection(html, forms, "select[name]"@, "option"@, option_attributes());
    Seq::new(
        found.len(),
        |i: int|
            FormElementView {
                id: found[i].attributes[0],
                action: found[i].attributes[1],
                success: found[i].attributes[2],
                html: selected_markup(html, forms)[i],
                inputs: inputs[i].map_values(|e: ElementView| input_of(e)),
                textareas: textareas[i].map_values(|e: ElementView| textarea_of(e)),
                selects: Seq::new(
                    selects[i].len(),
                    |j: int| select_of(selects[i][j], options[i][j]),
                ),
            },
    )
}

/// The elements of a page that lead somewhere: the links, then the elements with an action of
/// their own, then the forms.
pub open spec fn links_of(html: Seq<char>) -> Seq<LinkElementView> {
    (selection(html, "a[href]"@, link_attributes()) + selection(
        html,
        "[data-action]"@,
        link_attributes(),
    ) + selection(html, "form[action]"@, link_attributes())).map_values(
        |e: ElementView| link_of(e),
    )
}

fn read_inputs(found: &Vec<Element>) -> (r: Vec<InputElement>)
    requires
        forall|i: int| 0 <= i < found@.len() ==> (#[trigger] found@[i]).attributes@.len() == 7,
    ensures
        r.deep_view() == found.deep_view().map_values(|e: ElementView| input_of(e)),
{
    let mut r: Vec<InputElement> = Vec::new();
    for i in 0..found.len()
        invariant
            forall|k: int| 0 <= k < found@.len() ==> (#[trigger] found@[k]).attributes@.len() == 7,
            r@.len() == i,
            forall|k: int|
                0 <= k < i ==> (#[trigger] r@[k]).deep_view() == input_of(found@[k].deep_view()),
    {
        let e = &found[i];
        r.push(
            InputElement {
                name: e.attributes[0].clone(),
                id: e.attributes[1].clone(),
                action: e.attributes[2].clone(),
                kind: e.attributes[3].clone(),
                value: e.attributes[4].clone(),
                disabled: e.attributes[5].is_some(),
                checked: e.attributes[6].is_some(),
            },
        );
    }
    assert(r.deep_view() =~= found.deep_view().map_values(|e: ElementView| input_of(e)));
    r
}

fn read_textareas(found: &Vec<Element>) -> (r: Vec<TextareaElement>)
    requires
        forall|i: int| 0 <= i < found@.len() ==> (#[trigger] found@[i]).attributes@.len() == 2,
    ensures
        r.deep_view() == found.deep_view().map_values(|e: ElementView| textarea_of(e)),
{
    let mut r: Vec<TextareaElement> = Vec::new();
    for i in 0..found.len()
        invariant
            forall|k: int| 0 <= k < found@.len() ==> (#[trigger] found@[k]).attributes@.len() == 2,
            r@.len() == i,
            forall|k: int|
                0 <= k < i ==> (#[trigger] r@[k]).deep_view() == textarea_of(found@[k].deep_view()),
    {
        let e = &found[i];
        let texts = e.texts.clone();
        assert(texts.deep_view() =~= e.texts.deep_view());
        r.push(
            TextareaElement { name: e.attributes[0].clone(), id: e.attributes[1].clone(), texts },
        );
    }
    assert(r.deep_view() =~= found.deep_view().map_values(|e: ElementView| textarea_of(e)));
    r
}

fn read_options(found: &Vec<Element>) -> (r: Vec<OptionElement>)
    requires
        forall|i: int| 0 <= i < found@.len() ==> (#[trigger] found@[i]).attributes@.len() == 2,
    ensures
        r.deep_view() == found.deep_view().map_values(|e: ElementView| option_of(e)),
{
    let mut r: Vec<OptionElement> = Vec::new();
    for i in 0..found.len()
        invariant
            forall|k: int| 0 <= k < found@.len() ==> (#[trigger] found@[k]).attributes@.len() == 2,
            r@.len() == i,
            forall|k: int|
                0 <= k < i ==> (#[trigger] r@[k]).deep_view() == option_of(found@[k].deep_view()),
    {
        let e = &found[i];
        let texts = e.texts.clone();
        assert(texts.deep_view() =~= e.texts.deep_view());
        r.push(
            OptionElement {
                value: e.attributes[0].clone(),
                texts,
                selected: e.attributes[1].is_some(),
            },
        );
    }
    assert(r.deep_view() =~= found.deep_view().map_values(|e: ElementView| option_of(e)));
    r
}

fn read_selects(found: &Vec<Element>, options: &Vec<Vec<Element>>) -> (r: Vec<SelectElement>)
    requires
        found@.len() == options@.len(),
        forall|i: int| 0 <= i < found@.len() ==> (#[trigger] found@[i]).attributes@.len() == 3,
        forall|i: int, j: int|
            0 <= i < options@.len() && 0 <= j < options@[i]@.len() ==> (
            #[trigger] options@[i]@[j]).attributes@.len() == 2,
    ensures
        r.deep_view() == Seq::new(
            found.deep_view().len(),
            |j: int| select_of(found.deep_view()[j], options.deep_view()[j]),
        ),
{
    let mut r: Vec<SelectElement> = Vec::new();
    for i in 0..found.len()
        invariant
            found@.len() == options@.len(),
            forall|k: int| 0 <= k < found@.len() ==> (#[trigger] found@[k]).attributes@.len() == 3,
            forall|k: int, j: int|
                0 <= k < options@.len() && 0 <= j < options@[k]@.len() ==> (
                #[trigger] options@[k]@[j]).attributes@.len() == 2,
            r@.len() == i,
            forall|k: int|
                0 <= k < i ==> (#[trigger] r@[k]).deep_view() == select_of(
                    found@[k].deep_view(),
                    options@[k].deep_view(),
                ),
    {
        let e = &found[i];
        r.push(
            SelectElement {
                name: e.attributes[0].clone(),
                id: e.attributes[1].clone(),
                action: e.attributes[2].clone(),
                options: read_options(&options[i]),
            },
        );
    }
    assert(r.deep_view() =~= Seq::new(
        found.deep_view().len(),
        |j: int| select_of(found.deep_view()[j], options.deep_view()[j]),
    ));
    r
}

/// The forms of a page, in the order in which they are found.
pub fn read_forms(html: &str) -> (r: Vec<FormElement>)
    ensures
        r.deep_view() == forms_of(html@),
{
    let forms = "form#form1, form";
    let form_names = vec!["id", "action", "data-success"];
    let input_names = vec!["name", "id", "data-action", "type", "value", "disabled", "checked"];
    let textarea_names = vec!["name", "id"];
    let select_names = vec!["name", "id", "data-action"];
    let option_names = vec!["value", "selected"];
    proof {
        assert(form_names.deep_view() =~= form_attributes());
        assert(input_names.deep_view() =~= input_attributes());
        assert(textarea_names.deep_view() =~= textarea_attributes());
        assert(select_names.deep_view() =~= select_attributes());
        assert(option_names.deep_view() =~= option_attributes());
    }
    let found = select_elements(html, forms, &form_names);
    let markup = select_markup(html, forms);
    let inputs = select_nested(html, forms, "input[name]", &input_names);
    let textareas = select_nested(html, forms, "textarea[name]", &textarea_names);
    let selects = select_nested(html, forms, "select[name]", &select_names);
    let options = select_deep(html, forms, "select[name]", "option", &option_names);
    let mut r: Vec<FormElement> = Vec::new();
    let ghost expected = forms_of(html@);
    proof {
        let n = selection(html@, forms@, form_attributes()).len();
        assert(found.deep_view().len() == n);
        assert(inputs.deep_view().len() == n);
        assert(nested_selection(html@, forms@, "select[name]"@, select_attributes()).len() == n);
        assert forall|i: int| 0 <= i < n implies (#[trigger] selects@[i])@.len()
            == options@[i]@.len() by {
            assert(selects.deep_view()[i].len() == selects@[i]@.len());
            assert(nested_selection(html@, forms@, "select[name]"@, select_attributes())[i].len()
                == options@[i]@.len());
        }
    }
    for i in 0..found.len()
        invariant
            expected == forms_of(html@),
            forms@ == "form#form1, form"@,
            found.deep_view() == selection(html@, forms@, form_attributes()),
            markup.deep_view() == selected_markup(html@, forms@),
            inputs.deep_view() == nested_selection(
                html@,
                forms@,
                "input[name]"@,
                input_attributes(),
            ),
            textareas.deep_view() == nested_selection(
                html@,
                forms@,
                "textarea[name]"@,
                textarea_attributes(),
            ),
            selects.deep_view() == nested_selection(
                html@,
                forms@,
                "select[name]"@,
                select_attributes(),
            ),
            options.deep_view() == deep_selection(
                html@,
                forms@,
                "select[name]"@,
                "option"@,
                option_attributes(),
            ),
            markup@.len() == found@.len(),
            inputs@.len() == found@.len(),
            textareas@.len() == found@.len(),
            selects@.len() == found@.len(),
            options@.len() == found@.len(),
            forall|k: int| 0 <= k < found@.len() ==> (#[trigger] found@[k]).attributes@.len() == 3,
            forall|k: int, j: int|
                0 <= k < inputs@.len() && 0 <= j < inputs@[k]@.len() ==> (
                #[trigger] inputs@[k]@[j]).attributes@.len() == 7,
            forall|k: int, j: int|
                0 <= k < textareas@.len() && 0 <= j < textareas@[k]@.len() ==> (
                #[trigger] textareas@[k]@[j]).attributes@.len() == 2,
            forall|k: int, j: int|
                0 <= k < selects@.len() && 0 <= j < selects@[k]@.len() ==> (
                #[trigger] selects@[k]@[j]).attributes@.len() == 3,
            forall|k: int, j: int, l: int|
                0 <= k < options@.len() && 0 <= j < options@[k]@.len() && 0 <= l
                    < options@[k]@[j]@.len() ==> (#[trigger] options@[k]@[j]@[l]).attributes@.len()
                    == 2,
            forall|k: int|
                0 <= k < found@.len() ==> (#[trigger] selects@[k])@.len() == options@[k]@.len(),
            r@.len() == i,
            forall|k: int| 0 <= k < i ==> (#[trigger] r@[k]).deep_view() == expected[k],
    {
        let e = &found[i];
        let form = FormElement {
            id: e.attributes[0].clone(),
            action: e.attributes[1].clone(),
            success: e.attributes[2].clone(),
            html: markup[i].clone(),
            inputs: read_inputs(&inputs[i]),
            textareas: read_textareas(&textareas[i]),
            selects: read_selects(&selects[i], &options[i]),
        };
        proof {
            assert(found.deep_view()[i as int] == e.deep_view());
            assert(markup.deep_view()[i as int] == markup@[i as int]@);
            assert(inputs.deep_view()[i as int] == inputs@[i as int].deep_view());
            assert(textareas.deep_view()[i as int] == textareas@[i as int].deep_view());
            assert(selects.deep_view()[i as int] == selects@[i as int].deep_view());
            assert(options.deep_view()[i as int] == options@[i as int].deep_view());
            assert(form.deep_view() =~= expected[i as int]);
        }
        r.push(form);
    }
    assert(r.deep_view() =~= expected);
    r
}

/// The elements of a page that lead somewhere: the links, then the elements with an action of
/// their own, then the forms.
pub fn read_links(html: &str) -> (r: Vec<LinkElement>)
    ensures
        r.deep_view() == links_of(html@),
{
    let names = vec!["href", "data-action", "action"];
    assert(names.deep_view() =~= link_attributes());
    let mut found = select_elements(html, "a[href]", &names);
    let mut actions = select_elements(html, "[data-action]", &names);
    let mut forms = select_elements(html, "form[action]", &names);
    let ghost all = found.deep_view() + actions.deep_view() + forms.deep_view();
    found.append(&mut actions);
    found.append(&mut forms);
    assert(found.deep_view() =~= all);
    let mut r: Vec<LinkElement> = Vec::new();
    for i in 0..found.len()
        invariant
            forall|k: int| 0 <= k < found@.len() ==> (#[trigger] found@[k]).attributes@.len() == 3,
            r@.len() == i,
            forall|k: int|
                0 <= k < i ==> (#[trigger] r@[k]).deep_view() == link_of(found@[k].deep_view()),
    {
        let e = &found[i];
        let texts = e.texts.clone();
        assert(texts.deep_view() =~= e.texts.deep_view());
        r.push(
            LinkElement {
                href: e.attributes[0].clone(),
                data_action: e.attributes[1].clone(),
                action: e.attributes[2].clone(),
                texts,
            },
        );
    }
    assert(r.deep_view() =~= all.map_values(|e: ElementView| link_of(e)));
    r
}

/// A form of a page is read by the attributes of its element: its identifier, its action and the
/// address that follows a booking, together with its markup. The forms are those of the page, in
/// their order.
pub proof fn law_form_by_attributes(html: Seq<char>, i: int)
    requires
        0 <= i < forms_of(html).len(),
    ensures
        ({
            let forms = "form#form1, form"@;
            let found = selection(html, forms, seq!["id"@, "action"@, "data-success"@]);
            let form = forms_of(html)[i];
            &&& forms_of(html).len() == found.len()
            &&& form.id == found[i].attributes[0]
            &&& form.action == found[i].attributes[1]
            &&& form.success == found[i].attributes[2]
            &&& form.html == selected_markup(html, forms)[i]
        }),
{
}

/// An input of a form is read by its attributes: its name, its identifier, its action, its kind
/// and its value. It is disabled or checked where it has the attribute that says so, whatever the
/// value of that is. The inputs are those of the form, in their order.
pub proof fn law_input_by_attributes(html: Seq<char>, i: int, j: int)
    requires
        0 <= i < forms_of(html).len(),
        0 <= j < forms_of(html)[i].inputs.len(),
    ensures
        ({
            let found = nested_selection(
                html,
                "form#form1, form"@,
                "input[name]"@,
                seq!["name"@, "id"@, "data-action"@, "type"@, "value"@, "disabled"@, "checked"@],
            )[i];
            let input = forms_of(html)[i].inputs[j];
            &&& forms_of(html)[i].inputs.len() == found.len()
            &&& input.name == found[j].attributes[0]
            &&& input.id == found[j].attributes[1]
            &&& input.action == found[j].attributes[2]
            &&& input.kind == found[j].attributes[3]
            &&& input.value == found[j].attributes[4]
            &&& input.disabled <==> found[j].attributes[5] is Some
            &&& input.checked <==> found[j].attributes[6] is Some
        }),
{
}

/// A text area of a form is read by its name, its identifier and the texts in it. The text areas
/// are those of the form, in their order.
pub proof fn law_textarea_by_attributes(html: Seq<char>, i: int, j: int)
    requires
        0 <= i < forms_of(html).len(),
        0 <= j < forms_of(html)[i].textareas.len(),
    ensures
        ({
            let found = nested_selection(
                html,
                "form#form1, form"@,
                "textarea[name]"@,
                seq!["name"@, "id"@],
            )[i];
            let textarea = forms_of(html)[i].textareas[j];
            &&& forms_of(html)[i].textareas.len() == found.len()
            &&& textarea.name == found[j].attributes[0]
            &&& textarea.id == found[j].attributes[1]
            &&& textarea.texts == found[j].texts
        }),
{
}

/// A choice of a form is read by its name, its identifier and its action, and has the options that
/// stand in it. The choices are those of the form, in their order.
pub proof fn law_select_by_attributes(html: Seq<char>, i: int, j: int)
    requires
        0 <= i < forms_of(html).len(),
        0 <= j < forms_of(html)[i].selects.len(),
    ensures
        ({
            let found = nested_selection(
                html,
                "form#form1, form"@,
                "select[name]"@,
                seq!["name"@, "id"@, "data-action"@],
            )[i];
            let options = deep_selection(
                html,
                "form#form1, form"@,
                "select[name]"@,
                "option"@,
                seq!["value"@, "selected"@],
            )[i][j];
            let select = forms_of(html)[i].selects[j];
            &&& forms_of(html)[i].selects.len() == found.len()
            &&& select.name == found[j].attributes[0]
            &&& select.id == found[j].attributes[1]
            &&& select.action == found[j].attributes[2]
            &&& select.options.len() == options.len()
            &&& forall|k: int|
                0 <= k < options.len() ==> {
                    &&& (#[trigger] select.options[k]).value == options[k].attributes[0]
                    &&& select.options[k].selected <==> options[k].attributes[1] is Some
                    &&& select.options[k].texts == options[k].texts
                }
        }),
{
}

/// The elements of a page that lead somewhere are its links, then its elements with an action of
/// their own, then its forms, each of them in their order and with where it leads.
pub proof fn law_links_by_attributes(html: Seq<char>, i: int)
    requires
        0 <= i < links_of(html).len(),
    ensures
        ({
            let attributes = seq!["href"@, "data-action"@, "action"@];
            let anchors = selection(html, "a[href]"@, attributes);
            let active = selection(html, "[data-action]"@, attributes);
            let forms = selection(html, "form[action]"@, attributes);
            let element = if i < anchors.len() {
                anchors[i]
            } else if i < anchors.len() + active.len() {
                active[i - anchors.len()]
            } else {
                forms[i - anchors.len() - active.len()]
            };
            let link = links_of(html)[i];
            &&& links_of(html).len() == anchors.len() + active.len() + forms.len()
            &&& link.href == element.attributes[0]
            &&& link.data_action == element.attributes[1]
            &&& link.action == element.attributes[2]
            &&& link.texts == element.texts
        }),
{
}

} // verus!
