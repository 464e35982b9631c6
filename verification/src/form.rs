//! The form for booking hours: its address, its fields and the lookups that it offers.

use crate::fields::FieldMap;
use crate::links;
use crate::links::absolutize_url;
use crate::lookup::{LookupItem, LookupItemView};
use crate::markup;
use crate::markup::{
    FormElement, FormElementView, InputElement, InputElementView, OptionElement,
    OptionElementView, SelectElement, SelectElementView, TextareaElement, TextareaElementView,
};
use crate::text;
use crate::text::{concat3, contains_text, join_texts, same_text};
use vstd::prelude::*;

verus! {

/// The addresses of the lookups that a form offers.
#[derive(Debug)]
pub struct LookupEndpoints {
    pub employee: Option<String>,
    pub client: Option<String>,
    pub activity: Option<String>,
}

/// The content of `LookupEndpoints`.
#[verifier::ext_equal]
pub struct LookupEndpointsView {
    pub employee: Option<Seq<char>>,
    pub client: Option<Seq<char>>,
    pub activity: Option<Seq<char>>,
}

impl DeepView for LookupEndpoints {
    type V = LookupEndpointsView;

    open spec fn deep_view(&self) -> LookupEndpointsView {
        LookupEndpointsView {
            employee: self.employee.deep_view(),
            client: self.client.deep_view(),
            activity: self.activity.deep_view(),
        }
    }
}

impl Clone for LookupEndpoints {
    fn clone(&self) -> (r: LookupEndpoints)
        ensures
            r.deep_view() == self.deep_view(),
    {
        LookupEndpoints {
            employee: self.employee.clone(),
            client: self.client.clone(),
            activity: self.activity.clone(),
        }
    }
}

impl LookupEndpointsView {
    /// Nothing known.
    pub open spec fn empty() -> LookupEndpointsView {
        LookupEndpointsView {
            employee: None,
            client: None,
            activity: None,
        }
    }
}

impl Default for LookupEndpoints {
    fn default() -> (r: LookupEndpoints)
        ensures
            r.deep_view() == LookupEndpointsView::empty(),
    {
        let r = LookupEndpoints {
            employee: None,
            client: None,
            activity: None,
        };
        assert(r.deep_view() =~= LookupEndpointsView::empty());
        r
    }
}

/// The names of the fields of a form, by what they stand for.
#[derive(Debug)]
pub struct BookingFieldNames {
    pub employee: Option<String>,
    pub client: Option<String>,
    pub activity: Option<String>,
    pub state: Option<String>,
    pub entry_type: Option<String>,
    pub start_date: Option<String>,
    pub end_date: Option<String>,
    pub start_time: Option<String>,
    pub end_time: Option<String>,
    pub total_hours: Option<String>,
    pub description: Option<String>,
    pub note: Option<String>,
    pub productivity: Option<String>,
    pub force: Option<String>,
}

/// The content of `BookingFieldNames`.
#[verifier::ext_equal]
pub struct BookingFieldNamesView {
    pub employee: Option<Seq<char>>,
    pub client: Option<Seq<char>>,
    pub activity: Option<Seq<char>>,
    pub state: Option<Seq<char>>,
    pub entry_type: Option<Seq<char>>,
    pub start_date: Option<Seq<char>>,
    pub end_date: Option<Seq<char>>,
    pub start_time: Option<Seq<char>>,
    pub end_time: Option<Seq<char>>,
    pub total_hours: Option<Seq<char>>,
    pub description: Option<Seq<char>>,
    pub note: Option<Seq<char>>,
    pub productivity: Option<Seq<char>>,
    pub force: Option<Seq<char>>,
}

impl DeepView for BookingFieldNames {
    type V = BookingFieldNamesView;

    open spec fn deep_view(&self) -> BookingFieldNamesView {
        BookingFieldNamesView {
            employee: self.employee.deep_view(),
            client: self.client.deep_view(),
            activity: self.activity.deep_view(),
            state: self.state.deep_view(),
            entry_type: self.entry_type.deep_view(),
            start_date: self.start_date.deep_view(),
            end_date: self.end_date.deep_view(),
            start_time: self.start_time.deep_view(),
            end_time: self.end_time.deep_view(),
            total_hours: self.total_hours.deep_view(),
            description: self.description.deep_view(),
            note: self.note.deep_view(),
            productivity: self.productivity.deep_view(),
            force: self.force.deep_view(),
        }
    }
}

impl Clone for BookingFieldNames {
    fn clone(&self) -> (r: BookingFieldNames)
        ensures
            r.deep_view() == self.deep_view(),
    {
        BookingFieldNames {
            employee: self.employee.clone(),
            client: self.client.clone(),
            activity: self.activity.clone(),
            state: self.state.clone(),
            entry_type: self.entry_type.clone(),
            start_date: self.start_date.clone(),
            end_date: self.end_date.clone(),
            start_time: self.start_time.clone(),
            end_time: self.end_time.clone(),
            total_hours: self.total_hours.clone(),
            description: self.description.clone(),
            note: self.note.clone(),
            productivity: self.productivity.clone(),
            force: self.force.clone(),
        }
    }
}

impl BookingFieldNamesView {
    /// Nothing known.
    pub open spec fn empty() -> BookingFieldNamesView {
        BookingFieldNamesView {
            employee: None,
            client: None,
            activity: None,
            state: None,
            entry_type: None,
            start_date: None,
            end_date: None,
            start_time: None,
            end_time: None,
            total_hours: None,
            description: None,
            note: None,
            productivity: None,
            force: None,
        }
    }
}

impl Default for BookingFieldNames {
    fn default() -> (r: BookingFieldNames)
        ensures
            r.deep_view() == BookingFieldNamesView::empty(),
    {
        let r = BookingFieldNames {
            employee: None,
            client: None,
            activity: None,
            state: None,
            entry_type: None,
            start_date: None,
            end_date: None,
            start_time: None,
            end_time: None,
            total_hours: None,
            description: None,
            note: None,
            productivity: None,
            force: None,
        };
        assert(r.deep_view() =~= BookingFieldNamesView::empty());
        r
    }
}

/// The form for booking hours.
#[derive(Debug)]
pub struct InsertForm {
    pub page_url: String,
    pub action_url: String,
    pub success_url: Option<String>,
    pub base_fields: FieldMap,
    pub lookup_endpoints: LookupEndpoints,
    pub field_names: BookingFieldNames,
}

/// The content of `InsertForm`.
#[verifier::ext_equal]
pub struct InsertFormView {
    pub page_url: Seq<char>,
    pub action_url: Seq<char>,
    pub success_url: Option<Seq<char>>,
    pub base_fields: Map<Seq<char>, Seq<char>>,
    pub lookup_endpoints: LookupEndpointsView,
    pub field_names: BookingFieldNamesView,
}

impl DeepView for InsertForm {
    type V = InsertFormView;

    open spec fn deep_view(&self) -> InsertFormView {
        InsertFormView {
            page_url: self.page_url@,
            action_url: self.action_url@,
            success_url: self.success_url.deep_view(),
            base_fields: self.base_fields.deep_view(),
            lookup_endpoints: self.lookup_endpoints.deep_view(),
            field_names: self.field_names.deep_view(),
        }
    }
}

impl Clone for InsertForm {
    fn clone(&self) -> (r: InsertForm)
        ensures
            r.deep_view() == self.deep_view(),
    {
        InsertForm {
            page_url: self.page_url.clone(),
            action_url: self.action_url.clone(),
            success_url: self.success_url.clone(),
            base_fields: self.base_fields.clone(),
            lookup_endpoints: self.lookup_endpoints.clone(),
            field_names: self.field_names.clone(),
        }
    }
}

impl InsertFormView {
    /// Nothing known.
    pub open spec fn empty() -> InsertFormView {
        InsertFormView {
            page_url: Seq::empty(),
            action_url: Seq::empty(),
            success_url: None,
            base_fields: Map::empty(),
            lookup_endpoints: LookupEndpointsView::empty(),
            field_names: BookingFieldNamesView::empty(),
        }
    }
}

impl Default for InsertForm {
    fn default() -> (r: InsertForm)
        ensures
            r.deep_view() == InsertFormView::empty(),
    {
        let r = InsertForm {
            page_url: String::new(),
            action_url: String::new(),
            success_url: None,
            base_fields: FieldMap::default(),
            lookup_endpoints: LookupEndpoints::default(),
            field_names: BookingFieldNames::default(),
        };
        assert(r.deep_view() =~= InsertFormView::empty());
        r
    }
}

/// What was found out about the site.
#[derive(Debug)]
pub struct DiscoveryBundle {
    pub admin_page_url: String,
    pub insert_form_url: String,
    pub candidate_insert_urls: Vec<String>,
    pub insert_form: InsertForm,
}

/// The content of `DiscoveryBundle`.
#[verifier::ext_equal]
pub struct DiscoveryBundleView {
    pub admin_page_url: Seq<char>,
    pub insert_form_url: Seq<char>,
    pub candidate_insert_urls: Seq<Seq<char>>,
    pub insert_form: InsertFormView,
}

impl DeepView for DiscoveryBundle {
    type V = DiscoveryBundleView;

    open spec fn deep_view(&self) -> DiscoveryBundleView {
        DiscoveryBundleView {
            admin_page_url: self.admin_page_url@,
            insert_form_url: self.insert_form_url@,
            candidate_insert_urls: self.candidate_insert_urls.deep_view(),
            insert_form: self.insert_form.deep_view(),
        }
    }
}

impl Clone for DiscoveryBundle {
    fn clone(&self) -> (r: DiscoveryBundle)
        ensures
            r.deep_view() == self.deep_view(),
    {
        let candidate_insert_urls = self.candidate_insert_urls.clone();
        assert(candidate_insert_urls.deep_view() =~= self.candidate_insert_urls.deep_view());
        DiscoveryBundle {
            admin_page_url: self.admin_page_url.clone(),
            insert_form_url: self.insert_form_url.clone(),
            candidate_insert_urls,
            insert_form: self.insert_form.clone(),
        }
    }
}

impl DiscoveryBundleView {
    /// Nothing known.
    pub open spec fn empty() -> DiscoveryBundleView {
        DiscoveryBundleView {
            admin_page_url: Seq::empty(),
            insert_form_url: Seq::empty(),
            candidate_insert_urls: Seq::empty(),
            insert_form: InsertFormView::empty(),
        }
    }
}

impl Default for DiscoveryBundle {
    fn default() -> (r: DiscoveryBundle)
        ensures
            r.deep_view() == DiscoveryBundleView::empty(),
    {
        let r = DiscoveryBundle {
            admin_page_url: String::new(),
            insert_form_url: String::new(),
            candidate_insert_urls: Vec::new(),
            insert_form: InsertForm::default(),
        };
        assert(r.deep_view() =~= DiscoveryBundleView::empty());
        r
    }
}

/// What has been read of a form so far.
#[derive(Debug)]
pub struct FormDraft {
    pub base_fields: FieldMap,
    pub field_names: BookingFieldNames,
    pub lookup_endpoints: LookupEndpoints,
}

/// The content of `FormDraft`.
#[verifier::ext_equal]
pub struct FormDraftView {
    pub base_fields: Map<Seq<char>, Seq<char>>,
    pub field_names: BookingFieldNamesView,
    pub lookup_endpoints: LookupEndpointsView,
}

impl DeepView for FormDraft {
    type V = FormDraftView;

    open spec fn deep_view(&self) -> FormDraftView {
        FormDraftView {
            base_fields: self.base_fields.deep_view(),
            field_names: self.field_names.deep_view(),
            lookup_endpoints: self.lookup_endpoints.deep_view(),
        }
    }
}

impl FormDraftView {
    /// Nothing known.
    pub open spec fn empty() -> FormDraftView {
        FormDraftView {
            base_fields: Map::empty(),
            field_names: BookingFieldNamesView::empty(),
            lookup_endpoints: LookupEndpointsView::empty(),
        }
    }
}

impl Default for FormDraft {
    fn default() -> (r: FormDraft)
        ensures
            r.deep_view() == FormDraftView::empty(),
    {
        let r = FormDraft {
            base_fields: FieldMap::default(),
            field_names: BookingFieldNames::default(),
            lookup_endpoints: LookupEndpoints::default(),
        };
        assert(r.deep_view() =~= FormDraftView::empty());
        r
    }
}

/// What a control is recognised by: its name and its identifier in lower case.
pub open spec fn control_key(name: Seq<char>, id: Option<Seq<char>>) -> Seq<char> {
    text::lowered(name) + " "@ + text::lowered(text::or_empty(id))
}

/// The name of the first control that was recognised.
pub open spec fn first_seen(
    known: Option<Seq<char>>,
    recognised: bool,
    name: Seq<char>,
) -> Option<Seq<char>> {
    if known is None && recognised {
        Some(name)
    } else {
        known
    }
}

/// The field names once a control has been looked at. A name that is known already stays.
pub open spec fn with_control(
    names: BookingFieldNamesView,
    name: Seq<char>,
    id: Option<Seq<char>>,
) -> BookingFieldNamesView {
    let key = control_key(name, id);
    BookingFieldNamesView {
        employee: first_seen(names.employee, text::holds(key, "timbratura_dipendente_id"@), name),
        client: first_seen(
            names.client,
            text::holds(key, "timbratura_cliente_id"@) && !text::holds(key, "gruppo"@),
            name,
        ),
        activity: first_seen(names.activity, text::holds(key, "timbratura_attivita_id"@), name),
        state: first_seen(
            names.state,
            text::holds(key, "timbratura_stato"@) && !text::holds(key, "stato_start"@)
                && !text::holds(key, "stato_end"@),
            name,
        ),
        entry_type: first_seen(names.entry_type, text::holds(key, "timbratura_tipo"@), name),
        start_date: first_seen(names.start_date, text::holds(key, "timbratura_data_inizio"@), name),
        end_date: first_seen(names.end_date, text::holds(key, "timbratura_data_fine"@), name),
        start_time: first_seen(names.start_time, text::holds(key, "timbratura_ora_inizio"@), name),
        end_time: first_seen(names.end_time, text::holds(key, "timbratura_ora_fine"@), name),
        total_hours: first_seen(names.total_hours, text::holds(key, "calcolo_ora"@), name),
        description: first_seen(names.description, text::holds(key, "descrizione_attivita"@), name),
        note: first_seen(names.note, text::holds(key, "timbratura_note"@), name),
        productivity: first_seen(names.productivity, text::holds(key, "produttivita"@), name),
        force: first_seen(names.force, name == "forza"@, name),
    }
}

fn read_key(name: &str, id: &Option<String>) -> (r: String)
    ensures
        r@ == control_key(name@, id.deep_view()),
{
    let lowered_id = match id {
        Some(inner) => inner.as_str().to_ascii_lowercase(),
        None => String::new(),
    };
    proof {
        assert(id is None ==> lowered_id@ =~= text::lowered(Seq::empty()));
    }
    concat3(name.to_ascii_lowercase().as_str(), " ", lowered_id.as_str())
}

fn note_name(known: &mut Option<String>, recognised: bool, name: &str)
    ensures
        final(known).deep_view() == first_seen(old(known).deep_view(), recognised, name@),
{
    if known.is_none() && recognised {
        *known = Some(name.to_owned());
    }
}

/// Notes the name of a control for each thing that it is the first to stand for.
pub fn assign_known_field_name(
    field_names: &mut BookingFieldNames,
    name: &str,
    id: &Option<String>,
)
    ensures
        final(field_names).deep_view() == with_control(
            old(field_names).deep_view(),
            name@,
            id.deep_view(),
        ),
{
    let key = read_key(name, id);
    let employee = contains_text(key.as_str(), "timbratura_dipendente_id");
    note_name(&mut field_names.employee, employee, name);
    let client = contains_text(key.as_str(), "timbratura_cliente_id") && !contains_text(
        key.as_str(),
        "gruppo",
    );
    note_name(&mut field_names.client, client, name);
    let activity = contains_text(key.as_str(), "timbratura_attivita_id");
    note_name(&mut field_names.activity, activity, name);
    let state = contains_text(key.as_str(), "timbratura_stato") && !contains_text(
        key.as_str(),
        "stato_start",
    ) && !contains_text(key.as_str(), "stato_end");
    note_name(&mut field_names.state, state, name);
    let entry_type = contains_text(key.as_str(), "timbratura_tipo");
    note_name(&mut field_names.entry_type, entry_type, name);
    let start_date = contains_text(key.as_str(), "timbratura_data_inizio");
    note_name(&mut field_names.start_date, start_date, name);
    let end_date = contains_text(key.as_str(), "timbratura_data_fine");
    note_name(&mut field_names.end_date, end_date, name);
    let start_time = contains_text(key.as_str(), "timbratura_ora_inizio");
    note_name(&mut field_names.start_time, start_time, name);
    let end_time = contains_text(key.as_str(), "timbratura_ora_fine");
    note_name(&mut field_names.end_time, end_time, name);
    let total_hours = contains_text(key.as_str(), "calcolo_ora");
    note_name(&mut field_names.total_hours, total_hours, name);
    let description = contains_text(key.as_str(), "descrizione_attivita");
    note_name(&mut field_names.description, description, name);
    let note = contains_text(key.as_str(), "timbratura_note");
    note_name(&mut field_names.note, note, name);
    let productivity = contains_text(key.as_str(), "produttivita");
    note_name(&mut field_names.productivity, productivity, name);
    note_name(&mut field_names.force, same_text(name, "forza"), name);
}

/// The lookups once a control with an action has been looked at: its address goes to the first
/// lookup that it stands for and that has none.
pub open spec fn with_endpoint(
    endpoints: LookupEndpointsView,
    key: Seq<char>,
    address: Seq<char>,
) -> LookupEndpointsView {
    if endpoints.employee is None && text::holds(key, "timbratura_dipendente_id"@) {
        LookupEndpointsView { employee: Some(address), ..endpoints }
    } else if endpoints.client is None && text::holds(key, "timbratura_cliente_id"@)
        && !text::holds(key, "gruppo"@) {
        LookupEndpointsView { client: Some(address), ..endpoints }
    } else if endpoints.activity is None && text::holds(key, "timbratura_attivita_id"@) {
        LookupEndpointsView { activity: Some(address), ..endpoints }
    } else {
        endpoints
    }
}

/// The lookups once a control has been looked at; one without an action changes nothing, and one
/// whose action is no address ends the reading.
pub open spec fn endpoint_step(
    endpoints: LookupEndpointsView,
    page_url: Seq<char>,
    name: Seq<char>,
    id: Option<Seq<char>>,
    action: Option<Seq<char>>,
) -> (LookupEndpointsView, Result<(), Seq<char>>) {
    match action {
        None => (endpoints, Ok(())),
        Some(raw) => match links::absolute(page_url, raw) {
            Err(message) => (endpoints, Err(message)),
            Ok(address) => (with_endpoint(endpoints, control_key(name, id), address), Ok(())),
        },
    }
}

/// The outcome of a step that yields nothing but may fail.
pub open spec fn status(r: Result<(), String>) -> Result<(), Seq<char>> {
    match r {
        Ok(()) => Ok(()),
        Err(message) => Err(message@),
    }
}

/// Notes an address for the first lookup that the control stands for and that has none.
pub fn note_endpoint(
    lookup_endpoints: &mut LookupEndpoints,
    name: &str,
    id: &Option<String>,
    address: String,
)
    ensures
        final(lookup_endpoints).deep_view() == with_endpoint(
            old(lookup_endpoints).deep_view(),
            control_key(name@, id.deep_view()),
            address@,
        ),
{
    let key = read_key(name, id);
    if lookup_endpoints.employee.is_none() && contains_text(
        key.as_str(),
        "timbratura_dipendente_id",
    ) {
        lookup_endpoints.employee = Some(address);
    } else if lookup_endpoints.client.is_none() && contains_text(
        key.as_str(),
        "timbratura_cliente_id",
    ) && !contains_text(key.as_str(), "gruppo") {
        lookup_endpoints.client = Some(address);
    } else if lookup_endpoints.activity.is_none() && contains_text(
        key.as_str(),
        "timbratura_attivita_id",
    ) {
        lookup_endpoints.activity = Some(address);
    }
}

/// Notes the address of a lookup that a control offers.
pub fn assign_lookup_endpoint(
    lookup_endpoints: &mut LookupEndpoints,
    page_url: &str,
    name: &str,
    id: &Option<String>,
    action: &Option<String>,
) -> (r: Result<(), String>)
    ensures
        (final(lookup_endpoints).deep_view(), status(r)) == endpoint_step(
            old(lookup_endpoints).deep_view(),
            page_url@,
            name@,
            id.deep_view(),
            action.deep_view(),
        ),
{
    let raw = match action {
        Some(raw) => raw,
        None => return Ok(()),
    };
    match absolutize_url(page_url, raw.as_str()) {
        Ok(address) => {
            note_endpoint(lookup_endpoints, name, id, address);
            Ok(())
        },
        Err(message) => Err(message),
    }
}

/// The fields once an `input` has been read: buttons and files send nothing, a box or a radio
/// button sends its value (or `on`) only where it is checked, anything else sends its value.
pub open spec fn input_fields(
    fields: Map<Seq<char>, Seq<char>>,
    name: Seq<char>,
    input: InputElementView,
) -> Map<Seq<char>, Seq<char>> {
    let kind = text::lowered(
        match input.kind {
            Some(kind) => kind,
            None => "text"@,
        },
    );
    if kind == "submit"@ || kind == "button"@ || kind == "reset"@ || kind == "file"@ || kind
        == "image"@ {
        fields
    } else if kind == "checkbox"@ || kind == "radio"@ {
        if input.checked {
            fields.insert(
                name,
                match input.value {
                    Some(value) => value,
                    None => "on"@,
                },
            )
        } else {
            fields
        }
    } else {
        fields.insert(name, text::or_empty(input.value))
    }
}

/// A form once one more `input` has been read. A disabled one does not count.
pub open spec fn input_step(
    form: FormDraftView,
    page_url: Seq<char>,
    input: InputElementView,
) -> (FormDraftView, Result<(), Seq<char>>) {
    match input.name {
        Some(name) if !input.disabled => {
            let (endpoints, outcome) = endpoint_step(
                form.lookup_endpoints,
                page_url,
                name,
                input.id,
                input.action,
            );
            let named = FormDraftView {
                field_names: with_control(form.field_names, name, input.id),
                lookup_endpoints: endpoints,
                ..form
            };
            match outcome {
                Err(message) => (named, Err(message)),
                Ok(()) => (
                    FormDraftView {
                        base_fields: input_fields(form.base_fields, name, input),
                        ..named
                    },
                    Ok(()),
                ),
            }
        },
        _ => (form, Ok(())),
    }
}

/// A form once its inputs have been read, up to the first one that cannot be.
pub open spec fn after_inputs(
    form: FormDraftView,
    page_url: Seq<char>,
    inputs: Seq<InputElementView>,
) -> (FormDraftView, Result<(), Seq<char>>)
    decreases inputs.len(),
{
    if inputs.len() == 0 {
        (form, Ok(()))
    } else {
        let before = after_inputs(form, page_url, inputs.drop_last());
        match before.1 {
            Err(_) => before,
            Ok(()) => input_step(before.0, page_url, inputs.last()),
        }
    }
}

proof fn lemma_inputs_stop(
    form: FormDraftView,
    page_url: Seq<char>,
    inputs: Seq<InputElementView>,
    n: int,
)
    requires
        0 <= n <= inputs.len(),
        after_inputs(form, page_url, inputs.take(n)).1 is Err,
    ensures
        after_inputs(form, page_url, inputs) == after_inputs(form, page_url, inputs.take(n)),
    decreases inputs.len(),
{
    if n == inputs.len() {
        assert(inputs.take(n) =~= inputs);
    } else {
        assert(inputs.drop_last().take(n) =~= inputs.take(n));
        lemma_inputs_stop(form, page_url, inputs.drop_last(), n);
    }
}

fn read_input(input: &InputElement, page_url: &str, form: &mut FormDraft) -> (r: Result<(), String>)
    ensures
        (final(form).deep_view(), status(r)) == input_step(
            old(form).deep_view(),
            page_url@,
            input.deep_view(),
        ),
{
    if input.disabled {
        return Ok(());
    }
    let name = match &input.name {
        Some(name) => name,
        None => return Ok(()),
    };
    assign_known_field_name(&mut form.field_names, name.as_str(), &input.id);
    match assign_lookup_endpoint(
        &mut form.lookup_endpoints,
        page_url,
        name.as_str(),
        &input.id,
        &input.action,
    ) {
        Ok(()) => {},
        Err(message) => return Err(message),
    }
    let kind = match &input.kind {
        Some(kind) => kind.as_str().to_ascii_lowercase(),
        None => "text".to_ascii_lowercase(),
    };
    let k = kind.as_str();
    if same_text(k, "submit") || same_text(k, "button") || same_text(k, "reset") || same_text(
        k,
        "file",
    ) || same_text(k, "image") {
        return Ok(());
    }
    if same_text(k, "checkbox") || same_text(k, "radio") {
        if input.checked {
            let value = match &input.value {
                Some(value) => value.clone(),
                None => "on".to_owned(),
            };
            form.base_fields.insert(name.clone(), value);
        }
        return Ok(());
    }
    let value = match &input.value {
        Some(value) => value.clone(),
        None => String::new(),
    };
    form.base_fields.insert(name.clone(), value);
    Ok(())
}

/// Reads the inputs of a form.
pub fn parse_form_inputs(inputs: &Vec<InputElement>, page_url: &str, form: &mut FormDraft) -> (r:
    Result<(), String>)
    ensures
        (final(form).deep_view(), status(r)) == after_inputs(
            old(form).deep_view(),
            page_url@,
            inputs.deep_view(),
        ),
{
    let ghost all = inputs.deep_view();
    let ghost start = form.deep_view();
    for i in 0..inputs.len()
        invariant
            all == inputs.deep_view(),
            start == old(form).deep_view(),
            (form.deep_view(), Ok::<(), Seq<char>>(())) == after_inputs(
                start,
                page_url@,
                all.take(i as int),
            ),
    {
        let r = read_input(&inputs[i], page_url, form);
        proof {
            assert(all.take(i + 1).drop_last() =~= all.take(i as int));
            assert(all.take(i + 1).last() == inputs@[i as int].deep_view());
        }
        match r {
            Ok(()) => {},
            Err(message) => {
                proof {
                    lemma_inputs_stop(start, page_url@, all, i + 1);
                }
                return Err(message);
            },
        }
    }
    assert(all.take(all.len() as int) =~= all);
    Ok(())
}

/// A form once one more `textarea` has been read: it sends the text in it, trimmed.
pub open spec fn textarea_step(
    form: FormDraftView,
    textarea: TextareaElementView,
) -> FormDraftView {
    match textarea.name {
        Some(name) => FormDraftView {
            field_names: with_control(form.field_names, name, textarea.id),
            base_fields: form.base_fields.insert(
                name,
                text::trimmed(text::joined(textarea.texts, ""@)),
            ),
            ..form
        },
        None => form,
    }
}

/// A form once its text areas have been read.
pub open spec fn after_textareas(
    form: FormDraftView,
    textareas: Seq<TextareaElementView>,
) -> FormDraftView
    decreases textareas.len(),
{
    if textareas.len() == 0 {
        form
    } else {
        textarea_step(after_textareas(form, textareas.drop_last()), textareas.last())
    }
}

/// Reads the text areas of a form.
pub fn parse_form_textareas(textareas: &Vec<TextareaElement>, form: &mut FormDraft)
    ensures
        final(form).deep_view() == after_textareas(old(form).deep_view(), textareas.deep_view()),
{
    let ghost all = textareas.deep_view();
    let ghost start = form.deep_view();
    for i in 0..textareas.len()
        invariant
            all == textareas.deep_view(),
            start == old(form).deep_view(),
            form.deep_view() == after_textareas(start, all.take(i as int)),
    {
        proof {
            assert(all.take(i + 1).drop_last() =~= all.take(i as int));
            assert(all.take(i + 1).last() == textareas@[i as int].deep_view());
        }
        if let Some(name) = &textareas[i].name {
            assign_known_field_name(&mut form.field_names, name.as_str(), &textareas[i].id);
            let value = join_texts(&textareas[i].texts, "");
            form.base_fields.insert(name.clone(), value.as_str().trim().to_owned());
        }
    }
    assert(all.take(all.len() as int) =~= all);
}

/// The value of the option that is selected, the last one where there are several.
pub open spec fn selected_value(options: Seq<OptionElementView>) -> Option<Seq<char>>
    decreases options.len(),
{
    if options.len() == 0 {
        None
    } else if options.last().selected {
        Some(text::or_empty(options.last().value))
    } else {
        selected_value(options.drop_last())
    }
}

/// The options that have a value, as items.
pub open spec fn option_items(options: Seq<OptionElementView>) -> Seq<LookupItemView>
    decreases options.len(),
{
    if options.len() == 0 {
        Seq::empty()
    } else {
        let before = option_items(options.drop_last());
        let value = text::or_empty(options.last().value);
        if value.len() == 0 {
            before
        } else {
            before.push(
                LookupItemView {
                    id: value,
                    text: text::trimmed(text::joined(options.last().texts, " "@)),
                },
            )
        }
    }
}

/// A form and the states on offer once one more `select` has been read: it sends the value of
/// the option that is selected, and one for the state replaces the states on offer by its own,
/// if it has any.
pub open spec fn select_step(
    form: FormDraftView,
    states: Seq<LookupItemView>,
    page_url: Seq<char>,
    select: SelectElementView,
) -> (FormDraftView, Result<Seq<LookupItemView>, Seq<char>>) {
    match select.name {
        Some(name) => {
            let (endpoints, outcome) = endpoint_step(
                form.lookup_endpoints,
                page_url,
                name,
                select.id,
                select.action,
            );
            let named = FormDraftView {
                field_names: with_control(form.field_names, name, select.id),
                lookup_endpoints: endpoints,
                ..form
            };
            match outcome {
                Err(message) => (named, Err(message)),
                Ok(()) => (
                    FormDraftView {
                        base_fields: match selected_value(select.options) {
                            Some(value) => form.base_fields.insert(name, value),
                            None => form.base_fields,
                        },
                        ..named
                    },
                    Ok(
                        if text::holds(control_key(name, select.id), "timbratura_stato"@)
                            && option_items(select.options).len() > 0 {
                            option_items(select.options)
                        } else {
                            states
                        },
                    ),
                ),
            }
        },
        None => (form, Ok(states)),
    }
}

/// A form and the states on offer once its choices have been read, up to the first one that
/// cannot be.
pub open spec fn after_selects(
    form: FormDraftView,
    page_url: Seq<char>,
    selects: Seq<SelectElementView>,
) -> (FormDraftView, Result<Seq<LookupItemView>, Seq<char>>)
    decreases selects.len(),
{
    if selects.len() == 0 {
        (form, Ok(Seq::empty()))
    } else {
        let before = after_selects(form, page_url, selects.drop_last());
        match before.1 {
            Err(_) => before,
            Ok(states) => select_step(before.0, states, page_url, selects.last()),
        }
    }
}

proof fn lemma_selects_stop(
    form: FormDraftView,
    page_url: Seq<char>,
    selects: Seq<SelectElementView>,
    n: int,
)
    requires
        0 <= n <= selects.len(),
        after_selects(form, page_url, selects.take(n)).1 is Err,
    ensures
        after_selects(form, page_url, selects) == after_selects(form, page_url, selects.take(n)),
    decreases selects.len(),
{
    if n == selects.len() {
        assert(selects.take(n) =~= selects);
    } else {
        assert(selects.drop_last().take(n) =~= selects.take(n));
        lemma_selects_stop(form, page_url, selects.drop_last(), n);
    }
}

fn read_option_items(options: &Vec<OptionElement>) -> (r: (Option<String>, Vec<LookupItem>))
    ensures
        r.0.deep_view() == selected_value(options.deep_view()),
        r.1.deep_view() == option_items(options.deep_view()),
{
    let ghost all = options.deep_view();
    let mut selected: Option<String> = None;
    let mut items: Vec<LookupItem> = Vec::new();
    assert(items.deep_view() =~= option_items(all.take(0)));
    for i in 0..options.len()
        invariant
            all == options.deep_view(),
            selected.deep_view() == selected_value(all.take(i as int)),
            items.deep_view() == option_items(all.take(i as int)),
    {
        let option = &options[i];
        let ghost before = items.deep_view();
        proof {
            assert(all.take(i + 1).drop_last() =~= all.take(i as int));
            assert(all.take(i + 1).last() == option.deep_view());
        }
        let value = match &option.value {
            Some(value) => value.clone(),
            None => String::new(),
        };
        if option.selected {
            selected = Some(value.clone());
        }
        if !value.as_str().is_empty() {
            let text = join_texts(&option.texts, " ").as_str().trim().to_owned();
            items.push(LookupItem { id: value, text });
            assert(items.deep_view() =~= before.push(
                LookupItemView {
                    id: text::or_empty(option.value.deep_view()),
                    text: text::trimmed(text::joined(option.texts.deep_view(), " "@)),
                },
            ));
        }
    }
    assert(all.take(all.len() as int) =~= all);
    (selected, items)
}

fn read_select(
    select: &SelectElement,
    states: Vec<LookupItem>,
    page_url: &str,
    form: &mut FormDraft,
) -> (r: Result<Vec<LookupItem>, String>)
    ensures
        (final(form).deep_view(), text::outcome(r)) == select_step(
            old(form).deep_view(),
            states.deep_view(),
            page_url@,
            select.deep_view(),
        ),
{
    let name = match &select.name {
        Some(name) => name,
        None => return Ok(states),
    };
    assign_known_field_name(&mut form.field_names, name.as_str(), &select.id);
    match assign_lookup_endpoint(
        &mut form.lookup_endpoints,
        page_url,
        name.as_str(),
        &select.id,
        &select.action,
    ) {
        Ok(()) => {},
        Err(message) => return Err(message),
    }
    let key = read_key(name.as_str(), &select.id);
    let (selected, items) = read_option_items(&select.options);
    if let Some(value) = selected {
        form.base_fields.insert(name.clone(), value);
    }
    assert(items.deep_view().len() == items@.len());
    if contains_text(key.as_str(), "timbratura_stato") && items.len() > 0 {
        Ok(items)
    } else {
        Ok(states)
    }
}

/// Reads the choices of a form; the states on offer are handed back.
pub fn parse_form_selects(selects: &Vec<SelectElement>, page_url: &str, form: &mut FormDraft) -> (r:
    Result<Vec<LookupItem>, String>)
    ensures
        (final(form).deep_view(), text::outcome(r)) == after_selects(
            old(form).deep_view(),
            page_url@,
            selects.deep_view(),
        ),
{
    let ghost all = selects.deep_view();
    let ghost start = form.deep_view();
    let mut states: Vec<LookupItem> = Vec::new();
    assert(states.deep_view() =~= Seq::empty());
    for i in 0..selects.len()
        invariant
            all == selects.deep_view(),
            start == old(form).deep_view(),
            (form.deep_view(), Ok::<Seq<LookupItemView>, Seq<char>>(states.deep_view()))
                == after_selects(start, page_url@, all.take(i as int)),
    {
        let r = read_select(&selects[i], states, page_url, form);
        proof {
            assert(all.take(i + 1).drop_last() =~= all.take(i as int));
            assert(all.take(i + 1).last() == selects@[i as int].deep_view());
        }
        match r {
            Ok(found) => {
                states = found;
            },
            Err(message) => {
                proof {
                    lemma_selects_stop(start, page_url@, all, i + 1);
                }
                return Err(message);
            },
        }
    }
    assert(all.take(all.len() as int) =~= all);
    Ok(states)
}

/// Whether a form is the one for booking hours: by its identifier, or by a field of it.
pub open spec fn books_hours(form: FormElementView) -> bool {
    ||| form.id == Some("form1"@)
    ||| text::holds(form.html, "timbratura_data_inizio"@)
    ||| text::holds(form.html, "timbratura_ora_inizio"@)
}

/// The first form that books hours.
pub open spec fn booking_form(forms: Seq<FormElementView>) -> Option<FormElementView>
    decreases forms.len(),
{
    if forms.len() == 0 {
        None
    } else if books_hours(forms[0]) {
        Some(forms[0])
    } else {
        booking_form(forms.drop_first())
    }
}

/// A form as it is read from its element on the page `page_url`. The first thing that fails is
/// reported: the missing action, its address, the address that follows a booking, an input, a
/// choice.
pub open spec fn form_content(
    form: FormElementView,
    page_url: Seq<char>,
) -> Result<InsertFormView, Seq<char>> {
    match form.action {
        None => Err("il form ore non espone un action URL"@),
        Some(raw) => match links::absolute(page_url, raw) {
            Err(message) => Err(message),
            Ok(action_url) => match success_address(form.success, page_url) {
                Err(message) => Err(message),
                Ok(success_url) => {
                    let (inputs, read) = after_inputs(
                        FormDraftView::empty(),
                        page_url,
                        form.inputs,
                    );
                    match read {
                        Err(message) => Err(message),
                        Ok(()) => {
                            let (draft, states) = after_selects(
                                after_textareas(inputs, form.textareas),
                                page_url,
                                form.selects,
                            );
                            match states {
                                Err(message) => Err(message),
                                Ok(_) => Ok(
                                    InsertFormView {
                                        page_url,
                                        action_url,
                                        success_url,
                                        base_fields: draft.base_fields,
                                        lookup_endpoints: draft.lookup_endpoints,
                                        field_names: draft.field_names,
                                    },
                                ),
                            }
                        },
                    }
                },
            },
        },
    }
}

/// The address that follows a booking, where the form names one.
pub open spec fn success_address(
    success: Option<Seq<char>>,
    page_url: Seq<char>,
) -> Result<Option<Seq<char>>, Seq<char>> {
    match success {
        None => Ok(None),
        Some(raw) => match links::absolute(page_url, raw) {
            Err(message) => Err(message),
            Ok(address) => Ok(Some(address)),
        },
    }
}

/// The form for booking hours among the forms of a page.
pub open spec fn insert_form(
    forms: Seq<FormElementView>,
    page_url: Seq<char>,
) -> Result<InsertFormView, Seq<char>> {
    match booking_form(forms) {
        None => Err("non ho trovato il form di inserimento/modifica ore"@),
        Some(form) => form_content(form, page_url),
    }
}

fn is_booking_form(form: &FormElement) -> (r: bool)
    ensures
        r == books_hours(form.deep_view()),
{
    let by_id = match &form.id {
        Some(id) => same_text(id.as_str(), "form1"),
        None => false,
    };
    by_id || contains_text(form.html.as_str(), "timbratura_data_inizio") || contains_text(
        form.html.as_str(),
        "timbratura_ora_inizio",
    )
}

fn read_form(form: &FormElement, page_url: &str) -> (r: Result<InsertForm, String>)
    ensures
        text::outcome(r) == form_content(form.deep_view(), page_url@),
{
    let raw_action = match &form.action {
        Some(raw) => raw,
        None => return Err("il form ore non espone un action URL".to_owned()),
    };
    let action_url = match absolutize_url(page_url, raw_action.as_str()) {
        Ok(address) => address,
        Err(message) => return Err(message),
    };
    let success_url = match &form.success {
        Some(raw) => match absolutize_url(page_url, raw.as_str()) {
            Ok(address) => Some(address),
            Err(message) => return Err(message),
        },
        None => None,
    };
    let mut draft = FormDraft::default();
    match parse_form_inputs(&form.inputs, page_url, &mut draft) {
        Ok(()) => {},
        Err(message) => return Err(message),
    }
    parse_form_textareas(&form.textareas, &mut draft);
    match parse_form_selects(&form.selects, page_url, &mut draft) {
        Ok(_) => {},
        Err(message) => return Err(message),
    }
    Ok(
        InsertForm {
            page_url: page_url.to_owned(),
            action_url,
            success_url,
            base_fields: draft.base_fields,
            lookup_endpoints: draft.lookup_endpoints,
            field_names: draft.field_names,
        },
    )
}

/// Reads the form for booking hours from the forms of a page.
pub fn read_insert_form(forms: &Vec<FormElement>, page_url: &str) -> (r: Result<InsertForm, String>)
    ensures
        text::outcome(r) == insert_form(forms.deep_view(), page_url@),
{
    let ghost all = forms.deep_view();
    assert(all.skip(0) =~= all);
    for i in 0..forms.len()
        invariant
            all == forms.deep_view(),
            booking_form(all) == booking_form(all.skip(i as int)),
    {
        assert(all.skip(i as int)[0] == forms@[i as int].deep_view());
        if is_booking_form(&forms[i]) {
            return read_form(&forms[i], page_url);
        }
        assert(all.skip(i as int).drop_first() =~= all.skip(i + 1));
    }
    Err("non ho trovato il form di inserimento/modifica ore".to_owned())
}

/// Reads the form for booking hours from a page.
pub fn parse_insert_form(html: &str, page_url: &str) -> (r: Result<InsertForm, String>)
    ensures
        text::outcome(r) == insert_form(markup::forms_of(html@), page_url@),
{
    read_insert_form(&markup::read_forms(html), page_url)
}

/// A field name that is known stays, whatever controls follow.
pub proof fn law_names_kept(names: BookingFieldNamesView, name: Seq<char>, id: Option<Seq<char>>)
    ensures
        names.employee is Some ==> with_control(names, name, id).employee == names.employee,
        names.client is Some ==> with_control(names, name, id).client == names.client,
        names.activity is Some ==> with_control(names, name, id).activity == names.activity,
        names.state is Some ==> with_control(names, name, id).state == names.state,
        names.entry_type is Some ==> with_control(names, name, id).entry_type == names.entry_type,
        names.start_date is Some ==> with_control(names, name, id).start_date == names.start_date,
        names.end_date is Some ==> with_control(names, name, id).end_date == names.end_date,
        names.start_time is Some ==> with_control(names, name, id).start_time == names.start_time,
        names.end_time is Some ==> with_control(names, name, id).end_time == names.end_time,
        names.total_hours is Some ==> with_control(names, name, id).total_hours
            == names.total_hours,
        names.description is Some ==> with_control(names, name, id).description
            == names.description,
        names.note is Some ==> with_control(names, name, id).note == names.note,
        names.productivity is Some ==> with_control(names, name, id).productivity
            == names.productivity,
        names.force is Some ==> with_control(names, name, id).force == names.force,
        with_control(with_control(names, name, id), name, id) == with_control(names, name, id),
{
}

/// A control for groups of clients is not taken for the one for the client, nor one for the
/// state at the start or the end for the one for the state.
pub proof fn law_names_apart(name: Seq<char>, id: Option<Seq<char>>)
    ensures
        text::holds(control_key(name, id), "gruppo"@) ==> with_control(
            BookingFieldNamesView::empty(),
            name,
            id,
        ).client is None,
        text::holds(control_key(name, id), "stato_start"@) || text::holds(
            control_key(name, id),
            "stato_end"@,
        ) ==> with_control(BookingFieldNamesView::empty(), name, id).state is None,
{
}

/// Whether `after` is `before` with `value` put in where there was nothing, if it is due.
pub open spec fn gains(
    before: Option<Seq<char>>,
    after: Option<Seq<char>>,
    due: bool,
    value: Seq<char>,
) -> bool {
    &&& before is Some ==> after == before
    &&& before is None && due ==> after == Some(value)
    &&& before is None && !due ==> after is None
}

/// Whether a control gave its name to each thing that it stands for and that had no field yet,
/// and to nothing else. It stands for a thing by what its name, a blank and its identifier hold,
/// whatever their case.
#[verifier::opaque]
pub open spec fn names_gained(
    before: BookingFieldNamesView,
    after: BookingFieldNamesView,
    name: Seq<char>,
    id: Option<Seq<char>>,
) -> bool {
    let key = text::lowered(name) + " "@ + (match id {
        Some(id) => text::lowered(id),
        None => Seq::empty(),
    });
    &&& gains(before.employee, after.employee, text::holds(key, "timbratura_dipendente_id"@), name)
    &&& gains(
        before.client,
        after.client,
        text::holds(key, "timbratura_cliente_id"@) && !text::holds(key, "gruppo"@),
        name,
    )
    &&& gains(before.activity, after.activity, text::holds(key, "timbratura_attivita_id"@), name)
    &&& gains(
        before.state,
        after.state,
        text::holds(key, "timbratura_stato"@) && !text::holds(key, "stato_start"@)
            && !text::holds(key, "stato_end"@),
        name,
    )
    &&& gains(before.entry_type, after.entry_type, text::holds(key, "timbratura_tipo"@), name)
    &&& gains(
        before.start_date,
        after.start_date,
        text::holds(key, "timbratura_data_inizio"@),
        name,
    )
    &&& gains(before.end_date, after.end_date, text::holds(key, "timbratura_data_fine"@), name)
    &&& gains(
        before.start_time,
        after.start_time,
        text::holds(key, "timbratura_ora_inizio"@),
        name,
    )
    &&& gains(before.end_time, after.end_time, text::holds(key, "timbratura_ora_fine"@), name)
    &&& gains(before.total_hours, after.total_hours, text::holds(key, "calcolo_ora"@), name)
    &&& gains(
        before.description,
        after.description,
        text::holds(key, "descrizione_attivita"@),
        name,
    )
    &&& gains(before.note, after.note, text::holds(key, "timbratura_note"@), name)
    &&& gains(before.productivity, after.productivity, text::holds(key, "produttivita"@), name)
    &&& gains(before.force, after.force, name == "forza"@, name)
}

/// Whether a control gave the address of its action to the lookup that it stands for, if that had
/// none yet, and to no other. One that stands for several serves the first of them that is free.
#[verifier::opaque]
pub open spec fn lookups_gained(
    before: LookupEndpointsView,
    after: LookupEndpointsView,
    name: Seq<char>,
    id: Option<Seq<char>>,
    address: Seq<char>,
) -> bool {
    let key = text::lowered(name) + " "@ + (match id {
        Some(id) => text::lowered(id),
        None => Seq::empty(),
    });
    let employee = before.employee is None && text::holds(key, "timbratura_dipendente_id"@);
    let client = before.client is None && text::holds(key, "timbratura_cliente_id"@)
        && !text::holds(key, "gruppo"@);
    let activity = before.activity is None && text::holds(key, "timbratura_attivita_id"@);
    &&& gains(before.employee, after.employee, employee, address)
    &&& gains(before.client, after.client, client && !employee, address)
    &&& gains(before.activity, after.activity, activity && !employee && !client, address)
}

proof fn lemma_names_gained(names: BookingFieldNamesView, name: Seq<char>, id: Option<Seq<char>>)
    ensures
        names_gained(names, with_control(names, name, id), name, id),
{
    reveal(names_gained);
    assert(text::lowered(Seq::empty()) =~= Seq::empty());
}

proof fn lemma_lookups_gained(
    endpoints: LookupEndpointsView,
    name: Seq<char>,
    id: Option<Seq<char>>,
    address: Seq<char>,
)
    ensures
        lookups_gained(
            endpoints,
            with_endpoint(endpoints, control_key(name, id), address),
            name,
            id,
            address,
        ),
{
    reveal(lookups_gained);
    assert(text::lowered(Seq::empty()) =~= Seq::empty());
}

/// Whether two forms lie at the same addresses.
pub open spec fn same_addresses(a: InsertFormView, b: InsertFormView) -> bool {
    &&& a.page_url == b.page_url
    &&& a.action_url == b.action_url
    &&& a.success_url == b.success_url
}

/// Whether a control was read that has a name: its name and the address of its action, if it has
/// one, are noted, and its value, if it sends one, is the value of the field that it names.
/// Nothing else changes.
pub open spec fn control_read(
    before: InsertFormView,
    after: InsertFormView,
    name: Seq<char>,
    id: Option<Seq<char>>,
    address: Option<Seq<char>>,
    value: Option<Seq<char>>,
) -> bool {
    &&& same_addresses(before, after)
    &&& names_gained(before.field_names, after.field_names, name, id)
    &&& address is None ==> after.lookup_endpoints == before.lookup_endpoints
    &&& address is Some ==> lookups_gained(
        before.lookup_endpoints,
        after.lookup_endpoints,
        name,
        id,
        address->0,
    )
    &&& value is None ==> after.base_fields == before.base_fields
    &&& value is Some ==> after.base_fields == before.base_fields.insert(name, value->0)
}

/// A form with its first `n` inputs and nothing else.
pub open spec fn inputs_up_to(form: FormElementView, n: int) -> FormElementView {
    FormElementView {
        inputs: form.inputs.take(n),
        textareas: Seq::empty(),
        selects: Seq::empty(),
        ..form
    }
}

/// A form with its inputs, its first `n` text areas and nothing else.
pub open spec fn textareas_up_to(form: FormElementView, n: int) -> FormElementView {
    FormElementView { textareas: form.textareas.take(n), selects: Seq::empty(), ..form }
}

/// A form with its inputs, its text areas and its first `n` choices.
pub open spec fn selects_up_to(form: FormElementView, n: int) -> FormElementView {
    FormElementView { selects: form.selects.take(n), ..form }
}

/// A form without a control has no field, and nothing is known of it but its addresses: that of
/// its page, that of its action, and that of the page that follows a booking, if there is one.
/// It is refused exactly where the action is missing or one of the addresses cannot be resolved.
pub proof fn law_form_without_controls(form: FormElementView, page_url: Seq<char>)
    requires
        form.inputs.len() == 0,
        form.textareas.len() == 0,
        form.selects.len() == 0,
    ensures
        ({
            let action = links::absolute(page_url, form.action->0);
            let success = links::absolute(page_url, form.success->0);
            let read = form_content(form, page_url);
            &&& form.action is None ==> read == Err::<InsertFormView, Seq<char>>(
                "il form ore non espone un action URL"@,
            )
            &&& form.action is Some && action is Err ==> read is Err && read->Err_0
                == action->Err_0
            &&& form.action is Some && action is Ok && form.success is Some && success is Err
                ==> read is Err && read->Err_0 == success->Err_0
            &&& form.action is Some && action is Ok && (form.success is None || success is Ok)
                ==> read is Ok && {
                &&& read->Ok_0.page_url == page_url
                &&& read->Ok_0.action_url == action->Ok_0
                &&& form.success is None ==> read->Ok_0.success_url is None
                &&& form.success is Some ==> read->Ok_0.success_url == Some(success->Ok_0)
                &&& read->Ok_0.base_fields == Map::<Seq<char>, Seq<char>>::empty()
                &&& read->Ok_0.lookup_endpoints == LookupEndpointsView {
                    employee: None,
                    client: None,
                    activity: None,
                }
                &&& read->Ok_0.field_names == BookingFieldNamesView {
                    employee: None,
                    client: None,
                    activity: None,
                    state: None,
                    entry_type: None,
                    start_date: None,
                    end_date: None,
                    start_time: None,
                    end_time: None,
                    total_hours: None,
                    description: None,
                    note: None,
                    productivity: None,
                    force: None,
                }
            }
        }),
{
}

/// One more input changes what is read of a form as follows. One that is disabled or has no name
/// changes nothing. Any other is noted with the address of its action, and the form is refused
/// where that address cannot be resolved. A button or a file sends nothing, a box or a radio
/// button sends its value, or `on`, exactly where it is checked, and anything else sends its
/// value, or nothing but its name where it has none.
pub proof fn law_input_read(form: FormElementView, page_url: Seq<char>, n: int)
    requires
        0 <= n < form.inputs.len(),
    ensures
        ({
            let before = form_content(inputs_up_to(form, n), page_url);
            let after = form_content(inputs_up_to(form, n + 1), page_url);
            let input = form.inputs[n];
            let name = input.name->0;
            let address = links::absolute(page_url, input.action->0);
            let kind = text::lowered(
                match input.kind {
                    Some(kind) => kind,
                    None => "text"@,
                },
            );
            let button = kind == "submit"@ || kind == "button"@ || kind == "reset"@ || kind
                == "file"@ || kind == "image"@;
            let ticked = kind == "checkbox"@ || kind == "radio"@;
            let value = match input.value {
                Some(value) => value,
                None => if ticked && !button {
                    "on"@
                } else {
                    Seq::empty()
                },
            };
            let sends = !button && (ticked ==> input.checked);
            &&& before is Err ==> after == before
            &&& input.disabled || input.name is None ==> after == before
            &&& before is Ok && !input.disabled && input.name is Some && input.action is Some
                && address is Err ==> after is Err && after->Err_0 == address->Err_0
            &&& before is Ok && !input.disabled && input.name is Some && (input.action is None
                || address is Ok) ==> after is Ok && control_read(
                before->Ok_0,
                after->Ok_0,
                name,
                input.id,
                if input.action is Some {
                    Some(address->Ok_0)
                } else {
                    None
                },
                if sends {
                    Some(value)
                } else {
                    None
                },
            )
        }),
{
    let inputs = form.inputs;
    assert(inputs.take(n + 1).drop_last() =~= inputs.take(n));
    assert(inputs.take(n + 1).last() == inputs[n]);
    let input = inputs[n];
    let draft = after_inputs(FormDraftView::empty(), page_url, inputs.take(n)).0;
    lemma_names_gained(draft.field_names, input.name->0, input.id);
    lemma_lookups_gained(
        draft.lookup_endpoints,
        input.name->0,
        input.id,
        links::absolute(page_url, input.action->0)->Ok_0,
    );
}

/// One more text area changes what is read of a form as follows. One that has no name changes
/// nothing. Any other is noted, and sends the texts in it, one after the other and trimmed.
pub proof fn law_textarea_read(form: FormElementView, page_url: Seq<char>, n: int)
    requires
        0 <= n < form.textareas.len(),
    ensures
        ({
            let before = form_content(textareas_up_to(form, n), page_url);
            let after = form_content(textareas_up_to(form, n + 1), page_url);
            let textarea = form.textareas[n];
            &&& before is Err || textarea.name is None ==> after == before
            &&& before is Ok && textarea.name is Some ==> after is Ok && control_read(
                before->Ok_0,
                after->Ok_0,
                textarea.name->0,
                textarea.id,
                None,
                Some(text::trimmed(text::joined(textarea.texts, ""@))),
            )
        }),
{
    let textareas = form.textareas;
    assert(textareas.take(n + 1).drop_last() =~= textareas.take(n));
    assert(textareas.take(n + 1).last() == textareas[n]);
    let inputs = after_inputs(FormDraftView::empty(), page_url, form.inputs).0;
    let draft = after_textareas(inputs, textareas.take(n));
    lemma_names_gained(draft.field_names, textareas[n].name->0, textareas[n].id);
}

/// One more choice changes what is read of a form as follows. One that has no name changes
/// nothing. Any other is noted with the address of its action, and the form is refused where that
/// address cannot be resolved. It sends the value of the last of its options that is selected, if
/// one is.
pub proof fn law_select_read(form: FormElementView, page_url: Seq<char>, n: int)
    requires
        0 <= n < form.selects.len(),
    ensures
        ({
            let before = form_content(selects_up_to(form, n), page_url);
            let after = form_content(selects_up_to(form, n + 1), page_url);
            let select = form.selects[n];
            let address = links::absolute(page_url, select.action->0);
            &&& before is Err || select.name is None ==> after == before
            &&& before is Ok && select.name is Some && select.action is Some && address is Err
                ==> after is Err && after->Err_0 == address->Err_0
            &&& before is Ok && select.name is Some && (select.action is None || address is Ok)
                ==> after is Ok && control_read(
                before->Ok_0,
                after->Ok_0,
                select.name->0,
                select.id,
                if select.action is Some {
                    Some(address->Ok_0)
                } else {
                    None
                },
                selected_value(select.options),
            )
        }),
{
    let selects = form.selects;
    assert(selects.take(n + 1).drop_last() =~= selects.take(n));
    assert(selects.take(n + 1).last() == selects[n]);
    let select = selects[n];
    let inputs = after_inputs(FormDraftView::empty(), page_url, form.inputs).0;
    let textareas = after_textareas(inputs, form.textareas);
    let draft = after_selects(textareas, page_url, selects.take(n)).0;
    lemma_names_gained(draft.field_names, select.name->0, select.id);
    lemma_lookups_gained(
        draft.lookup_endpoints,
        select.name->0,
        select.id,
        links::absolute(page_url, select.action->0)->Ok_0,
    );
}

/// A choice sends the value of the last of its options that is selected, which is empty where that
/// option has none, and nothing where no option is selected.
pub proof fn law_selected_value(options: Seq<OptionElementView>, n: int)
    requires
        0 <= n <= options.len(),
        forall|i: int| n <= i < options.len() ==> !(#[trigger] options[i]).selected,
        n > 0 ==> options[n - 1].selected,
    ensures
        n == 0 ==> selected_value(options) is None,
        n > 0 && options[n - 1].value is Some ==> selected_value(options) == options[n - 1].value,
        n > 0 && options[n - 1].value is None ==> selected_value(options) == Some(
            Seq::<char>::empty(),
        ),
    decreases options.len(),
{
    if n < options.len() {
        let front = options.drop_last();
        assert(forall|i: int| n <= i < front.len() ==> (#[trigger] front[i]) == options[i]);
        law_selected_value(front, n);
    }
}

/// Each option with a value is an item with this value and the trimmed text of the option, in the
/// order of the options; one without a value is none.
pub proof fn law_option_items(
    first: Seq<OptionElementView>,
    later: Seq<OptionElementView>,
    option: OptionElementView,
)
    ensures
        option_items(first + later) == option_items(first) + option_items(later),
        option.value is None || option.value->0.len() == 0 ==> option_items(seq![option]).len()
            == 0,
        option.value is Some && option.value->0.len() > 0 ==> option_items(seq![option]) == seq![
            LookupItemView {
                id: option.value->0,
                text: text::trimmed(text::joined(option.texts, " "@)),
            },
        ],
    decreases later.len(),
{
    assert(seq![option].drop_last() =~= Seq::empty());
    assert(option_items(Seq::<OptionElementView>::empty()) =~= Seq::empty());
    if later.len() == 0 {
        assert(first + later =~= first);
        assert(option_items(first) + Seq::<LookupItemView>::empty() =~= option_items(first));
    } else {
        law_option_items(first, later.drop_last(), option);
        assert((first + later).drop_last() =~= first + later.drop_last());
        assert(option_items(first + later) =~= option_items(first) + option_items(later));
    }
}

/// The states on offer are those of the last choice for the state that has any.
pub proof fn law_states_on_offer(
    form: FormDraftView,
    page_url: Seq<char>,
    selects: Seq<SelectElementView>,
    select: SelectElementView,
)
    requires
        after_selects(form, page_url, selects.push(select)).1 is Ok,
    ensures
        after_selects(form, page_url, Seq::empty()).1 == Ok::<Seq<LookupItemView>, Seq<char>>(
            Seq::empty(),
        ),
        after_selects(form, page_url, selects).1 is Ok,
        ({
            let before = after_selects(form, page_url, selects).1->Ok_0;
            let after = after_selects(form, page_url, selects.push(select)).1->Ok_0;
            let items = option_items(select.options);
            let key = text::lowered(select.name->0) + " "@ + (match select.id {
                Some(id) => text::lowered(id),
                None => Seq::empty(),
            });
            let offers = select.name is Some && text::holds(key, "timbratura_stato"@)
                && items.len() > 0;
            &&& offers ==> after == items
            &&& !offers ==> after == before
        }),
{
    assert(selects.push(select).drop_last() =~= selects);
    assert(text::lowered(Seq::empty()) =~= Seq::empty());
}

/// Whether what is known in one form is known in the other, the same.
pub open spec fn still_known(before: InsertFormView, after: InsertFormView) -> bool {
    let lookups = before.lookup_endpoints;
    let names = before.field_names;
    &&& lookups.employee is Some ==> after.lookup_endpoints.employee == lookups.employee
    &&& lookups.client is Some ==> after.lookup_endpoints.client == lookups.client
    &&& lookups.activity is Some ==> after.lookup_endpoints.activity == lookups.activity
    &&& names.employee is Some ==> after.field_names.employee == names.employee
    &&& names.client is Some ==> after.field_names.client == names.client
    &&& names.activity is Some ==> after.field_names.activity == names.activity
    &&& names.state is Some ==> after.field_names.state == names.state
    &&& names.entry_type is Some ==> after.field_names.entry_type == names.entry_type
    &&& names.start_date is Some ==> after.field_names.start_date == names.start_date
    &&& names.end_date is Some ==> after.field_names.end_date == names.end_date
    &&& names.start_time is Some ==> after.field_names.start_time == names.start_time
    &&& names.end_time is Some ==> after.field_names.end_time == names.end_time
    &&& names.total_hours is Some ==> after.field_names.total_hours == names.total_hours
    &&& names.description is Some ==> after.field_names.description == names.description
    &&& names.note is Some ==> after.field_names.note == names.note
    &&& names.productivity is Some ==> after.field_names.productivity == names.productivity
    &&& names.force is Some ==> after.field_names.force == names.force
}

proof fn lemma_inputs_known(form: FormElementView, page_url: Seq<char>, n: int, m: int)
    requires
        0 <= n <= m <= form.inputs.len(),
        form_content(inputs_up_to(form, m), page_url) is Ok,
    ensures
        form_content(inputs_up_to(form, n), page_url) is Ok,
        still_known(
            form_content(inputs_up_to(form, n), page_url)->Ok_0,
            form_content(inputs_up_to(form, m), page_url)->Ok_0,
        ),
    decreases m - n,
{
    if n < m {
        reveal(names_gained);
        reveal(lookups_gained);
        law_input_read(form, page_url, m - 1);
        lemma_inputs_known(form, page_url, n, m - 1);
    }
}

proof fn lemma_textareas_known(form: FormElementView, page_url: Seq<char>, n: int)
    requires
        0 <= n <= form.textareas.len(),
        form_content(textareas_up_to(form, n), page_url) is Ok,
    ensures
        form_content(textareas_up_to(form, 0), page_url) is Ok,
        still_known(
            form_content(textareas_up_to(form, 0), page_url)->Ok_0,
            form_content(textareas_up_to(form, n), page_url)->Ok_0,
        ),
    decreases n,
{
    if n > 0 {
        reveal(names_gained);
        reveal(lookups_gained);
        law_textarea_read(form, page_url, n - 1);
        lemma_textareas_known(form, page_url, n - 1);
    }
}

proof fn lemma_selects_known(form: FormElementView, page_url: Seq<char>, n: int, m: int)
    requires
        0 <= n <= m <= form.selects.len(),
        form_content(selects_up_to(form, m), page_url) is Ok,
    ensures
        form_content(selects_up_to(form, n), page_url) is Ok,
        still_known(
            form_content(selects_up_to(form, n), page_url)->Ok_0,
            form_content(selects_up_to(form, m), page_url)->Ok_0,
        ),
    decreases m - n,
{
    if n < m {
        reveal(names_gained);
        reveal(lookups_gained);
        law_select_read(form, page_url, m - 1);
        lemma_selects_known(form, page_url, n, m - 1);
    }
}

/// What an input tells of a form stays, whatever controls follow it.
pub proof fn law_told_by_inputs_stays(form: FormElementView, page_url: Seq<char>, n: int)
    requires
        0 <= n <= form.inputs.len(),
        form_content(form, page_url) is Ok,
    ensures
        form_content(inputs_up_to(form, n), page_url) is Ok,
        still_known(
            form_content(inputs_up_to(form, n), page_url)->Ok_0,
            form_content(form, page_url)->Ok_0,
        ),
{
    assert(selects_up_to(form, form.selects.len() as int).selects =~= form.selects);
    assert(selects_up_to(form, form.selects.len() as int) == form);
    lemma_selects_known(form, page_url, 0, form.selects.len() as int);
    let textareas = form.textareas.len() as int;
    assert(textareas_up_to(form, textareas).textareas =~= form.textareas);
    assert(textareas_up_to(form, textareas).selects =~= selects_up_to(form, 0).selects);
    assert(textareas_up_to(form, textareas) == selects_up_to(form, 0));
    lemma_textareas_known(form, page_url, textareas);
    let inputs = form.inputs.len() as int;
    assert(inputs_up_to(form, inputs).inputs =~= form.inputs);
    assert(inputs_up_to(form, inputs).textareas =~= textareas_up_to(form, 0).textareas);
    assert(inputs_up_to(form, inputs) == textareas_up_to(form, 0));
    lemma_inputs_known(form, page_url, n, inputs);
}

/// What a choice tells of a form stays, whatever choices follow it.
pub proof fn law_told_by_selects_stays(form: FormElementView, page_url: Seq<char>, n: int)
    requires
        0 <= n <= form.selects.len(),
        form_content(form, page_url) is Ok,
    ensures
        form_content(selects_up_to(form, n), page_url) is Ok,
        still_known(
            form_content(selects_up_to(form, n), page_url)->Ok_0,
            form_content(form, page_url)->Ok_0,
        ),
{
    assert(selects_up_to(form, form.selects.len() as int).selects =~= form.selects);
    assert(selects_up_to(form, form.selects.len() as int) == form);
    lemma_selects_known(form, page_url, n, form.selects.len() as int);
}

/// The address of the action of a choice is where a lookup
/// asks, if the control stands for that lookup alone and those before it gave it no address.
pub proof fn law_lookup_of_select(form: FormElementView, page_url: Seq<char>, n: int)
    requires
        0 <= n < form.selects.len(),
        form.selects[n].name is Some,
        form.selects[n].action is Some,
        links::absolute(page_url, form.selects[n].action->0) is Ok,
        form_content(form, page_url) is Ok,
    ensures
        ({
            let control = form.selects[n];
            let address = links::absolute(page_url, control.action->0)->Ok_0;
            let key = text::lowered(control.name->0) + " "@ + (match control.id {
                Some(id) => text::lowered(id),
                None => Seq::empty(),
            });
            let employee = text::holds(key, "timbratura_dipendente_id"@);
            let client = text::holds(key, "timbratura_cliente_id"@) && !text::holds(
                key,
                "gruppo"@,
            );
            let activity = text::holds(key, "timbratura_attivita_id"@);
            let before = form_content(selects_up_to(form, n), page_url)->Ok_0.lookup_endpoints;
            let lookups = form_content(form, page_url)->Ok_0.lookup_endpoints;
            &&& employee && before.employee is None ==> lookups.employee == Some(address)
            &&& client && !employee && before.client is None ==> lookups.client == Some(address)
            &&& activity && !employee && !client && before.activity is None ==> lookups.activity
                == Some(address)
        }),
{
    reveal(lookups_gained);
    law_told_by_selects_stays(form, page_url, n);
    law_told_by_selects_stays(form, page_url, n + 1);
    law_select_read(form, page_url, n);
}

/// The address of the action of an input that is not disabled is where a lookup
/// asks, if the control stands for that lookup alone and those before it gave it no address.
pub proof fn law_lookup_of_input(form: FormElementView, page_url: Seq<char>, n: int)
    requires
        0 <= n < form.inputs.len(),
        !form.inputs[n].disabled,
        form.inputs[n].name is Some,
        form.inputs[n].action is Some,
        links::absolute(page_url, form.inputs[n].action->0) is Ok,
        form_content(form, page_url) is Ok,
    ensures
        ({
            let control = form.inputs[n];
            let address = links::absolute(page_url, control.action->0)->Ok_0;
            let key = text::lowered(control.name->0) + " "@ + (match control.id {
                Some(id) => text::lowered(id),
                None => Seq::empty(),
            });
            let employee = text::holds(key, "timbratura_dipendente_id"@);
            let client = text::holds(key, "timbratura_cliente_id"@) && !text::holds(
                key,
                "gruppo"@,
            );
            let activity = text::holds(key, "timbratura_attivita_id"@);
            let before = form_content(inputs_up_to(form, n), page_url)->Ok_0.lookup_endpoints;
            let lookups = form_content(form, page_url)->Ok_0.lookup_endpoints;
            &&& employee && before.employee is None ==> lookups.employee == Some(address)
            &&& client && !employee && before.client is None ==> lookups.client == Some(address)
            &&& activity && !employee && !client && before.activity is None ==> lookups.activity
                == Some(address)
        }),
{
    reveal(lookups_gained);
    law_told_by_inputs_stays(form, page_url, n);
    law_told_by_inputs_stays(form, page_url, n + 1);
    law_input_read(form, page_url, n);
}

/// The form that is read from a page is the first one that says so by its identifier or by a field
/// for the start of a booking; a page without such a form is refused.
pub proof fn law_first_booking_form(forms: Seq<FormElementView>, page_url: Seq<char>, n: int)
    requires
        0 <= n <= forms.len(),
        forall|i: int|
            0 <= i < n ==> (#[trigger] forms[i]).id != Some("form1"@) && !text::holds(
                forms[i].html,
                "timbratura_data_inizio"@,
            ) && !text::holds(forms[i].html, "timbratura_ora_inizio"@),
        n < forms.len() ==> forms[n].id == Some("form1"@) || text::holds(
            forms[n].html,
            "timbratura_data_inizio"@,
        ) || text::holds(forms[n].html, "timbratura_ora_inizio"@),
    ensures
        n < forms.len() ==> insert_form(forms, page_url) == form_content(forms[n], page_url),
        n == forms.len() ==> insert_form(forms, page_url) == Err::<InsertFormView, Seq<char>>(
            "non ho trovato il form di inserimento/modifica ore"@,
        ),
    decreases n,
{
    if n > 0 {
        let rest = forms.drop_first();
        assert(forall|i: int| 0 <= i < rest.len() ==> (#[trigger] rest[i]) == forms[i + 1]);
        law_first_booking_form(rest, page_url, n - 1);
    }
}

} // verus!
