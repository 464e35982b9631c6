//! The site: what is asked of it, and what its replies say.

use crate::booking;
use crate::booking::{
    booking_fields, read_submit_reply, BookingSubmission, BookingSubmissionView, SubmitOutcome,
    SubmitOutcomeView,
};
use crate::discovery;
use crate::discovery::discover_insert_candidates;
use crate::fields;
use crate::form;
use crate::form::{parse_insert_form, InsertForm, InsertFormView};
use crate::json;
use crate::json::{
    as_string, extract_primary_error, parse_json, text_under, truthy, Json, JsonView,
};
use crate::links;
use crate::links::{absolutize_url, parse_base_url, site_url};
use crate::lookup;
use crate::lookup::{parse_lookup_items, LookupItem, LookupItemView};
use crate::markup;
use crate::text;
use crate::text::{concat3, contains_text, is_blank, same_text};
use vstd::prelude::*;
use vstd::string::StringExecFns;

verus! {

/// A site, by its address in normal form and the language of its pages.
#[derive(Debug)]
pub struct LibemaxApi {
    pub base_url: String,
    pub language: String,
}

/// The content of `LibemaxApi`.
#[verifier::ext_equal]
pub struct LibemaxApiView {
    pub base_url: Seq<char>,
    pub language: Seq<char>,
}

impl DeepView for LibemaxApi {
    type V = LibemaxApiView;

    open spec fn deep_view(&self) -> LibemaxApiView {
        LibemaxApiView {
            base_url: self.base_url@,
            language: self.language@,
        }
    }
}

impl Clone for LibemaxApi {
    fn clone(&self) -> (r: LibemaxApi)
        ensures
            r.deep_view() == self.deep_view(),
    {
        LibemaxApi {
            base_url: self.base_url.clone(),
            language: self.language.clone(),
        }
    }
}

/// A code that was sent by mail and is now asked for.
#[derive(Debug)]
pub struct MailAuthenticationPrompt {
    pub email: String,
    pub user_id: String,
}

/// The content of `MailAuthenticationPrompt`.
#[verifier::ext_equal]
pub struct MailAuthenticationPromptView {
    pub email: Seq<char>,
    pub user_id: Seq<char>,
}

impl DeepView for MailAuthenticationPrompt {
    type V = MailAuthenticationPromptView;

    open spec fn deep_view(&self) -> MailAuthenticationPromptView {
        MailAuthenticationPromptView {
            email: self.email@,
            user_id: self.user_id@,
        }
    }
}

impl Clone for MailAuthenticationPrompt {
    fn clone(&self) -> (r: MailAuthenticationPrompt)
        ensures
            r.deep_view() == self.deep_view(),
    {
        MailAuthenticationPrompt {
            email: self.email.clone(),
            user_id: self.user_id.clone(),
        }
    }
}

/// What became of signing in.
#[derive(Debug)]
pub enum LoginOutcome {
    Authenticated,
    NeedsMailAuthentication(MailAuthenticationPrompt),
}

/// The content of `LoginOutcome`.
#[verifier::ext_equal]
pub enum LoginOutcomeView {
    Authenticated,
    NeedsMailAuthentication(MailAuthenticationPromptView),
}

impl DeepView for LoginOutcome {
    type V = LoginOutcomeView;

    open spec fn deep_view(&self) -> LoginOutcomeView {
        match self {
            LoginOutcome::Authenticated => LoginOutcomeView::Authenticated,
            LoginOutcome::NeedsMailAuthentication(value) => LoginOutcomeView::NeedsMailAuthentication(
                value.deep_view(),
            ),
        }
    }
}

impl Clone for LoginOutcome {
    fn clone(&self) -> (r: LoginOutcome)
        ensures
            r.deep_view() == self.deep_view(),
    {
        match self {
            LoginOutcome::Authenticated => LoginOutcome::Authenticated,
            LoginOutcome::NeedsMailAuthentication(value) => LoginOutcome::NeedsMailAuthentication(
                value.clone(),
            ),
        }
    }
}

/// What is sent to the site.
#[derive(Debug)]
pub enum Request {
    /// A page.
    Get { url: String },
    /// An address that is asked for with `query` as its parameter `q`.
    Query { url: String, query: String },
    /// A form that is sent in the way the pages of the site do it.
    Post { url: String, fields: Vec<(String, String)> },
}

/// The content of `Request`.
#[verifier::ext_equal]
pub enum RequestView {
    Get { url: Seq<char> },
    Query { url: Seq<char>, query: Seq<char> },
    Post { url: Seq<char>, fields: Seq<(Seq<char>, Seq<char>)> },
}

impl DeepView for Request {
    type V = RequestView;

    open spec fn deep_view(&self) -> RequestView {
        match self {
            Request::Get { url } => RequestView::Get {
                url: url@,
            },
            Request::Query { url, query } => RequestView::Query {
                url: url@,
                query: query@,
            },
            Request::Post { url, fields } => RequestView::Post {
                url: url@,
                fields: fields.deep_view(),
            },
        }
    }
}

/// What came back.
#[derive(Debug)]
pub enum Reply {
    /// The request could not be made.
    Unsent,
    /// The site replied, but the text of the reply could not be read.
    Unread,
    /// The status and the text of the reply.
    Answer { status: String, text: String },
}

/// The content of `Reply`.
#[verifier::ext_equal]
pub enum ReplyView {
    Unsent,
    Unread,
    Answer { status: Seq<char>, text: Seq<char> },
}

impl DeepView for Reply {
    type V = ReplyView;

    open spec fn deep_view(&self) -> ReplyView {
        match self {
            Reply::Unsent => ReplyView::Unsent,
            Reply::Unread => ReplyView::Unread,
            Reply::Answer { status, text } => ReplyView::Answer {
                status: status@,
                text: text@,
            },
        }
    }
}

/// The page that takes bookings, and where it was looked for.
#[derive(Debug)]
pub struct InsertPage {
    pub admin_page_url: String,
    pub insert_form_url: String,
    pub candidate_insert_urls: Vec<String>,
}

/// The content of `InsertPage`.
#[verifier::ext_equal]
pub struct InsertPageView {
    pub admin_page_url: Seq<char>,
    pub insert_form_url: Seq<char>,
    pub candidate_insert_urls: Seq<Seq<char>>,
}

impl DeepView for InsertPage {
    type V = InsertPageView;

    open spec fn deep_view(&self) -> InsertPageView {
        InsertPageView {
            admin_page_url: self.admin_page_url@,
            insert_form_url: self.insert_form_url@,
            candidate_insert_urls: self.candidate_insert_urls.deep_view(),
        }
    }
}

impl Clone for InsertPage {
    fn clone(&self) -> (r: InsertPage)
        ensures
            r.deep_view() == self.deep_view(),
    {
        let candidate_insert_urls = self.candidate_insert_urls.clone();
        assert(candidate_insert_urls.deep_view() =~= self.candidate_insert_urls.deep_view());
        InsertPage {
            admin_page_url: self.admin_page_url.clone(),
            insert_form_url: self.insert_form_url.clone(),
            candidate_insert_urls,
        }
    }
}

impl LibemaxApiView {
    /// The path of a page of the site, in its language.
    pub open spec fn path(self, page: Seq<char>) -> Seq<char> {
        "/app-timbrature/"@ + self.language + page
    }

    /// The page from which the others are reached.
    pub open spec fn admin_page(self) -> Result<Seq<char>, Seq<char>> {
        links::site_address(
            self.base_url,
            self.path("/admin_timbratura"@),
            "failed to build admin page URL"@,
        )
    }

    /// Where to sign in.
    pub open spec fn login_page(self) -> Result<Seq<char>, Seq<char>> {
        links::site_address(
            self.base_url,
            self.path("/ajax/login.accedi"@),
            "failed to build login API URL"@,
        )
    }

    /// Where to ask for another code by mail.
    pub open spec fn mail_code_page(self) -> Result<Seq<char>, Seq<char>> {
        links::site_address(
            self.base_url,
            self.path("/ajax/login.invia_mail_autenticazione"@),
            "failed to build mail code API URL"@,
        )
    }

    /// An address as the admin page would follow it.
    pub open spec fn followed(self, url: Seq<char>) -> Result<Seq<char>, Seq<char>> {
        match self.admin_page() {
            Err(message) => Err(message),
            Ok(page) => links::absolute(page, url),
        }
    }
}

/// The site at an address, which must be one.
pub open spec fn site_at(base_url: Seq<char>, language: Seq<char>) -> Result<
    LibemaxApiView,
    Seq<char>,
> {
    match links::base_address(base_url) {
        Err(message) => Err(message),
        Ok(address) => Ok(
            LibemaxApiView { base_url: address, language: text::trimmed(language) },
        ),
    }
}

impl LibemaxApi {
    /// The site at an address, which must be one.
    pub fn new(base_url: &str, language: &str) -> (r: Result<LibemaxApi, String>)
        ensures
            text::outcome(r) == site_at(base_url@, language@),
    {
        match parse_base_url(base_url) {
            Err(message) => Err(message),
            Ok(address) => Ok(
                LibemaxApi { base_url: address, language: language.trim().to_owned() },
            ),
        }
    }

    fn path(&self, page: &str) -> (r: String)
        ensures
            r@ == self.deep_view().path(page@),
    {
        concat3("/app-timbrature/", self.language.as_str(), page)
    }

    /// The page from which the others are reached.
    pub fn admin_page_url(&self) -> (r: Result<String, String>)
        ensures
            text::outcome(r) == self.deep_view().admin_page(),
    {
        site_url(
            self.base_url.as_str(),
            self.path("/admin_timbratura").as_str(),
            "failed to build admin page URL",
        )
    }

    /// Where to sign in.
    pub fn login_api_url(&self) -> (r: Result<String, String>)
        ensures
            text::outcome(r) == self.deep_view().login_page(),
    {
        site_url(
            self.base_url.as_str(),
            self.path("/ajax/login.accedi").as_str(),
            "failed to build login API URL",
        )
    }

    /// Where to ask for another code by mail.
    pub fn mail_code_api_url(&self) -> (r: Result<String, String>)
        ensures
            text::outcome(r) == self.deep_view().mail_code_page(),
    {
        site_url(
            self.base_url.as_str(),
            self.path("/ajax/login.invia_mail_autenticazione").as_str(),
            "failed to build mail code API URL",
        )
    }

    /// An address as the admin page would follow it.
    fn follow_url(&self, url: &str) -> (r: Result<String, String>)
        ensures
            text::outcome(r) == self.deep_view().followed(url@),
    {
        match self.admin_page_url() {
            Err(message) => Err(message),
            Ok(page) => absolutize_url(page.as_str(), url),
        }
    }
}

/// The JSON document that a reply holds, or the message why there is none; `unsent` is the
/// message where the request could not be made.
pub open spec fn json_reply(reply: ReplyView, unsent: Seq<char>) -> Result<JsonView, Seq<char>> {
    match reply {
        ReplyView::Unsent => Err(unsent),
        ReplyView::Unread => Err("failed to read JSON response body"@),
        ReplyView::Answer { status, text } => match json::parsed_json(text) {
            Some(body) => Ok(body),
            None => Err(
                "unexpected server response with status "@ + status + ": "@ + text::trimmed(text),
            ),
        },
    }
}

/// The JSON document that a reply holds.
pub fn response_to_json(reply: &Reply, unsent: &str) -> (r: Result<Json, String>)
    ensures
        text::outcome(r) == json_reply(reply.deep_view(), unsent@),
{
    match reply {
        Reply::Unsent => Err(unsent.to_owned()),
        Reply::Unread => Err("failed to read JSON response body".to_owned()),
        Reply::Answer { status, text } => match parse_json(text.as_str()) {
            Some(body) => Ok(body),
            None => Err(
                concat3(
                    "unexpected server response with status ",
                    status.as_str(),
                    ": ",
                ).concat(text.as_str().trim()),
            ),
        },
    }
}

/// The fields that are sent to sign in: a code only where there is one.
pub open spec fn login_fields(
    username: Seq<char>,
    password: Seq<char>,
    otp_code: Option<Seq<char>>,
    remember: bool,
) -> Seq<(Seq<char>, Seq<char>)> {
    let named = seq![("username"@, text::trimmed(username)), ("password"@, password)];
    let remembered = if remember { named.push(("remember"@, "1"@)) } else { named };
    match otp_code {
        Some(code) => if text::blank(code) {
            remembered
        } else {
            remembered.push(("doppia_autenticazione_codice"@, text::trimmed(code)))
        },
        None => remembered,
    }
}

/// What is sent to sign in.
pub open spec fn login_request(
    api: LibemaxApiView,
    username: Seq<char>,
    password: Seq<char>,
    otp_code: Option<Seq<char>>,
    remember: bool,
) -> Result<RequestView, Seq<char>> {
    match api.login_page() {
        Err(message) => Err(message),
        Ok(url) => Ok(
            RequestView::Post { url, fields: login_fields(username, password, otp_code, remember) },
        ),
    }
}

/// What the reply to signing in says. Where the site does not say which user the code is for,
/// none is named.
pub open spec fn login_result(body: JsonView) -> Result<LoginOutcomeView, Seq<char>> {
    if json::counts(json::member(body, "error"@)) {
        Err(json::primary_error(body))
    } else if json::text_of(json::member(body, "action_required"@)) == Some(
        "mail_authentication"@,
    ) {
        Ok(
            LoginOutcomeView::NeedsMailAuthentication(
                MailAuthenticationPromptView {
                    email: match lookup::written_value(json::member(body, "email"@)) {
                        Some(email) => email,
                        None => "indirizzo email non disponibile"@,
                    },
                    user_id: text::or_empty(
                        lookup::written_value(json::member(body, "utente_id"@)),
                    ),
                },
            ),
        )
    } else if json::text_of(json::member(body, "action_required"@)) == Some("change_password"@) {
        Err(
            "Libemax richiede il cambio password: fai il cambio dal sito una volta, poi usa l'app"@,
        )
    } else {
        Ok(LoginOutcomeView::Authenticated)
    }
}

/// What the reply to signing in says.
pub fn read_login_body(body: &Json) -> (r: Result<LoginOutcome, String>)
    ensures
        text::outcome(r) == login_result(body.deep_view()),
{
    if truthy(body.get("error")) {
        return Err(extract_primary_error(body));
    }
    if let Some(action) = text_under(body, "action_required") {
        if same_text(action.as_str(), "mail_authentication") {
            let email = match written_under(body, "email") {
                Some(email) => email,
                None => "indirizzo email non disponibile".to_owned(),
            };
            let user_id = match written_under(body, "utente_id") {
                Some(id) => id,
                None => String::new(),
            };
            return Ok(
                LoginOutcome::NeedsMailAuthentication(MailAuthenticationPrompt { email, user_id }),
            );
        }
        if same_text(action.as_str(), "change_password") {
            return Err(
                "Libemax richiede il cambio password: fai il cambio dal sito una volta, poi usa l'app".to_owned(),
            );
        }
    }
    Ok(LoginOutcome::Authenticated)
}

fn written_under(body: &Json, key: &str) -> (r: Option<String>)
    ensures
        r.deep_view() == lookup::written_value(json::member(body.deep_view(), key@)),
{
    match body.get(key) {
        Some(value) => as_string(value),
        None => None,
    }
}

/// What the reply to asking for another code says.
pub open spec fn resend_result(body: JsonView) -> Result<Seq<char>, Seq<char>> {
    if json::counts(json::member(body, "error"@)) {
        Err(json::primary_error(body))
    } else {
        Ok(
            match json::text_of(json::member(body, "confirm"@)) {
                Some(message) => message,
                None => "Nuovo codice inviato"@,
            },
        )
    }
}

/// What the reply to asking for another code says.
pub fn read_resend_body(body: &Json) -> (r: Result<String, String>)
    ensures
        text::outcome(r) == resend_result(body.deep_view()),
{
    if truthy(body.get("error")) {
        return Err(extract_primary_error(body));
    }
    match text_under(body, "confirm") {
        Some(message) => Ok(message.clone()),
        None => Ok("Nuovo codice inviato".to_owned()),
    }
}

/// What is sent to ask for another code by mail.
pub open spec fn resend_request(api: LibemaxApiView, user_id: Seq<char>) -> Result<
    RequestView,
    Seq<char>,
> {
    match api.mail_code_page() {
        Err(message) => Err(message),
        Ok(url) => Ok(
            RequestView::Post { url, fields: seq![("utente_id"@, text::trimmed(user_id))] },
        ),
    }
}

impl LibemaxApi {
    /// What is sent to sign in.
    pub fn login(
        &self,
        username: &str,
        password: &str,
        otp_code: Option<&str>,
        remember: bool,
    ) -> (r: Result<Request, String>)
        ensures
            text::outcome(r) == login_request(
                self.deep_view(),
                username@,
                password@,
                match otp_code {
                    Some(code) => Some(code@),
                    None => None,
                },
                remember,
            ),
    {
        let mut fields: Vec<(String, String)> = Vec::new();
        fields.push(("username".to_owned(), username.trim().to_owned()));
        fields.push(("password".to_owned(), password.to_owned()));
        if remember {
            fields.push(("remember".to_owned(), "1".to_owned()));
        }
        if let Some(code) = otp_code {
            if !is_blank(code) {
                fields.push(("doppia_autenticazione_codice".to_owned(), code.trim().to_owned()));
            }
        }
        assert(fields.deep_view() =~= login_fields(
            username@,
            password@,
            match otp_code {
                Some(code) => Some(code@),
                None => None,
            },
            remember,
        ));
        match self.login_api_url() {
            Err(message) => Err(message),
            Ok(url) => Ok(Request::Post { url, fields }),
        }
    }

    /// What is sent to ask for another code by mail.
    pub fn resend_mail_code(&self, user_id: &str) -> (r: Result<Request, String>)
        ensures
            text::outcome(r) == resend_request(self.deep_view(), user_id@),
    {
        let mut fields: Vec<(String, String)> = Vec::new();
        fields.push(("utente_id".to_owned(), user_id.trim().to_owned()));
        assert(fields.deep_view() =~= seq![("utente_id"@, text::trimmed(user_id@))]);
        match self.mail_code_api_url() {
            Err(message) => Err(message),
            Ok(url) => Ok(Request::Post { url, fields }),
        }
    }
}

/// Whether a page asks to sign in.
pub open spec fn asks_to_log_in(html: Seq<char>) -> bool {
    text::holds(html, "id=\"login_libemax\""@) || text::holds(html, "class=\"form-login\""@)
}

/// Whether a page asks to sign in.
pub fn looks_like_login_page(html: &str) -> (r: bool)
    ensures
        r == asks_to_log_in(html@),
{
    contains_text(html, "id=\"login_libemax\"") || contains_text(html, "class=\"form-login\"")
}

/// The message that the site asks to sign in again.
pub open spec fn signed_out() -> Seq<char> {
    "Sessione non autenticata o scaduta: effettua di nuovo il login"@
}

/// The page that a reply holds, or the message why there is none. A page that asks to sign in is
/// none.
pub open spec fn page_reply(url: Seq<char>, reply: ReplyView) -> Result<Seq<char>, Seq<char>> {
    match reply {
        ReplyView::Unsent => Err("request failed for "@ + url),
        ReplyView::Unread => Err("failed to read HTML body from "@ + url),
        ReplyView::Answer { status, text } => if asks_to_log_in(text) {
            Err(signed_out())
        } else {
            Ok(text)
        },
    }
}

/// The page that a reply holds.
pub fn read_page(url: &str, reply: Reply) -> (r: Result<String, String>)
    ensures
        text::outcome(r) == page_reply(url@, reply.deep_view()),
{
    match reply {
        Reply::Unsent => Err("request failed for ".to_owned().concat(url)),
        Reply::Unread => Err("failed to read HTML body from ".to_owned().concat(url)),
        Reply::Answer { status: _, text } => {
            if looks_like_login_page(text.as_str()) {
                Err("Sessione non autenticata o scaduta: effettua di nuovo il login".to_owned())
            } else {
                Ok(text)
            }
        },
    }
}

/// The message that no page that takes bookings was found.
pub open spec fn no_insert_page() -> Seq<char> {
    "Non sono riuscito a trovare automaticamente la pagina di inserimento ore. Incolla l'URL manuale nel campo 'Insert form URL'."@
}

/// Whether a message says that no page that takes bookings was found.
pub fn is_no_insert_page(message: &str) -> (r: bool)
    ensures
        r == (message@ == no_insert_page()),
{
    same_text(
        message,
        "Non sono riuscito a trovare automaticamente la pagina di inserimento ore. Incolla l'URL manuale nel campo 'Insert form URL'.",
    )
}

/// The page that takes bookings: the one that the user names, else the best that was found.
pub open spec fn insert_page(
    admin_page_url: Seq<char>,
    candidates: Seq<Seq<char>>,
    insert_form_url_override: Seq<char>,
) -> Result<InsertPageView, Seq<char>> {
    let url = if !text::blank(insert_form_url_override) {
        links::absolute(admin_page_url, text::trimmed(insert_form_url_override))
    } else if candidates.len() > 0 {
        Ok(candidates[0])
    } else {
        Err(no_insert_page())
    };
    match url {
        Err(message) => Err(message),
        Ok(insert_form_url) => Ok(
            InsertPageView { admin_page_url, insert_form_url, candidate_insert_urls: candidates },
        ),
    }
}

/// The page that takes bookings: the one that the user names, else the best that was found.
pub fn choose_insert_page(
    admin_page_url: &str,
    candidates: Vec<String>,
    insert_form_url_override: &str,
) -> (r: Result<InsertPage, String>)
    ensures
        text::outcome(r) == insert_page(
            admin_page_url@,
            candidates.deep_view(),
            insert_form_url_override@,
        ),
{
    assert(candidates.deep_view().len() == candidates@.len());
    let insert_form_url = if !is_blank(insert_form_url_override) {
        match absolutize_url(admin_page_url, insert_form_url_override.trim()) {
            Ok(url) => url,
            Err(message) => return Err(message),
        }
    } else if candidates.len() > 0 {
        candidates[0].clone()
    } else {
        return Err(
            "Non sono riuscito a trovare automaticamente la pagina di inserimento ore. Incolla l'URL manuale nel campo 'Insert form URL'.".to_owned(),
        );
    };
    Ok(
        InsertPage {
            admin_page_url: admin_page_url.to_owned(),
            insert_form_url,
            candidate_insert_urls: candidates,
        },
    )
}

/// The page that takes bookings, from the text of the admin page.
pub open spec fn insert_page_in(
    html: Seq<char>,
    admin_page_url: Seq<char>,
    insert_form_url_override: Seq<char>,
) -> Result<InsertPageView, Seq<char>> {
    match discovery::insert_candidates(
        markup::links_of(html),
        markup::captured(discovery::address_pattern(), "url"@, html),
        admin_page_url,
    ) {
        Err(message) => Err(message),
        Ok(candidates) => insert_page(admin_page_url, candidates, insert_form_url_override),
    }
}

/// The page that takes bookings, from the text of the admin page.
pub fn find_insert_page(html: &str, admin_page_url: &str, insert_form_url_override: &str) -> (r:
    Result<InsertPage, String>)
    ensures
        text::outcome(r) == insert_page_in(html@, admin_page_url@, insert_form_url_override@),
{
    match discover_insert_candidates(html, admin_page_url) {
        Err(message) => Err(message),
        Ok(candidates) => choose_insert_page(
            admin_page_url,
            candidates,
            insert_form_url_override,
        ),
    }
}

/// What is asked of an address that looks items up.
pub open spec fn lookup_request(
    api: LibemaxApiView,
    endpoint: Seq<char>,
    query: Seq<char>,
) -> Result<RequestView, Seq<char>> {
    match api.followed(endpoint) {
        Err(message) => Err(message),
        Ok(url) => Ok(RequestView::Query { url, query: text::trimmed(query) }),
    }
}

/// What is asked to look up every place of work.
pub open spec fn clients_request(api: LibemaxApiView, form: InsertFormView) -> Result<
    RequestView,
    Seq<char>,
> {
    match form.lookup_endpoints.client {
        Some(endpoint) => lookup_request(api, endpoint, Seq::empty()),
        None => Err("L'endpoint dei luoghi di lavoro non e' stato trovato"@),
    }
}

impl LibemaxApi {
    /// The address at which the form that takes bookings is read.
    pub fn load_insert_form(&self, url: &str) -> (r: Result<String, String>)
        ensures
            text::outcome(r) == self.deep_view().followed(url@),
    {
        self.follow_url(url)
    }

    /// What is asked of an address that looks items up.
    pub fn search_lookup(&self, endpoint: &str, query: &str) -> (r: Result<Request, String>)
        ensures
            text::outcome(r) == lookup_request(self.deep_view(), endpoint@, query@),
    {
        match self.follow_url(endpoint) {
            Err(message) => Err(message),
            Ok(url) => Ok(Request::Query { url, query: query.trim().to_owned() }),
        }
    }

    /// What is asked to look up every place of work.
    pub fn preload_clients(&self, insert_form: &InsertForm) -> (r: Result<Request, String>)
        ensures
            text::outcome(r) == clients_request(self.deep_view(), insert_form.deep_view()),
    {
        proof {
            reveal_strlit("");
            assert(""@ =~= Seq::empty());
        }
        match &insert_form.lookup_endpoints.client {
            Some(endpoint) => self.search_lookup(endpoint.as_str(), ""),
            None => Err("L'endpoint dei luoghi di lavoro non e' stato trovato".to_owned()),
        }
    }
}

/// The form that takes bookings, from the reply to asking for its page.
pub open spec fn form_reply(url: Seq<char>, reply: ReplyView) -> Result<InsertFormView, Seq<char>> {
    match page_reply(url, reply) {
        Err(message) => Err(message),
        Ok(html) => form::insert_form(markup::forms_of(html), url),
    }
}

/// The form that takes bookings, from the reply to asking for its page.
pub fn read_form_page(url: &str, reply: Reply) -> (r: Result<InsertForm, String>)
    ensures
        text::outcome(r) == form_reply(url@, reply.deep_view()),
{
    match read_page(url, reply) {
        Err(message) => Err(message),
        Ok(html) => parse_insert_form(html.as_str(), url),
    }
}

/// The items that a reply lists: `None` where they must be asked for in the other way, as a form.
pub open spec fn query_reply(reply: ReplyView) -> Option<Result<Seq<LookupItemView>, Seq<char>>> {
    match reply {
        ReplyView::Unsent => None,
        ReplyView::Unread => Some(Err("failed to read lookup response body"@)),
        ReplyView::Answer { status, text } => match lookup::items_read(text) {
            Ok(items) => Some(Ok(items)),
            Err(_) => None,
        },
    }
}

/// The items that the reply to the form lists, or the message why there are none.
pub open spec fn lookup_form_reply(reply: ReplyView) -> Result<Seq<LookupItemView>, Seq<char>> {
    match reply {
        ReplyView::Unsent => Err("lookup request failed"@),
        ReplyView::Unread => Err("failed to read lookup response body"@),
        ReplyView::Answer { status, text } => lookup::items_read(text),
    }
}

/// The items that a reply lists: `None` where they must be asked for in the other way, as a form.
pub fn read_query_reply(reply: &Reply) -> (r: Option<Result<Vec<LookupItem>, String>>)
    ensures
        match r {
            Some(items) => query_reply(reply.deep_view()) == Some(text::outcome(items)),
            None => query_reply(reply.deep_view()) is None,
        },
{
    match reply {
        Reply::Unsent => None,
        Reply::Unread => Some(Err("failed to read lookup response body".to_owned())),
        Reply::Answer { status: _, text } => match parse_lookup_items(text.as_str()) {
            Ok(items) => Some(Ok(items)),
            Err(_) => None,
        },
    }
}

/// The items that the reply to the form lists.
pub fn read_lookup_form_reply(reply: &Reply) -> (r: Result<Vec<LookupItem>, String>)
    ensures
        text::outcome(r) == lookup_form_reply(reply.deep_view()),
{
    match reply {
        Reply::Unsent => Err("lookup request failed".to_owned()),
        Reply::Unread => Err("failed to read lookup response body".to_owned()),
        Reply::Answer { status: _, text } => parse_lookup_items(text.as_str()),
    }
}

/// A lookup as a form.
pub open spec fn lookup_form(url: Seq<char>, query: Seq<char>) -> RequestView {
    RequestView::Post { url, fields: seq![("q"@, query)] }
}

/// A lookup as a form.
pub fn lookup_as_form(url: String, query: String) -> (r: Request)
    ensures
        r.deep_view() == lookup_form(url@, query@),
{
    let ghost asked = query@;
    let mut fields: Vec<(String, String)> = Vec::new();
    fields.push(("q".to_owned(), query));
    assert(fields.deep_view() =~= seq![("q"@, asked)]);
    Request::Post { url, fields }
}

/// The page that the user names is taken, whatever was found; where none is named, the first of
/// those that were found is taken, and there must be one.
pub proof fn law_named_page_first(
    admin_page_url: Seq<char>,
    candidates: Seq<Seq<char>>,
    insert_form_url_override: Seq<char>,
)
    ensures
        !text::blank(insert_form_url_override) ==> match insert_page(
            admin_page_url,
            candidates,
            insert_form_url_override,
        ) {
            Ok(page) => links::absolute(admin_page_url, insert_form_url_override) == Ok::<
                Seq<char>,
                Seq<char>,
            >(page.insert_form_url),
            Err(message) => links::absolute(admin_page_url, insert_form_url_override) == Err::<
                Seq<char>,
                Seq<char>,
            >(message),
        },
        text::blank(insert_form_url_override) ==> match insert_page(
            admin_page_url,
            candidates,
            insert_form_url_override,
        ) {
            Ok(page) => candidates.len() > 0 && page.insert_form_url == candidates[0],
            Err(message) => candidates.len() == 0 && message == no_insert_page(),
        },
{
    text::lemma_trimmed_twice(insert_form_url_override);
}

/// A reply that reports an error is a refusal: it neither signs in nor asks for a code, and it
/// sends none. The message is the one of the site.
pub proof fn law_refusal(body: JsonView)
    requires
        json::counts(json::member(body, "error"@)),
    ensures
        login_result(body) == Err::<LoginOutcomeView, Seq<char>>(json::primary_error(body)),
        resend_result(body) == Err::<Seq<char>, Seq<char>>(json::primary_error(body)),
{
}

/// What is sent to book hours.
pub open spec fn submit_request(
    form: InsertFormView,
    submission: BookingSubmissionView,
    force: bool,
) -> Result<RequestView, Seq<char>> {
    match booking::sent_fields(form, submission, force) {
        Err(message) => Err(message),
        Ok(sent) => Ok(RequestView::Post { url: form.action_url, fields: fields::listed(sent) }),
    }
}

impl LibemaxApi {
    /// What is sent to book hours with a form that was just read.
    pub fn submit_booking(
        &self,
        insert_form: &InsertForm,
        submission: &BookingSubmission,
        force: bool,
    ) -> (r: Result<Request, String>)
        ensures
            text::outcome(r) == submit_request(
                insert_form.deep_view(),
                submission.deep_view(),
                force,
            ),
    {
        match booking_fields(insert_form, submission, force) {
            Err(message) => Err(message),
            Ok(fields) => Ok(
                Request::Post { url: insert_form.action_url.clone(), fields: fields.to_vec() },
            ),
        }
    }
}

/// What became of a booking, from the reply to sending it.
pub open spec fn booking_reply(reply: ReplyView, force: bool) -> Result<
    SubmitOutcomeView,
    Seq<char>,
> {
    match json_reply(reply, "booking submit request failed"@) {
        Err(message) => Err(message),
        Ok(body) => booking::submit_reply(body, force),
    }
}

/// What became of a booking, from the reply to sending it.
pub fn read_booking_reply(reply: &Reply, force: bool) -> (r: Result<SubmitOutcome, String>)
    ensures
        text::outcome(r) == booking_reply(reply.deep_view(), force),
{
    match response_to_json(reply, "booking submit request failed") {
        Err(message) => Err(message),
        Ok(body) => read_submit_reply(&body, force),
    }
}

/// The request that signs in goes to the page for it. It holds the user name, trimmed, and the
/// password as it is; it holds the code, trimmed, exactly where one is given that is not blank,
/// whatever is to be remembered; it holds that the user is to be remembered exactly where that is
/// asked for, whatever the code is. Each of them stands in it once, and nothing else does.
pub proof fn law_login_request(
    api: LibemaxApiView,
    username: Seq<char>,
    password: Seq<char>,
    otp_code: Option<Seq<char>>,
    remember: bool,
    field: (Seq<char>, Seq<char>),
)
    ensures
        ({
            let request = login_request(api, username, password, otp_code, remember);
            let coded = otp_code is Some && !text::blank(otp_code->0);
            &&& match api.login_page() {
                Err(message) => request == Err::<RequestView, Seq<char>>(message),
                Ok(page) => request matches Ok(RequestView::Post { url, fields }) && {
                    &&& url == page
                    &&& fields.len() == 2 + (if coded { 1int } else { 0 }) + (if remember {
                        1int
                    } else {
                        0
                    })
                    &&& fields.contains(field) <==> {
                        ||| field == ("username"@, text::trimmed(username))
                        ||| field == ("password"@, password)
                        ||| remember && field == ("remember"@, "1"@)
                        ||| coded && field == (
                            "doppia_autenticazione_codice"@,
                            text::trimmed(otp_code->0),
                        )
                    }
                },
            }
        }),
{
    let fields = login_fields(username, password, otp_code, remember);
    let coded = otp_code is Some && !text::blank(otp_code->0);
    assert(fields[0] == ("username"@, text::trimmed(username)));
    assert(fields[1] == ("password"@, password));
    if remember {
        assert(fields[2] == ("remember"@, "1"@));
    }
    if coded {
        assert(fields.last() == (
            "doppia_autenticazione_codice"@,
            text::trimmed(otp_code->0),
        ));
    }
}

/// The pages of the site lie under the path of the application and its language. A page that has
/// no address is reported, each with its own message.
pub proof fn law_pages(api: LibemaxApiView)
    ensures
        ({
            let root = "/app-timbrature/"@ + api.language;
            let admin = links::joined_url(api.base_url, root + "/admin_timbratura"@);
            let login = links::joined_url(api.base_url, root + "/ajax/login.accedi"@);
            let mail = links::joined_url(
                api.base_url,
                root + "/ajax/login.invia_mail_autenticazione"@,
            );
            &&& api.admin_page() == match admin {
                Some(address) => Ok::<Seq<char>, Seq<char>>(address),
                None => Err("failed to build admin page URL"@),
            }
            &&& api.login_page() == match login {
                Some(address) => Ok::<Seq<char>, Seq<char>>(address),
                None => Err("failed to build login API URL"@),
            }
            &&& api.mail_code_page() == match mail {
                Some(address) => Ok::<Seq<char>, Seq<char>>(address),
                None => Err("failed to build mail code API URL"@),
            }
        }),
{
}

/// A site is known by the address that its text is, in normal form, and by its language, trimmed;
/// a text that is no address is refused.
pub proof fn law_site_at(base_url: Seq<char>, language: Seq<char>)
    ensures
        links::parsed_url(base_url) is None ==> site_at(base_url, language) == Err::<
            LibemaxApiView,
            Seq<char>,
        >("invalid base URL"@),
        links::parsed_url(base_url) is Some ==> site_at(base_url, language) is Ok,
        site_at(base_url, language) matches Ok(api) ==> Some(api.base_url) == links::parsed_url(
            base_url,
        ) && api.language == text::trimmed(language),
{
}

/// An address is followed from the admin page, which must have one.
pub proof fn law_followed(api: LibemaxApiView, url: Seq<char>, address: Seq<char>)
    ensures
        api.followed(url) == Ok::<Seq<char>, Seq<char>>(address) <==> api.admin_page() is Ok
            && links::absolute(api.admin_page()->Ok_0, url) == Ok::<Seq<char>, Seq<char>>(address),
        api.admin_page() is Err ==> api.followed(url) == api.admin_page(),
        api.admin_page() is Ok ==> api.followed(url) == links::absolute(
            api.admin_page()->Ok_0,
            url,
        ),
{
}

/// A reply holds a document exactly where its text is JSON. Otherwise the message says whether the
/// request was made, whether the reply could be read, and else what the reply was.
pub proof fn law_json_reply(
    unsent: Seq<char>,
    status: Seq<char>,
    text: Seq<char>,
    body: JsonView,
)
    ensures
        json_reply(ReplyView::Unsent, unsent) == Err::<JsonView, Seq<char>>(unsent),
        json_reply(ReplyView::Unread, unsent) == Err::<JsonView, Seq<char>>(
            "failed to read JSON response body"@,
        ),
        json_reply(ReplyView::Answer { status, text }, unsent) == Ok::<JsonView, Seq<char>>(body)
            <==> json::parsed_json(text) == Some(body),
        json::parsed_json(text) is None ==> json_reply(ReplyView::Answer { status, text }, unsent)
            == Err::<JsonView, Seq<char>>(
            "unexpected server response with status "@ + status + ": "@ + text::trimmed(text),
        ),
{
}

/// A reply that reports no error signs in unless it asks for something first. Where that is the
/// code from a mail, the user is asked for it, with the address and the user that the reply names.
/// Where it is another password, signing in fails.
pub proof fn law_login_reply(body: JsonView)
    requires
        !json::counts(json::member(body, "error"@)),
    ensures
        ({
            let asked = json::member(body, "action_required"@);
            let mail = asked == Some(JsonView::Text("mail_authentication"@));
            let password = asked == Some(JsonView::Text("change_password"@));
            let email = lookup::as_written(json::member(body, "email"@));
            let user_id = lookup::as_written(json::member(body, "utente_id"@));
            let outcome = login_result(body);
            &&& mail <==> (outcome matches Ok(LoginOutcomeView::NeedsMailAuthentication(_)))
            &&& !mail && !password <==> (outcome matches Ok(LoginOutcomeView::Authenticated))
            &&& password <==> outcome is Err
            &&& password ==> outcome->Err_0
                == "Libemax richiede il cambio password: fai il cambio dal sito una volta, poi usa l'app"@
            &&& mail && email is Some ==> outcome->Ok_0->NeedsMailAuthentication_0.email
                == email->0
            &&& mail && email is None ==> outcome->Ok_0->NeedsMailAuthentication_0.email
                == "indirizzo email non disponibile"@
            &&& mail && user_id is Some ==> outcome->Ok_0->NeedsMailAuthentication_0.user_id
                == user_id->0
            &&& mail && user_id is None
                ==> outcome->Ok_0->NeedsMailAuthentication_0.user_id.len() == 0
        }),
{
    reveal_strlit("mail_authentication");
    reveal_strlit("change_password");
    assert("mail_authentication"@.len() != "change_password"@.len());
}

/// Another code is asked for at the page for it, with the user and nothing else. The reply hands
/// on the message of the site unless it reports an error.
pub proof fn law_resend(api: LibemaxApiView, user_id: Seq<char>, body: JsonView)
    ensures
        match api.mail_code_page() {
            Err(message) => resend_request(api, user_id) == Err::<RequestView, Seq<char>>(message),
            Ok(page) => resend_request(api, user_id) matches Ok(
                RequestView::Post { url, fields },
            ) && url == page && fields.len() == 1 && fields[0] == (
                "utente_id"@,
                text::trimmed(user_id),
            ),
        },
        resend_result(body) is Err <==> json::counts(json::member(body, "error"@)),
        resend_result(body) is Ok ==> resend_result(body)->Ok_0 == match json::member(
            body,
            "confirm"@,
        ) {
            Some(JsonView::Text(message)) => message,
            _ => "Nuovo codice inviato"@,
        },
{
}

/// A reply holds a page exactly where there is a reply that can be read and that does not ask to
/// sign in by one of two marks; the page is the text of the reply, as it is.
pub proof fn law_page_reply(url: Seq<char>, status: Seq<char>, text: Seq<char>)
    ensures
        ({
            let marked = text::holds(text, "id=\"login_libemax\""@) || text::holds(
                text,
                "class=\"form-login\""@,
            );
            let answered = page_reply(url, ReplyView::Answer { status, text });
            &&& page_reply(url, ReplyView::Unsent) == Err::<Seq<char>, Seq<char>>(
                "request failed for "@ + url,
            )
            &&& page_reply(url, ReplyView::Unread) == Err::<Seq<char>, Seq<char>>(
                "failed to read HTML body from "@ + url,
            )
            &&& marked ==> answered == Err::<Seq<char>, Seq<char>>(
                "Sessione non autenticata o scaduta: effettua di nuovo il login"@,
            )
            &&& !marked ==> answered == Ok::<Seq<char>, Seq<char>>(text)
        }),
{
}

/// The page that takes bookings is kept with the page on which it was looked for and with all the
/// pages that were found, in their order, whichever of them is taken. The message where there is
/// none asks the user to name one.
pub proof fn law_insert_page_kept_with_candidates(
    admin_page_url: Seq<char>,
    candidates: Seq<Seq<char>>,
    insert_form_url_override: Seq<char>,
)
    ensures
        insert_page(admin_page_url, candidates, insert_form_url_override) matches Ok(page) ==> {
            &&& page.admin_page_url == admin_page_url
            &&& page.candidate_insert_urls == candidates
        },
        text::blank(insert_form_url_override) && candidates.len() == 0 ==> insert_page(
            admin_page_url,
            candidates,
            insert_form_url_override,
        ) == Err::<InsertPageView, Seq<char>>(
            "Non sono riuscito a trovare automaticamente la pagina di inserimento ore. Incolla l'URL manuale nel campo 'Insert form URL'."@,
        ),
{
}

/// The pages among which the one that takes bookings is looked for are those that the links and
/// the text of the admin page lead to; where these cannot be followed, there is none.
pub proof fn law_insert_page_in(
    html: Seq<char>,
    admin_page_url: Seq<char>,
    insert_form_url_override: Seq<char>,
)
    ensures
        match discovery::insert_candidates(
            markup::links_of(html),
            markup::captured(
                r#"(?P<url>/app-timbrature/[^"'\s>]*(?:admin_timbratura|timbratura)[^"'\s>]*(?:inserisci|aggiungi|nuov|crea)[^"'\s>]*)"#@,
                "url"@,
                html,
            ),
            admin_page_url,
        ) {
            Err(message) => insert_page_in(html, admin_page_url, insert_form_url_override)
                == Err::<InsertPageView, Seq<char>>(message),
            Ok(candidates) => insert_page_in(html, admin_page_url, insert_form_url_override)
                == insert_page(admin_page_url, candidates, insert_form_url_override),
        },
{
}

/// A lookup is asked at its address, followed from the admin page, for the text that is looked
/// for, trimmed. As a form the same text goes to the address, and nothing else.
pub proof fn law_lookup_request(
    api: LibemaxApiView,
    endpoint: Seq<char>,
    query: Seq<char>,
    address: Seq<char>,
)
    ensures
        match api.followed(endpoint) {
            Err(message) => lookup_request(api, endpoint, query) == Err::<RequestView, Seq<char>>(
                message,
            ),
            Ok(at) => lookup_request(api, endpoint, query) matches Ok(
                RequestView::Query { url, query: asked },
            ) && url == at && asked == text::trimmed(query),
        },
        lookup_form(address, query) matches RequestView::Post { url, fields } && url == address
            && fields.len() == 1 && fields[0] == ("q"@, query),
{
}

/// Every place of work is asked for at the address of the lookup for clients, whatever the other
/// lookups are, with nothing to look for; a form without that lookup is refused.
pub proof fn law_clients_request(api: LibemaxApiView, form: InsertFormView)
    ensures
        form.lookup_endpoints.client is None ==> clients_request(api, form) == Err::<
            RequestView,
            Seq<char>,
        >("L'endpoint dei luoghi di lavoro non e' stato trovato"@),
        form.lookup_endpoints.client is Some ==> match api.followed(
            form.lookup_endpoints.client->0,
        ) {
            Err(message) => clients_request(api, form) == Err::<RequestView, Seq<char>>(message),
            Ok(at) => clients_request(api, form) matches Ok(RequestView::Query { url, query })
                && url == at && query.len() == 0,
        },
{
    text::lemma_trimmed_kept(Seq::empty());
}

/// A lookup is asked for again as a form exactly where the request could not be made or the reply
/// is no JSON. Where the reply is JSON, either way of asking lists the same items.
pub proof fn law_lookup_replies(status: Seq<char>, text: Seq<char>, items: Seq<LookupItemView>)
    ensures
        ({
            let answer = ReplyView::Answer { status, text };
            let unread = "failed to read lookup response body"@;
            &&& query_reply(ReplyView::Unsent) is None
            &&& query_reply(ReplyView::Unread) == Some(
                Err::<Seq<LookupItemView>, Seq<char>>(unread),
            )
            &&& query_reply(answer) is None <==> json::parsed_json(text) is None
            &&& query_reply(answer) == Some(Ok::<Seq<LookupItemView>, Seq<char>>(items))
                <==> lookup_form_reply(answer) == Ok::<Seq<LookupItemView>, Seq<char>>(items)
            &&& lookup_form_reply(ReplyView::Unsent) == Err::<Seq<LookupItemView>, Seq<char>>(
                "lookup request failed"@,
            )
            &&& lookup_form_reply(ReplyView::Unread) == Err::<Seq<LookupItemView>, Seq<char>>(
                unread,
            )
            &&& lookup_form_reply(answer) is Err <==> json::parsed_json(text) is None
            &&& lookup_form_reply(answer) == lookup::items_read(text)
        }),
{
}

/// A booking is sent to the action of its form, with each field of the booking once, in the order
/// of the names, and nothing else.
pub proof fn law_booking_request(
    form: InsertFormView,
    submission: BookingSubmissionView,
    force: bool,
    name: Seq<char>,
    value: Seq<char>,
)
    requires
        booking::sent_fields(form, submission, force) matches Ok(sent) ==> sent.dom().finite(),
    ensures
        match booking::sent_fields(form, submission, force) {
            Err(message) => submit_request(form, submission, force) == Err::<
                RequestView,
                Seq<char>,
            >(message),
            Ok(sent) => submit_request(form, submission, force) matches Ok(
                RequestView::Post { url, fields },
            ) && {
                &&& url == form.action_url
                &&& fields.len() == sent.dom().len()
                &&& fields.contains((name, value)) <==> sent.contains_key(name) && sent[name]
                    == value
            },
        },
{
    if let Ok(sent) = booking::sent_fields(form, submission, force) {
        fields::law_listed(sent, name, value);
    }
}

/// What became of a booking is what the document in the reply says; where the reply holds none,
/// the booking failed, and the message says why.
pub proof fn law_booking_reply(reply: ReplyView, force: bool)
    ensures
        reply is Unsent ==> booking_reply(reply, force) == Err::<SubmitOutcomeView, Seq<char>>(
            "booking submit request failed"@,
        ),
        match json_reply(reply, "booking submit request failed"@) {
            Err(message) => booking_reply(reply, force) == Err::<SubmitOutcomeView, Seq<char>>(
                message,
            ),
            Ok(body) => booking_reply(reply, force) == booking::submit_reply(body, force),
        },
{
}

/// The form that takes bookings is the one on the page that the reply holds, read as a form of the
/// address that was asked for.
pub proof fn law_form_reply(url: Seq<char>, reply: ReplyView)
    ensures
        match page_reply(url, reply) {
            Err(message) => form_reply(url, reply) == Err::<InsertFormView, Seq<char>>(message),
            Ok(html) => form_reply(url, reply) == form::insert_form(markup::forms_of(html), url),
        },
        form_reply(url, reply) matches Ok(form) ==> form.page_url == url,
{
}

} // verus!
