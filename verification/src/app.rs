//! The helper: what it shows, and what each action of the user and each finished job changes.

use crate::booking;
use crate::booking::{
    BatchBookingDraft, BatchBookingDraftView, BatchBookingResult, BatchBookingResultView,
    BookingSubmission, DailyOverride, DailyOverrideView,
};
use crate::calendar;
use crate::calendar::{list_dates_inclusive, Date};
use crate::form::{DiscoveryBundle, DiscoveryBundleView};
use crate::job;
use crate::job::{
    is_signed_out, JobResult, JobResultView, LoginSuccess, LoginSuccessView, NextView, Purpose,
    RefreshDiscoverySuccessView, RestoreSessionSuccessView, StatusKind, SubmitBatchSuccessView,
    Task, TaskView, Work, WorkView,
};
use crate::libemax;
use crate::libemax::{
    LibemaxApi, LibemaxApiView, MailAuthenticationPrompt, MailAuthenticationPromptView, RequestView,
};
use crate::lookup::{LookupItem, LookupItemView};
use crate::storage::{SavedSettings, SavedSettingsView};
use crate::text;
use crate::text::{is_blank, same_text};
use vstd::prelude::*;
use vstd::string::{StrSliceExecFns, StringExecFns};

verus! {

/// A message to the user.
#[derive(Debug)]
pub struct StatusMessage {
    pub kind: StatusKind,
    pub text: String,
}

/// The content of `StatusMessage`.
#[verifier::ext_equal]
pub struct StatusMessageView {
    pub kind: StatusKind,
    pub text: Seq<char>,
}

impl DeepView for StatusMessage {
    type V = StatusMessageView;

    open spec fn deep_view(&self) -> StatusMessageView {
        StatusMessageView {
            kind: self.kind,
            text: self.text@,
        }
    }
}

/// The helper. It is busy while it has a message about a job that runs.
pub struct LibeminApp {
    pub settings: SavedSettings,
    pub password: String,
    pub otp_code: String,
    pub remember_me: bool,
    pub session_active: bool,
    pub api: Option<LibemaxApi>,
    pub pending_mail_authentication: Option<MailAuthenticationPrompt>,
    pub discovery: Option<DiscoveryBundle>,
    pub batch_booking: BatchBookingDraft,
    pub workplace_options: Vec<LookupItem>,
    pub batch_results: Vec<BatchBookingResult>,
    pub status: StatusMessage,
    pub busy_message: Option<String>,
}

/// The content of `LibeminApp`.
#[verifier::ext_equal]
pub struct LibeminAppView {
    pub settings: SavedSettingsView,
    pub password: Seq<char>,
    pub otp_code: Seq<char>,
    pub remember_me: bool,
    pub session_active: bool,
    pub api: Option<LibemaxApiView>,
    pub pending_mail_authentication: Option<MailAuthenticationPromptView>,
    pub discovery: Option<DiscoveryBundleView>,
    pub batch_booking: BatchBookingDraftView,
    pub workplace_options: Seq<LookupItemView>,
    pub batch_results: Seq<BatchBookingResultView>,
    pub status: StatusMessageView,
    pub busy_message: Option<Seq<char>>,
}

impl DeepView for LibeminApp {
    type V = LibeminAppView;

    open spec fn deep_view(&self) -> LibeminAppView {
        LibeminAppView {
            settings: self.settings.deep_view(),
            password: self.password@,
            otp_code: self.otp_code@,
            remember_me: self.remember_me,
            session_active: self.session_active,
            api: self.api.deep_view(),
            pending_mail_authentication: self.pending_mail_authentication.deep_view(),
            discovery: self.discovery.deep_view(),
            batch_booking: self.batch_booking.deep_view(),
            workplace_options: self.workplace_options.deep_view(),
            batch_results: self.batch_results.deep_view(),
            status: self.status.deep_view(),
            busy_message: self.busy_message.deep_view(),
        }
    }
}

/// What the helper asks for besides what it shows.
#[derive(Debug, Clone, Copy, PartialEq, Eq, Structural)]
pub struct Effects {
    pub save_settings: bool,
    pub forget_session: bool,
}

/// The color in which a message is shown: its red, green and blue.
pub open spec fn color_of(kind: StatusKind) -> (u8, u8, u8) {
    match kind {
        StatusKind::Info => (90, 140, 255),
        StatusKind::Success => (60, 170, 110),
        StatusKind::Error => (220, 80, 80),
        StatusKind::Warning => (220, 160, 60),
    }
}

/// The color in which a message is shown: its red, green and blue.
pub fn status_color(kind: StatusKind) -> (r: (u8, u8, u8))
    ensures
        r == color_of(kind),
{
    match kind {
        StatusKind::Info => (90, 140, 255),
        StatusKind::Success => (60, 170, 110),
        StatusKind::Error => (220, 80, 80),
        StatusKind::Warning => (220, 160, 60),
    }
}

/// A text that is cut to `max_chars` characters, the last of which then stands for the rest.
pub open spec fn compacted(label: Seq<char>, max_chars: nat) -> Seq<char> {
    let whole = text::trimmed(label);
    if whole.len() <= max_chars {
        whole
    } else {
        whole.take(if max_chars > 0 { max_chars - 1 } else { 0 }) + "…"@
    }
}

/// A text that is cut to `max_chars` characters, the last of which then stands for the rest.
pub fn compact_combo_label(label: &str, max_chars: usize) -> (r: String)
    ensures
        r@ == compacted(label@, max_chars as nat),
{
    let trimmed = label.trim();
    if trimmed.unicode_len() <= max_chars {
        return trimmed.to_owned();
    }
    let kept: usize = if max_chars > 0 { max_chars - 1 } else { 0 };
    let shortened = trimmed.substring_char(0, kept);
    assert(shortened@ =~= trimmed@.take(kept as int));
    shortened.to_owned().concat("…")
}

impl LibeminAppView {
    /// Whether a job runs.
    pub open spec fn busy(self) -> bool {
        self.busy_message is Some
    }

    /// Whether the user is signed in.
    pub open spec fn logged_in(self) -> bool {
        self.session_active && self.pending_mail_authentication is None
    }

    /// The helper with another message.
    pub open spec fn with_status(self, kind: StatusKind, text: Seq<char>) -> LibeminAppView {
        LibeminAppView { status: StatusMessageView { kind, text }, ..self }
    }

    /// The helper once a job has begun, if none runs.
    pub open spec fn with_job(self, busy_message: Seq<char>) -> LibeminAppView {
        if self.busy() {
            self
        } else {
            LibeminAppView { busy_message: Some(busy_message), ..self }
        }
    }

    /// A job of the helper at the site of the settings, if none runs.
    pub open spec fn task(self, work: WorkView) -> Option<TaskView> {
        if self.busy() {
            None
        } else {
            Some(
                TaskView {
                    base_url: self.settings.base_url,
                    language: self.settings.language,
                    work,
                },
            )
        }
    }

    /// The job that looks for the form again, where a site was signed in to and no job runs.
    pub open spec fn refresh_task(self) -> Option<TaskView> {
        if self.api is None {
            None
        } else {
            self.task(
                WorkView::RefreshDiscovery {
                    insert_form_url_override: self.settings.insert_form_url_override,
                },
            )
        }
    }

    /// The job that signs in.
    pub open spec fn login_task(self) -> Option<TaskView> {
        self.task(
            WorkView::Login {
                username: self.settings.username,
                password: self.password,
                remember: self.remember_me,
                insert_form_url_override: self.settings.insert_form_url_override,
            },
        )
    }

    /// The job that signs in with the code that was sent by mail, where a site is known.
    pub open spec fn verify_task(self) -> Option<TaskView> {
        if self.api is None {
            None
        } else {
            self.task(
                WorkView::VerifyMailCode {
                    username: self.settings.username,
                    password: self.password,
                    otp_code: self.otp_code,
                    remember: self.remember_me,
                    insert_form_url_override: self.settings.insert_form_url_override,
                },
            )
        }
    }

    /// The job that asks for another code, where a site is known and a code is waited for.
    pub open spec fn resend_task(self) -> Option<TaskView> {
        match self.pending_mail_authentication {
            Some(prompt) if self.api is Some => self.task(
                WorkView::ResendMailCode { user_id: prompt.user_id },
            ),
            _ => None,
        }
    }

    /// The job that goes on with an earlier session, where a user is known and cookies were
    /// stored.
    pub open spec fn restore_task(self, has_cookie_store: bool) -> Option<TaskView> {
        if text::blank(self.settings.username) || !has_cookie_store {
            None
        } else {
            self.task(
                WorkView::RestoreSession {
                    insert_form_url_override: self.settings.insert_form_url_override,
                },
            )
        }
    }

    /// The helper with other places of work to choose from: the first is chosen where none was.
    pub open spec fn with_workplaces(self, workplaces: Seq<LookupItemView>) -> LibeminAppView {
        LibeminAppView {
            workplace_options: workplaces,
            batch_booking: BatchBookingDraftView {
                selected_workplace: if self.batch_booking.selected_workplace is None
                    && workplaces.len() > 0 {
                    Some(workplaces[0])
                } else {
                    self.batch_booking.selected_workplace
                },
                ..self.batch_booking
            },
            ..self
        }
    }

    /// The helper after signing in, which may still want a code.
    pub open spec fn with_login(self, success: LoginSuccessView) -> LibeminAppView {
        LibeminAppView {
            session_active: success.pending_mail_authentication is None,
            api: Some(success.api),
            pending_mail_authentication: success.pending_mail_authentication,
            discovery: success.discovery,
            otp_code: if success.clear_otp { Seq::empty() } else { self.otp_code },
            ..self
        }.with_workplaces(success.workplaces).with_status(
            success.status_kind,
            success.status_text,
        )
    }

    /// The helper without a session: nothing of it is left, nor a password or a code.
    pub open spec fn signed_out(self) -> LibeminAppView {
        LibeminAppView {
            session_active: false,
            api: None,
            pending_mail_authentication: None,
            discovery: None,
            workplace_options: Seq::empty(),
            batch_results: Seq::empty(),
            password: Seq::empty(),
            otp_code: Seq::empty(),
            ..self
        }.with_status(StatusKind::Info, "Sessione rimossa"@)
    }

    /// The helper once the site has ended the session.
    pub open spec fn expired(self) -> LibeminAppView {
        self.signed_out().with_status(
            StatusKind::Warning,
            "La sessione Libemax e' scaduta, effettua di nuovo il login"@,
        )
    }

    /// The helper after a job.
    pub open spec fn with_result(self, result: JobResultView) -> LibeminAppView {
        match result {
            JobResultView::Login(Ok(success)) => self.with_login(success),
            JobResultView::VerifyMailCode(Ok(success)) => self.with_login(success),
            JobResultView::Login(Err(error)) => LibeminAppView {
                session_active: false,
                ..self
            }.with_status(StatusKind::Error, error),
            JobResultView::VerifyMailCode(Err(error)) => LibeminAppView {
                session_active: false,
                ..self
            }.with_status(StatusKind::Error, error),
            JobResultView::ResendMailCode(Ok(message)) => self.with_status(
                StatusKind::Success,
                message,
            ),
            JobResultView::ResendMailCode(Err(error)) => self.with_status(
                StatusKind::Error,
                error,
            ),
            JobResultView::RefreshDiscovery(Ok(success)) => LibeminAppView {
                discovery: Some(success.discovery),
                session_active: true,
                ..self
            }.with_workplaces(success.workplaces).with_status(
                success.status_kind,
                success.status_text,
            ),
            JobResultView::RefreshDiscovery(Err(error)) => if job::says_signed_out(error) {
                self.expired()
            } else {
                self.with_status(StatusKind::Error, error)
            },
            JobResultView::RestoreSession(Ok(success)) => match success.discovery {
                Some(discovery) => LibeminAppView {
                    session_active: true,
                    api: Some(success.api),
                    discovery: Some(discovery),
                    ..self
                }.with_workplaces(success.workplaces).with_status(
                    success.status_kind,
                    success.status_text,
                ),
                None => LibeminAppView { api: Some(success.api), ..self }.with_status(
                    success.status_kind,
                    success.status_text,
                ),
            },
            JobResultView::RestoreSession(Err(error)) => self.with_status(
                StatusKind::Warning,
                error,
            ),
            JobResultView::SubmitBatch(Ok(success)) => LibeminAppView {
                batch_results: success.results,
                ..self
            }.with_status(success.status_kind, success.status_text),
            JobResultView::SubmitBatch(Err(error)) => self.with_status(StatusKind::Error, error),
        }
    }
}

/// What a job asks for besides what is shown.
pub open spec fn effects_of(result: JobResultView) -> Effects {
    Effects {
        save_settings: match result {
            JobResultView::Login(outcome) => outcome is Ok,
            JobResultView::VerifyMailCode(outcome) => outcome is Ok,
            JobResultView::RefreshDiscovery(outcome) => outcome is Ok,
            _ => false,
        },
        forget_session: result matches JobResultView::RefreshDiscovery(Err(error))
            && job::says_signed_out(error),
    }
}

impl LibeminApp {
    /// The helper as it starts.
    pub fn new(settings: SavedSettings, today: Date) -> (r: LibeminApp)
        requires
            today.valid(),
        ensures
            r.settings == settings,
            r.password@ == Seq::<char>::empty(),
            r.otp_code@ == Seq::<char>::empty(),
            r.remember_me,
            !r.session_active,
            r.api is None,
            r.pending_mail_authentication is None,
            r.discovery is None,
            r.batch_booking.deep_view() == booking::eight_hours(
                BatchBookingDraftView {
                    range_start: calendar::date_text(today),
                    range_end: calendar::date_text(today),
                    selected_workplace: None,
                    day_overrides: Seq::empty(),
                    ..r.batch_booking.deep_view()
                },
            ),
            r.workplace_options@.len() == 0,
            r.batch_results@.len() == 0,
            r.status.deep_view() == (StatusMessageView {
                kind: StatusKind::Info,
                text: Seq::empty(),
            }),
            r.busy_message is None,
    {
        let batch_booking = BatchBookingDraft::with_today(today);
        assert(batch_booking.day_overrides.deep_view() =~= Seq::empty());
        LibeminApp {
            settings,
            password: String::new(),
            otp_code: String::new(),
            remember_me: true,
            session_active: false,
            api: None,
            pending_mail_authentication: None,
            discovery: None,
            batch_booking,
            workplace_options: Vec::new(),
            batch_results: Vec::new(),
            status: StatusMessage { kind: StatusKind::Info, text: String::new() },
            busy_message: None,
        }
    }

    /// Whether a job runs.
    pub fn is_busy(&self) -> (r: bool)
        ensures
            r == self.deep_view().busy(),
    {
        self.busy_message.is_some()
    }

    /// Whether the user is signed in.
    pub fn is_logged_in(&self) -> (r: bool)
        ensures
            r == self.deep_view().logged_in(),
    {
        self.session_active && self.pending_mail_authentication.is_none()
    }

    /// Shows another message.
    pub fn set_status(&mut self, kind: StatusKind, text: &str)
        ensures
            final(self).deep_view() == old(self).deep_view().with_status(kind, text@),
    {
        self.status = StatusMessage { kind, text: text.to_owned() };
    }

    fn start_job(&mut self, busy_message: &str, work: Work) -> (r: Option<Task>)
        ensures
            final(self).deep_view() == old(self).deep_view().with_job(busy_message@),
            r.deep_view() == old(self).deep_view().task(work.deep_view()),
    {
        if self.is_busy() {
            return None;
        }
        self.busy_message = Some(busy_message.to_owned());
        Some(
            Task {
                base_url: self.settings.base_url.clone(),
                language: self.settings.language.clone(),
                work,
            },
        )
    }

    fn set_workplaces(&mut self, workplaces: Vec<LookupItem>)
        ensures
            final(self).deep_view() == old(self).deep_view().with_workplaces(
                workplaces.deep_view(),
            ),
    {
        assert(workplaces.deep_view().len() == workplaces@.len());
        if self.batch_booking.selected_workplace.is_none() && workplaces.len() > 0 {
            self.batch_booking.selected_workplace = Some(workplaces[0].clone());
        }
        self.workplace_options = workplaces;
    }

    fn apply_login(&mut self, success: LoginSuccess)
        ensures
            final(self).deep_view() == old(self).deep_view().with_login(success.deep_view()),
    {
        self.session_active = success.pending_mail_authentication.is_none();
        self.api = Some(success.api);
        self.pending_mail_authentication = success.pending_mail_authentication;
        self.discovery = success.discovery;
        if success.clear_otp {
            self.otp_code = String::new();
        }
        self.set_workplaces(success.workplaces);
        self.set_status(success.status_kind, success.status_text.as_str());
    }

    /// Takes up what a job has led to.
    pub fn apply_job_result(&mut self, result: JobResult) -> (r: Effects)
        ensures
            final(self).deep_view() == old(self).deep_view().with_result(result.deep_view()),
            r == effects_of(result.deep_view()),
    {
        match result {
            JobResult::Login(Ok(success)) => {
                self.apply_login(success);
                Effects { save_settings: true, forget_session: false }
            },
            JobResult::VerifyMailCode(Ok(success)) => {
                self.apply_login(success);
                Effects { save_settings: true, forget_session: false }
            },
            JobResult::Login(Err(error)) => {
                self.session_active = false;
                self.set_status(StatusKind::Error, error.as_str());
                Effects { save_settings: false, forget_session: false }
            },
            JobResult::VerifyMailCode(Err(error)) => {
                self.session_active = false;
                self.set_status(StatusKind::Error, error.as_str());
                Effects { save_settings: false, forget_session: false }
            },
            JobResult::ResendMailCode(Ok(message)) => {
                self.set_status(StatusKind::Success, message.as_str());
                Effects { save_settings: false, forget_session: false }
            },
            JobResult::ResendMailCode(Err(error)) => {
                self.set_status(StatusKind::Error, error.as_str());
                Effects { save_settings: false, forget_session: false }
            },
            JobResult::RefreshDiscovery(Ok(success)) => {
                self.discovery = Some(success.discovery);
                self.session_active = true;
                self.set_workplaces(success.workplaces);
                self.set_status(success.status_kind, success.status_text.as_str());
                Effects { save_settings: true, forget_session: false }
            },
            JobResult::RefreshDiscovery(Err(error)) => {
                if is_signed_out(error.as_str()) {
                    self.session_expired()
                } else {
                    self.set_status(StatusKind::Error, error.as_str());
                    Effects { save_settings: false, forget_session: false }
                }
            },
            JobResult::RestoreSession(Ok(success)) => {
                self.api = Some(success.api);
                if let Some(discovery) = success.discovery {
                    self.session_active = true;
                    self.discovery = Some(discovery);
                    self.set_workplaces(success.workplaces);
                }
                self.set_status(success.status_kind, success.status_text.as_str());
                Effects { save_settings: false, forget_session: false }
            },
            JobResult::RestoreSession(Err(error)) => {
                self.set_status(StatusKind::Warning, error.as_str());
                Effects { save_settings: false, forget_session: false }
            },
            JobResult::SubmitBatch(Ok(success)) => {
                self.batch_results = success.results;
                self.set_status(success.status_kind, success.status_text.as_str());
                Effects { save_settings: false, forget_session: false }
            },
            JobResult::SubmitBatch(Err(error)) => {
                self.set_status(StatusKind::Error, error.as_str());
                Effects { save_settings: false, forget_session: false }
            },
        }
    }

    /// Takes up the end of the job that runs.
    pub fn finish_job(&mut self, result: JobResult) -> (r: Effects)
        ensures
            final(self).deep_view() == (LibeminAppView {
                busy_message: None,
                ..old(self).deep_view()
            }).with_result(result.deep_view()),
            r == effects_of(result.deep_view()),
    {
        self.busy_message = None;
        self.apply_job_result(result)
    }

    /// Gives up the job that runs, which will never end.
    pub fn lose_job(&mut self)
        ensures
            final(self).deep_view() == (LibeminAppView {
                busy_message: None,
                ..old(self).deep_view()
            }).with_status(StatusKind::Error, "Operazione interrotta inaspettatamente"@),
    {
        self.busy_message = None;
        self.set_status(StatusKind::Error, "Operazione interrotta inaspettatamente");
    }

    /// Signs in.
    pub fn login(&mut self) -> (r: Option<Task>)
        ensures
            final(self).deep_view() == old(self).deep_view().with_job("Login in corso..."@),
            r.deep_view() == old(self).deep_view().login_task(),
            r.deep_view() == old(self).deep_view().task(
                WorkView::Login {
                    username: old(self).settings.username@,
                    password: old(self).password@,
                    remember: old(self).remember_me,
                    insert_form_url_override: old(self).settings.insert_form_url_override@,
                },
            ),
    {
        let work = Work::Login {
            username: self.settings.username.clone(),
            password: self.password.clone(),
            remember: self.remember_me,
            insert_form_url_override: self.settings.insert_form_url_override.clone(),
        };
        self.start_job("Login in corso...", work)
    }

    /// Signs in with the code that was sent by mail.
    pub fn verify_mail_code(&mut self) -> (r: Option<Task>)
        ensures
            final(self).deep_view() == (if old(self).api is None {
                old(self).deep_view().with_status(StatusKind::Error, "Esegui prima il login"@)
            } else {
                old(self).deep_view().with_job("Verifica codice in corso..."@)
            }),
            r.deep_view() == old(self).deep_view().verify_task(),
            r.deep_view() == (if old(self).api is None {
                None
            } else {
                old(self).deep_view().task(
                    WorkView::VerifyMailCode {
                        username: old(self).settings.username@,
                        password: old(self).password@,
                        otp_code: old(self).otp_code@,
                        remember: old(self).remember_me,
                        insert_form_url_override: old(self).settings.insert_form_url_override@,
                    },
                )
            }),
    {
        if self.api.is_none() {
            self.set_status(StatusKind::Error, "Esegui prima il login");
            return None;
        }
        let work = Work::VerifyMailCode {
            username: self.settings.username.clone(),
            password: self.password.clone(),
            otp_code: self.otp_code.clone(),
            remember: self.remember_me,
            insert_form_url_override: self.settings.insert_form_url_override.clone(),
        };
        self.start_job("Verifica codice in corso...", work)
    }

    /// Asks for another code by mail.
    pub fn resend_mail_code(&mut self) -> (r: Option<Task>)
        ensures
            final(self).deep_view() == (if old(self).api is None {
                old(self).deep_view().with_status(StatusKind::Error, "Esegui prima il login"@)
            } else if old(self).pending_mail_authentication is None {
                old(self).deep_view().with_status(
                    StatusKind::Error,
                    "Non c'e' nessun codice da reinviare"@,
                )
            } else {
                old(self).deep_view().with_job("Invio nuovo codice..."@)
            }),
            r.deep_view() == old(self).deep_view().resend_task(),
            r.deep_view() == (if old(self).api is None
                || old(self).pending_mail_authentication is None {
                None
            } else {
                old(self).deep_view().task(
                    WorkView::ResendMailCode {
                        user_id: old(self).pending_mail_authentication->0.user_id@,
                    },
                )
            }),
    {
        if self.api.is_none() {
            self.set_status(StatusKind::Error, "Esegui prima il login");
            return None;
        }
        let user_id = match &self.pending_mail_authentication {
            Some(prompt) => prompt.user_id.clone(),
            None => {
                self.set_status(StatusKind::Error, "Non c'e' nessun codice da reinviare");
                return None;
            },
        };
        self.start_job("Invio nuovo codice...", Work::ResendMailCode { user_id })
    }

    /// Looks for the form again.
    pub fn refresh_discovery(&mut self) -> (r: Option<Task>)
        ensures
            final(self).deep_view() == (if old(self).api is None {
                old(self).deep_view().with_status(StatusKind::Error, "Esegui prima il login"@)
            } else {
                old(self).deep_view().with_job("Aggiornamento dati..."@)
            }),
            r.deep_view() == old(self).deep_view().refresh_task(),
    {
        if self.api.is_none() {
            self.set_status(StatusKind::Error, "Esegui prima il login");
            return None;
        }
        let insert_form_url_override = self.settings.insert_form_url_override.clone();
        self.start_job(
            "Aggiornamento dati...",
            Work::RefreshDiscovery { insert_form_url_override },
        )
    }

    /// Goes on with an earlier session, where a user is known and cookies were stored.
    pub fn restore_session(&mut self, has_cookie_store: bool) -> (r: Option<Task>)
        ensures
            final(self).deep_view() == (if text::blank(old(self).settings.username@)
                || !has_cookie_store {
                old(self).deep_view()
            } else {
                old(self).deep_view().with_job("Ripristino sessione..."@)
            }),
            r.deep_view() == old(self).deep_view().restore_task(has_cookie_store),
            r.deep_view() == (if text::blank(old(self).settings.username@) || !has_cookie_store {
                None
            } else {
                old(self).deep_view().task(
                    WorkView::RestoreSession {
                        insert_form_url_override: old(self).settings.insert_form_url_override@,
                    },
                )
            }),
    {
        if is_blank(self.settings.username.as_str()) || !has_cookie_store {
            return None;
        }
        let insert_form_url_override = self.settings.insert_form_url_override.clone();
        self.start_job(
            "Ripristino sessione...",
            Work::RestoreSession { insert_form_url_override },
        )
    }

    /// Ends the session, and has the stored one forgotten.
    pub fn logout(&mut self) -> (r: Effects)
        ensures
            final(self).deep_view() == old(self).deep_view().signed_out(),
            r == (Effects { save_settings: false, forget_session: true }),
    {
        self.session_active = false;
        self.api = None;
        self.pending_mail_authentication = None;
        self.discovery = None;
        self.workplace_options = Vec::new();
        self.batch_results = Vec::new();
        self.password = String::new();
        self.otp_code = String::new();
        assert(self.workplace_options.deep_view() =~= Seq::empty());
        assert(self.batch_results.deep_view() =~= Seq::empty());
        self.set_status(StatusKind::Info, "Sessione rimossa");
        Effects { save_settings: false, forget_session: true }
    }

    /// Ends a session that the site has ended, and has the stored one forgotten.
    pub fn session_expired(&mut self) -> (r: Effects)
        ensures
            final(self).deep_view() == old(self).deep_view().expired(),
            r == (Effects { save_settings: false, forget_session: true }),
    {
        let effects = self.logout();
        self.set_status(
            StatusKind::Warning,
            "La sessione Libemax e' scaduta, effettua di nuovo il login",
        );
        effects
    }
}

/// The place of work that bookings are for, if one is chosen.
pub open spec fn default_client(draft: BatchBookingDraftView) -> Seq<char> {
    match draft.selected_workplace {
        Some(item) => item.id,
        None => Seq::empty(),
    }
}

/// A day with the place of work and the hours that are chosen for all days.
pub open spec fn day_with_defaults(
    draft: BatchBookingDraftView,
    date: Seq<char>,
) -> DailyOverrideView {
    DailyOverrideView {
        date,
        enabled: false,
        client_id: default_client(draft),
        morning_start_time: draft.default_morning_start_time,
        morning_end_time: draft.default_morning_end_time,
        afternoon_start_time: draft.default_afternoon_start_time,
        afternoon_end_time: draft.default_afternoon_end_time,
    }
}

impl LibeminAppView {
    /// The helper once the days to book are listed, or the message why they cannot be.
    pub open spec fn with_days(self, dates: Result<Seq<Seq<char>>, Seq<char>>) -> LibeminAppView {
        match dates {
            Err(message) => self.with_status(StatusKind::Error, message),
            Ok(listed) => LibeminAppView {
                batch_booking: BatchBookingDraftView {
                    day_overrides: Seq::new(
                        listed.len(),
                        |i: int| day_with_defaults(self.batch_booking, listed[i]),
                    ),
                    ..self.batch_booking
                },
                batch_results: Seq::empty(),
                ..self
            }.with_status(StatusKind::Info, "Giorni generati per la prenotazione multipla"@),
        }
    }

    /// The helper once the days of the period are listed.
    pub open spec fn with_period(self) -> LibeminAppView {
        self.with_days(
            calendar::listed_dates(self.batch_booking.range_start, self.batch_booking.range_end),
        )
    }

    /// The helper before bookings are sent: days that are not listed yet are listed now.
    pub open spec fn with_some_days(self) -> LibeminAppView {
        if self.batch_booking.selected_workplace is Some && self.batch_booking.day_overrides.len()
            == 0 {
            self.with_period()
        } else {
            self
        }
    }

    /// Why bookings cannot be sent, where a message says so.
    pub open spec fn obstacle(self) -> Option<Seq<char>> {
        if self.batch_booking.selected_workplace is None {
            Some("Seleziona un luogo di lavoro"@)
        } else if self.batch_booking.day_overrides.len() == 0 {
            None
        } else if self.api is None {
            Some("Esegui prima il login"@)
        } else if self.discovery is None {
            Some("Non ho ancora scoperto il form di inserimento ore"@)
        } else {
            match booking::batch_bookings(self.batch_booking, default_client(self.batch_booking)) {
                Err(message) => Some(message),
                Ok(_) => None,
            }
        }
    }

    /// Whether bookings are sent.
    pub open spec fn ready_to_submit(self) -> bool {
        self.obstacle() is None && self.batch_booking.day_overrides.len() > 0
    }
}

impl LibeminApp {
    /// Lists the days to book, or says why they cannot be listed.
    pub fn set_days(&mut self, dates: Result<Vec<String>, String>)
        ensures
            final(self).deep_view() == old(self).deep_view().with_days(text::outcome(dates)),
    {
        let dates = match dates {
            Ok(dates) => dates,
            Err(message) => {
                self.set_status(StatusKind::Error, message.as_str());
                return;
            },
        };
        let ghost app = self.deep_view();
        let ghost listed = dates.deep_view();
        let client_id = match &self.batch_booking.selected_workplace {
            Some(item) => item.id.clone(),
            None => String::new(),
        };
        let mut days: Vec<DailyOverride> = Vec::new();
        for i in 0..dates.len()
            invariant
                app == self.deep_view(),
                listed == dates.deep_view(),
                client_id@ == default_client(app.batch_booking),
                days.len() == i,
                days.deep_view() == Seq::new(
                    i as nat,
                    |j: int| day_with_defaults(app.batch_booking, listed[j]),
                ),
        {
            let ghost before = days.deep_view();
            let day = DailyOverride::new(
                dates[i].clone(),
                client_id.clone(),
                self.batch_booking.default_morning_start_time.clone(),
                self.batch_booking.default_morning_end_time.clone(),
                self.batch_booking.default_afternoon_start_time.clone(),
                self.batch_booking.default_afternoon_end_time.clone(),
            );
            let ghost one = day.deep_view();
            days.push(day);
            proof {
                assert(listed[i as int] == dates@[i as int].deep_view());
                assert(one == day_with_defaults(app.batch_booking, listed[i as int]));
                assert(days.deep_view() =~= before.push(one));
            }
        }
        self.batch_booking.day_overrides = days;
        self.batch_results = Vec::new();
        assert(self.batch_results.deep_view() =~= Seq::empty());
        self.set_status(StatusKind::Info, "Giorni generati per la prenotazione multipla");
    }

    /// Lists the days of the period.
    pub fn generate_day_overrides(&mut self)
        ensures
            final(self).deep_view() == old(self).deep_view().with_period(),
    {
        let dates = list_dates_inclusive(
            self.batch_booking.range_start.as_str(),
            self.batch_booking.range_end.as_str(),
        );
        self.set_days(dates);
    }

    /// Begins to send bookings that are made up already, where a form is known.
    pub fn submit_bookings(&mut self, bookings: Result<Vec<BookingSubmission>, String>) -> (r:
        Option<Task>)
        ensures
            old(self).discovery is None ==> final(self).deep_view()
                == old(self).deep_view().with_status(
                StatusKind::Error,
                "Non ho ancora scoperto il form di inserimento ore"@,
            ) && r is None,
            old(self).discovery is Some && bookings is Err ==> final(self).deep_view()
                == old(self).deep_view().with_status(StatusKind::Error, bookings->Err_0@)
                && r is None,
            old(self).discovery is Some && bookings is Ok ==> final(self).deep_view()
                == old(self).deep_view().with_job("Invio prenotazioni in corso..."@)
                && r.deep_view() == old(self).deep_view().task(
                WorkView::SubmitBatch {
                    insert_form: old(self).discovery->0.insert_form.deep_view(),
                    submissions: bookings->Ok_0.deep_view(),
                },
            ),
    {
        let insert_form = match &self.discovery {
            Some(discovery) => discovery.insert_form.clone(),
            None => {
                self.set_status(
                    StatusKind::Error,
                    "Non ho ancora scoperto il form di inserimento ore",
                );
                return None;
            },
        };
        match bookings {
            Err(message) => {
                self.set_status(StatusKind::Error, message.as_str());
                None
            },
            Ok(submissions) => self.start_job(
                "Invio prenotazioni in corso...",
                Work::SubmitBatch { insert_form, submissions },
            ),
        }
    }

    /// Sends the bookings of all days. Days that are not listed yet are listed now.
    pub fn submit_batch_bookings(&mut self) -> (r: Option<Task>)
        ensures
            ({
                let app = old(self).deep_view().with_some_days();
                &&& final(self).deep_view() == (match app.obstacle() {
                    Some(message) => app.with_status(StatusKind::Error, message),
                    None => if app.ready_to_submit() {
                        app.with_job("Invio prenotazioni in corso..."@)
                    } else {
                        app
                    },
                })
                &&& r.deep_view() == (if app.ready_to_submit() {
                    app.task(
                        WorkView::SubmitBatch {
                            insert_form: app.discovery->0.insert_form,
                            submissions: booking::batch_bookings(
                                app.batch_booking,
                                default_client(app.batch_booking),
                            )->Ok_0,
                        },
                    )
                } else {
                    None
                })
            }),
    {
        let default_workplace = match &self.batch_booking.selected_workplace {
            Some(item) => item.id.clone(),
            None => {
                self.set_status(StatusKind::Error, "Seleziona un luogo di lavoro");
                return None;
            },
        };
        assert(self.batch_booking.day_overrides.deep_view().len()
            == self.batch_booking.day_overrides@.len());
        if self.batch_booking.day_overrides.len() == 0 {
            self.generate_day_overrides();
            assert(self.batch_booking.day_overrides.deep_view().len()
                == self.batch_booking.day_overrides@.len());
            if self.batch_booking.day_overrides.len() == 0 {
                return None;
            }
        }
        if self.api.is_none() {
            self.set_status(StatusKind::Error, "Esegui prima il login");
            return None;
        }
        let bookings = self.batch_booking.build_batch_submissions(default_workplace.as_str());
        self.submit_bookings(bookings)
    }
}

/// The first place of work with an identifier.
pub open spec fn workplace_with(items: Seq<LookupItemView>, id: Seq<char>) -> Option<
    LookupItemView,
>
    decreases items.len(),
{
    if items.len() == 0 {
        None
    } else if items[0].id == id {
        Some(items[0])
    } else {
        workplace_with(items.drop_first(), id)
    }
}

impl LibeminApp {
    /// How the place of work for all days is shown.
    pub fn workplace_label(&self) -> (r: String)
        ensures
            r@ == (match self.deep_view().batch_booking.selected_workplace {
                Some(item) => compacted(item.text, 24),
                None => "Seleziona luogo di lavoro"@,
            }),
    {
        match &self.batch_booking.selected_workplace {
            Some(item) => compact_combo_label(item.text.as_str(), 24),
            None => "Seleziona luogo di lavoro".to_owned(),
        }
    }

    /// Whether a place of work is the one for all days.
    pub fn is_selected_workplace(&self, item: &LookupItem) -> (r: bool)
        ensures
            r == (self.batch_booking.selected_workplace matches Some(selected) && selected.id@
                == item.id@),
    {
        match &self.batch_booking.selected_workplace {
            Some(selected) => same_text(selected.id.as_str(), item.id.as_str()),
            None => false,
        }
    }
}

/// How the place of work of one day is shown.
pub fn override_label(workplace_options: &Vec<LookupItem>, client_id: &str) -> (r: String)
    ensures
        r@ == (match workplace_with(workplace_options.deep_view(), client_id@) {
            Some(item) => compacted(item.text, 18),
            None => "Default"@,
        }),
{
    let ghost all = workplace_options.deep_view();
    assert(all.skip(0) =~= all);
    for i in 0..workplace_options.len()
        invariant
            all == workplace_options.deep_view(),
            workplace_with(all.skip(i as int), client_id@) == workplace_with(all, client_id@),
    {
        let item = &workplace_options[i];
        proof {
            assert(all.skip(i as int)[0] == item.deep_view());
            assert(all.skip(i as int).drop_first() =~= all.skip(i + 1));
        }
        if same_text(item.id.as_str(), client_id) {
            return compact_combo_label(item.text.as_str(), 18);
        }
    }
    "Default".to_owned()
}

/// While a job runs, no action starts another, and the message about the running one stays.
pub proof fn law_one_job_at_a_time(app: LibeminAppView, work: WorkView, busy_message: Seq<char>)
    requires
        app.busy(),
    ensures
        app.task(work) is None,
        app.with_job(busy_message) == app,
{
}

/// A job that starts leaves the helper busy until it ends, and its end leaves the helper free.
pub proof fn law_job_makes_busy(
    app: LibeminAppView,
    work: WorkView,
    busy_message: Seq<char>,
    result: JobResultView,
)
    ensures
        app.with_job(busy_message).busy(),
        app.task(work) is Some <==> !app.busy(),
        !(LibeminAppView { busy_message: None, ..app }).with_result(result).busy(),
{
}

/// Ending a session, in whatever way, leaves nothing of it, nor a password or a code; the
/// settings stay, and so do the bookings that are prepared.
pub proof fn law_signed_out_leaves_nothing(app: LibeminAppView)
    ensures
        ({
            let out = app.signed_out();
            let gone = app.expired();
            &&& !out.logged_in() && !gone.logged_in()
            &&& out.password.len() == 0 && gone.password.len() == 0
            &&& out.otp_code.len() == 0 && gone.otp_code.len() == 0
            &&& out.api is None && gone.api is None
            &&& out.discovery is None && gone.discovery is None
            &&& out.pending_mail_authentication is None
            &&& gone.pending_mail_authentication is None
            &&& out.settings == app.settings && gone.settings == app.settings
            &&& out.batch_booking == app.batch_booking
            &&& gone.batch_booking == app.batch_booking
        }),
{
}

/// Signing in with a code still to come leaves the user signed out, and the code that is asked
/// for can be verified or sent again.
pub proof fn law_mail_code_pending(app: LibeminAppView, success: LoginSuccessView)
    ensures
        app.with_login(success).logged_in() <==> success.pending_mail_authentication is None,
        app.with_login(success).api is Some,
        app.with_login(success).pending_mail_authentication
            == success.pending_mail_authentication,
{
}

/// The days that are listed follow the defaults until one is enabled: bookings that are made up
/// right after depend on the defaults alone.
pub proof fn law_listed_days_follow_defaults(
    app: LibeminAppView,
    dates: Seq<Seq<char>>,
    i: int,
)
    requires
        0 <= i < dates.len(),
    ensures
        ({
            let days = app.with_days(Ok(dates)).batch_booking.day_overrides;
            &&& days.len() == dates.len()
            &&& days[i].date == dates[i]
            &&& !days[i].enabled
            &&& booking::day_bookings(app.batch_booking, default_client(app.batch_booking), days[i])
                == booking::day_bookings(
                app.batch_booking,
                default_client(app.batch_booking),
                DailyOverrideView { enabled: true, ..days[i] },
            )
        }),
{
}

/// No job changes the settings, which hold no password, and none leaves a password that the user
/// has not entered.
pub proof fn law_password_not_kept(app: LibeminAppView, result: JobResultView)
    ensures
        app.with_result(result).settings == app.settings,
        app.with_result(result).password == app.password || app.with_result(result).password.len()
            == 0,
{
}

impl LibeminAppView {
    /// The helper once the user has entered the address of the form.
    pub open spec fn with_pasted(self, url: Seq<char>) -> LibeminAppView {
        LibeminAppView {
            settings: SavedSettingsView { insert_form_url_override: url, ..self.settings },
            ..self
        }
    }
}

/// Whether, after the end of a job, looking for the form again starts a job that reads the form at
/// whatever address the user enters.
pub open spec fn reads_pasted_form(app: LibeminAppView, next: NextView) -> bool {
    next matches NextView::Finish(result) && {
        let after = (LibeminAppView { busy_message: None, ..app }).with_result(result);
        &&& after.api is Some
        &&& !after.busy()
        &&& forall|url: Seq<char>| #[trigger]
            after.with_pasted(url).refresh_task() == Some(
                TaskView {
                    base_url: after.settings.base_url,
                    language: after.settings.language,
                    work: WorkView::RefreshDiscovery { insert_form_url_override: url },
                },
            )
    }
}

/// Where the site signed the user in, or knows an earlier session, and no page with the form was
/// found, the user can paste its address and have it read: the site is kept, and looking for the
/// form again starts a job with that address.
pub proof fn law_pasted_form_is_read(
    app: LibeminAppView,
    save: bool,
    api: LibemaxApiView,
    admin_page_url: Seq<char>,
    insert_form_url_override: Seq<char>,
)
    requires
        text::blank(insert_form_url_override),
    ensures
        ({
            let page = libemax::insert_page(admin_page_url, Seq::empty(), insert_form_url_override);
            &&& reads_pasted_form(
                app,
                job::after_admin_page(save, api, Purpose::Login, page).next,
            )
            &&& reads_pasted_form(
                app,
                job::after_admin_page(save, api, Purpose::VerifyMailCode, page).next,
            )
            &&& reads_pasted_form(
                app,
                job::after_admin_page(save, api, Purpose::RestoreSession, page).next,
            )
        }),
{
    lemma_no_insert_page();
}

proof fn lemma_no_insert_page()
    ensures
        !job::says_signed_out(libemax::no_insert_page()),
{
    reveal_strlit(
        "Non sono riuscito a trovare automaticamente la pagina di inserimento ore. Incolla l'URL manuale nel campo 'Insert form URL'.",
    );
    reveal_strlit("Sessione non autenticata");
    let message = libemax::no_insert_page();
    let needle = "Sessione non autenticata"@;
    if job::says_signed_out(message) {
        let i = choose|i: int|
            0 <= i <= message.len() - needle.len() && #[trigger] message.subrange(
                i,
                i + needle.len(),
            ) == needle;
        assert(message.subrange(i, i + needle.len())[0] == needle[0]);
        assert(message[i] == 'S');
    }
}

/// A login that the site refuses leaves the user signed out, and so does one after which the form
/// cannot be read. One after which no page with the form was found leaves the user signed in. The
/// message is shown as an error in any case.
pub proof fn law_login_ends(
    app: LibeminAppView,
    save: bool,
    api: LibemaxApiView,
    message: Seq<char>,
    verifying: bool,
)
    ensures
        ({
            let purpose = if verifying { Purpose::VerifyMailCode } else { Purpose::Login };
            let step = job::undiscovered(save, api, purpose, message);
            step.next matches NextView::Finish(result) && {
                let after = app.with_result(result);
                &&& after.logged_in() <==> message == libemax::no_insert_page()
                &&& after.status.kind == StatusKind::Error && after.status.text == message
            }
        }),
        job::refused(save, verifying, message).next matches NextView::Finish(result) && {
            let after = app.with_result(result);
            &&& !after.logged_in()
            &&& after.status.kind == StatusKind::Error && after.status.text == message
        },
{
}

/// Whether two helpers differ in nothing but the message that is shown.
pub open spec fn same_but_status(a: LibeminAppView, b: LibeminAppView) -> bool {
    a == LibeminAppView { status: a.status, ..b }
}

/// Whether a helper shows a message.
pub open spec fn shows(app: LibeminAppView, kind: StatusKind, text: Seq<char>) -> bool {
    app.status.kind == kind && app.status.text == text
}

/// Each kind of message has a color of its own: blue for what is told, green for a success, red
/// for an error and amber for a warning.
pub proof fn law_colors(a: StatusKind, b: StatusKind)
    ensures
        color_of(a) == color_of(b) ==> a == b,
        color_of(StatusKind::Info) == (90u8, 140u8, 255u8),
        color_of(StatusKind::Success) == (60u8, 170u8, 110u8),
        color_of(StatusKind::Error) == (220u8, 80u8, 80u8),
        color_of(StatusKind::Warning) == (220u8, 160u8, 60u8),
{
}

/// A text that fits is shown whole, without the white space around it. One that does not is shown
/// by its first characters and an ellipsis, in as many characters as there may be, at least one.
pub proof fn law_compacted(label: Seq<char>, max_chars: nat)
    ensures
        ({
            let whole = text::trimmed(label);
            let short = compacted(label, max_chars);
            &&& whole.len() <= max_chars ==> short == whole
            &&& whole.len() > max_chars ==> {
                &&& short.len() == if max_chars > 0 { max_chars } else { 1 }
                &&& short.last() == '…'
                &&& short.drop_last().is_prefix_of(whole)
            }
        }),
{
    reveal_strlit("…");
}

/// A job is for the site and the language of the settings and does the work it was made for, and
/// starting it changes nothing but the message that one runs. Looking for the form again is such a
/// job where a site is known, with the address of the form in the settings, and else none.
pub proof fn law_task(app: LibeminAppView, work: WorkView, busy_message: Seq<char>)
    requires
        !app.busy(),
    ensures
        app.task(work) matches Some(task) && task.base_url == app.settings.base_url
            && task.language == app.settings.language && task.work == work,
        app.with_job(busy_message) == (LibeminAppView { busy_message: Some(busy_message), ..app }),
        app.api is None ==> app.refresh_task() is None,
        app.api is Some ==> app.refresh_task() == Some(
            TaskView {
                base_url: app.settings.base_url,
                language: app.settings.language,
                work: WorkView::RefreshDiscovery {
                    insert_form_url_override: app.settings.insert_form_url_override,
                },
            },
        ),
{
}

/// The user is signed in while a session is active that waits for no code, and a job runs while
/// there is a message about one.
pub proof fn law_states(app: LibeminAppView, kind: StatusKind, text: Seq<char>)
    ensures
        app.busy() <==> exists|message: Seq<char>| app.busy_message == Some(message),
        app.logged_in() <==> app.session_active && app.pending_mail_authentication is None,
        shows(app.with_status(kind, text), kind, text),
        same_but_status(app.with_status(kind, text), app),
{
    if app.busy() {
        assert(app.busy_message == Some(app.busy_message->0));
    }
}

/// Other places of work replace those on offer. The one that is chosen stays chosen, whatever is on
/// offer; where none is, the first on offer is. Nothing else changes.
pub proof fn law_workplaces(app: LibeminAppView, workplaces: Seq<LookupItemView>)
    ensures
        ({
            let after = app.with_workplaces(workplaces);
            let chosen = app.batch_booking.selected_workplace;
            &&& after == LibeminAppView {
                workplace_options: workplaces,
                batch_booking: BatchBookingDraftView {
                    selected_workplace: after.batch_booking.selected_workplace,
                    ..app.batch_booking
                },
                ..app
            }
            &&& chosen is Some ==> after.batch_booking.selected_workplace == chosen
            &&& chosen is None && workplaces.len() > 0 ==> after.batch_booking.selected_workplace
                == Some(workplaces[0])
            &&& chosen is None && workplaces.len() == 0
                ==> after.batch_booking.selected_workplace is None
        }),
{
}

/// Signing in, with a code or without, takes over the site, the form and the places of work that
/// it led to, and the code that is waited for. The session is active unless one is, and the code
/// that was entered goes where it is used up. A sign-in that fails leaves the session inactive and
/// tells why.
pub proof fn law_sign_in_result(app: LibeminAppView, success: LoginSuccessView, error: Seq<char>)
    ensures
        ({
            let after = app.with_result(JobResultView::Login(Ok(success)));
            let failed = app.with_result(JobResultView::Login(Err(error)));
            let listed = app.with_workplaces(success.workplaces);
            &&& after == LibeminAppView {
                session_active: success.pending_mail_authentication is None,
                api: Some(success.api),
                pending_mail_authentication: success.pending_mail_authentication,
                discovery: success.discovery,
                otp_code: after.otp_code,
                status: after.status,
                ..listed
            }
            &&& success.clear_otp ==> after.otp_code.len() == 0
            &&& !success.clear_otp ==> after.otp_code == app.otp_code
            &&& shows(after, success.status_kind, success.status_text)
            &&& same_but_status(failed, LibeminAppView { session_active: false, ..app })
            &&& shows(failed, StatusKind::Error, error)
            &&& app.with_result(JobResultView::VerifyMailCode(Ok(success))) == after
            &&& app.with_result(JobResultView::VerifyMailCode(Err(error))) == failed
        }),
{
}

/// Asking for another code changes nothing but the message, which tells what the site said.
pub proof fn law_resend_result(app: LibeminAppView, message: Seq<char>)
    ensures
        ({
            let sent = app.with_result(JobResultView::ResendMailCode(Ok(message)));
            let failed = app.with_result(JobResultView::ResendMailCode(Err(message)));
            &&& same_but_status(sent, app) && shows(sent, StatusKind::Success, message)
            &&& same_but_status(failed, app) && shows(failed, StatusKind::Error, message)
        }),
{
}

/// Looking for the form again takes over the form and the places of work, and the session is
/// active. Where the site has ended the session, nothing of it is left and the user is warned; any
/// other failure changes nothing but the message.
pub proof fn law_refresh_result(
    app: LibeminAppView,
    success: RefreshDiscoverySuccessView,
    error: Seq<char>,
)
    ensures
        ({
            let after = app.with_result(JobResultView::RefreshDiscovery(Ok(success)));
            let failed = app.with_result(JobResultView::RefreshDiscovery(Err(error)));
            let ended = text::holds(error, "Sessione non autenticata"@);
            &&& same_but_status(
                after,
                LibeminAppView {
                    discovery: Some(success.discovery),
                    session_active: true,
                    ..app.with_workplaces(success.workplaces)
                },
            )
            &&& shows(after, success.status_kind, success.status_text)
            &&& !ended ==> same_but_status(failed, app) && shows(failed, StatusKind::Error, error)
            &&& ended ==> without_session(failed, app) && shows(
                failed,
                StatusKind::Warning,
                "La sessione Libemax e' scaduta, effettua di nuovo il login"@,
            )
        }),
{
}

/// Whether a helper is another one without its session: all that is left is the settings, what is
/// to be remembered, the bookings that are prepared and a job that runs.
pub open spec fn without_session(app: LibeminAppView, before: LibeminAppView) -> bool {
    app == LibeminAppView {
        settings: before.settings,
        password: Seq::empty(),
        otp_code: Seq::empty(),
        remember_me: before.remember_me,
        session_active: false,
        api: None,
        pending_mail_authentication: None,
        discovery: None,
        batch_booking: before.batch_booking,
        workplace_options: Seq::empty(),
        batch_results: Seq::empty(),
        status: app.status,
        busy_message: before.busy_message,
    }
}

/// Signing out leaves nothing of the session and tells so; a session that the site has ended
/// leaves nothing either, and the user is warned.
pub proof fn law_signed_out(app: LibeminAppView)
    ensures
        without_session(app.signed_out(), app),
        shows(app.signed_out(), StatusKind::Info, "Sessione rimossa"@),
        without_session(app.expired(), app),
        shows(
            app.expired(),
            StatusKind::Warning,
            "La sessione Libemax e' scaduta, effettua di nuovo il login"@,
        ),
{
}

/// Going on with an earlier session takes over the site, and where the form was found also the form
/// and the places of work, and then the session is active. Where that fails, nothing changes but
/// the message, which is a warning.
pub proof fn law_restore_result(
    app: LibeminAppView,
    success: RestoreSessionSuccessView,
    error: Seq<char>,
)
    ensures
        ({
            let after = app.with_result(JobResultView::RestoreSession(Ok(success)));
            let failed = app.with_result(JobResultView::RestoreSession(Err(error)));
            &&& success.discovery is Some ==> same_but_status(
                after,
                LibeminAppView {
                    session_active: true,
                    api: Some(success.api),
                    discovery: success.discovery,
                    ..app.with_workplaces(success.workplaces)
                },
            )
            &&& success.discovery is None ==> same_but_status(
                after,
                LibeminAppView { api: Some(success.api), ..app },
            )
            &&& shows(after, success.status_kind, success.status_text)
            &&& same_but_status(failed, app) && shows(failed, StatusKind::Warning, error)
        }),
{
}

/// Many bookings leave their results and their summary, and nothing else changes.
pub proof fn law_batch_result(
    app: LibeminAppView,
    success: SubmitBatchSuccessView,
    error: Seq<char>,
)
    ensures
        ({
            let after = app.with_result(JobResultView::SubmitBatch(Ok(success)));
            let failed = app.with_result(JobResultView::SubmitBatch(Err(error)));
            &&& same_but_status(
                after,
                LibeminAppView { batch_results: success.results, ..app },
            )
            &&& shows(after, success.status_kind, success.status_text)
            &&& same_but_status(failed, app) && shows(failed, StatusKind::Error, error)
        }),
{
}

/// The settings are saved after a job exactly where it signed in or found the form. The stored
/// session is forgotten exactly where looking for the form failed because the site has ended it.
pub proof fn law_effects(result: JobResultView)
    ensures
        effects_of(result).save_settings <==> {
            ||| result matches JobResultView::Login(Ok(_))
            ||| result matches JobResultView::VerifyMailCode(Ok(_))
            ||| result matches JobResultView::RefreshDiscovery(Ok(_))
        },
        effects_of(result).forget_session <==> (result matches JobResultView::RefreshDiscovery(
            Err(error),
        ) && text::holds(error, "Sessione non autenticata"@)),
{
}

/// Listing the days makes one for each date, in their order, with the place of work that is chosen
/// and with the hours for all days, each where it belongs. Earlier results go. Where the days
/// cannot be listed, nothing changes but the message.
pub proof fn law_days_listed(
    app: LibeminAppView,
    dates: Seq<Seq<char>>,
    i: int,
    error: Seq<char>,
)
    requires
        0 <= i < dates.len(),
    ensures
        ({
            let after = app.with_days(Ok(dates));
            let failed = app.with_days(Err(error));
            let draft = app.batch_booking;
            let days = after.batch_booking.day_overrides;
            &&& after == LibeminAppView {
                batch_booking: BatchBookingDraftView { day_overrides: days, ..draft },
                batch_results: Seq::empty(),
                status: after.status,
                ..app
            }
            &&& days.len() == dates.len()
            &&& days[i].date == dates[i]
            &&& !days[i].enabled
            &&& draft.selected_workplace is Some ==> days[i].client_id
                == draft.selected_workplace->0.id
            &&& draft.selected_workplace is None ==> days[i].client_id.len() == 0
            &&& days[i].morning_start_time == draft.default_morning_start_time
            &&& days[i].morning_end_time == draft.default_morning_end_time
            &&& days[i].afternoon_start_time == draft.default_afternoon_start_time
            &&& days[i].afternoon_end_time == draft.default_afternoon_end_time
            &&& shows(
                after,
                StatusKind::Info,
                "Giorni generati per la prenotazione multipla"@,
            )
            &&& same_but_status(failed, app) && shows(failed, StatusKind::Error, error)
        }),
{
}

/// The days of the period are those from its start to its end. They are listed before bookings are
/// sent exactly where a place of work is chosen and no day is listed yet.
pub proof fn law_period_listed(app: LibeminAppView)
    ensures
        ({
            let draft = app.batch_booking;
            let fresh = draft.selected_workplace is Some && draft.day_overrides.len() == 0;
            &&& app.with_period() == app.with_days(
                calendar::listed_dates(draft.range_start, draft.range_end),
            )
            &&& fresh ==> app.with_some_days() == app.with_period()
            &&& !fresh ==> app.with_some_days() == app
        }),
{
}

/// Bookings are sent exactly where a place of work is chosen, days are listed, a site and its form
/// are known, and the bookings of the days can be made up for that place. Otherwise the message
/// names the first of these that is missing, but for the days: those are told of when they are
/// listed.
pub proof fn law_obstacles(app: LibeminAppView)
    ensures
        ({
            let draft = app.batch_booking;
            let chosen = draft.selected_workplace;
            let days = draft.day_overrides.len() > 0;
            let bookings = booking::batch_bookings(draft, chosen->0.id);
            &&& app.ready_to_submit() <==> chosen is Some && days && app.api is Some
                && app.discovery is Some && bookings is Ok
            &&& chosen is None ==> app.obstacle() == Some("Seleziona un luogo di lavoro"@)
            &&& chosen is Some && !days ==> app.obstacle() is None
            &&& chosen is Some && days && app.api is None ==> app.obstacle() == Some(
                "Esegui prima il login"@,
            )
            &&& chosen is Some && days && app.api is Some && app.discovery is None
                ==> app.obstacle() == Some("Non ho ancora scoperto il form di inserimento ore"@)
            &&& chosen is Some && days && app.api is Some && app.discovery is Some && bookings
                is Err ==> app.obstacle() == Some(bookings->Err_0)
        }),
{
}

/// The place of work of a day is the first on offer with its identifier, if there is one.
pub proof fn law_workplace_with(items: Seq<LookupItemView>, id: Seq<char>, n: int)
    requires
        0 <= n <= items.len(),
        forall|i: int| 0 <= i < n ==> (#[trigger] items[i]).id != id,
        n < items.len() ==> items[n].id == id,
    ensures
        n < items.len() ==> workplace_with(items, id) == Some(items[n]),
        n == items.len() ==> workplace_with(items, id) is None,
    decreases n,
{
    if n > 0 {
        let rest = items.drop_first();
        assert(forall|i: int| 0 <= i < rest.len() ==> (#[trigger] rest[i]) == items[i + 1]);
        law_workplace_with(rest, id, n - 1);
    }
}

/// Whether a job that the helper starts begins with this request, once its site is reached.
pub open spec fn begins_with(
    task: Option<TaskView>,
    request: Result<RequestView, Seq<char>>,
) -> bool {
    task is Some && match (job::begun(task->0), request) {
        (Ok(opening), Ok(sent)) => job::first_step(opening, Ok(())).next matches NextView::Perform(
            _,
            first,
        ) && first == sent,
        (Ok(opening), Err(_)) => job::first_step(opening, Ok(())).next is Finish,
        _ => false,
    }
}

/// What the user enters is what the site is sent. Signing in sends the user name and the password
/// that are entered and what is to be remembered, with the code that is entered exactly where one
/// is verified; another code is asked for with the user that the site named. None of it is sent
/// while a job runs, and a code is verified only once a site is known.
pub proof fn law_entered_is_sent(app: LibeminAppView, api: LibemaxApiView)
    requires
        libemax::site_at(app.settings.base_url, app.settings.language) == Ok::<
            LibemaxApiView,
            Seq<char>,
        >(api),
    ensures
        app.busy() ==> app.login_task() is None && app.verify_task() is None
            && app.resend_task() is None,
        !app.busy() ==> begins_with(
            app.login_task(),
            libemax::login_request(
                api,
                app.settings.username,
                app.password,
                None,
                app.remember_me,
            ),
        ),
        app.api is None ==> app.verify_task() is None && app.resend_task() is None,
        !app.busy() && app.api is Some ==> begins_with(
            app.verify_task(),
            libemax::login_request(
                api,
                app.settings.username,
                app.password,
                Some(app.otp_code),
                app.remember_me,
            ),
        ),
        app.pending_mail_authentication is None ==> app.resend_task() is None,
        !app.busy() && app.api is Some && app.pending_mail_authentication is Some ==> begins_with(
            app.resend_task(),
            libemax::resend_request(api, app.pending_mail_authentication->0.user_id),
        ),
{
}

/// An earlier session goes on exactly where a user is known, cookies were stored and no job runs,
/// and begins with the admin page. The form is looked for at the address in the settings, as it is
/// when signing in.
pub proof fn law_session_goes_on(
    app: LibeminAppView,
    has_cookie_store: bool,
    api: LibemaxApiView,
    page: Seq<char>,
)
    requires
        libemax::site_at(app.settings.base_url, app.settings.language) == Ok::<
            LibemaxApiView,
            Seq<char>,
        >(api),
        api.admin_page() == Ok::<Seq<char>, Seq<char>>(page),
    ensures
        app.restore_task(has_cookie_store) is Some <==> !text::blank(app.settings.username)
            && has_cookie_store && !app.busy(),
        app.restore_task(has_cookie_store) is Some ==> begins_with(
            app.restore_task(has_cookie_store),
            Ok(RequestView::Get { url: page }),
        ),
        app.restore_task(has_cookie_store) matches Some(task) ==> task.work
            == (WorkView::RestoreSession {
            insert_form_url_override: app.settings.insert_form_url_override,
        }),
        app.login_task() matches Some(task) ==> (task.work matches WorkView::Login {
            insert_form_url_override,
            ..
        } && insert_form_url_override == app.settings.insert_form_url_override),
        app.verify_task() matches Some(task) ==> (task.work matches WorkView::VerifyMailCode {
            insert_form_url_override,
            ..
        } && insert_form_url_override == app.settings.insert_form_url_override),
{
}

} // verus!
