//! Jobs: work that takes several requests, each decided by the reply to the one before.

use crate::booking;
use crate::booking::{
    note_result, BatchBookingResult, BatchBookingResultView, BookingSubmission,
    BookingSubmissionView,
};
use crate::form::{DiscoveryBundle, DiscoveryBundleView, InsertForm, InsertFormView};
use crate::libemax;
use crate::libemax::{
    find_insert_page, is_no_insert_page, lookup_as_form, read_booking_reply, read_form_page,
    read_login_body, read_lookup_form_reply, read_page, read_query_reply, read_resend_body,
    response_to_json, InsertPage, InsertPageView, LibemaxApi, LibemaxApiView, LoginOutcome,
    LoginOutcomeView, MailAuthenticationPrompt, MailAuthenticationPromptView, Reply, ReplyView,
    Request, RequestView,
};
use crate::lookup;
use crate::lookup::{sort_by_name, LookupItem, LookupItemView};
use crate::text;
use crate::text::{contains_text, decimal_text};
use vstd::prelude::*;
use vstd::string::StringExecFns;

verus! {

/// How a message to the user is meant.
#[derive(Debug, Clone, Copy, PartialEq, Eq, Structural)]
pub enum StatusKind {
    Info,
    Success,
    Error,
    Warning,
}

impl DeepView for StatusKind {
    type V = StatusKind;

    open spec fn deep_view(&self) -> StatusKind {
        *self
    }
}

/// Why the page that takes bookings is looked for.
#[derive(Debug, Clone, Copy, PartialEq, Eq, Structural)]
pub enum Purpose {
    Login,
    VerifyMailCode,
    RefreshDiscovery,
    RestoreSession,
}

impl DeepView for Purpose {
    type V = Purpose;

    open spec fn deep_view(&self) -> Purpose {
        *self
    }
}

/// What a job is to do.
pub enum Work {
    Login { username: String, password: String, remember: bool, insert_form_url_override: String },
    VerifyMailCode {
        username: String,
        password: String,
        otp_code: String,
        remember: bool,
        insert_form_url_override: String,
    },
    ResendMailCode { user_id: String },
    RefreshDiscovery { insert_form_url_override: String },
    RestoreSession { insert_form_url_override: String },
    SubmitBatch { insert_form: InsertForm, submissions: Vec<BookingSubmission> },
}

/// The content of `Work`.
#[verifier::ext_equal]
pub enum WorkView {
    Login {
        username: Seq<char>,
        password: Seq<char>,
        remember: bool,
        insert_form_url_override: Seq<char>,
    },
    VerifyMailCode {
        username: Seq<char>,
        password: Seq<char>,
        otp_code: Seq<char>,
        remember: bool,
        insert_form_url_override: Seq<char>,
    },
    ResendMailCode { user_id: Seq<char> },
    RefreshDiscovery { insert_form_url_override: Seq<char> },
    RestoreSession { insert_form_url_override: Seq<char> },
    SubmitBatch { insert_form: InsertFormView, submissions: Seq<BookingSubmissionView> },
}

impl DeepView for Work {
    type V = WorkView;

    open spec fn deep_view(&self) -> WorkView {
        match self {
            Work::Login {
                username,
                password,
                remember,
                insert_form_url_override,
            } => WorkView::Login {
                username: username@,
                password: password@,
                remember: *remember,
                insert_form_url_override: insert_form_url_override@,
            },
            Work::VerifyMailCode {
                username,
                password,
                otp_code,
                remember,
                insert_form_url_override,
            } => WorkView::VerifyMailCode {
                username: username@,
                password: password@,
                otp_code: otp_code@,
                remember: *remember,
                insert_form_url_override: insert_form_url_override@,
            },
            Work::ResendMailCode { user_id } => WorkView::ResendMailCode {
                user_id: user_id@,
            },
            Work::RefreshDiscovery { insert_form_url_override } => WorkView::RefreshDiscovery {
                insert_form_url_override: insert_form_url_override@,
            },
            Work::RestoreSession { insert_form_url_override } => WorkView::RestoreSession {
                insert_form_url_override: insert_form_url_override@,
            },
            Work::SubmitBatch { insert_form, submissions } => WorkView::SubmitBatch {
                insert_form: insert_form.deep_view(),
                submissions: submissions.deep_view(),
            },
        }
    }
}

/// A job that has not begun: the site as the user names it, and what is to be done there.
pub struct Task {
    pub base_url: String,
    pub language: String,
    pub work: Work,
}

/// The content of `Task`.
#[verifier::ext_equal]
pub struct TaskView {
    pub base_url: Seq<char>,
    pub language: Seq<char>,
    pub work: WorkView,
}

impl DeepView for Task {
    type V = TaskView;

    open spec fn deep_view(&self) -> TaskView {
        TaskView {
            base_url: self.base_url@,
            language: self.language@,
            work: self.work.deep_view(),
        }
    }
}

/// What signing in, or verifying a code, has led to.
#[derive(Debug)]
pub struct LoginSuccess {
    pub api: LibemaxApi,
    pub status_kind: StatusKind,
    pub status_text: String,
    pub clear_otp: bool,
    pub pending_mail_authentication: Option<MailAuthenticationPrompt>,
    pub discovery: Option<DiscoveryBundle>,
    pub workplaces: Vec<LookupItem>,
}

/// The content of `LoginSuccess`.
#[verifier::ext_equal]
pub struct LoginSuccessView {
    pub api: LibemaxApiView,
    pub status_kind: StatusKind,
    pub status_text: Seq<char>,
    pub clear_otp: bool,
    pub pending_mail_authentication: Option<MailAuthenticationPromptView>,
    pub discovery: Option<DiscoveryBundleView>,
    pub workplaces: Seq<LookupItemView>,
}

impl DeepView for LoginSuccess {
    type V = LoginSuccessView;

    open spec fn deep_view(&self) -> LoginSuccessView {
        LoginSuccessView {
            api: self.api.deep_view(),
            status_kind: self.status_kind,
            status_text: self.status_text@,
            clear_otp: self.clear_otp,
            pending_mail_authentication: self.pending_mail_authentication.deep_view(),
            discovery: self.discovery.deep_view(),
            workplaces: self.workplaces.deep_view(),
        }
    }
}

/// What looking for the form again has led to.
#[derive(Debug)]
pub struct RefreshDiscoverySuccess {
    pub discovery: DiscoveryBundle,
    pub workplaces: Vec<LookupItem>,
    pub status_kind: StatusKind,
    pub status_text: String,
}

/// The content of `RefreshDiscoverySuccess`.
#[verifier::ext_equal]
pub struct RefreshDiscoverySuccessView {
    pub discovery: DiscoveryBundleView,
    pub workplaces: Seq<LookupItemView>,
    pub status_kind: StatusKind,
    pub status_text: Seq<char>,
}

impl DeepView for RefreshDiscoverySuccess {
    type V = RefreshDiscoverySuccessView;

    open spec fn deep_view(&self) -> RefreshDiscoverySuccessView {
        RefreshDiscoverySuccessView {
            discovery: self.discovery.deep_view(),
            workplaces: self.workplaces.deep_view(),
            status_kind: self.status_kind,
            status_text: self.status_text@,
        }
    }
}

/// What going on with an earlier session has led to. The form may still be missing.
#[derive(Debug)]
pub struct RestoreSessionSuccess {
    pub api: LibemaxApi,
    pub discovery: Option<DiscoveryBundle>,
    pub workplaces: Vec<LookupItem>,
    pub status_kind: StatusKind,
    pub status_text: String,
}

/// The content of `RestoreSessionSuccess`.
#[verifier::ext_equal]
pub struct RestoreSessionSuccessView {
    pub api: LibemaxApiView,
    pub discovery: Option<DiscoveryBundleView>,
    pub workplaces: Seq<LookupItemView>,
    pub status_kind: StatusKind,
    pub status_text: Seq<char>,
}

impl DeepView for RestoreSessionSuccess {
    type V = RestoreSessionSuccessView;

    open spec fn deep_view(&self) -> RestoreSessionSuccessView {
        RestoreSessionSuccessView {
            api: self.api.deep_view(),
            discovery: self.discovery.deep_view(),
            workplaces: self.workplaces.deep_view(),
            status_kind: self.status_kind,
            status_text: self.status_text@,
        }
    }
}

/// What became of many bookings.
#[derive(Debug)]
pub struct SubmitBatchSuccess {
    pub results: Vec<BatchBookingResult>,
    pub status_kind: StatusKind,
    pub status_text: String,
}

/// The content of `SubmitBatchSuccess`.
#[verifier::ext_equal]
pub struct SubmitBatchSuccessView {
    pub results: Seq<BatchBookingResultView>,
    pub status_kind: StatusKind,
    pub status_text: Seq<char>,
}

impl DeepView for SubmitBatchSuccess {
    type V = SubmitBatchSuccessView;

    open spec fn deep_view(&self) -> SubmitBatchSuccessView {
        SubmitBatchSuccessView {
            results: self.results.deep_view(),
            status_kind: self.status_kind,
            status_text: self.status_text@,
        }
    }
}

/// What a job has led to.
#[derive(Debug)]
pub enum JobResult {
    Login(Result<LoginSuccess, String>),
    VerifyMailCode(Result<LoginSuccess, String>),
    ResendMailCode(Result<String, String>),
    RefreshDiscovery(Result<RefreshDiscoverySuccess, String>),
    RestoreSession(Result<RestoreSessionSuccess, String>),
    SubmitBatch(Result<SubmitBatchSuccess, String>),
}

/// The content of `JobResult`.
#[verifier::ext_equal]
pub enum JobResultView {
    Login(Result<LoginSuccessView, Seq<char>>),
    VerifyMailCode(Result<LoginSuccessView, Seq<char>>),
    ResendMailCode(Result<Seq<char>, Seq<char>>),
    RefreshDiscovery(Result<RefreshDiscoverySuccessView, Seq<char>>),
    RestoreSession(Result<RestoreSessionSuccessView, Seq<char>>),
    SubmitBatch(Result<SubmitBatchSuccessView, Seq<char>>),
}

impl DeepView for JobResult {
    type V = JobResultView;

    open spec fn deep_view(&self) -> JobResultView {
        match self {
            JobResult::Login(value) => JobResultView::Login(text::outcome(*value)),
            JobResult::VerifyMailCode(value) => JobResultView::VerifyMailCode(
                text::outcome(*value),
            ),
            JobResult::ResendMailCode(value) => JobResultView::ResendMailCode(
                text::outcome(*value),
            ),
            JobResult::RefreshDiscovery(value) => JobResultView::RefreshDiscovery(
                text::outcome(*value),
            ),
            JobResult::RestoreSession(value) => JobResultView::RestoreSession(
                text::outcome(*value),
            ),
            JobResult::SubmitBatch(value) => JobResultView::SubmitBatch(text::outcome(*value)),
        }
    }
}

/// Bookings on their way: those done, the one that is sent now, and those to come.
#[derive(Debug)]
pub struct Batch {
    pub api: LibemaxApi,
    pub insert_form: InsertForm,
    pub done: Vec<BatchBookingResult>,
    pub current: BookingSubmission,
    pub rest: Vec<BookingSubmission>,
}

/// The content of `Batch`.
#[verifier::ext_equal]
pub struct BatchView {
    pub api: LibemaxApiView,
    pub insert_form: InsertFormView,
    pub done: Seq<BatchBookingResultView>,
    pub current: BookingSubmissionView,
    pub rest: Seq<BookingSubmissionView>,
}

impl DeepView for Batch {
    type V = BatchView;

    open spec fn deep_view(&self) -> BatchView {
        BatchView {
            api: self.api.deep_view(),
            insert_form: self.insert_form.deep_view(),
            done: self.done.deep_view(),
            current: self.current.deep_view(),
            rest: self.rest.deep_view(),
        }
    }
}

/// A job that waits for the reply to its last request.
#[derive(Debug)]
pub enum Job {
    LoggingIn { api: LibemaxApi, verifying: bool, insert_form_url_override: String },
    Resending,
    ReadingAdmin {
        api: LibemaxApi,
        purpose: Purpose,
        insert_form_url_override: String,
        url: String,
    },
    ReadingForm { api: LibemaxApi, purpose: Purpose, page: InsertPage, url: String },
    SearchingByQuery {
        api: LibemaxApi,
        purpose: Purpose,
        discovery: DiscoveryBundle,
        url: String,
        query: String,
    },
    SearchingByForm { api: LibemaxApi, purpose: Purpose, discovery: DiscoveryBundle },
    FetchingForm { batch: Batch, url: String },
    Posting { batch: Batch },
}

/// The content of `Job`.
#[verifier::ext_equal]
pub enum JobView {
    LoggingIn { api: LibemaxApiView, verifying: bool, insert_form_url_override: Seq<char> },
    Resending,
    ReadingAdmin {
        api: LibemaxApiView,
        purpose: Purpose,
        insert_form_url_override: Seq<char>,
        url: Seq<char>,
    },
    ReadingForm { api: LibemaxApiView, purpose: Purpose, page: InsertPageView, url: Seq<char> },
    SearchingByQuery {
        api: LibemaxApiView,
        purpose: Purpose,
        discovery: DiscoveryBundleView,
        url: Seq<char>,
        query: Seq<char>,
    },
    SearchingByForm { api: LibemaxApiView, purpose: Purpose, discovery: DiscoveryBundleView },
    FetchingForm { batch: BatchView, url: Seq<char> },
    Posting { batch: BatchView },
}

impl DeepView for Job {
    type V = JobView;

    open spec fn deep_view(&self) -> JobView {
        match self {
            Job::LoggingIn { api, verifying, insert_form_url_override } => JobView::LoggingIn {
                api: api.deep_view(),
                verifying: *verifying,
                insert_form_url_override: insert_form_url_override@,
            },
            Job::Resending => JobView::Resending,
            Job::ReadingAdmin {
                api,
                purpose,
                insert_form_url_override,
                url,
            } => JobView::ReadingAdmin {
                api: api.deep_view(),
                purpose: *purpose,
                insert_form_url_override: insert_form_url_override@,
                url: url@,
            },
            Job::ReadingForm { api, purpose, page, url } => JobView::ReadingForm {
                api: api.deep_view(),
                purpose: *purpose,
                page: page.deep_view(),
                url: url@,
            },
            Job::SearchingByQuery {
                api,
                purpose,
                discovery,
                url,
                query,
            } => JobView::SearchingByQuery {
                api: api.deep_view(),
                purpose: *purpose,
                discovery: discovery.deep_view(),
                url: url@,
                query: query@,
            },
            Job::SearchingByForm { api, purpose, discovery } => JobView::SearchingByForm {
                api: api.deep_view(),
                purpose: *purpose,
                discovery: discovery.deep_view(),
            },
            Job::FetchingForm { batch, url } => JobView::FetchingForm {
                batch: batch.deep_view(),
                url: url@,
            },
            Job::Posting { batch } => JobView::Posting {
                batch: batch.deep_view(),
            },
        }
    }
}

/// What follows: a request whose reply the job waits for, or the end.
#[derive(Debug)]
pub enum Next {
    Perform(Job, Request),
    Finish(JobResult),
}

/// The content of `Next`.
#[verifier::ext_equal]
pub enum NextView {
    Perform(JobView, RequestView),
    Finish(JobResultView),
}

impl DeepView for Next {
    type V = NextView;

    open spec fn deep_view(&self) -> NextView {
        match self {
            Next::Perform(first, second) => NextView::Perform(
                first.deep_view(),
                second.deep_view(),
            ),
            Next::Finish(value) => NextView::Finish(value.deep_view()),
        }
    }
}

/// What follows a reply, and what happens to the stored cookies before.
#[derive(Debug)]
pub struct Step {
    pub save_cookies: bool,
    pub forget_cookies: bool,
    pub next: Next,
}

/// The content of `Step`.
#[verifier::ext_equal]
pub struct StepView {
    pub save_cookies: bool,
    pub forget_cookies: bool,
    pub next: NextView,
}

impl DeepView for Step {
    type V = StepView;

    open spec fn deep_view(&self) -> StepView {
        StepView {
            save_cookies: self.save_cookies,
            forget_cookies: self.forget_cookies,
            next: self.next.deep_view(),
        }
    }
}

/// A job that waits for a connection to its site.
pub struct Opening {
    pub api: LibemaxApi,
    pub work: Work,
}

/// The content of `Opening`.
#[verifier::ext_equal]
pub struct OpeningView {
    pub api: LibemaxApiView,
    pub work: WorkView,
}

impl DeepView for Opening {
    type V = OpeningView;

    open spec fn deep_view(&self) -> OpeningView {
        OpeningView {
            api: self.api.deep_view(),
            work: self.work.deep_view(),
        }
    }
}

/// The end of a job.
pub open spec fn finished(save_cookies: bool, result: JobResultView) -> StepView {
    StepView { save_cookies, forget_cookies: false, next: NextView::Finish(result) }
}

fn finish(save_cookies: bool, result: JobResult) -> (r: Step)
    ensures
        r.deep_view() == finished(save_cookies, result.deep_view()),
{
    Step { save_cookies, forget_cookies: false, next: Next::Finish(result) }
}

/// One more request.
pub open spec fn requested(save_cookies: bool, job: JobView, request: RequestView) -> StepView {
    StepView { save_cookies, forget_cookies: false, next: NextView::Perform(job, request) }
}

fn perform(save_cookies: bool, job: Job, request: Request) -> (r: Step)
    ensures
        r.deep_view() == requested(save_cookies, job.deep_view(), request.deep_view()),
{
    Step { save_cookies, forget_cookies: false, next: Next::Perform(job, request) }
}

impl WorkView {
    /// The end of a job whose site cannot be reached at all.
    pub open spec fn failed(self, message: Seq<char>) -> JobResultView {
        match self {
            WorkView::Login { .. } => JobResultView::Login(Err(message)),
            WorkView::VerifyMailCode { .. } => JobResultView::VerifyMailCode(Err(message)),
            WorkView::ResendMailCode { .. } => JobResultView::ResendMailCode(Err(message)),
            WorkView::RefreshDiscovery { .. } => JobResultView::RefreshDiscovery(Err(message)),
            WorkView::RestoreSession { .. } => JobResultView::RestoreSession(Err(message)),
            WorkView::SubmitBatch { .. } => JobResultView::SubmitBatch(Err(message)),
        }
    }
}

impl Work {
    /// The end of a job whose site cannot be reached at all.
    pub fn fail(&self, message: String) -> (r: JobResult)
        ensures
            r.deep_view() == self.deep_view().failed(message@),
    {
        match self {
            Work::Login { .. } => JobResult::Login(Err(message)),
            Work::VerifyMailCode { .. } => JobResult::VerifyMailCode(Err(message)),
            Work::ResendMailCode { .. } => JobResult::ResendMailCode(Err(message)),
            Work::RefreshDiscovery { .. } => JobResult::RefreshDiscovery(Err(message)),
            Work::RestoreSession { .. } => JobResult::RestoreSession(Err(message)),
            Work::SubmitBatch { .. } => JobResult::SubmitBatch(Err(message)),
        }
    }
}

/// How a job begins: with a connection to its site, unless the address of the site is none.
pub open spec fn begun(task: TaskView) -> Result<OpeningView, JobResultView> {
    match libemax::site_at(task.base_url, task.language) {
        Err(message) => Err(task.work.failed(message)),
        Ok(api) => Ok(OpeningView { api, work: task.work }),
    }
}

impl Task {
    /// Begins the job.
    pub fn begin(self) -> (r: Result<Opening, JobResult>)
        ensures
            match r {
                Ok(opening) => begun(self.deep_view()) == Ok::<OpeningView, JobResultView>(
                    opening.deep_view(),
                ),
                Err(result) => begun(self.deep_view()) == Err::<OpeningView, JobResultView>(
                    result.deep_view(),
                ),
            },
    {
        match LibemaxApi::new(self.base_url.as_str(), self.language.as_str()) {
            Err(message) => Err(self.work.fail(message)),
            Ok(api) => Ok(Opening { api, work: self.work }),
        }
    }
}

/// Whether a message says that the site asks to sign in again.
pub open spec fn says_signed_out(message: Seq<char>) -> bool {
    text::holds(message, "Sessione non autenticata"@)
}

/// Whether a message says that the site asks to sign in again.
pub fn is_signed_out(message: &str) -> (r: bool)
    ensures
        r == says_signed_out(message@),
{
    contains_text(message, "Sessione non autenticata")
}

/// The end of a job that the site did not let sign in.
pub open spec fn refused(save_cookies: bool, verifying: bool, message: Seq<char>) -> StepView {
    finished(
        save_cookies,
        if verifying {
            JobResultView::VerifyMailCode(Err(message))
        } else {
            JobResultView::Login(Err(message))
        },
    )
}

fn refuse(save_cookies: bool, verifying: bool, message: String) -> (r: Step)
    ensures
        r.deep_view() == refused(save_cookies, verifying, message@),
{
    if verifying {
        finish(save_cookies, JobResult::VerifyMailCode(Err(message)))
    } else {
        finish(save_cookies, JobResult::Login(Err(message)))
    }
}

/// What signing in has led to where no page with the form was found: the user is signed in, and
/// the form can be looked for at an address that the user names.
pub open spec fn signed_in_without_form(
    api: LibemaxApiView,
    message: Seq<char>,
) -> LoginSuccessView {
    LoginSuccessView {
        api,
        status_kind: StatusKind::Error,
        status_text: message,
        clear_otp: false,
        pending_mail_authentication: None,
        discovery: None,
        workplaces: Seq::empty(),
    }
}

fn sign_in_without_form(api: LibemaxApi, message: String) -> (r: LoginSuccess)
    ensures
        r.deep_view() == signed_in_without_form(api.deep_view(), message@),
{
    let workplaces: Vec<LookupItem> = Vec::new();
    assert(workplaces.deep_view() =~= Seq::empty());
    LoginSuccess {
        api,
        status_kind: StatusKind::Error,
        status_text: message,
        clear_otp: false,
        pending_mail_authentication: None,
        discovery: None,
        workplaces,
    }
}

/// The message that an earlier session does not go on.
pub open spec fn unrestored(message: Seq<char>) -> Seq<char> {
    "Impossibile ripristinare la sessione: "@ + message
}

fn tell_unrestored(message: &str) -> (r: String)
    ensures
        r@ == unrestored(message@),
{
    "Impossibile ripristinare la sessione: ".to_owned().concat(message)
}

/// What going on with an earlier session has led to where no page with the form was found: the
/// form can be looked for at an address that the user names.
pub open spec fn restored_without_form(
    api: LibemaxApiView,
    message: Seq<char>,
) -> RestoreSessionSuccessView {
    RestoreSessionSuccessView {
        api,
        discovery: None,
        workplaces: Seq::empty(),
        status_kind: StatusKind::Warning,
        status_text: unrestored(message),
    }
}

fn restore_without_form(api: LibemaxApi, message: String) -> (r: RestoreSessionSuccess)
    ensures
        r.deep_view() == restored_without_form(api.deep_view(), message@),
{
    let workplaces: Vec<LookupItem> = Vec::new();
    assert(workplaces.deep_view() =~= Seq::empty());
    RestoreSessionSuccess {
        api,
        discovery: None,
        workplaces,
        status_kind: StatusKind::Warning,
        status_text: tell_unrestored(message.as_str()),
    }
}

/// The end of a job that did not find the form. The site is kept where no page with the form was
/// found, so that the user can name one. An earlier session that the site no longer knows is
/// forgotten.
pub open spec fn undiscovered(
    save_cookies: bool,
    api: LibemaxApiView,
    purpose: Purpose,
    message: Seq<char>,
) -> StepView {
    let unnamed = message == libemax::no_insert_page();
    match purpose {
        Purpose::Login => if unnamed {
            finished(save_cookies, JobResultView::Login(Ok(signed_in_without_form(api, message))))
        } else {
            refused(save_cookies, false, message)
        },
        Purpose::VerifyMailCode => if unnamed {
            finished(
                save_cookies,
                JobResultView::VerifyMailCode(Ok(signed_in_without_form(api, message))),
            )
        } else {
            refused(save_cookies, true, message)
        },
        Purpose::RefreshDiscovery => finished(
            save_cookies,
            JobResultView::RefreshDiscovery(Err(message)),
        ),
        Purpose::RestoreSession => if says_signed_out(message) {
            StepView {
                save_cookies,
                forget_cookies: true,
                next: NextView::Finish(
                    JobResultView::RestoreSession(
                        Err("Sessione salvata scaduta, effettua di nuovo il login"@),
                    ),
                ),
            }
        } else if unnamed {
            finished(
                save_cookies,
                JobResultView::RestoreSession(Ok(restored_without_form(api, message))),
            )
        } else {
            finished(
                save_cookies,
                JobResultView::RestoreSession(Err(unrestored(message))),
            )
        },
    }
}

fn fail_discovery(save_cookies: bool, api: LibemaxApi, purpose: Purpose, message: String) -> (r:
    Step)
    ensures
        r.deep_view() == undiscovered(save_cookies, api.deep_view(), purpose, message@),
{
    let unnamed = is_no_insert_page(message.as_str());
    match purpose {
        Purpose::Login => {
            if unnamed {
                finish(save_cookies, JobResult::Login(Ok(sign_in_without_form(api, message))))
            } else {
                refuse(save_cookies, false, message)
            }
        },
        Purpose::VerifyMailCode => {
            if unnamed {
                finish(
                    save_cookies,
                    JobResult::VerifyMailCode(Ok(sign_in_without_form(api, message))),
                )
            } else {
                refuse(save_cookies, true, message)
            }
        },
        Purpose::RefreshDiscovery => finish(
            save_cookies,
            JobResult::RefreshDiscovery(Err(message)),
        ),
        Purpose::RestoreSession => {
            if is_signed_out(message.as_str()) {
                Step {
                    save_cookies,
                    forget_cookies: true,
                    next: Next::Finish(
                        JobResult::RestoreSession(
                            Err("Sessione salvata scaduta, effettua di nuovo il login".to_owned()),
                        ),
                    ),
                }
            } else if unnamed {
                finish(
                    save_cookies,
                    JobResult::RestoreSession(Ok(restore_without_form(api, message))),
                )
            } else {
                finish(
                    save_cookies,
                    JobResult::RestoreSession(Err(tell_unrestored(message.as_str()))),
                )
            }
        },
    }
}

/// What signing in has led to once the form is found.
pub open spec fn signed_in(
    api: LibemaxApiView,
    discovery: DiscoveryBundleView,
    workplaces: Seq<LookupItemView>,
    status_text: Seq<char>,
) -> LoginSuccessView {
    LoginSuccessView {
        api,
        status_kind: StatusKind::Success,
        status_text,
        clear_otp: true,
        pending_mail_authentication: None,
        discovery: Some(discovery),
        workplaces,
    }
}

/// The end of a job that found the form.
pub open spec fn discovered(
    api: LibemaxApiView,
    purpose: Purpose,
    discovery: DiscoveryBundleView,
    workplaces: Seq<LookupItemView>,
) -> JobResultView {
    match purpose {
        Purpose::Login => JobResultView::Login(
            Ok(signed_in(api, discovery, workplaces, "Login effettuato"@)),
        ),
        Purpose::VerifyMailCode => JobResultView::VerifyMailCode(
            Ok(signed_in(api, discovery, workplaces, "Codice verificato, sessione attiva"@)),
        ),
        Purpose::RefreshDiscovery => JobResultView::RefreshDiscovery(
            Ok(
                RefreshDiscoverySuccessView {
                    discovery,
                    workplaces,
                    status_kind: StatusKind::Success,
                    status_text: "Endpoint e form ore scoperti correttamente"@,
                },
            ),
        ),
        Purpose::RestoreSession => JobResultView::RestoreSession(
            Ok(
                RestoreSessionSuccessView {
                    api,
                    discovery: Some(discovery),
                    workplaces,
                    status_kind: StatusKind::Success,
                    status_text: "Sessione ripristinata"@,
                },
            ),
        ),
    }
}

fn end_discovery(
    api: LibemaxApi,
    purpose: Purpose,
    discovery: DiscoveryBundle,
    workplaces: Vec<LookupItem>,
) -> (r: JobResult)
    ensures
        r.deep_view() == discovered(
            api.deep_view(),
            purpose,
            discovery.deep_view(),
            workplaces.deep_view(),
        ),
{
    match purpose {
        Purpose::Login => JobResult::Login(
            Ok(
                LoginSuccess {
                    api,
                    status_kind: StatusKind::Success,
                    status_text: "Login effettuato".to_owned(),
                    clear_otp: true,
                    pending_mail_authentication: None,
                    discovery: Some(discovery),
                    workplaces,
                },
            ),
        ),
        Purpose::VerifyMailCode => JobResult::VerifyMailCode(
            Ok(
                LoginSuccess {
                    api,
                    status_kind: StatusKind::Success,
                    status_text: "Codice verificato, sessione attiva".to_owned(),
                    clear_otp: true,
                    pending_mail_authentication: None,
                    discovery: Some(discovery),
                    workplaces,
                },
            ),
        ),
        Purpose::RefreshDiscovery => JobResult::RefreshDiscovery(
            Ok(
                RefreshDiscoverySuccess {
                    discovery,
                    workplaces,
                    status_kind: StatusKind::Success,
                    status_text: "Endpoint e form ore scoperti correttamente".to_owned(),
                },
            ),
        ),
        Purpose::RestoreSession => JobResult::RestoreSession(
            Ok(
                RestoreSessionSuccess {
                    api,
                    discovery: Some(discovery),
                    workplaces,
                    status_kind: StatusKind::Success,
                    status_text: "Sessione ripristinata".to_owned(),
                },
            ),
        ),
    }
}

/// The search for the form begins with the admin page.
pub open spec fn discovery_begun(
    save_cookies: bool,
    api: LibemaxApiView,
    purpose: Purpose,
    insert_form_url_override: Seq<char>,
) -> StepView {
    match api.admin_page() {
        Err(message) => undiscovered(save_cookies, api, purpose, message),
        Ok(url) => requested(
            save_cookies,
            JobView::ReadingAdmin { api, purpose, insert_form_url_override, url },
            RequestView::Get { url },
        ),
    }
}

impl LibemaxApi {
    /// The search for the form begins with the admin page.
    pub fn discover(
        self,
        save_cookies: bool,
        purpose: Purpose,
        insert_form_url_override: String,
    ) -> (r: Step)
        ensures
            r.deep_view() == discovery_begun(
                save_cookies,
                self.deep_view(),
                purpose,
                insert_form_url_override@,
            ),
    {
        match self.admin_page_url() {
            Ok(url) => {
                let request = Request::Get { url: url.clone() };
                perform(
                    save_cookies,
                    Job::ReadingAdmin { api: self, purpose, insert_form_url_override, url },
                    request,
                )
            },
            Err(message) => fail_discovery(save_cookies, self, purpose, message),
        }
    }
}

/// How many bookings succeeded.
pub open spec fn success_count(results: Seq<BatchBookingResultView>) -> nat
    decreases results.len(),
{
    if results.len() == 0 {
        0
    } else {
        success_count(results.drop_last()) + if results.last().result is Ok { 1nat } else { 0 }
    }
}

proof fn lemma_success_count(results: Seq<BatchBookingResultView>)
    ensures
        success_count(results) <= results.len(),
    decreases results.len(),
{
    if results.len() > 0 {
        lemma_success_count(results.drop_last());
    }
}

/// What became of many bookings, in one line.
pub open spec fn batch_summary(results: Seq<BatchBookingResultView>) -> SubmitBatchSuccessView {
    let successes = success_count(results);
    let failures = (results.len() - successes) as nat;
    SubmitBatchSuccessView {
        results,
        status_kind: if failures == 0 { StatusKind::Success } else { StatusKind::Warning },
        status_text: if failures == 0 {
            "Prenotazioni create: "@ + text::decimal(successes) + " inserimenti"@
        } else {
            "Prenotazione multipla completata con "@ + text::decimal(successes)
                + " inserimenti riusciti e "@ + text::decimal(failures) + " errori"@
        },
    }
}

/// What became of many bookings, in one line.
pub fn summarize_batch(results: Vec<BatchBookingResult>) -> (r: SubmitBatchSuccess)
    ensures
        r.deep_view() == batch_summary(results.deep_view()),
{
    let ghost all = results.deep_view();
    let mut successes: usize = 0;
    for i in 0..results.len()
        invariant
            all == results.deep_view(),
            successes == success_count(all.take(i as int)),
            successes <= i,
    {
        proof {
            assert(all.take(i + 1).drop_last() =~= all.take(i as int));
            assert(all.take(i + 1).last() == results@[i as int].deep_view());
        }
        if let Ok(_) = &results[i].result {
            successes = successes + 1;
        }
    }
    proof {
        assert(all.take(all.len() as int) =~= all);
        lemma_success_count(all);
    }
    let failures: usize = results.len() - successes;
    let (status_kind, status_text) = if failures == 0 {
        (
            StatusKind::Success,
            "Prenotazioni create: ".to_owned().concat(
                decimal_text(successes as u64).as_str(),
            ).concat(" inserimenti"),
        )
    } else {
        (
            StatusKind::Warning,
            "Prenotazione multipla completata con ".to_owned().concat(
                decimal_text(successes as u64).as_str(),
            ).concat(" inserimenti riusciti e ").concat(
                decimal_text(failures as u64).as_str(),
            ).concat(" errori"),
        )
    };
    SubmitBatchSuccess { results, status_kind, status_text }
}

/// How many bookings go on: each is sent with the form as it is now, which is asked for first. A
/// booking that cannot be sent is noted and passed over.
pub open spec fn batch_continued(
    save_cookies: bool,
    api: LibemaxApiView,
    insert_form: InsertFormView,
    done: Seq<BatchBookingResultView>,
    rest: Seq<BookingSubmissionView>,
) -> StepView
    decreases rest.len(), 0int,
{
    if rest.len() == 0 {
        finished(save_cookies, JobResultView::SubmitBatch(Ok(batch_summary(done))))
    } else {
        let batch = BatchView {
            api,
            insert_form,
            done,
            current: rest[0],
            rest: rest.drop_first(),
        };
        match api.followed(insert_form.page_url) {
            Ok(url) => requested(
                save_cookies,
                JobView::FetchingForm { batch, url },
                RequestView::Get { url },
            ),
            Err(_) => match libemax::submit_request(insert_form, batch.current, false) {
                Ok(request) => requested(save_cookies, JobView::Posting { batch }, request),
                Err(message) => batch_continued(
                    save_cookies,
                    api,
                    insert_form,
                    done.push(booking::noted(batch.current, Err(message))),
                    batch.rest,
                ),
            },
        }
    }
}

/// The booking of a batch that is sent now, with `form` as the form that was just read.
pub open spec fn booking_sent(
    save_cookies: bool,
    batch: BatchView,
    form: InsertFormView,
) -> StepView {
    booking_decided(save_cookies, batch, libemax::submit_request(form, batch.current, false))
}

/// The booking of a batch that is sent now, once it is known what is to be sent, or why nothing
/// can be.
pub open spec fn booking_decided(
    save_cookies: bool,
    batch: BatchView,
    request: Result<RequestView, Seq<char>>,
) -> StepView {
    match request {
        Ok(sent) => requested(save_cookies, JobView::Posting { batch }, sent),
        Err(message) => booking_done(save_cookies, batch, Err(message)),
    }
}

/// What follows once it is known what became of the booking that was sent.
pub open spec fn booking_done(
    save_cookies: bool,
    batch: BatchView,
    outcome: Result<booking::SubmitOutcomeView, Seq<char>>,
) -> StepView {
    batch_continued(
        save_cookies,
        batch.api,
        batch.insert_form,
        batch.done.push(booking::noted(batch.current, outcome)),
        batch.rest,
    )
}

fn continue_batch(
    save_cookies: bool,
    api: LibemaxApi,
    insert_form: InsertForm,
    done: Vec<BatchBookingResult>,
    rest: Vec<BookingSubmission>,
) -> (r: Step)
    ensures
        r.deep_view() == batch_continued(
            save_cookies,
            api.deep_view(),
            insert_form.deep_view(),
            done.deep_view(),
            rest.deep_view(),
        ),
    decreases rest.deep_view().len(),
{
    if rest.len() == 0 {
        assert(rest.deep_view().len() == 0);
        return finish(save_cookies, JobResult::SubmitBatch(Ok(summarize_batch(done))));
    }
    let ghost waiting = rest.deep_view();
    let mut rest = rest;
    let current = rest.remove(0);
    proof {
        assert(waiting.len() > 0);
        assert(rest.deep_view() =~= waiting.drop_first());
        assert(current.deep_view() == waiting[0]);
    }
    match api.load_insert_form(insert_form.page_url.as_str()) {
        Ok(url) => {
            let request = Request::Get { url: url.clone() };
            let batch = Batch { api, insert_form, done, current, rest };
            perform(save_cookies, Job::FetchingForm { batch, url }, request)
        },
        Err(_) => match api.submit_booking(&insert_form, &current, false) {
            Ok(request) => {
                let batch = Batch { api, insert_form, done, current, rest };
                perform(save_cookies, Job::Posting { batch }, request)
            },
            Err(message) => {
                let ghost before = done.deep_view();
                let noted = note_result(&current, Err(message));
                let ghost one = noted.deep_view();
                let mut done = done;
                done.push(noted);
                assert(done.deep_view() =~= before.push(one));
                continue_batch(save_cookies, api, insert_form, done, rest)
            },
        },
    }
}

impl LibemaxApi {
    /// Sends many bookings, one after the other.
    pub fn submit_bookings_batch(
        self,
        insert_form: InsertForm,
        submissions: Vec<BookingSubmission>,
    ) -> (r: Step)
        ensures
            r.deep_view() == batch_continued(
                false,
                self.deep_view(),
                insert_form.deep_view(),
                Seq::empty(),
                submissions.deep_view(),
            ),
    {
        let done: Vec<BatchBookingResult> = Vec::new();
        assert(done.deep_view() =~= Seq::empty());
        continue_batch(false, self, insert_form, done, submissions)
    }
}

/// Notes what became of a booking, and goes on with the next.
pub fn end_booking(
    save_cookies: bool,
    batch: Batch,
    outcome: Result<booking::SubmitOutcome, String>,
) -> (r: Step)
    ensures
        r.deep_view() == booking_done(save_cookies, batch.deep_view(), text::outcome(outcome)),
{
    let ghost before = batch.done.deep_view();
    let noted = note_result(&batch.current, outcome);
    let ghost one = noted.deep_view();
    let mut done = batch.done;
    done.push(noted);
    assert(done.deep_view() =~= before.push(one));
    continue_batch(save_cookies, batch.api, batch.insert_form, done, batch.rest)
}

fn send_booking(save_cookies: bool, batch: Batch, form: &InsertForm) -> (r: Step)
    ensures
        r.deep_view() == booking_sent(save_cookies, batch.deep_view(), form.deep_view()),
{
    let request = batch.api.submit_booking(form, &batch.current, false);
    decide_booking(save_cookies, batch, request)
}

/// Sends a booking, or notes why it cannot be sent and goes on.
pub fn decide_booking(save_cookies: bool, batch: Batch, request: Result<Request, String>) -> (r:
    Step)
    ensures
        r.deep_view() == booking_decided(
            save_cookies,
            batch.deep_view(),
            text::outcome(request),
        ),
{
    match request {
        Ok(request) => perform(save_cookies, Job::Posting { batch }, request),
        Err(message) => end_booking(save_cookies, batch, Err(message)),
    }
}

/// The first request of a job, once there is a connection to its site, or its end where there is
/// none.
pub open spec fn first_step(opening: OpeningView, connected: Result<(), Seq<char>>) -> StepView {
    let api = opening.api;
    match connected {
        Err(message) => finished(false, opening.work.failed(message)),
        Ok(()) => match opening.work {
            WorkView::Login { username, password, remember, insert_form_url_override } =>
                match libemax::login_request(api, username, password, None, remember) {
                    Err(message) => finished(false, JobResultView::Login(Err(message))),
                    Ok(request) => requested(
                        false,
                        JobView::LoggingIn { api, verifying: false, insert_form_url_override },
                        request,
                    ),
                },
            WorkView::VerifyMailCode {
                username,
                password,
                otp_code,
                remember,
                insert_form_url_override,
            } => match libemax::login_request(
                api,
                username,
                password,
                Some(otp_code),
                remember,
            ) {
                Err(message) => finished(false, JobResultView::VerifyMailCode(Err(message))),
                Ok(request) => requested(
                    false,
                    JobView::LoggingIn { api, verifying: true, insert_form_url_override },
                    request,
                ),
            },
            WorkView::ResendMailCode { user_id } => match libemax::resend_request(api, user_id) {
                Err(message) => finished(false, JobResultView::ResendMailCode(Err(message))),
                Ok(request) => requested(false, JobView::Resending, request),
            },
            WorkView::RefreshDiscovery { insert_form_url_override } => discovery_begun(
                false,
                api,
                Purpose::RefreshDiscovery,
                insert_form_url_override,
            ),
            WorkView::RestoreSession { insert_form_url_override } => discovery_begun(
                false,
                api,
                Purpose::RestoreSession,
                insert_form_url_override,
            ),
            WorkView::SubmitBatch { insert_form, submissions } => batch_continued(
                false,
                api,
                insert_form,
                Seq::empty(),
                submissions,
            ),
        },
    }
}

impl Opening {
    /// The first request of the job, once there is a connection to its site, or its end where
    /// there is none.
    pub fn opened(self, connected: Result<(), String>) -> (r: Step)
        ensures
            r.deep_view() == first_step(self.deep_view(), crate::form::status(connected)),
    {
        if let Err(message) = connected {
            return finish(false, self.work.fail(message));
        }
        let api = self.api;
        match self.work {
            Work::Login { username, password, remember, insert_form_url_override } => {
                match api.login(username.as_str(), password.as_str(), None, remember) {
                    Err(message) => finish(false, JobResult::Login(Err(message))),
                    Ok(request) => perform(
                        false,
                        Job::LoggingIn { api, verifying: false, insert_form_url_override },
                        request,
                    ),
                }
            },
            Work::VerifyMailCode {
                username,
                password,
                otp_code,
                remember,
                insert_form_url_override,
            } => {
                match api.login(
                    username.as_str(),
                    password.as_str(),
                    Some(otp_code.as_str()),
                    remember,
                ) {
                    Err(message) => finish(false, JobResult::VerifyMailCode(Err(message))),
                    Ok(request) => perform(
                        false,
                        Job::LoggingIn { api, verifying: true, insert_form_url_override },
                        request,
                    ),
                }
            },
            Work::ResendMailCode { user_id } => match api.resend_mail_code(user_id.as_str()) {
                Err(message) => finish(false, JobResult::ResendMailCode(Err(message))),
                Ok(request) => perform(false, Job::Resending, request),
            },
            Work::RefreshDiscovery { insert_form_url_override } => api.discover(
                false,
                Purpose::RefreshDiscovery,
                insert_form_url_override,
            ),
            Work::RestoreSession { insert_form_url_override } => api.discover(
                false,
                Purpose::RestoreSession,
                insert_form_url_override,
            ),
            Work::SubmitBatch { insert_form, submissions } => api.submit_bookings_batch(
                insert_form,
                submissions,
            ),
        }
    }
}

/// What follows the reply to signing in, once it is read.
pub open spec fn after_login(
    api: LibemaxApiView,
    verifying: bool,
    insert_form_url_override: Seq<char>,
    outcome: Result<LoginOutcomeView, Seq<char>>,
) -> StepView {
    let purpose = if verifying { Purpose::VerifyMailCode } else { Purpose::Login };
    match outcome {
        Err(message) => refused(true, verifying, message),
        Ok(LoginOutcomeView::Authenticated) => discovery_begun(
            true,
            api,
            purpose,
            insert_form_url_override,
        ),
        Ok(LoginOutcomeView::NeedsMailAuthentication(prompt)) => if verifying {
            finished(
                true,
                JobResultView::VerifyMailCode(Err("Il server richiede ancora il codice mail"@)),
            )
        } else {
            finished(
                true,
                JobResultView::Login(
                    Ok(
                        LoginSuccessView {
                            api,
                            status_kind: StatusKind::Warning,
                            status_text: "Serve il codice ricevuto via mail: "@ + prompt.email,
                            clear_otp: false,
                            pending_mail_authentication: Some(prompt),
                            discovery: None,
                            workplaces: Seq::empty(),
                        },
                    ),
                ),
            )
        },
    }
}

/// What follows the reply to signing in, once it is read.
pub fn decide_login(
    api: LibemaxApi,
    verifying: bool,
    insert_form_url_override: String,
    outcome: Result<LoginOutcome, String>,
) -> (r: Step)
    ensures
        r.deep_view() == after_login(
            api.deep_view(),
            verifying,
            insert_form_url_override@,
            text::outcome(outcome),
        ),
{
    let purpose = if verifying { Purpose::VerifyMailCode } else { Purpose::Login };
    match outcome {
        Err(message) => refuse(true, verifying, message),
        Ok(LoginOutcome::Authenticated) => api.discover(
            true,
            purpose,
            insert_form_url_override,
        ),
        Ok(LoginOutcome::NeedsMailAuthentication(prompt)) => {
            if verifying {
                return finish(
                    true,
                    JobResult::VerifyMailCode(
                        Err("Il server richiede ancora il codice mail".to_owned()),
                    ),
                );
            }
            let status_text = "Serve il codice ricevuto via mail: ".to_owned().concat(
                prompt.email.as_str(),
            );
            let workplaces: Vec<LookupItem> = Vec::new();
            assert(workplaces.deep_view() =~= Seq::empty());
            finish(
                true,
                JobResult::Login(
                    Ok(
                        LoginSuccess {
                            api,
                            status_kind: StatusKind::Warning,
                            status_text,
                            clear_otp: false,
                            pending_mail_authentication: Some(prompt),
                            discovery: None,
                            workplaces,
                        },
                    ),
                ),
            )
        },
    }
}

/// What follows once the page that takes bookings is known.
pub open spec fn after_admin_page(
    save_cookies: bool,
    api: LibemaxApiView,
    purpose: Purpose,
    page: Result<InsertPageView, Seq<char>>,
) -> StepView {
    match page {
        Err(message) => undiscovered(save_cookies, api, purpose, message),
        Ok(found) => match api.followed(found.insert_form_url) {
            Err(message) => undiscovered(save_cookies, api, purpose, message),
            Ok(url) => requested(
                save_cookies,
                JobView::ReadingForm { api, purpose, page: found, url },
                RequestView::Get { url },
            ),
        },
    }
}

/// What follows once the page that takes bookings is known.
pub fn decide_admin_page(
    save_cookies: bool,
    api: LibemaxApi,
    purpose: Purpose,
    page: Result<InsertPage, String>,
) -> (r: Step)
    ensures
        r.deep_view() == after_admin_page(
            save_cookies,
            api.deep_view(),
            purpose,
            text::outcome(page),
        ),
{
    match page {
        Err(message) => fail_discovery(save_cookies, api, purpose, message),
        Ok(page) => match api.load_insert_form(page.insert_form_url.as_str()) {
            Err(message) => fail_discovery(save_cookies, api, purpose, message),
            Ok(url) => {
                let request = Request::Get { url: url.clone() };
                perform(save_cookies, Job::ReadingForm { api, purpose, page, url }, request)
            },
        },
    }
}

/// What follows once the form is known: the places of work are asked for, if it can be told
/// where.
pub open spec fn after_form_page(
    save_cookies: bool,
    api: LibemaxApiView,
    purpose: Purpose,
    page: InsertPageView,
    form: Result<InsertFormView, Seq<char>>,
) -> StepView {
    match form {
        Err(message) => undiscovered(save_cookies, api, purpose, message),
        Ok(insert_form) => {
            let discovery = DiscoveryBundleView {
                admin_page_url: page.admin_page_url,
                insert_form_url: page.insert_form_url,
                candidate_insert_urls: page.candidate_insert_urls,
                insert_form,
            };
            match libemax::clients_request(api, insert_form) {
                Ok(RequestView::Query { url, query }) => requested(
                    save_cookies,
                    JobView::SearchingByQuery { api, purpose, discovery, url, query },
                    RequestView::Query { url, query },
                ),
                _ => finished(save_cookies, discovered(api, purpose, discovery, Seq::empty())),
            }
        },
    }
}

/// What follows once the form is known.
pub fn decide_form_page(
    save_cookies: bool,
    api: LibemaxApi,
    purpose: Purpose,
    page: InsertPage,
    form: Result<InsertForm, String>,
) -> (r: Step)
    ensures
        r.deep_view() == after_form_page(
            save_cookies,
            api.deep_view(),
            purpose,
            page.deep_view(),
            text::outcome(form),
        ),
{
    match form {
        Err(message) => fail_discovery(save_cookies, api, purpose, message),
        Ok(insert_form) => {
            let request = api.preload_clients(&insert_form);
            let discovery = DiscoveryBundle {
                admin_page_url: page.admin_page_url,
                insert_form_url: page.insert_form_url,
                candidate_insert_urls: page.candidate_insert_urls,
                insert_form,
            };
            match request {
                Ok(Request::Query { url, query }) => {
                    let asked = Request::Query { url: url.clone(), query: query.clone() };
                    perform(
                        save_cookies,
                        Job::SearchingByQuery { api, purpose, discovery, url, query },
                        asked,
                    )
                },
                _ => {
                    let workplaces: Vec<LookupItem> = Vec::new();
                    assert(workplaces.deep_view() =~= Seq::empty());
                    finish(save_cookies, end_discovery(api, purpose, discovery, workplaces))
                },
            }
        },
    }
}

/// The end of a search, with the places of work by name, or with none where they could not be
/// had.
pub open spec fn after_lookup(
    api: LibemaxApiView,
    purpose: Purpose,
    discovery: DiscoveryBundleView,
    items: Result<Seq<LookupItemView>, Seq<char>>,
) -> StepView {
    let workplaces = match items {
        Ok(found) => lookup::by_name(found),
        Err(_) => Seq::empty(),
    };
    finished(false, discovered(api, purpose, discovery, workplaces))
}

/// The end of a search, with the places of work by name, or with none where they could not be
/// had.
pub fn decide_lookup(
    api: LibemaxApi,
    purpose: Purpose,
    discovery: DiscoveryBundle,
    items: Result<Vec<LookupItem>, String>,
) -> (r: Step)
    ensures
        r.deep_view() == after_lookup(
            api.deep_view(),
            purpose,
            discovery.deep_view(),
            text::outcome(items),
        ),
{
    let workplaces = match items {
        Ok(items) => sort_by_name(items),
        Err(_) => {
            let none: Vec<LookupItem> = Vec::new();
            assert(none.deep_view() =~= Seq::empty());
            none
        },
    };
    finish(false, end_discovery(api, purpose, discovery, workplaces))
}

/// What follows the reply to the last request of a job.
pub open spec fn next_step(job: JobView, reply: ReplyView) -> StepView {
    match job {
        JobView::LoggingIn { api, verifying, insert_form_url_override } =>
            match libemax::json_reply(reply, "login request failed"@) {
                Err(message) => refused(false, verifying, message),
                Ok(body) => after_login(
                    api,
                    verifying,
                    insert_form_url_override,
                    libemax::login_result(body),
                ),
            },
        JobView::Resending => match libemax::json_reply(
            reply,
            "failed to request a new mail authentication code"@,
        ) {
            Err(message) => finished(false, JobResultView::ResendMailCode(Err(message))),
            Ok(body) => finished(
                true,
                JobResultView::ResendMailCode(libemax::resend_result(body)),
            ),
        },
        JobView::ReadingAdmin { api, purpose, insert_form_url_override, url } => after_admin_page(
            reply is Answer,
            api,
            purpose,
            match libemax::page_reply(url, reply) {
                Err(message) => Err(message),
                Ok(html) => libemax::insert_page_in(html, url, insert_form_url_override),
            },
        ),
        JobView::ReadingForm { api, purpose, page, url } => after_form_page(
            reply is Answer,
            api,
            purpose,
            page,
            libemax::form_reply(url, reply),
        ),
        JobView::SearchingByQuery { api, purpose, discovery, url, query } =>
            match libemax::query_reply(reply) {
                Some(items) => after_lookup(api, purpose, discovery, items),
                None => requested(
                    false,
                    JobView::SearchingByForm { api, purpose, discovery },
                    libemax::lookup_form(url, query),
                ),
            },
        JobView::SearchingByForm { api, purpose, discovery } => after_lookup(
            api,
            purpose,
            discovery,
            libemax::lookup_form_reply(reply),
        ),
        JobView::FetchingForm { batch, url } => booking_sent(
            reply is Answer,
            batch,
            match libemax::form_reply(url, reply) {
                Ok(form) => form,
                Err(_) => batch.insert_form,
            },
        ),
        JobView::Posting { batch } => booking_done(
            false,
            batch,
            libemax::booking_reply(reply, false),
        ),
    }
}

impl Job {
    /// What follows the reply to the last request of the job.
    pub fn answer(self, reply: Reply) -> (r: Step)
        ensures
            r.deep_view() == next_step(self.deep_view(), reply.deep_view()),
    {
        let answered = matches!(reply, Reply::Answer { .. });
        match self {
            Job::LoggingIn { api, verifying, insert_form_url_override } => {
                match response_to_json(&reply, "login request failed") {
                    Err(message) => refuse(false, verifying, message),
                    Ok(body) => decide_login(
                        api,
                        verifying,
                        insert_form_url_override,
                        read_login_body(&body),
                    ),
                }
            },
            Job::Resending => {
                match response_to_json(
                    &reply,
                    "failed to request a new mail authentication code",
                ) {
                    Err(message) => finish(false, JobResult::ResendMailCode(Err(message))),
                    Ok(body) => finish(true, JobResult::ResendMailCode(read_resend_body(&body))),
                }
            },
            Job::ReadingAdmin { api, purpose, insert_form_url_override, url } => {
                let page = match read_page(url.as_str(), reply) {
                    Err(message) => Err(message),
                    Ok(html) => find_insert_page(
                        html.as_str(),
                        url.as_str(),
                        insert_form_url_override.as_str(),
                    ),
                };
                decide_admin_page(answered, api, purpose, page)
            },
            Job::ReadingForm { api, purpose, page, url } => decide_form_page(
                answered,
                api,
                purpose,
                page,
                read_form_page(url.as_str(), reply),
            ),
            Job::SearchingByQuery { api, purpose, discovery, url, query } => {
                match read_query_reply(&reply) {
                    Some(items) => decide_lookup(api, purpose, discovery, items),
                    None => perform(
                        false,
                        Job::SearchingByForm { api, purpose, discovery },
                        lookup_as_form(url, query),
                    ),
                }
            },
            Job::SearchingByForm { api, purpose, discovery } => decide_lookup(
                api,
                purpose,
                discovery,
                read_lookup_form_reply(&reply),
            ),
            Job::FetchingForm { batch, url } => {
                let form = match read_form_page(url.as_str(), reply) {
                    Ok(form) => form,
                    Err(_) => batch.insert_form.clone(),
                };
                send_booking(answered, batch, &form)
            },
            Job::Posting { batch } => {
                let outcome = read_booking_reply(&reply, false);
                end_booking(false, batch, outcome)
            },
        }
    }
}

/// An upper bound on the requests that a job still makes, the one that it waits for among them.
pub open spec fn requests_left(job: JobView) -> nat {
    match job {
        JobView::LoggingIn { .. } => 5,
        JobView::Resending => 1,
        JobView::ReadingAdmin { .. } => 4,
        JobView::ReadingForm { .. } => 3,
        JobView::SearchingByQuery { .. } => 2,
        JobView::SearchingByForm { .. } => 1,
        JobView::FetchingForm { batch, .. } => 2 * batch.rest.len() + 2,
        JobView::Posting { batch } => 2 * batch.rest.len() + 1,
    }
}

proof fn lemma_batch_requests(
    save_cookies: bool,
    api: LibemaxApiView,
    insert_form: InsertFormView,
    done: Seq<BatchBookingResultView>,
    rest: Seq<BookingSubmissionView>,
)
    ensures
        batch_continued(save_cookies, api, insert_form, done, rest).next matches NextView::Perform(
            next,
            _,
        ) ==> requests_left(next) <= 2 * rest.len(),
    decreases rest.len(),
{
    if rest.len() > 0 {
        if api.followed(insert_form.page_url) is Err {
            if let Err(message) = libemax::submit_request(insert_form, rest[0], false) {
                lemma_batch_requests(
                    save_cookies,
                    api,
                    insert_form,
                    done.push(booking::noted(rest[0], Err(message))),
                    rest.drop_first(),
                );
            }
        }
    }
}

/// Every job ends: whatever the site replies, each reply leaves fewer requests to make.
pub proof fn law_job_ends(job: JobView, reply: ReplyView)
    ensures
        next_step(job, reply).next matches NextView::Perform(next, _) ==> requests_left(next)
            < requests_left(job),
{
    match job {
        JobView::FetchingForm { batch, url } => {
            let form = match libemax::form_reply(url, reply) {
                Ok(form) => form,
                Err(_) => batch.insert_form,
            };
            if let Err(message) = libemax::submit_request(form, batch.current, false) {
                lemma_batch_requests(
                    reply is Answer,
                    batch.api,
                    batch.insert_form,
                    batch.done.push(booking::noted(batch.current, Err(message))),
                    batch.rest,
                );
            }
        },
        JobView::Posting { batch } => {
            lemma_batch_requests(
                false,
                batch.api,
                batch.insert_form,
                batch.done.push(
                    booking::noted(batch.current, libemax::booking_reply(reply, false)),
                ),
                batch.rest,
            );
        },
        _ => {},
    }
}

/// When a booking is for: its day, its start and its end.
pub type Slot = (Seq<char>, Seq<char>, Seq<char>);

/// When bookings that are done were for.
pub open spec fn slots_done(results: Seq<BatchBookingResultView>) -> Seq<Slot> {
    results.map_values(|r: BatchBookingResultView| (r.date, r.start_time, r.end_time))
}

/// When bookings to come are for.
pub open spec fn slots_to_come(submissions: Seq<BookingSubmissionView>) -> Seq<Slot> {
    submissions.map_values(|s: BookingSubmissionView| (s.start_date, s.start_time, s.end_time))
}

/// When the bookings of a job are for, done or to come.
pub open spec fn slots_of(job: JobView) -> Seq<Slot> {
    match job {
        JobView::FetchingForm { batch, .. } => slots_done(batch.done) + slots_to_come(
            seq![batch.current] + batch.rest,
        ),
        JobView::Posting { batch } => slots_done(batch.done) + slots_to_come(
            seq![batch.current] + batch.rest,
        ),
        _ => Seq::empty(),
    }
}

/// Whether what follows still has bookings for `slots`, all of them and in this order: as
/// bookings of the next job, or as results at the end.
pub open spec fn keeps_slots(next: NextView, slots: Seq<Slot>) -> bool {
    match next {
        NextView::Perform(job, _) => (job is FetchingForm || job is Posting) && slots_of(job)
            == slots,
        NextView::Finish(JobResultView::SubmitBatch(Ok(success))) => slots_done(success.results)
            == slots,
        NextView::Finish(_) => false,
    }
}

proof fn lemma_batch_slots(
    save_cookies: bool,
    api: LibemaxApiView,
    insert_form: InsertFormView,
    done: Seq<BatchBookingResultView>,
    rest: Seq<BookingSubmissionView>,
)
    ensures
        keeps_slots(
            batch_continued(save_cookies, api, insert_form, done, rest).next,
            slots_done(done) + slots_to_come(rest),
        ),
    decreases rest.len(),
{
    if rest.len() == 0 {
        assert(slots_done(done) + slots_to_come(rest) =~= slots_done(done));
    } else {
        assert(seq![rest[0]] + rest.drop_first() =~= rest);
        if api.followed(insert_form.page_url) is Err {
            if let Err(message) = libemax::submit_request(insert_form, rest[0], false) {
                let noted = done.push(booking::noted(rest[0], Err(message)));
                lemma_batch_slots(save_cookies, api, insert_form, noted, rest.drop_first());
                assert(slots_done(noted) + slots_to_come(rest.drop_first()) =~= slots_done(done)
                    + slots_to_come(rest));
            }
        }
    }
}

proof fn lemma_done_slots(
    save_cookies: bool,
    batch: BatchView,
    outcome: Result<booking::SubmitOutcomeView, Seq<char>>,
)
    ensures
        keeps_slots(
            booking_done(save_cookies, batch, outcome).next,
            slots_done(batch.done) + slots_to_come(seq![batch.current] + batch.rest),
        ),
{
    let noted = batch.done.push(booking::noted(batch.current, outcome));
    lemma_batch_slots(save_cookies, batch.api, batch.insert_form, noted, batch.rest);
    assert(slots_done(noted) + slots_to_come(batch.rest) =~= slots_done(batch.done)
        + slots_to_come(seq![batch.current] + batch.rest));
}

/// Many bookings lead to one result for each, in their order, whatever the site replies: the
/// first step takes them all up, and every reply keeps them.
pub proof fn law_one_result_each(
    opening: OpeningView,
    job: JobView,
    reply: ReplyView,
)
    ensures
        opening.work matches WorkView::SubmitBatch { insert_form, submissions } ==> keeps_slots(
            first_step(opening, Ok(())).next,
            slots_to_come(submissions),
        ),
        job is FetchingForm || job is Posting ==> keeps_slots(
            next_step(job, reply).next,
            slots_of(job),
        ),
{
    if let WorkView::SubmitBatch { insert_form, submissions } = opening.work {
        lemma_batch_slots(false, opening.api, insert_form, Seq::empty(), submissions);
        assert(slots_done(Seq::empty()) + slots_to_come(submissions) =~= slots_to_come(
            submissions,
        ));
    }
    match job {
        JobView::FetchingForm { batch, url } => {
            let form = match libemax::form_reply(url, reply) {
                Ok(form) => form,
                Err(_) => batch.insert_form,
            };
            if let Err(message) = libemax::submit_request(form, batch.current, false) {
                lemma_done_slots(reply is Answer, batch, Err(message));
            }
        },
        JobView::Posting { batch } => {
            lemma_done_slots(false, batch, libemax::booking_reply(reply, false));
        },
        _ => {},
    }
}

/// The results that are noted so far.
pub open spec fn results_so_far(next: NextView) -> Seq<BatchBookingResultView> {
    match next {
        NextView::Perform(JobView::FetchingForm { batch, .. }, _) => batch.done,
        NextView::Perform(JobView::Posting { batch }, _) => batch.done,
        NextView::Finish(JobResultView::SubmitBatch(Ok(success))) => success.results,
        _ => Seq::empty(),
    }
}

/// Whether the results that follow are those that were `noted`, and after them only bookings of
/// `rest` that were passed over, each with the message why it could not be sent.
pub open spec fn adds_passed_over(
    results: Seq<BatchBookingResultView>,
    noted: Seq<BatchBookingResultView>,
    insert_form: InsertFormView,
    rest: Seq<BookingSubmissionView>,
) -> bool {
    &&& noted.len() <= results.len() <= noted.len() + rest.len()
    &&& forall|i: int| 0 <= i < noted.len() ==> #[trigger] results[i] == noted[i]
    &&& forall|i: int|
        noted.len() <= i < results.len() ==> {
            let passed = rest[i - noted.len()];
            libemax::submit_request(insert_form, passed, false) matches Err(message)
                && #[trigger] results[i] == booking::noted(passed, Err(message))
        }
}

proof fn lemma_batch_results(
    save_cookies: bool,
    api: LibemaxApiView,
    insert_form: InsertFormView,
    done: Seq<BatchBookingResultView>,
    rest: Seq<BookingSubmissionView>,
)
    ensures
        adds_passed_over(
            results_so_far(batch_continued(save_cookies, api, insert_form, done, rest).next),
            done,
            insert_form,
            rest,
        ),
    decreases rest.len(),
{
    if rest.len() > 0 && api.followed(insert_form.page_url) is Err {
        if let Err(message) = libemax::submit_request(insert_form, rest[0], false) {
            let one = booking::noted(rest[0], Err(message));
            let later = rest.drop_first();
            lemma_batch_results(save_cookies, api, insert_form, done.push(one), later);
            let results = results_so_far(
                batch_continued(save_cookies, api, insert_form, done.push(one), later).next,
            );
            assert(results == results_so_far(
                batch_continued(save_cookies, api, insert_form, done, rest).next,
            ));
            assert(results[done.len() as int] == done.push(one)[done.len() as int]);
            assert forall|i: int| 0 <= i < done.len() implies #[trigger] results[i] == done[i] by {
                assert(results[i] == done.push(one)[i]);
            }
            assert forall|i: int| done.len() < i < results.len() implies ({
                let passed = rest[i - done.len()];
                libemax::submit_request(insert_form, passed, false) matches Err(message)
                    && #[trigger] results[i] == booking::noted(passed, Err(message))
            }) by {
                let result = results[i];
                assert(later[i - done.push(one).len()] == rest[i - done.len()]);
            }
        }
    }
}

/// The result of a booking is what the reply to it says, or the message why it could not be sent,
/// and results that are noted stay: after the reply to a booking come the earlier results, the
/// one of this reply, and those of bookings that could not be sent at all. While the form of a
/// booking is fetched, nothing is noted unless the booking cannot be sent.
pub proof fn law_results_kept(job: JobView, reply: ReplyView)
    ensures
        job matches JobView::Posting { batch } ==> adds_passed_over(
            results_so_far(next_step(job, reply).next),
            batch.done.push(booking::noted(batch.current, libemax::booking_reply(reply, false))),
            batch.insert_form,
            batch.rest,
        ),
        job matches JobView::FetchingForm { batch, url } ==> {
            let form = match libemax::form_reply(url, reply) {
                Ok(form) => form,
                Err(_) => batch.insert_form,
            };
            match libemax::submit_request(form, batch.current, false) {
                Ok(request) => next_step(job, reply).next == NextView::Perform(
                    JobView::Posting { batch },
                    request,
                ),
                Err(message) => adds_passed_over(
                    results_so_far(next_step(job, reply).next),
                    batch.done.push(booking::noted(batch.current, Err(message))),
                    batch.insert_form,
                    batch.rest,
                ),
            }
        },
{
    match job {
        JobView::FetchingForm { batch, url } => {
            let form = match libemax::form_reply(url, reply) {
                Ok(form) => form,
                Err(_) => batch.insert_form,
            };
            if let Err(message) = libemax::submit_request(form, batch.current, false) {
                lemma_batch_results(
                    reply is Answer,
                    batch.api,
                    batch.insert_form,
                    batch.done.push(booking::noted(batch.current, Err(message))),
                    batch.rest,
                );
            }
        },
        JobView::Posting { batch } => {
            lemma_batch_results(
                false,
                batch.api,
                batch.insert_form,
                batch.done.push(
                    booking::noted(batch.current, libemax::booking_reply(reply, false)),
                ),
                batch.rest,
            );
        },
        _ => {},
    }
}

proof fn lemma_continued_forgets_nothing(
    save_cookies: bool,
    api: LibemaxApiView,
    insert_form: InsertFormView,
    done: Seq<BatchBookingResultView>,
    rest: Seq<BookingSubmissionView>,
)
    ensures
        !batch_continued(save_cookies, api, insert_form, done, rest).forget_cookies,
        batch_continued(save_cookies, api, insert_form, done, rest).save_cookies == save_cookies,
    decreases rest.len(),
{
    if rest.len() > 0 {
        if let Err(message) = libemax::submit_request(insert_form, rest[0], false) {
            lemma_continued_forgets_nothing(
                save_cookies,
                api,
                insert_form,
                done.push(booking::noted(rest[0], Err(message))),
                rest.drop_first(),
            );
        }
    }
}

proof fn lemma_batch_forgets_nothing(job: JobView, reply: ReplyView)
    ensures
        job matches JobView::FetchingForm { batch, url } ==> !next_step(job, reply).forget_cookies
            && next_step(job, reply).save_cookies == (reply is Answer),
        job matches JobView::Posting { batch } ==> !next_step(job, reply).forget_cookies
            && !next_step(job, reply).save_cookies,
{
    match job {
        JobView::FetchingForm { batch, url } => {
            let form = match libemax::form_reply(url, reply) {
                Ok(form) => form,
                Err(_) => batch.insert_form,
            };
            if let Err(message) = libemax::submit_request(form, batch.current, false) {
                lemma_continued_forgets_nothing(
                    reply is Answer,
                    batch.api,
                    batch.insert_form,
                    batch.done.push(booking::noted(batch.current, Err(message))),
                    batch.rest,
                );
            }
        },
        JobView::Posting { batch } => {
            lemma_continued_forgets_nothing(
                false,
                batch.api,
                batch.insert_form,
                batch.done.push(
                    booking::noted(batch.current, libemax::booking_reply(reply, false)),
                ),
                batch.rest,
            );
        },
        _ => {},
    }
}

/// An earlier session that the site no longer knows is forgotten, and the user is told; and
/// nothing else makes a job forget the cookies.
pub proof fn law_lost_session_forgotten(job: JobView, reply: ReplyView)
    ensures
        (reply matches ReplyView::Answer { text, .. } && libemax::asks_to_log_in(text)) && (
        job matches JobView::ReadingAdmin { purpose, .. } && purpose == Purpose::RestoreSession)
            ==> next_step(job, reply) == (StepView {
            save_cookies: true,
            forget_cookies: true,
            next: NextView::Finish(
                JobResultView::RestoreSession(
                    Err("Sessione salvata scaduta, effettua di nuovo il login"@),
                ),
            ),
        }),
        next_step(job, reply).forget_cookies ==> next_step(job, reply).next == NextView::Finish(
            JobResultView::RestoreSession(
                Err("Sessione salvata scaduta, effettua di nuovo il login"@),
            ),
        ),
{
    let message = libemax::signed_out();
    reveal_strlit("Sessione non autenticata o scaduta: effettua di nuovo il login");
    reveal_strlit("Sessione non autenticata");
    let needle = "Sessione non autenticata"@;
    assert(message.subrange(0int, 0int + needle.len()) =~= needle);
    assert(says_signed_out(message));
    lemma_batch_forgets_nothing(job, reply);
}

/// Cookies are stored only after a reply whose text could be read.
pub proof fn law_cookies_from_replies(job: JobView, reply: ReplyView)
    ensures
        next_step(job, reply).save_cookies ==> reply is Answer,
{
    lemma_batch_forgets_nothing(job, reply);
}

/// Signing in, without a code or with one.
pub open spec fn sign_in(
    username: Seq<char>,
    password: Seq<char>,
    otp_code: Option<Seq<char>>,
    remember: bool,
    insert_form_url_override: Seq<char>,
) -> WorkView {
    match otp_code {
        None => WorkView::Login { username, password, remember, insert_form_url_override },
        Some(code) => WorkView::VerifyMailCode {
            username,
            password,
            otp_code: code,
            remember,
            insert_form_url_override,
        },
    }
}

/// The password goes into the request that signs in, at the page for that, and nowhere else: what
/// the job does afterwards does not depend on it.
pub proof fn law_password_sent_once(
    api: LibemaxApiView,
    username: Seq<char>,
    otp_code: Option<Seq<char>>,
    remember: bool,
    insert_form_url_override: Seq<char>,
    password: Seq<char>,
    other: Seq<char>,
)
    ensures
        ({
            let work = sign_in(username, password, otp_code, remember, insert_form_url_override);
            let like = sign_in(username, other, otp_code, remember, insert_form_url_override);
            match (
                first_step(OpeningView { api, work }, Ok(())).next,
                first_step(OpeningView { api, work: like }, Ok(())).next,
            ) {
                (NextView::Perform(job, RequestView::Post { url, .. }), NextView::Perform(same, _))
                    => job == same && api.login_page() == Ok::<Seq<char>, Seq<char>>(url),
                (NextView::Finish(result), NextView::Finish(same)) => result == same,
                _ => false,
            }
        }),
{
}

/// What a job is for: signing in, signing in with a code, asking for another code, looking for the
/// form, going on with a session, or booking.
pub enum Aim {
    SignIn,
    SignInWithCode,
    AskForCode,
    FindForm,
    GoOn,
    Book,
}

/// What a work is for.
pub open spec fn aim_of_work(work: WorkView) -> Aim {
    match work {
        WorkView::Login { .. } => Aim::SignIn,
        WorkView::VerifyMailCode { .. } => Aim::SignInWithCode,
        WorkView::ResendMailCode { .. } => Aim::AskForCode,
        WorkView::RefreshDiscovery { .. } => Aim::FindForm,
        WorkView::RestoreSession { .. } => Aim::GoOn,
        WorkView::SubmitBatch { .. } => Aim::Book,
    }
}

/// What the search for the form is for.
pub open spec fn aim_of_search(purpose: Purpose) -> Aim {
    match purpose {
        Purpose::Login => Aim::SignIn,
        Purpose::VerifyMailCode => Aim::SignInWithCode,
        Purpose::RefreshDiscovery => Aim::FindForm,
        Purpose::RestoreSession => Aim::GoOn,
    }
}

/// What a job that waits for a reply is for.
pub open spec fn aim_of_job(job: JobView) -> Aim {
    match job {
        JobView::LoggingIn { verifying, .. } => if verifying {
            Aim::SignInWithCode
        } else {
            Aim::SignIn
        },
        JobView::Resending => Aim::AskForCode,
        JobView::ReadingAdmin { purpose, .. } => aim_of_search(purpose),
        JobView::ReadingForm { purpose, .. } => aim_of_search(purpose),
        JobView::SearchingByQuery { purpose, .. } => aim_of_search(purpose),
        JobView::SearchingByForm { purpose, .. } => aim_of_search(purpose),
        JobView::FetchingForm { .. } => Aim::Book,
        JobView::Posting { .. } => Aim::Book,
    }
}

/// What a result is of.
pub open spec fn aim_of_result(result: JobResultView) -> Aim {
    match result {
        JobResultView::Login(_) => Aim::SignIn,
        JobResultView::VerifyMailCode(_) => Aim::SignInWithCode,
        JobResultView::ResendMailCode(_) => Aim::AskForCode,
        JobResultView::RefreshDiscovery(_) => Aim::FindForm,
        JobResultView::RestoreSession(_) => Aim::GoOn,
        JobResultView::SubmitBatch(_) => Aim::Book,
    }
}

/// What the next request or the end is of.
pub open spec fn aim_of_next(next: NextView) -> Aim {
    match next {
        NextView::Perform(job, _) => aim_of_job(job),
        NextView::Finish(result) => aim_of_result(result),
    }
}

/// The site that a job works at, where it still needs one.
pub open spec fn site_of(job: JobView) -> Option<LibemaxApiView> {
    match job {
        JobView::LoggingIn { api, .. } => Some(api),
        JobView::Resending => None,
        JobView::ReadingAdmin { api, .. } => Some(api),
        JobView::ReadingForm { api, .. } => Some(api),
        JobView::SearchingByQuery { api, .. } => Some(api),
        JobView::SearchingByForm { api, .. } => Some(api),
        JobView::FetchingForm { batch, .. } => Some(batch.api),
        JobView::Posting { batch } => Some(batch.api),
    }
}

proof fn lemma_batch_aim(
    save_cookies: bool,
    api: LibemaxApiView,
    insert_form: InsertFormView,
    done: Seq<BatchBookingResultView>,
    rest: Seq<BookingSubmissionView>,
)
    ensures
        ({
            let next = batch_continued(save_cookies, api, insert_form, done, rest).next;
            &&& aim_of_next(next) == Aim::Book
            &&& next matches NextView::Perform(job, _) ==> site_of(job) == Some(api)
        }),
    decreases rest.len(),
{
    if rest.len() > 0 {
        if let Err(message) = libemax::submit_request(insert_form, rest[0], false) {
            lemma_batch_aim(
                save_cookies,
                api,
                insert_form,
                done.push(booking::noted(rest[0], Err(message))),
                rest.drop_first(),
            );
        }
    }
}

/// A job keeps to what it is for and to its site from its first request to its end, whatever
/// happens.
pub proof fn law_aim_kept(
    opening: OpeningView,
    connected: Result<(), Seq<char>>,
    job: JobView,
    reply: ReplyView,
)
    ensures
        aim_of_next(first_step(opening, connected).next) == aim_of_work(opening.work),
        first_step(opening, connected).next matches NextView::Perform(next, _) ==> site_of(next)
            is None || site_of(next) == Some(opening.api),
        aim_of_next(next_step(job, reply).next) == aim_of_job(job),
        next_step(job, reply).next matches NextView::Perform(next, _) ==> site_of(next) == site_of(
            job,
        ),
{
    if let WorkView::SubmitBatch { insert_form, submissions } = opening.work {
        lemma_batch_aim(false, opening.api, insert_form, Seq::empty(), submissions);
    }
    match job {
        JobView::FetchingForm { batch, url } => {
            let form = match libemax::form_reply(url, reply) {
                Ok(form) => form,
                Err(_) => batch.insert_form,
            };
            if let Err(message) = libemax::submit_request(form, batch.current, false) {
                lemma_batch_aim(
                    reply is Answer,
                    batch.api,
                    batch.insert_form,
                    batch.done.push(booking::noted(batch.current, Err(message))),
                    batch.rest,
                );
            }
        },
        JobView::Posting { batch } => {
            lemma_batch_aim(
                false,
                batch.api,
                batch.insert_form,
                batch.done.push(
                    booking::noted(batch.current, libemax::booking_reply(reply, false)),
                ),
                batch.rest,
            );
        },
        _ => {},
    }
}

/// The message with which a result says that a job failed.
pub open spec fn failure(result: JobResultView) -> Option<Seq<char>> {
    match result {
        JobResultView::Login(Err(message)) => Some(message),
        JobResultView::VerifyMailCode(Err(message)) => Some(message),
        JobResultView::ResendMailCode(Err(message)) => Some(message),
        JobResultView::RefreshDiscovery(Err(message)) => Some(message),
        JobResultView::RestoreSession(Err(message)) => Some(message),
        JobResultView::SubmitBatch(Err(message)) => Some(message),
        _ => None,
    }
}

/// A job whose site has no address, or to whose site there is no connection, ends before its first
/// request with the message why. Any other begins with its own work at the site that was named.
pub proof fn law_job_begins(task: TaskView, opening: OpeningView, message: Seq<char>)
    ensures
        match libemax::site_at(task.base_url, task.language) {
            Err(reason) => begun(task) matches Err(result) && failure(result) == Some(reason)
                && aim_of_result(result) == aim_of_work(task.work),
            Ok(api) => begun(task) matches Ok(begins) && begins.api == api && begins.work
                == task.work,
        },
        first_step(opening, Err(message)).next matches NextView::Finish(result) && failure(result)
            == Some(message),
        !first_step(opening, Err(message)).save_cookies,
        !first_step(opening, Err(message)).forget_cookies,
{
}

/// Signing in begins with the request that signs in, with the user name and the password given,
/// with the code exactly where one is to be verified, and with what is to be remembered. Another
/// code is asked for with the user that is waiting for it.
pub proof fn law_first_request(opening: OpeningView)
    ensures
        match opening.work {
            WorkView::Login { username, password, remember, insert_form_url_override } => match (
                libemax::login_request(opening.api, username, password, None, remember),
                first_step(opening, Ok(())).next,
            ) {
                (Ok(request), NextView::Perform(job, sent)) => sent == request && job
                    == (JobView::LoggingIn {
                    api: opening.api,
                    verifying: false,
                    insert_form_url_override,
                }),
                (Err(message), NextView::Finish(result)) => failure(result) == Some(message),
                _ => false,
            },
            WorkView::VerifyMailCode {
                username,
                password,
                otp_code,
                remember,
                insert_form_url_override,
            } => match (
                libemax::login_request(opening.api, username, password, Some(otp_code), remember),
                first_step(opening, Ok(())).next,
            ) {
                (Ok(request), NextView::Perform(job, sent)) => sent == request && job
                    == (JobView::LoggingIn {
                    api: opening.api,
                    verifying: true,
                    insert_form_url_override,
                }),
                (Err(message), NextView::Finish(result)) => failure(result) == Some(message),
                _ => false,
            },
            WorkView::ResendMailCode { user_id } => match (
                libemax::resend_request(opening.api, user_id),
                first_step(opening, Ok(())).next,
            ) {
                (Ok(request), NextView::Perform(job, sent)) => sent == request && job is Resending,
                (Err(message), NextView::Finish(result)) => failure(result) == Some(message),
                _ => false,
            },
            _ => true,
        },
        !first_step(opening, Ok(())).save_cookies,
{
    if let WorkView::SubmitBatch { insert_form, submissions } = opening.work {
        lemma_continued_forgets_nothing(
            false,
            opening.api,
            insert_form,
            Seq::empty(),
            submissions,
        );
    }
}

/// Whether the admin page is asked for next, to look for the form.
pub open spec fn asks_for_admin_page(
    next: NextView,
    api: LibemaxApiView,
    purpose: Purpose,
    insert_form_url_override: Seq<char>,
    page: Seq<char>,
) -> bool {
    next == NextView::Perform(
        JobView::ReadingAdmin { api, purpose, insert_form_url_override, url: page },
        RequestView::Get { url: page },
    )
}

/// Looking for the form, going on with an earlier session and a sign-in that succeeded all ask for
/// the admin page next, with the address of the form that the user named.
pub proof fn law_search_begins(
    api: LibemaxApiView,
    named: Seq<char>,
    verifying: bool,
    page: Seq<char>,
    reply: ReplyView,
)
    requires
        api.admin_page() == Ok::<Seq<char>, Seq<char>>(page),
    ensures
        asks_for_admin_page(
            first_step(
                OpeningView {
                    api,
                    work: WorkView::RefreshDiscovery { insert_form_url_override: named },
                },
                Ok(()),
            ).next,
            api,
            Purpose::RefreshDiscovery,
            named,
            page,
        ),
        asks_for_admin_page(
            first_step(
                OpeningView {
                    api,
                    work: WorkView::RestoreSession { insert_form_url_override: named },
                },
                Ok(()),
            ).next,
            api,
            Purpose::RestoreSession,
            named,
            page,
        ),
        (libemax::json_reply(reply, "login request failed"@) matches Ok(body)
            && libemax::login_result(body) matches Ok(LoginOutcomeView::Authenticated))
            ==> asks_for_admin_page(
            next_step(
                JobView::LoggingIn { api, verifying, insert_form_url_override: named },
                reply,
            ).next,
            api,
            if verifying {
                Purpose::VerifyMailCode
            } else {
                Purpose::Login
            },
            named,
            page,
        ),
{
}

/// A sign-in that the site refuses ends with the message of the site, and one whose reply holds no
/// document with the message why. Where the site asks for the code from a mail, the user is told
/// where the mail went and asked for the code, unless the sign-in had a code already: then it
/// fails. Cookies are stored wherever the reply held a document.
pub proof fn law_sign_in_reply(
    api: LibemaxApiView,
    verifying: bool,
    named: Seq<char>,
    reply: ReplyView,
)
    ensures
        ({
            let job = JobView::LoggingIn { api, verifying, insert_form_url_override: named };
            let step = next_step(job, reply);
            let body = libemax::json_reply(reply, "login request failed"@);
            let outcome = libemax::login_result(body->Ok_0);
            &&& !step.forget_cookies
            &&& step.save_cookies <==> body is Ok
            &&& body is Err ==> (step.next matches NextView::Finish(result) && failure(result)
                == Some(body->Err_0))
            &&& body is Ok && outcome is Err ==> (step.next matches NextView::Finish(result)
                && failure(result) == Some(outcome->Err_0))
            &&& body is Ok && outcome is Ok && outcome->Ok_0 is NeedsMailAuthentication
                && verifying ==> (step.next matches NextView::Finish(result) && failure(result)
                == Some("Il server richiede ancora il codice mail"@))
            &&& body is Ok && outcome is Ok && outcome->Ok_0 is NeedsMailAuthentication
                && !verifying ==> (step.next matches NextView::Finish(
                JobResultView::Login(Ok(success)),
            ) && {
                let prompt = outcome->Ok_0->NeedsMailAuthentication_0;
                &&& success.api == api
                &&& success.pending_mail_authentication == Some(prompt)
                &&& success.status_kind is Warning
                &&& success.status_text == "Serve il codice ricevuto via mail: "@ + prompt.email
                &&& !success.clear_otp
                &&& success.discovery is None
                &&& success.workplaces.len() == 0
            })
        }),
{
}

/// The reply to asking for another code ends the job with what it says, and cookies are stored
/// where it held a document.
pub proof fn law_resend_reply(reply: ReplyView)
    ensures
        ({
            let body = libemax::json_reply(
                reply,
                "failed to request a new mail authentication code"@,
            );
            let step = next_step(JobView::Resending, reply);
            &&& step.save_cookies <==> body is Ok
            &&& body is Err ==> step.next == NextView::Finish(
                JobResultView::ResendMailCode(Err(body->Err_0)),
            )
            &&& body is Ok ==> step.next == NextView::Finish(
                JobResultView::ResendMailCode(libemax::resend_result(body->Ok_0)),
            )
        }),
{
}

/// Whether a search for the form ended without one, with this message: looking for the form fails
/// with it. Signing in fails with it too, unless no page was found to ask, when the user is signed
/// in nevertheless and told so as an error. Going on with a session fails with it behind a few
/// words, unless no page was found to ask, when it goes on and the same is told as a warning; and
/// where the site asked to sign in again, the session is forgotten and the user is told.
pub open spec fn ended_without_form(
    step: StepView,
    api: LibemaxApiView,
    purpose: Purpose,
    message: Seq<char>,
) -> bool {
    let unnamed = message
        == "Non sono riuscito a trovare automaticamente la pagina di inserimento ore. Incolla l'URL manuale nel campo 'Insert form URL'."@;
    let lost = text::holds(message, "Sessione non autenticata"@);
    let told = "Impossibile ripristinare la sessione: "@ + message;
    &&& step.forget_cookies <==> purpose is RestoreSession && lost
    &&& step.next is Finish
    &&& match step.next->Finish_0 {
        JobResultView::Login(ended) => purpose is Login && without_form(
            ended,
            api,
            unnamed,
            message,
        ),
        JobResultView::VerifyMailCode(ended) => purpose is VerifyMailCode && without_form(
            ended,
            api,
            unnamed,
            message,
        ),
        JobResultView::RefreshDiscovery(ended) => purpose is RefreshDiscovery && ended == Err::<
            RefreshDiscoverySuccessView,
            Seq<char>,
        >(message),
        JobResultView::RestoreSession(ended) => purpose is RestoreSession && {
            &&& lost ==> ended == Err::<RestoreSessionSuccessView, Seq<char>>(
                "Sessione salvata scaduta, effettua di nuovo il login"@,
            )
            &&& !lost && !unnamed ==> ended == Err::<RestoreSessionSuccessView, Seq<char>>(told)
            &&& !lost && unnamed ==> ended is Ok && {
                &&& ended->Ok_0.api == api
                &&& ended->Ok_0.discovery is None
                &&& ended->Ok_0.workplaces.len() == 0
                &&& ended->Ok_0.status_kind is Warning
                &&& ended->Ok_0.status_text == told
            }
        },
        _ => false,
    }
}

/// Whether a sign-in ended without the form: with the user signed in where no page was found to
/// ask, else with the message.
pub open spec fn without_form(
    ended: Result<LoginSuccessView, Seq<char>>,
    api: LibemaxApiView,
    unnamed: bool,
    message: Seq<char>,
) -> bool {
    &&& !unnamed ==> ended == Err::<LoginSuccessView, Seq<char>>(message)
    &&& unnamed ==> ended is Ok && {
        &&& ended->Ok_0.api == api
        &&& ended->Ok_0.discovery is None
        &&& ended->Ok_0.workplaces.len() == 0
        &&& ended->Ok_0.pending_mail_authentication is None
        &&& !ended->Ok_0.clear_otp
        &&& ended->Ok_0.status_kind is Error
        &&& ended->Ok_0.status_text == message
    }
}

/// A search whose admin page has no address ends without the form, with the message that says so.
pub proof fn law_search_without_admin_page(
    api: LibemaxApiView,
    named: Seq<char>,
    verifying: bool,
    reply: ReplyView,
)
    requires
        api.admin_page() is Err,
    ensures
        ended_without_form(
            first_step(
                OpeningView {
                    api,
                    work: WorkView::RefreshDiscovery { insert_form_url_override: named },
                },
                Ok(()),
            ),
            api,
            Purpose::RefreshDiscovery,
            api.admin_page()->Err_0,
        ),
        ended_without_form(
            first_step(
                OpeningView {
                    api,
                    work: WorkView::RestoreSession { insert_form_url_override: named },
                },
                Ok(()),
            ),
            api,
            Purpose::RestoreSession,
            api.admin_page()->Err_0,
        ),
        (libemax::json_reply(reply, "login request failed"@) matches Ok(body)
            && libemax::login_result(body) matches Ok(LoginOutcomeView::Authenticated))
            ==> ended_without_form(
            next_step(
                JobView::LoggingIn { api, verifying, insert_form_url_override: named },
                reply,
            ),
            api,
            if verifying {
                Purpose::VerifyMailCode
            } else {
                Purpose::Login
            },
            api.admin_page()->Err_0,
        ),
{
}

/// The reply with the admin page leads to the page of the form, which is asked for as it is
/// followed from there. Whatever is in the way ends the search with its message.
pub proof fn law_admin_page_reply(
    api: LibemaxApiView,
    purpose: Purpose,
    named: Seq<char>,
    url: Seq<char>,
    reply: ReplyView,
)
    ensures
        ({
            let job = JobView::ReadingAdmin {
                api,
                purpose,
                insert_form_url_override: named,
                url,
            };
            let step = next_step(job, reply);
            let html = libemax::page_reply(url, reply);
            let page = libemax::insert_page_in(html->Ok_0, url, named);
            let at = api.followed(page->Ok_0.insert_form_url);
            &&& step.save_cookies <==> reply is Answer
            &&& html is Err ==> ended_without_form(step, api, purpose, html->Err_0)
            &&& html is Ok && page is Err ==> ended_without_form(step, api, purpose, page->Err_0)
            &&& html is Ok && page is Ok && at is Err ==> ended_without_form(
                step,
                api,
                purpose,
                at->Err_0,
            )
            &&& html is Ok && page is Ok && at is Ok ==> !step.forget_cookies && step.next
                == NextView::Perform(
                JobView::ReadingForm { api, purpose, page: page->Ok_0, url: at->Ok_0 },
                RequestView::Get { url: at->Ok_0 },
            )
        }),
{
}

/// What was found: the form, with the pages that led to it.
pub open spec fn found_with(page: InsertPageView, form: InsertFormView) -> DiscoveryBundleView {
    DiscoveryBundleView {
        admin_page_url: page.admin_page_url,
        insert_form_url: page.insert_form_url,
        candidate_insert_urls: page.candidate_insert_urls,
        insert_form: form,
    }
}

/// The reply with the page of the form leads to the places of work, which are asked for where the
/// form says. Where they cannot be asked for, the search ends with the form and without them.
pub proof fn law_form_page_reply(
    api: LibemaxApiView,
    purpose: Purpose,
    page: InsertPageView,
    url: Seq<char>,
    reply: ReplyView,
)
    ensures
        ({
            let job = JobView::ReadingForm { api, purpose, page, url };
            let step = next_step(job, reply);
            let form = libemax::form_reply(url, reply);
            let asked = libemax::clients_request(api, form->Ok_0);
            let found = found_with(page, form->Ok_0);
            &&& step.save_cookies <==> reply is Answer
            &&& form is Err ==> ended_without_form(step, api, purpose, form->Err_0)
            &&& form is Ok && asked is Err ==> !step.forget_cookies && ended_with_form(
                step.next,
                api,
                purpose,
                found,
                Seq::empty(),
            )
            &&& form is Ok && asked is Ok ==> !step.forget_cookies && (
            asked->Ok_0 matches RequestView::Query { url: at, query } && step.next
                == NextView::Perform(
                JobView::SearchingByQuery { api, purpose, discovery: found, url: at, query },
                RequestView::Query { url: at, query },
            ))
        }),
{
}

/// Whether a search ended with the form and the places of work, and told so in the words for what
/// it was for.
pub open spec fn ended_with_form(
    next: NextView,
    api: LibemaxApiView,
    purpose: Purpose,
    found: DiscoveryBundleView,
    workplaces: Seq<LookupItemView>,
) -> bool {
    &&& next is Finish
    &&& match next->Finish_0 {
        JobResultView::Login(Ok(success)) => purpose is Login && signed_in_with(
            success,
            api,
            found,
            workplaces,
        ) && success.status_text == "Login effettuato"@,
        JobResultView::VerifyMailCode(Ok(success)) => purpose is VerifyMailCode && signed_in_with(
            success,
            api,
            found,
            workplaces,
        ) && success.status_text == "Codice verificato, sessione attiva"@,
        JobResultView::RefreshDiscovery(Ok(success)) => {
            &&& purpose is RefreshDiscovery
            &&& success.discovery == found
            &&& success.workplaces == workplaces
            &&& success.status_kind is Success
            &&& success.status_text == "Endpoint e form ore scoperti correttamente"@
        },
        JobResultView::RestoreSession(Ok(success)) => {
            &&& purpose is RestoreSession
            &&& success.api == api
            &&& success.discovery == Some(found)
            &&& success.workplaces == workplaces
            &&& success.status_kind is Success
            &&& success.status_text == "Sessione ripristinata"@
        },
        _ => false,
    }
}

/// Whether a sign-in ended with the form and the places of work: the code is used up, and none is
/// waited for.
pub open spec fn signed_in_with(
    success: LoginSuccessView,
    api: LibemaxApiView,
    found: DiscoveryBundleView,
    workplaces: Seq<LookupItemView>,
) -> bool {
    &&& success.api == api
    &&& success.discovery == Some(found)
    &&& success.workplaces == workplaces
    &&& success.status_kind is Success
    &&& success.clear_otp
    &&& success.pending_mail_authentication is None
}

/// The replies with the places of work end the search with the form and with the places by name,
/// or without them where they could not be had. Where the first way of asking does not work, they
/// are asked for as a form, at the same address and with the same words.
pub proof fn law_lookup_reply(
    api: LibemaxApiView,
    purpose: Purpose,
    discovery: DiscoveryBundleView,
    url: Seq<char>,
    query: Seq<char>,
    reply: ReplyView,
)
    ensures
        ({
            let first = next_step(
                JobView::SearchingByQuery { api, purpose, discovery, url, query },
                reply,
            );
            let second = next_step(JobView::SearchingByForm { api, purpose, discovery }, reply);
            let items = libemax::lookup_form_reply(reply);
            let workplaces = if items is Ok {
                lookup::by_name(items->Ok_0)
            } else {
                Seq::empty()
            };
            &&& ended_with_form(second.next, api, purpose, discovery, workplaces)
            &&& libemax::query_reply(reply) is Some ==> first == second
            &&& libemax::query_reply(reply) is None ==> first.next == NextView::Perform(
                JobView::SearchingByForm { api, purpose, discovery },
                RequestView::Post { url, fields: seq![("q"@, query)] },
            )
            &&& !first.save_cookies && !second.save_cookies
            &&& !first.forget_cookies && !second.forget_cookies
        }),
{
}

/// Many bookings begin with the first of them, and after the reply to one comes the next of them,
/// with what became of the one before noted at the end of the results. Before each, the page of the
/// form is asked for again; after the last, the job ends with all results.
pub proof fn law_one_booking_after_the_other(
    api: LibemaxApiView,
    insert_form: InsertFormView,
    submissions: Seq<BookingSubmissionView>,
    batch: BatchView,
    reply: ReplyView,
)
    ensures
        ({
            let first = first_step(
                OpeningView { api, work: WorkView::SubmitBatch { insert_form, submissions } },
                Ok(()),
            ).next;
            let page = api.followed(insert_form.page_url);
            &&& submissions.len() == 0 ==> (first matches NextView::Finish(
                JobResultView::SubmitBatch(Ok(success)),
            ) && success.results.len() == 0)
            &&& submissions.len() > 0 && page is Ok ==> first == NextView::Perform(
                JobView::FetchingForm {
                    batch: BatchView {
                        api,
                        insert_form,
                        done: Seq::empty(),
                        current: submissions[0],
                        rest: submissions.drop_first(),
                    },
                    url: page->Ok_0,
                },
                RequestView::Get { url: page->Ok_0 },
            )
        }),
        ({
            let next = next_step(JobView::Posting { batch }, reply).next;
            let page = batch.api.followed(batch.insert_form.page_url);
            let results = batch.done.push(
                booking::noted(batch.current, libemax::booking_reply(reply, false)),
            );
            &&& batch.rest.len() == 0 ==> (next matches NextView::Finish(
                JobResultView::SubmitBatch(Ok(success)),
            ) && success.results == results)
            &&& batch.rest.len() > 0 && page is Ok ==> next == NextView::Perform(
                JobView::FetchingForm {
                    batch: BatchView {
                        done: results,
                        current: batch.rest[0],
                        rest: batch.rest.drop_first(),
                        ..batch
                    },
                    url: page->Ok_0,
                },
                RequestView::Get { url: page->Ok_0 },
            )
        }),
{
}

/// A booking is sent with the form on the page that was just read, and with the form that is known
/// where the page holds none, and is not forced. The page may leave cookies to store, the reply to
/// the booking leaves none.
pub proof fn law_booking_with_the_latest_form(
    batch: BatchView,
    url: Seq<char>,
    reply: ReplyView,
    sent: RequestView,
)
    ensures
        ({
            let next = next_step(JobView::FetchingForm { batch, url }, reply).next;
            let form = libemax::form_reply(url, reply);
            &&& next_step(JobView::FetchingForm { batch, url }, reply).save_cookies
                <==> reply is Answer
            &&& !next_step(JobView::Posting { batch }, reply).save_cookies
            &&& form is Ok && libemax::submit_request(form->Ok_0, batch.current, false) == Ok::<
                RequestView,
                Seq<char>,
            >(sent) ==> next == NextView::Perform(JobView::Posting { batch }, sent)
            &&& form is Err && libemax::submit_request(batch.insert_form, batch.current, false)
                == Ok::<RequestView, Seq<char>>(sent) ==> next == NextView::Perform(
                JobView::Posting { batch },
                sent,
            )
        }),
{
    lemma_batch_forgets_nothing(JobView::FetchingForm { batch, url }, reply);
    lemma_batch_forgets_nothing(JobView::Posting { batch }, reply);
}

/// Where the page of the form has no address, the first booking that can be sent with the form
/// that is known is sent with it, and those before it are noted with the messages why they cannot
/// be.
pub proof fn law_bookings_without_page(
    save_cookies: bool,
    api: LibemaxApiView,
    insert_form: InsertFormView,
    done: Seq<BatchBookingResultView>,
    rest: Seq<BookingSubmissionView>,
)
    requires
        rest.len() > 0,
        api.followed(insert_form.page_url) is Err,
    ensures
        match libemax::submit_request(insert_form, rest[0], false) {
            Ok(request) => batch_continued(save_cookies, api, insert_form, done, rest)
                == (StepView {
                save_cookies,
                forget_cookies: false,
                next: NextView::Perform(
                    JobView::Posting {
                        batch: BatchView {
                            api,
                            insert_form,
                            done,
                            current: rest[0],
                            rest: rest.drop_first(),
                        },
                    },
                    request,
                ),
            }),
            Err(message) => batch_continued(save_cookies, api, insert_form, done, rest)
                == batch_continued(
                save_cookies,
                api,
                insert_form,
                done.push(booking::noted(rest[0], Err(message))),
                rest.drop_first(),
            ),
        },
{
}

/// The summary of many bookings keeps their results. It is a success exactly where each of them
/// is, and a warning otherwise, and tells how many succeeded and how many did not.
pub proof fn law_summary(
    first: Seq<BatchBookingResultView>,
    later: Seq<BatchBookingResultView>,
    one: BatchBookingResultView,
)
    ensures
        success_count(Seq::empty()) == 0,
        one.result is Ok ==> success_count(seq![one]) == 1,
        one.result is Err ==> success_count(seq![one]) == 0,
        success_count(first + later) == success_count(first) + success_count(later),
        ({
            let summary = batch_summary(first);
            let successes = success_count(first);
            let failures = (first.len() - successes) as nat;
            let all = forall|i: int| 0 <= i < first.len() ==> (#[trigger] first[i]).result is Ok;
            &&& summary.results == first
            &&& all <==> summary.status_kind is Success
            &&& !all <==> summary.status_kind is Warning
            &&& all ==> summary.status_text == "Prenotazioni create: "@ + text::decimal(
                first.len(),
            ) + " inserimenti"@
            &&& !all ==> summary.status_text == "Prenotazione multipla completata con "@
                + text::decimal(successes) + " inserimenti riusciti e "@ + text::decimal(failures)
                + " errori"@
        }),
    decreases later.len(),
{
    assert(seq![one].drop_last() =~= Seq::empty());
    assert(success_count(Seq::<BatchBookingResultView>::empty()) == 0);
    lemma_success_count(first);
    lemma_all_succeeded(first);
    if later.len() == 0 {
        assert(first + later =~= first);
    } else {
        law_summary(first, later.drop_last(), one);
        assert((first + later).drop_last() =~= first + later.drop_last());
    }
}

proof fn lemma_all_succeeded(results: Seq<BatchBookingResultView>)
    ensures
        success_count(results) == results.len() <==> forall|i: int|
            0 <= i < results.len() ==> (#[trigger] results[i]).result is Ok,
    decreases results.len(),
{
    if results.len() > 0 {
        let front = results.drop_last();
        lemma_all_succeeded(front);
        lemma_success_count(front);
        assert(forall|i: int| 0 <= i < front.len() ==> (#[trigger] front[i]) == results[i]);
        if success_count(results) == results.len() {
            assert forall|i: int| 0 <= i < results.len() implies (
            #[trigger] results[i]).result is Ok by {
                if i < front.len() {
                    assert(front[i] == results[i]);
                }
            }
        } else if forall|i: int| 0 <= i < results.len() ==> (#[trigger] results[i]).result is Ok {
            assert(results[results.len() - 1].result is Ok);
            assert forall|i: int| 0 <= i < front.len() implies (
            #[trigger] front[i]).result is Ok by {
                assert(front[i] == results[i]);
            }
        }
    }
}

} // verus!
