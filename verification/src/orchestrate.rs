//! The publish/update state machine.
//!
//! A run resolves the remote item identity from the command-line identifier
//! or the manifest's `remote_file_id`, creates a new remote item when
//! neither is present, and then submits one update built from the manifest
//! descriptor and the user's upload configuration.  Progress is driven by
//! the completion outcome of each asynchronous remote call; every
//! transition is a pure function of the current state and that outcome.

use vstd::prelude::*;
use crate::manifest::{Descriptor, DescriptorView};
use crate::numbers::{digits_value, is_u64_digits};

verus! {

/// Whether the published item is visible to everyone or only to its owner.
#[derive(Clone, Copy, Debug, PartialEq, Eq, Structural)]
pub enum Visibility {
    Public,
    Private,
}

/// User-supplied upload settings, assembled once at startup.
#[derive(Debug, PartialEq, Eq)]
pub struct UploadConfig {
    pub visible: bool,
    pub thumbnail: Option<String>,
    pub description: String,
    pub path: String,
    pub changenotes: Option<String>,
}

/// Mathematical model of an [`UploadConfig`].
pub struct UploadConfigView {
    pub visible: bool,
    pub thumbnail: Option<Seq<char>>,
    pub description: Seq<char>,
    pub path: Seq<char>,
    pub changenotes: Option<Seq<char>>,
}

impl View for UploadConfig {
    type V = UploadConfigView;

    open spec fn view(&self) -> UploadConfigView {
        UploadConfigView {
            visible: self.visible,
            thumbnail: match self.thumbnail {
                Some(ref t) => Some(t@),
                None => None,
            },
            description: self.description@,
            path: self.path@,
            changenotes: match self.changenotes {
                Some(ref c) => Some(c@),
                None => None,
            },
        }
    }
}

/// Everything a run carries into the remote calls: the parsed manifest
/// descriptor and the upload configuration.
#[derive(Debug, PartialEq, Eq)]
pub struct Session {
    pub descriptor: Descriptor,
    pub config: UploadConfig,
}

/// Mathematical model of a [`Session`].
pub struct SessionView {
    pub descriptor: DescriptorView,
    pub config: UploadConfigView,
}

impl View for Session {
    type V = SessionView;

    open spec fn view(&self) -> SessionView {
        SessionView { descriptor: self.descriptor@, config: self.config@ }
    }
}

/// One submit/update request, carrying exactly the values handed to the
/// remote service.  `None` in an optional field means the request omits
/// that field altogether: omission is additive and never clears a value
/// already set remotely.
#[derive(Debug, PartialEq, Eq)]
pub struct SubmitRequest {
    pub item_id: u64,
    pub content_path: String,
    pub title: String,
    pub description: String,
    pub visibility: Visibility,
    pub preview_path: Option<String>,
    pub tags: Option<Vec<String>>,
    pub change_notes: Option<String>,
}

/// Mathematical model of a [`SubmitRequest`].
pub struct SubmitRequestView {
    pub item_id: u64,
    pub content_path: Seq<char>,
    pub title: Seq<char>,
    pub description: Seq<char>,
    pub visibility: Visibility,
    pub preview_path: Option<Seq<char>>,
    pub tags: Option<Seq<Seq<char>>>,
    pub change_notes: Option<Seq<char>>,
}

impl View for SubmitRequest {
    type V = SubmitRequestView;

    open spec fn view(&self) -> SubmitRequestView {
        SubmitRequestView {
            item_id: self.item_id,
            content_path: self.content_path@,
            title: self.title@,
            description: self.description@,
            visibility: self.visibility,
            preview_path: match self.preview_path {
                Some(ref p) => Some(p@),
                None => None,
            },
            tags: match self.tags {
                Some(ref t) => Some(t.deep_view()),
                None => None,
            },
            change_notes: match self.change_notes {
                Some(ref c) => Some(c@),
                None => None,
            },
        }
    }
}

/// The result of one asynchronous remote call, as delivered to its
/// completion callback.
#[derive(Debug, PartialEq, Eq)]
pub enum CompletionOutcome {
    /// The call succeeded; the payload is the item identifier it reported.
    Success(u64),
    /// The acting user must accept the service's terms before the
    /// operation can proceed.  Not a failure: user-actionable.
    AgreementRequired,
    /// The call failed; the payload describes the failure.
    Failure(String),
}

/// Mathematical model of a [`CompletionOutcome`].
pub enum OutcomeView {
    Success(u64),
    AgreementRequired,
    Failure(Seq<char>),
}

impl View for CompletionOutcome {
    type V = OutcomeView;

    open spec fn view(&self) -> OutcomeView {
        match self {
            CompletionOutcome::Success(id) => OutcomeView::Success(*id),
            CompletionOutcome::AgreementRequired => OutcomeView::AgreementRequired,
            CompletionOutcome::Failure(ref e) => OutcomeView::Failure(e@),
        }
    }
}

/// The orchestration state.  `Creating` and `Submitting` await a
/// completion outcome; the other three are terminal.
#[derive(Debug, PartialEq, Eq)]
pub enum State {
    /// A create-item request is in flight; the session is kept for the
    /// submit that follows a successful creation.
    Creating(Session),
    /// A submit request targeting the given item is in flight.
    Submitting(u64),
    /// Terminal: the user must accept the service's terms and rerun.
    Blocked,
    /// Terminal: a remote call failed; rerunning is the only retry.
    Failed,
    /// Terminal: the item with the given identifier was published.
    Done(u64),
}

/// Mathematical model of a [`State`].
pub enum StateView {
    Creating(SessionView),
    Submitting(u64),
    Blocked,
    Failed,
    Done(u64),
}

impl View for State {
    type V = StateView;

    open spec fn view(&self) -> StateView {
        match self {
            State::Creating(ref s) => StateView::Creating(s@),
            State::Submitting(id) => StateView::Submitting(*id),
            State::Blocked => StateView::Blocked,
            State::Failed => StateView::Failed,
            State::Done(id) => StateView::Done(*id),
        }
    }
}

/// What a transition asks to be shown to the user.
#[derive(Debug, PartialEq, Eq)]
pub enum Report {
    /// A new remote item was created under this identifier.
    ItemCreated(u64),
    /// The create call failed for the given reason.
    CreateFailed(String),
    /// The submit call succeeded; the item was published under this
    /// identifier.
    Uploaded(u64),
    /// The submit call failed for the given reason.
    SubmitFailed(String),
    /// The user must accept the terms before an item can be created.
    MustAgreeCreate,
    /// The user must accept the terms before an update can be uploaded.
    MustAgreeSubmit,
}

/// Mathematical model of a [`Report`].
pub enum ReportView {
    ItemCreated(u64),
    CreateFailed(Seq<char>),
    Uploaded(u64),
    SubmitFailed(Seq<char>),
    MustAgreeCreate,
    MustAgreeSubmit,
}

impl View for Report {
    type V = ReportView;

    open spec fn view(&self) -> ReportView {
        match self {
            Report::ItemCreated(id) => ReportView::ItemCreated(*id),
            Report::CreateFailed(ref e) => ReportView::CreateFailed(e@),
            Report::Uploaded(id) => ReportView::Uploaded(*id),
            Report::SubmitFailed(ref e) => ReportView::SubmitFailed(e@),
            Report::MustAgreeCreate => ReportView::MustAgreeCreate,
            Report::MustAgreeSubmit => ReportView::MustAgreeSubmit,
        }
    }
}

/// The outcome of one state transition: the next state, at most one
/// further remote request, what to report, and whether the whole process
/// terminates successfully.
#[derive(Debug, PartialEq, Eq)]
pub struct Transition {
    pub state: State,
    pub request: Option<SubmitRequest>,
    pub report: Option<Report>,
    pub exit_success: bool,
}

/// Mathematical model of a [`Transition`].
pub struct TransitionView {
    pub state: StateView,
    pub request: Option<SubmitRequestView>,
    pub report: Option<ReportView>,
    pub exit_success: bool,
}

impl View for Transition {
    type V = TransitionView;

    open spec fn view(&self) -> TransitionView {
        TransitionView {
            state: self.state@,
            request: match self.request {
                Some(ref r) => Some(r@),
                None => None,
            },
            report: match self.report {
                Some(ref r) => Some(r@),
                None => None,
            },
            exit_success: self.exit_success,
        }
    }
}

/// The first step of a run: either a create-item request (the session is
/// kept for the follow-up submit) or, when the identity is already known,
/// the submit request itself.
#[derive(Debug, PartialEq, Eq)]
pub enum StartPlan {
    Create(Session),
    Submit(SubmitRequest),
}

/// Mathematical model of a [`StartPlan`].
pub enum StartPlanView {
    Create(SessionView),
    Submit(SubmitRequestView),
}

impl View for StartPlan {
    type V = StartPlanView;

    open spec fn view(&self) -> StartPlanView {
        match self {
            StartPlan::Create(ref s) => StartPlanView::Create(s@),
            StartPlan::Submit(ref r) => StartPlanView::Submit(r@),
        }
    }
}

/// The resolved remote item identity: the command-line identifier when one
/// was given, otherwise the manifest's `remote_file_id`, otherwise none.
pub open spec fn spec_resolve(cli_id: Option<u64>, remote_file_id: Option<Seq<char>>) -> Option<
    u64,
> {
    match cli_id {
        Some(id) => Some(id),
        None => match remote_file_id {
            Some(s) => Some(digits_value(s) as u64),
            None => None,
        },
    }
}

/// The submit request built from a descriptor, an upload configuration and
/// the resolved item identity.  Tags and preview come over exactly as
/// given, absent fields stay absent.
pub open spec fn spec_build(d: DescriptorView, c: UploadConfigView, item_id: u64) -> SubmitRequestView {
    SubmitRequestView {
        item_id: item_id,
        content_path: c.path,
        title: d.name,
        description: c.description,
        visibility: if c.visible {
            Visibility::Public
        } else {
            Visibility::Private
        },
        preview_path: c.thumbnail,
        tags: d.tags,
        change_notes: c.changenotes,
    }
}

/// The first step of a run, as a function of the session and the
/// command-line identifier.
pub open spec fn spec_start(s: SessionView, cli_id: Option<u64>) -> StartPlanView {
    match spec_resolve(cli_id, s.descriptor.remote_file_id) {
        Some(id) => StartPlanView::Submit(spec_build(s.descriptor, s.config, id)),
        None => StartPlanView::Create(s),
    }
}

/// The transition relation of the state machine.  Terminal states absorb
/// every outcome: nothing further is requested, reported or terminated.
pub open spec fn spec_step(state: StateView, outcome: OutcomeView) -> TransitionView {
    match state {
        StateView::Creating(sess) => match outcome {
            OutcomeView::Success(new_id) => TransitionView {
                state: StateView::Submitting(new_id),
                request: Some(spec_build(sess.descriptor, sess.config, new_id)),
                report: Some(ReportView::ItemCreated(new_id)),
                exit_success: false,
            },
            OutcomeView::AgreementRequired => TransitionView {
                state: StateView::Blocked,
                request: None,
                report: Some(ReportView::MustAgreeCreate),
                exit_success: false,
            },
            OutcomeView::Failure(e) => TransitionView {
                state: StateView::Failed,
                request: None,
                report: Some(ReportView::CreateFailed(e)),
                exit_success: false,
            },
        },
        StateView::Submitting(_) => match outcome {
            OutcomeView::Success(published) => TransitionView {
                state: StateView::Done(published),
                request: None,
                report: Some(ReportView::Uploaded(published)),
                exit_success: true,
            },
            OutcomeView::AgreementRequired => TransitionView {
                state: StateView::Blocked,
                request: None,
                report: Some(ReportView::MustAgreeSubmit),
                exit_success: false,
            },
            OutcomeView::Failure(e) => TransitionView {
                state: StateView::Failed,
                request: None,
                report: Some(ReportView::SubmitFailed(e)),
                exit_success: false,
            },
        },
        _ => TransitionView { state: state, request: None, report: None, exit_success: false },
    }
}

/// Builds the one submit request of a run.  Every field of the result is
/// pinned: title and tags from the descriptor, path, description,
/// visibility, preview and change notes from the configuration.
pub fn build_submit_request(descriptor: Descriptor, config: UploadConfig, item_id: u64) -> (r:
    SubmitRequest)
    ensures
        r@ == spec_build(descriptor@, config@, item_id),
{
    SubmitRequest {
        item_id: item_id,
        content_path: config.path,
        title: descriptor.name,
        description: config.description,
        visibility: if config.visible {
            Visibility::Public
        } else {
            Visibility::Private
        },
        preview_path: config.thumbnail,
        tags: descriptor.tags,
        change_notes: config.changenotes,
    }
}

/// Resolves the remote item identity.  A given command-line identifier
/// wins over the manifest's `remote_file_id`; with neither, no identity is
/// resolved and a create step is needed.
pub fn resolve_identity(cli_id: Option<u64>, remote_file_id: &Option<String>) -> (r: Option<u64>)
    requires
        cli_id is None && remote_file_id is Some ==> is_u64_digits(remote_file_id->0@),
    ensures
        r == spec_resolve(
            cli_id,
            match *remote_file_id {
                Some(ref s) => Some(s@),
                None => None,
            },
        ),
{
    match cli_id {
        Some(id) => Some(id),
        None => match remote_file_id {
            Some(s) => match crate::numbers::parse_u64(s.as_str()) {
                Some(v) => Some(v),
                None => unreached(),
            },
            None => None,
        },
    }
}

/// Plans the first step of a run: a submit request when the identity
/// resolves from the command-line identifier or the manifest, otherwise a
/// create-item request.
pub fn plan_start(session: Session, cli_id: Option<u64>) -> (r: StartPlan)
    requires
        cli_id is None && session.descriptor.remote_file_id is Some ==> is_u64_digits(
            session.descriptor.remote_file_id->0@,
        ),
    ensures
        r@ == spec_start(session@, cli_id),
{
    let resolved = resolve_identity(cli_id, &session.descriptor.remote_file_id);
    match resolved {
        Some(id) => StartPlan::Submit(
            build_submit_request(session.descriptor, session.config, id),
        ),
        None => StartPlan::Create(session),
    }
}

/// Performs one transition of the state machine on a completion outcome.
pub fn step(state: State, outcome: CompletionOutcome) -> (r: Transition)
    ensures
        r@ == spec_step(state@, outcome@),
{
    match state {
        State::Creating(sess) => match outcome {
            CompletionOutcome::Success(new_id) => Transition {
                state: State::Submitting(new_id),
                request: Some(build_submit_request(sess.descriptor, sess.config, new_id)),
                report: Some(Report::ItemCreated(new_id)),
                exit_success: false,
            },
            CompletionOutcome::AgreementRequired => Transition {
                state: State::Blocked,
                request: None,
                report: Some(Report::MustAgreeCreate),
                exit_success: false,
            },
            CompletionOutcome::Failure(e) => Transition {
                state: State::Failed,
                request: None,
                report: Some(Report::CreateFailed(e)),
                exit_success: false,
            },
        },
        State::Submitting(_) => match outcome {
            CompletionOutcome::Success(published) => Transition {
                state: State::Done(published),
                request: None,
                report: Some(Report::Uploaded(published)),
                exit_success: true,
            },
            CompletionOutcome::AgreementRequired => Transition {
                state: State::Blocked,
                request: None,
                report: Some(Report::MustAgreeSubmit),
                exit_success: false,
            },
            CompletionOutcome::Failure(e) => Transition {
                state: State::Failed,
                request: None,
                report: Some(Report::SubmitFailed(e)),
                exit_success: false,
            },
        },
        other => Transition {
            state: other,
            request: None,
            report: None,
            exit_success: false,
        },
    }
}

/// Law: an agreement-required outcome, on a create as well as on a submit,
/// issues no further remote request, does not terminate the process, and
/// leaves the run blocked.
pub proof fn lemma_agreement_required_blocks(state: StateView)
    requires
        state is Creating || state is Submitting,
    ensures
        spec_step(state, OutcomeView::AgreementRequired).request is None,
        !spec_step(state, OutcomeView::AgreementRequired).exit_success,
        spec_step(state, OutcomeView::AgreementRequired).state is Blocked,
{
}

/// Law: once a run is terminal, no outcome issues a request, reports, or
/// terminates, and the state does not change.
pub proof fn lemma_terminal_absorbs(state: StateView, outcome: OutcomeView)
    requires
        state is Blocked || state is Failed || state is Done,
    ensures
        spec_step(state, outcome) == (TransitionView {
            state: state,
            request: None,
            report: None,
            exit_success: false,
        }),
{
}

/// Law: after a successful creation, the submit request that follows
/// targets exactly the newly created item, and carries the session's
/// descriptor and configuration unchanged.
pub proof fn lemma_create_success_targets_new_item(sess: SessionView, new_id: u64)
    ensures
        spec_step(StateView::Creating(sess), OutcomeView::Success(new_id)).request == Some(
            spec_build(sess.descriptor, sess.config, new_id),
        ),
        spec_build(sess.descriptor, sess.config, new_id).item_id == new_id,
        spec_step(StateView::Creating(sess), OutcomeView::Success(new_id)).state
            == StateView::Submitting(new_id),
{
}

/// Law: a successful submit reports the published identifier and is the
/// only transition that terminates the process, with success.
pub proof fn lemma_submit_success_terminates(state: StateView, outcome: OutcomeView)
    ensures
        state matches StateView::Submitting(id) ==> outcome matches OutcomeView::Success(published)
            ==> spec_step(state, outcome).report == Some(ReportView::Uploaded(published))
                && spec_step(state, outcome).exit_success,
        spec_step(state, outcome).exit_success ==> state is Submitting && outcome is Success,
{
}

/// Law: tag and preview omission is additive.  The submit request carries
/// the descriptor's tags and the configuration's preview exactly as given:
/// absent tags stay absent (no clearing instruction), present tags come
/// over as the same ordered list, and likewise for the preview path.
pub proof fn lemma_omission_is_additive(d: DescriptorView, c: UploadConfigView, item_id: u64)
    ensures
        spec_build(d, c, item_id).tags == d.tags,
        spec_build(d, c, item_id).preview_path == c.thumbnail,
        spec_build(d, c, item_id).change_notes == c.changenotes,
{
}

} // verus!
