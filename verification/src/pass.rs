//! One pass of installation over the files of a version.
//!
//! The pass does no work on the outside itself. It says what is to be done
//! next, a download or a series of changes to the disk, and is told how that
//! went. It takes the files in the manifest's order, one at a time. A file
//! that cannot be had or written is recorded as skipped and the next one is
//! taken. When every file has its outcome the settings document is written,
//! whatever the outcomes are, and the pass is finished.

use crate::install::{
    ops_view, payload_plan, plan_payload, plan_settings, settings_op, FileOp, FileOpView, PlanView,
};
use crate::manifest::{manifest_view, FileInfo, FileInfoView};
use crate::remote::{file_url_spec, Endpoints, FetchError};
use vstd::prelude::*;

verus! {

/// Why a file was not installed.
#[derive(Clone, Copy, Debug, PartialEq, Eq, Structural)]
pub enum SkipReason {
    /// Its payload could not be had.
    Download(FetchError),
    /// It is an archive with a member that cannot be read.
    Extract,
    /// A change to the disk failed.
    Write,
}

/// What became of one file of the manifest.
#[derive(Clone, Copy, Debug, PartialEq, Eq, Structural)]
pub enum FileOutcome {
    Installed,
    Skipped(SkipReason),
}

/// What a pass waits for.
#[derive(Clone, Copy, Debug, PartialEq, Eq, Structural)]
pub enum Phase {
    /// The payload of the current file.
    Fetching,
    /// The result of the changes that install the current file; `complete`
    /// says whether they are all that the file asks for.
    Writing { complete: bool },
    /// The result of writing the settings document.
    Settings,
    /// Nothing.
    Finished,
}

/// What is to be done next.
#[derive(Clone, Debug, PartialEq, Eq)]
pub enum Step {
    /// Get the payload at `url`, and tell the pass with `fetched`.
    Fetch { url: String },
    /// Make the changes `ops` in their order, up to the first that fails,
    /// and tell the pass with `written` whether all were made.
    Write { ops: Vec<FileOp> },
    /// The pass is finished.
    Done,
}

/// What a `Step` holds.
pub enum StepView {
    Fetch { url: Seq<char> },
    Write { ops: Seq<FileOpView> },
    Done,
}

impl View for Step {
    type V = StepView;

    open spec fn view(&self) -> StepView {
        match *self {
            Step::Fetch { url } => StepView::Fetch { url: url@ },
            Step::Write { ops } => StepView::Write { ops: ops_view(ops@) },
            Step::Done => StepView::Done,
        }
    }
}

/// The outcome of a file whose changes were made or not (`written`) and were
/// all that it asks for or not (`complete`).
pub open spec fn outcome_of(written: bool, complete: bool) -> FileOutcome {
    if !written {
        FileOutcome::Skipped(SkipReason::Write)
    } else if !complete {
        FileOutcome::Skipped(SkipReason::Extract)
    } else {
        FileOutcome::Installed
    }
}

/// The state of a pass.
pub struct PassView {
    /// Where the files are stored.
    pub store: Seq<char>,
    /// The token of the version.
    pub token: Seq<char>,
    /// The files of the version, in the manifest's order.
    pub files: Seq<FileInfoView>,
    /// The outcomes of the files dealt with so far, in the same order.
    pub outcomes: Seq<FileOutcome>,
    pub phase: Phase,
    /// Whether the settings document could be written, once that was tried.
    pub settings_written: Option<bool>,
}

impl PassView {
    /// What holds of every pass: it waits on a file only while files are
    /// left, and turns to the settings document exactly when none is.
    pub open spec fn wf(self) -> bool {
        &&& self.outcomes.len() <= self.files.len()
        &&& (self.phase is Fetching || self.phase is Writing) ==> self.outcomes.len()
            < self.files.len()
        &&& (self.phase is Settings || self.phase is Finished) ==> self.outcomes.len()
            == self.files.len()
        &&& self.settings_written is Some <==> self.phase is Finished
    }

    /// The state in which a pass begins.
    pub open spec fn initial(store: Seq<char>, token: Seq<char>, files: Seq<FileInfoView>) -> PassView {
        PassView {
            store,
            token,
            files,
            outcomes: Seq::empty(),
            phase: if files.len() > 0 {
                Phase::Fetching
            } else {
                Phase::Settings
            },
            settings_written: None,
        }
    }

    /// Whether the pass waits on a file that it has.
    pub open spec fn on_file(self) -> bool {
        self.outcomes.len() < self.files.len()
    }

    /// The file that the pass is at.
    pub open spec fn current(self) -> FileInfoView
        recommends
            self.on_file(),
    {
        self.files[self.outcomes.len() as int]
    }

    /// What installing the current file changes, given its payload.
    pub open spec fn plan(self, payload: Seq<u8>) -> PlanView
        recommends
            self.on_file(),
    {
        payload_plan(self.token, self.current().filename, payload)
    }

    /// The state in which the pass waits for the result of the changes that
    /// install the current file; `complete` says whether they are all that
    /// the file asks for.
    pub open spec fn await_changes(self, complete: bool) -> PassView {
        PassView { phase: Phase::Writing { complete }, ..self }
    }

    /// The state after the current file got `outcome`: the pass is at the
    /// next file, or at the settings document where there is none.
    pub open spec fn record(self, outcome: FileOutcome) -> PassView {
        PassView {
            outcomes: self.outcomes.push(outcome),
            phase: if self.outcomes.len() + 1 < self.files.len() {
                Phase::Fetching
            } else {
                Phase::Settings
            },
            ..self
        }
    }

    /// The state after the settings document was written, or not.
    pub open spec fn conclude(self, written: bool) -> PassView {
        PassView { phase: Phase::Finished, settings_written: Some(written), ..self }
    }

    /// What the pass asks for: nothing while it waits for the result of the
    /// changes that install a file.
    pub open spec fn request(self) -> Option<StepView> {
        match self.phase {
            Phase::Fetching => Some(
                StepView::Fetch {
                    url: file_url_spec(self.store, self.token, self.current().filename),
                },
            ),
            Phase::Writing { .. } => None,
            Phase::Settings => Some(StepView::Write { ops: seq![settings_op(self.token)] }),
            Phase::Finished => Some(StepView::Done),
        }
    }
}

/// What an optional step holds.
pub open spec fn step_view(step: Option<Step>) -> Option<StepView> {
    match step {
        None => None,
        Some(step) => Some(step@),
    }
}

/// A pass of installation.
pub struct InstallPass {
    endpoints: Endpoints,
    token: String,
    files: Vec<FileInfo>,
    outcomes: Vec<FileOutcome>,
    phase: Phase,
    settings_written: Option<bool>,
}

impl View for InstallPass {
    type V = PassView;

    closed spec fn view(&self) -> PassView {
        PassView {
            store: self.endpoints.package_store@,
            token: self.token@,
            files: manifest_view(self.files@),
            outcomes: self.outcomes@,
            phase: self.phase,
            settings_written: self.settings_written,
        }
    }
}

impl InstallPass {
    /// Begins a pass over `files`, the files of the version stored under
    /// `token`. The step is the first thing to do.
    pub fn begin(endpoints: Endpoints, token: String, files: Vec<FileInfo>) -> (started: (
        InstallPass,
        Step,
    ))
        ensures
            started.0@ == PassView::initial(
                endpoints.package_store@,
                token@,
                manifest_view(files@),
            ),
            started.0@.wf(),
            Some(started.1@) == started.0@.request(),
    {
        let phase = if files.len() > 0 {
            Phase::Fetching
        } else {
            Phase::Settings
        };
        let pass = InstallPass {
            endpoints,
            token,
            files,
            outcomes: Vec::new(),
            phase,
            settings_written: None,
        };
        let step = pass.ask();
        (pass, step)
    }

    /// Begins a pass over the files of a manifest, where there is one. A
    /// manifest that could not be had ends the installation before it
    /// begins: nothing is fetched, nothing is written, and the error is
    /// handed back.
    pub fn begin_from<E>(endpoints: Endpoints, token: String, manifest: Result<Vec<FileInfo>, E>) -> (started: Result<(InstallPass, Step), E>)
        ensures
            match manifest {
                Err(error) => started matches Err(same) && same == error,
                Ok(files) => {
                    &&& started matches Ok(pair)
                    &&& pair.0@ == PassView::initial(
                        endpoints.package_store@,
                        token@,
                        manifest_view(files@),
                    )
                    &&& pair.0@.wf()
                    &&& Some(pair.1@) == pair.0@.request()
                },
            },
    {
        match manifest {
            Err(error) => Err(error),
            Ok(files) => Ok(InstallPass::begin(endpoints, token, files)),
        }
    }

    /// What the pass asks for, where it does not wait for the result of
    /// changes.
    fn ask(&self) -> (step: Step)
        requires
            self@.phase is Fetching ==> self@.on_file(),
            !(self@.phase is Writing),
        ensures
            Some(step@) == self@.request(),
    {
        match self.phase {
            Phase::Fetching => {
                let file = &self.files[self.outcomes.len()];
                Step::Fetch {
                    url: self.endpoints.file_url(self.token.as_str(), file.filename.as_str()),
                }
            },
            Phase::Writing { .. } => Step::Done,
            Phase::Settings => {
                let mut ops: Vec<FileOp> = Vec::new();
                ops.push(plan_settings(self.token.as_str()));
                let step = Step::Write { ops };
                assert(step@->Write_ops =~= seq![settings_op(self@.token)]);
                step
            },
            Phase::Finished => Step::Done,
        }
    }

    /// Records `outcome` for the current file and turns to what comes next.
    fn advance(&mut self, outcome: FileOutcome) -> (step: Step)
        requires
            old(self)@.on_file(),
        ensures
            final(self)@ == old(self)@.record(outcome),
            Some(step@) == final(self)@.request(),
    {
        self.outcomes.push(outcome);
        self.phase = if self.outcomes.len() < self.files.len() {
            Phase::Fetching
        } else {
            Phase::Settings
        };
        self.ask()
    }

    /// Tells the pass how the download of the current file went.
    ///
    /// Where the pass does not wait for a payload nothing changes and the
    /// result is `None`. A download that failed is recorded, and the step is
    /// what comes next. A payload that arrived is planned: the step holds
    /// the changes that install it, and the pass waits for their result.
    pub fn fetched(&mut self, payload: Result<Vec<u8>, FetchError>) -> (step: Option<Step>)
        ensures
            !(old(self)@.phase is Fetching && old(self)@.on_file()) ==> step is None && final(self)@ == old(self)@,
            old(self)@.phase is Fetching && old(self)@.on_file() ==> match payload {
                Err(error) => {
                    &&& final(self)@ == old(self)@.record(
                        FileOutcome::Skipped(SkipReason::Download(error)),
                    )
                    &&& step_view(step) == final(self)@.request()
                },
                Ok(bytes) => {
                    &&& final(self)@ == old(self)@.await_changes(
                        old(self)@.plan(bytes@).complete,
                    )
                    &&& step_view(step) == Some(
                        StepView::Write { ops: old(self)@.plan(bytes@).ops },
                    )
                },
            },
            old(self)@.wf() ==> final(self)@.wf(),
    {
        match self.phase {
            Phase::Fetching => {},
            _ => {
                return None;
            },
        }
        if self.outcomes.len() >= self.files.len() {
            return None;
        }
        match payload {
            Err(error) => Some(self.advance(FileOutcome::Skipped(SkipReason::Download(error)))),
            Ok(bytes) => {
                let file = &self.files[self.outcomes.len()];
                let plan = plan_payload(self.token.as_str(), file.filename.as_str(), bytes);
                self.phase = Phase::Writing { complete: plan.complete };
                Some(Step::Write { ops: plan.ops })
            },
        }
    }

    /// Tells the pass whether the changes of the last step were all made.
    ///
    /// Where the pass does not wait for such a result nothing changes and
    /// the result is `None`. After the changes of a file its outcome is
    /// recorded, and the step is what comes next. After the settings
    /// document the pass is finished.
    pub fn written(&mut self, ok: bool) -> (step: Option<Step>)
        ensures
            match old(self)@.phase {
                Phase::Writing { complete } if old(self)@.on_file() => {
                    &&& final(self)@ == old(self)@.record(outcome_of(ok, complete))
                    &&& step_view(step) == final(self)@.request()
                },
                Phase::Settings => {
                    &&& final(self)@ == old(self)@.conclude(ok)
                    &&& step_view(step) == Some(StepView::Done)
                },
                _ => step is None && final(self)@ == old(self)@,
            },
            old(self)@.wf() ==> final(self)@.wf(),
    {
        match self.phase {
            Phase::Writing { complete } => {
                if self.outcomes.len() >= self.files.len() {
                    return None;
                }
                let outcome = if !ok {
                    FileOutcome::Skipped(SkipReason::Write)
                } else if !complete {
                    FileOutcome::Skipped(SkipReason::Extract)
                } else {
                    FileOutcome::Installed
                };
                Some(self.advance(outcome))
            },
            Phase::Settings => {
                self.phase = Phase::Finished;
                self.settings_written = Some(ok);
                Some(Step::Done)
            },
            _ => None,
        }
    }

    /// What the pass waits for.
    pub fn phase(&self) -> (phase: Phase)
        ensures
            phase == self@.phase,
    {
        self.phase
    }

    /// The outcomes of the files dealt with so far, in the manifest's order.
    pub fn outcomes(&self) -> (outcomes: &Vec<FileOutcome>)
        ensures
            outcomes@ == self@.outcomes,
    {
        &self.outcomes
    }

    /// Whether the settings document could be written: `None` until that
    /// was tried.
    pub fn settings_written(&self) -> (written: Option<bool>)
        ensures
            written == self@.settings_written,
    {
        self.settings_written
    }
}

/// No outcome of a file ends the pass: after any outcome the pass is at the
/// next file, and after the last file at the settings document.
pub proof fn lemma_outcome_never_ends_pass(pass: PassView, outcome: FileOutcome)
    requires
        pass.wf(),
        pass.on_file(),
    ensures
        pass.record(outcome).wf(),
        pass.record(outcome).outcomes.len() == pass.outcomes.len() + 1,
        pass.record(outcome).on_file() ==> pass.record(outcome).phase is Fetching,
        !pass.record(outcome).on_file() ==> pass.record(outcome).request() == Some(
            StepView::Write { ops: seq![settings_op(pass.token)] },
        ),
{
}

/// A pass that is finished has an outcome for every file and has tried to
/// write the settings document.
pub proof fn lemma_finished_pass_is_complete(pass: PassView)
    requires
        pass.wf(),
        pass.phase is Finished,
    ensures
        pass.outcomes.len() == pass.files.len(),
        pass.settings_written is Some,
{
}

/// A pass over no files asks for the settings document at once.
pub proof fn lemma_pass_without_files_writes_settings(store: Seq<char>, token: Seq<char>)
    ensures
        PassView::initial(store, token, Seq::empty()).request() == Some(
            StepView::Write { ops: seq![settings_op(token)] },
        ),
{
}

} // verus!
