//! The render job: a state machine that says which step comes next and takes
//! what came of it. Whoever drives it owns the workspace and runs the tools.

use crate::error::RenderingError;
use crate::formula::FormulaTemplate;
use vstd::prelude::*;

verus! {

/// The file that the document is written to.
pub const TEMP_FILE_NAME_LATEX: &'static str = "temp.tex";

/// The file that the compiler leaves: the intermediate artifact.
pub const TEMP_FILE_NAME_DVI: &'static str = "temp.dvi";

/// The file that the converter leaves: the image.
pub const TEMP_FILE_NAME_SVG: &'static str = "temp.svg";

/// The steps at which a job can fail.
#[derive(Debug, Clone, Copy, PartialEq, Eq, Structural)]
pub enum Stage {
    /// Writing the document into the workspace.
    SourceWrite,
    /// Running the compiler on the document.
    Compile,
    /// Running the converter on the intermediate artifact.
    Convert,
    /// Reading the image back.
    ImageRead,
}

/// Where a job stands.
#[derive(Debug, PartialEq, Eq)]
pub enum JobState {
    /// Nothing has been done yet.
    Created,
    /// The document is in the workspace.
    SourceWritten,
    /// The compiler has left the intermediate artifact.
    IntermediateProduced,
    /// The converter has left the image.
    ImageProduced,
    /// The image's bytes are in memory: the job's result.
    Done(Vec<u8>),
    /// The job failed at a stage, for a cause. It has no other result.
    Failed(Stage, RenderingError),
}

/// What the driver is asked to do next.
#[derive(Debug, Clone, Copy, PartialEq, Eq, Structural)]
pub enum Action {
    /// Write the document to `TEMP_FILE_NAME_LATEX` in the workspace.
    WriteSource,
    /// Run the compiler in the workspace on `TEMP_FILE_NAME_LATEX`, within the time bound.
    RunCompiler,
    /// Run the converter in the workspace on `TEMP_FILE_NAME_DVI`, within the time bound.
    RunConverter,
    /// Read `TEMP_FILE_NAME_SVG` from the workspace.
    ReadImage,
    /// Destroy the workspace with all that is in it.
    Teardown,
    /// Nothing is left to do.
    Finish,
}

/// What came of an action.
#[derive(Debug, PartialEq, Eq)]
pub enum Outcome {
    /// The document was written.
    Wrote,
    /// A file could not be written or read.
    IoFailed,
    /// The tool ran and ended with `status`; `output_present` says whether it
    /// left the file that was expected of it.
    Exited { status: i32, output_present: bool },
    /// The tool could not be started.
    SpawnFailed,
    /// The tool ran longer than the bound and was ended by force.
    TimedOut,
    /// The image was read: these are its bytes.
    Read(Vec<u8>),
    /// The workspace was destroyed.
    Released,
}

/// The job is over, with an image or with a failure.
pub open spec fn terminal(state: JobState) -> bool {
    state is Done || state is Failed
}

/// The stage at which a job in `state` is working.
pub open spec fn stage_of(state: JobState) -> Stage {
    match state {
        JobState::Created => Stage::SourceWrite,
        JobState::SourceWritten => Stage::Compile,
        JobState::IntermediateProduced => Stage::Convert,
        _ => Stage::ImageRead,
    }
}

/// How far a job has come: the number of steps behind it.
pub open spec fn progress(state: JobState) -> int {
    match state {
        JobState::Created => 0,
        JobState::SourceWritten => 1,
        JobState::IntermediateProduced => 2,
        JobState::ImageProduced => 3,
        JobState::Done(_) => 4,
        JobState::Failed(_, _) => 4,
    }
}

/// The state after a tool has run at `stage`: `success` where it ended with
/// status 0 and left its output, a failure of that stage on every other end,
/// and `state` unchanged where the outcome is not that of a tool.
pub open spec fn after_tool(state: JobState, stage: Stage, success: JobState, outcome: Outcome) -> JobState {
    match outcome {
        Outcome::Exited { status, output_present } => if status == 0 && output_present {
            success
        } else {
            JobState::Failed(stage, RenderingError::ToolError)
        },
        Outcome::SpawnFailed => JobState::Failed(stage, RenderingError::ToolError),
        Outcome::TimedOut => JobState::Failed(stage, RenderingError::Timeout),
        _ => state,
    }
}

/// The state that follows `state` on `outcome`. An outcome that does not
/// answer the step that the state asks for changes nothing.
pub open spec fn next_state(state: JobState, outcome: Outcome) -> JobState {
    match state {
        JobState::Created => match outcome {
            Outcome::Wrote => JobState::SourceWritten,
            Outcome::IoFailed => JobState::Failed(Stage::SourceWrite, RenderingError::IOError),
            _ => state,
        },
        JobState::SourceWritten => after_tool(
            state,
            Stage::Compile,
            JobState::IntermediateProduced,
            outcome,
        ),
        JobState::IntermediateProduced => after_tool(
            state,
            Stage::Convert,
            JobState::ImageProduced,
            outcome,
        ),
        JobState::ImageProduced => match outcome {
            Outcome::Read(bytes) => JobState::Done(bytes),
            Outcome::IoFailed => JobState::Failed(Stage::ImageRead, RenderingError::IOError),
            _ => state,
        },
        JobState::Done(_) => state,
        JobState::Failed(_, _) => state,
    }
}

/// The step that a job asks for: the one of its state while it runs, the
/// teardown once it is over and still holds its workspace, nothing after that.
pub open spec fn action_for(state: JobState, workspace_held: bool) -> Action {
    match state {
        JobState::Created => Action::WriteSource,
        JobState::SourceWritten => Action::RunCompiler,
        JobState::IntermediateProduced => Action::RunConverter,
        JobState::ImageProduced => Action::ReadImage,
        _ => if workspace_held {
            Action::Teardown
        } else {
            Action::Finish
        },
    }
}

/// A job that is over stays as it is, whatever comes.
pub proof fn lemma_terminal_absorbs(state: JobState, outcome: Outcome)
    requires
        terminal(state),
    ensures
        next_state(state, outcome) == state,
{
}

/// A step leaves the job where it is, takes it one step on, or fails it at
/// the stage it was working at.
pub proof fn lemma_one_step(state: JobState, outcome: Outcome)
    requires
        !terminal(state),
    ensures
        ({
            let next = next_state(state, outcome);
            ||| next == state
            ||| !(next is Failed) && progress(next) == progress(state) + 1
            ||| next is Failed && next->Failed_0 == stage_of(state)
        }),
{
}

/// A job ends with an image only from the last step, and then with the bytes
/// that were read.
pub proof fn lemma_done_only_by_read(state: JobState, outcome: Outcome)
    requires
        !terminal(state),
        next_state(state, outcome) is Done,
    ensures
        state == JobState::ImageProduced,
        outcome is Read,
        next_state(state, outcome) == JobState::Done(outcome->Read_0),
{
}

/// Where every step succeeds, the job ends with the bytes that were read.
pub proof fn lemma_success_path(bytes: Vec<u8>)
    ensures
        next_state(
            next_state(
                next_state(
                    next_state(JobState::Created, Outcome::Wrote),
                    Outcome::Exited { status: 0, output_present: true },
                ),
                Outcome::Exited { status: 0, output_present: true },
            ),
            Outcome::Read(bytes),
        ) == JobState::Done(bytes),
{
}

/// A compiler that ends with another status than 0 fails the job at the
/// compile stage with a tool error.
pub proof fn lemma_broken_source(status: i32, output_present: bool)
    requires
        status != 0,
    ensures
        next_state(JobState::SourceWritten, Outcome::Exited { status, output_present })
            == JobState::Failed(Stage::Compile, RenderingError::ToolError),
{
}

/// What a render job is.
pub struct RendererView {
    /// The document to render.
    pub document: Seq<char>,
    /// Where the job stands.
    pub state: JobState,
    /// Whether the job still holds its workspace.
    pub workspace_held: bool,
    /// The status with which the last tool ended, if one has ended.
    pub exit_status: Option<i32>,
    /// The bound on the run of each tool, in milliseconds.
    pub timeout_ms: u64,
}

/// One render job. It holds its workspace from the start until the teardown
/// that follows its end.
#[derive(Debug)]
pub struct Renderer {
    formula_template: FormulaTemplate,
    state: JobState,
    workspace_held: bool,
    exit_status: Option<i32>,
    timeout_ms: u64,
}

impl View for Renderer {
    type V = RendererView;

    closed spec fn view(&self) -> RendererView {
        RendererView {
            document: self.formula_template@.text,
            state: self.state,
            workspace_held: self.workspace_held,
            exit_status: self.exit_status,
            timeout_ms: self.timeout_ms,
        }
    }
}

impl Renderer {
    /// A workspace is given up only by a job that is over.
    #[verifier::type_invariant]
    spec fn holds_workspace_while_running(&self) -> bool {
        !self.workspace_held ==> terminal(self.state)
    }

    /// A new job for a composed document, with the bound on each tool's run.
    pub fn new(template: FormulaTemplate, timeout_ms: u64) -> (job: Renderer)
        ensures
            job@ == (RendererView {
                document: template@.text,
                state: JobState::Created,
                workspace_held: true,
                exit_status: None,
                timeout_ms,
            }),
    {
        Renderer {
            formula_template: template,
            state: JobState::Created,
            workspace_held: true,
            exit_status: None,
            timeout_ms,
        }
    }

    /// The step to take next.
    pub fn next_action(&self) -> (action: Action)
        ensures
            action == action_for(self@.state, self@.workspace_held),
            action == Action::Finish <==> terminal(self@.state) && !self@.workspace_held,
            action == Action::Teardown <==> terminal(self@.state) && self@.workspace_held,
    {
        match &self.state {
            JobState::Created => Action::WriteSource,
            JobState::SourceWritten => Action::RunCompiler,
            JobState::IntermediateProduced => Action::RunConverter,
            JobState::ImageProduced => Action::ReadImage,
            _ => if self.workspace_held {
                Action::Teardown
            } else {
                Action::Finish
            },
        }
    }

    /// Takes what came of a step. The state moves as `next_state` says; the
    /// status of a tool that ended is kept; the workspace is given up when
    /// its teardown is reported after the job's end, and at no other time.
    pub fn advance(&mut self, outcome: Outcome)
        ensures
            final(self)@.state == next_state(old(self)@.state, outcome),
            final(self)@.workspace_held == (old(self)@.workspace_held && !(terminal(
                old(self)@.state,
            ) && outcome is Released)),
            final(self)@.exit_status == (if (old(self)@.state == JobState::SourceWritten || old(
                self,
            )@.state == JobState::IntermediateProduced) && outcome is Exited {
                Some(outcome->status)
            } else {
                old(self)@.exit_status
            }),
            final(self)@.document == old(self)@.document,
            final(self)@.timeout_ms == old(self)@.timeout_ms,
    {
        proof {
            use_type_invariant(&*self);
        }
        match &self.state {
            JobState::Created => match outcome {
                Outcome::Wrote => {
                    self.state = JobState::SourceWritten;
                },
                Outcome::IoFailed => {
                    self.state = JobState::Failed(Stage::SourceWrite, RenderingError::IOError);
                },
                _ => {},
            },
            JobState::SourceWritten => match outcome {
                Outcome::Exited { status, output_present } => {
                    self.exit_status = Some(status);
                    if status == 0 && output_present {
                        self.state = JobState::IntermediateProduced;
                    } else {
                        self.state = JobState::Failed(Stage::Compile, RenderingError::ToolError);
                    }
                },
                Outcome::SpawnFailed => {
                    self.state = JobState::Failed(Stage::Compile, RenderingError::ToolError);
                },
                Outcome::TimedOut => {
                    self.state = JobState::Failed(Stage::Compile, RenderingError::Timeout);
                },
                _ => {},
            },
            JobState::IntermediateProduced => match outcome {
                Outcome::Exited { status, output_present } => {
                    self.exit_status = Some(status);
                    if status == 0 && output_present {
                        self.state = JobState::ImageProduced;
                    } else {
                        self.state = JobState::Failed(Stage::Convert, RenderingError::ToolError);
                    }
                },
                Outcome::SpawnFailed => {
                    self.state = JobState::Failed(Stage::Convert, RenderingError::ToolError);
                },
                Outcome::TimedOut => {
                    self.state = JobState::Failed(Stage::Convert, RenderingError::Timeout);
                },
                _ => {},
            },
            JobState::ImageProduced => match outcome {
                Outcome::Read(bytes) => {
                    self.state = JobState::Done(bytes);
                },
                Outcome::IoFailed => {
                    self.state = JobState::Failed(Stage::ImageRead, RenderingError::IOError);
                },
                _ => {},
            },
            _ => match outcome {
                Outcome::Released => {
                    self.workspace_held = false;
                },
                _ => {},
            },
        }
    }

    /// Whether the job is over.
    pub fn is_finished(&self) -> (over: bool)
        ensures
            over == terminal(self@.state),
    {
        match &self.state {
            JobState::Done(_) => true,
            JobState::Failed(_, _) => true,
            _ => false,
        }
    }

    /// Whether the job still holds its workspace. A job that is not over holds it.
    pub fn holds_workspace(&self) -> (held: bool)
        ensures
            held == self@.workspace_held,
            !terminal(self@.state) ==> held,
    {
        proof {
            use_type_invariant(self);
        }
        self.workspace_held
    }

    /// The image, which only a job that is done has.
    pub fn image(&self) -> (image: Option<&Vec<u8>>)
        ensures
            match image {
                Some(bytes) => self@.state == JobState::Done(*bytes),
                None => !(self@.state is Done),
            },
    {
        match &self.state {
            JobState::Done(bytes) => Some(bytes),
            _ => None,
        }
    }

    /// The stage and the cause of the failure, which only a failed job has.
    pub fn failure(&self) -> (failure: Option<(Stage, RenderingError)>)
        ensures
            match failure {
                Some((stage, cause)) => self@.state == JobState::Failed(stage, cause),
                None => !(self@.state is Failed),
            },
    {
        match &self.state {
            JobState::Failed(stage, cause) => Some((*stage, *cause)),
            _ => None,
        }
    }

    /// The status with which the last tool ended, if one has ended.
    pub fn exit_status(&self) -> (status: Option<i32>)
        ensures
            status == self@.exit_status,
    {
        self.exit_status
    }

    /// The bound on the run of each tool, in milliseconds.
    pub fn timeout_ms(&self) -> (bound: u64)
        ensures
            bound == self@.timeout_ms,
    {
        self.timeout_ms
    }

    /// The document to write into the workspace.
    pub fn source(&self) -> (document: &String)
        ensures
            document@ == self@.document,
    {
        self.formula_template.text()
    }
}

} // verus!
