//! The export pipeline as a machine from state and event to next state and
//! action. Its driver starts with `ExportJob::start`, performs each action it
//! is handed, and reports the outcome to `ExportJob::step`, until the action
//! is `Finish` or `Fail`.

use vstd::prelude::*;
use vstd::relations::sorted_by;
use crate::export::{
    all_sources, classify, collect_sources, diagram_piece, export_sources, image_file, image_name,
    lemma_export_sources, markdown_piece, push_diagram, push_markdown, source_kind, SourceKind,
    HEADER_FILE, HEADER_TEXT, NOT_A_DIRECTORY, TEXT_FILE, UNEXPECTED_EVENT,
};
use crate::listing::Entry;
use crate::order::{name_order, names_of};
use crate::text::{decode_lossy, utf8_lossy};

verus! {

/// Where an export stands: what its driver is doing for it.
#[derive(Clone, Copy, Debug, PartialEq, Eq, Structural)]
pub enum Phase {
    /// Finding out whether the project path is a directory.
    Checking,
    /// Removing the output directory, if there is one, and creating it anew.
    Resetting,
    /// Listing the immediate children of the project directory.
    Listing,
    /// Reading or rendering the source that is next.
    Walking,
    /// Writing the combined text.
    WritingText,
    /// Writing the styling header.
    WritingHeader,
    /// Converting the combined text to PDF.
    Converting,
    /// Finished or failed: nothing more is to be done.
    Finished,
}

/// What the driver reports.
#[derive(Debug)]
pub enum ExportEvent {
    /// Whether the project path is a directory.
    IsDirectory(bool),
    /// The action was performed.
    Succeeded,
    /// The immediate children of the project directory.
    Entries(Vec<Entry>),
    /// The text of the file that was to be read.
    Text(String),
    /// The program ran and exited; `stderr` is what it wrote to standard error.
    ToolExited { success: bool, stderr: Vec<u8> },
    /// The action could not be performed; the text says why.
    Failed(String),
}

/// What the driver is to do next.
#[derive(Debug)]
pub enum ExportAction {
    /// Find out whether the project path is a directory.
    CheckDirectory,
    /// Remove the output directory if it exists, then create it.
    ResetOutput,
    /// List the immediate children of the project directory.
    ListEntries,
    /// Read the file `name` of the project directory as text.
    ReadSource { name: String },
    /// Run the renderer on the file `source` of the project directory, to
    /// make the file `image` of the output directory.
    RenderDiagram { source: String, image: String },
    /// Write `content` to the file `name` of the output directory.
    WriteFile { name: String, content: String },
    /// Run the converter in the output directory.
    Convert,
    /// The export is done: the PDF is in the output directory.
    Finish,
    /// The export failed; nothing is undone.
    Fail { message: String },
}

/// An event, as contracts speak of it.
pub enum EventView {
    IsDirectory(bool),
    Succeeded,
    Entries(Seq<Entry>),
    Text(Seq<char>),
    ToolExited { success: bool, stderr: Seq<u8> },
    Failed(Seq<char>),
}

/// An action, as contracts speak of it.
pub enum ActionView {
    CheckDirectory,
    ResetOutput,
    ListEntries,
    ReadSource { name: Seq<char> },
    RenderDiagram { source: Seq<char>, image: Seq<char> },
    WriteFile { name: Seq<char>, content: Seq<char> },
    Convert,
    Finish,
    Fail { message: Seq<char> },
}

/// The state of an export, as contracts speak of it.
pub struct JobView {
    pub phase: Phase,
    /// The sources, in the order in which they are taken up.
    pub sources: Seq<Seq<char>>,
    /// How many of the sources are dealt with.
    pub next: nat,
    /// How many of those were diagrams.
    pub diagrams: nat,
    /// The combined text so far.
    pub text: Seq<char>,
}

impl View for ExportEvent {
    type V = EventView;

    open spec fn view(&self) -> EventView {
        match self {
            ExportEvent::IsDirectory(b) => EventView::IsDirectory(*b),
            ExportEvent::Succeeded => EventView::Succeeded,
            ExportEvent::Entries(entries) => EventView::Entries(entries@),
            ExportEvent::Text(text) => EventView::Text(text@),
            ExportEvent::ToolExited { success, stderr } => EventView::ToolExited {
                success: *success,
                stderr: stderr@,
            },
            ExportEvent::Failed(message) => EventView::Failed(message@),
        }
    }
}

impl View for ExportAction {
    type V = ActionView;

    open spec fn view(&self) -> ActionView {
        match self {
            ExportAction::CheckDirectory => ActionView::CheckDirectory,
            ExportAction::ResetOutput => ActionView::ResetOutput,
            ExportAction::ListEntries => ActionView::ListEntries,
            ExportAction::ReadSource { name } => ActionView::ReadSource { name: name@ },
            ExportAction::RenderDiagram { source, image } => ActionView::RenderDiagram {
                source: source@,
                image: image@,
            },
            ExportAction::WriteFile { name, content } => ActionView::WriteFile {
                name: name@,
                content: content@,
            },
            ExportAction::Convert => ActionView::Convert,
            ExportAction::Finish => ActionView::Finish,
            ExportAction::Fail { message } => ActionView::Fail { message: message@ },
        }
    }
}

/// How many of `names` are names of diagrams.
pub open spec fn diagram_count(names: Seq<Seq<char>>) -> nat
    decreases names.len(),
{
    if names.len() == 0 {
        0
    } else if source_kind(names.last()) == Some(SourceKind::Diagram) {
        diagram_count(names.drop_last()) + 1
    } else {
        diagram_count(names.drop_last())
    }
}

/// There are no more diagrams than names.
pub proof fn lemma_diagram_count_bound(names: Seq<Seq<char>>)
    ensures
        diagram_count(names) <= names.len(),
    decreases names.len(),
{
    if names.len() > 0 {
        lemma_diagram_count_bound(names.drop_last());
    }
}

impl JobView {
    /// What holds of every state that an export reaches.
    pub open spec fn wf(self) -> bool {
        &&& self.next <= self.sources.len()
        &&& all_sources(self.sources)
        &&& sorted_by(self.sources, name_order())
        &&& self.diagrams == diagram_count(self.sources.take(self.next as int))
        &&& (self.phase == Phase::Walking ==> self.next < self.sources.len())
        &&& (self.phase == Phase::Checking || self.phase == Phase::Resetting || self.phase
            == Phase::Listing ==> self.sources.len() == 0 && self.text.len() == 0)
        &&& (self.phase == Phase::WritingText || self.phase == Phase::WritingHeader || self.phase
            == Phase::Converting ==> self.next == self.sources.len())
    }

    /// The state in which an export starts.
    pub open spec fn initial() -> JobView {
        JobView {
            phase: Phase::Checking,
            sources: Seq::empty(),
            next: 0,
            diagrams: 0,
            text: Seq::empty(),
        }
    }

    /// The export has failed, or was handed an event after its end.
    pub open spec fn fail(self, message: Seq<char>) -> (JobView, ActionView) {
        (JobView { phase: Phase::Finished, ..self }, ActionView::Fail { message })
    }

    /// The export goes on to the source that is next, or, after the last
    /// one, to writing the combined text.
    pub open spec fn advance(self) -> (JobView, ActionView) {
        if self.next < self.sources.len() {
            let name = self.sources[self.next as int];
            let action = if source_kind(name) == Some(SourceKind::Diagram) {
                ActionView::RenderDiagram { source: name, image: image_name(self.diagrams + 1) }
            } else {
                ActionView::ReadSource { name }
            };
            (JobView { phase: Phase::Walking, ..self }, action)
        } else {
            (
                JobView { phase: Phase::WritingText, ..self },
                ActionView::WriteFile { name: TEXT_FILE@, content: self.text },
            )
        }
    }

    /// The source that is next is a diagram.
    pub open spec fn at_diagram(self) -> bool {
        self.next < self.sources.len() && source_kind(self.sources[self.next as int]) == Some(
            SourceKind::Diagram,
        )
    }

    /// The state after `event`, and the action that the driver is handed.
    pub open spec fn step(self, event: EventView) -> (JobView, ActionView) {
        match (self.phase, event) {
            (Phase::Finished, _) => self.fail(UNEXPECTED_EVENT@),
            (_, EventView::Failed(message)) => self.fail(message),
            (Phase::Checking, EventView::IsDirectory(is_directory)) => if is_directory {
                (JobView { phase: Phase::Resetting, ..self }, ActionView::ResetOutput)
            } else {
                self.fail(NOT_A_DIRECTORY@)
            },
            (Phase::Resetting, EventView::Succeeded) => (
                JobView { phase: Phase::Listing, ..self },
                ActionView::ListEntries,
            ),
            (Phase::Listing, EventView::Entries(entries)) => JobView {
                sources: export_sources(entries),
                ..self
            }.advance(),
            (Phase::Walking, EventView::Text(content)) => if self.at_diagram() {
                self.fail(UNEXPECTED_EVENT@)
            } else {
                JobView {
                    next: self.next + 1,
                    text: self.text + markdown_piece(content),
                    ..self
                }.advance()
            },
            (Phase::Walking, EventView::ToolExited { success, stderr }) => if !self.at_diagram() {
                self.fail(UNEXPECTED_EVENT@)
            } else if success {
                JobView {
                    next: self.next + 1,
                    diagrams: self.diagrams + 1,
                    text: self.text + diagram_piece(image_name(self.diagrams + 1)),
                    ..self
                }.advance()
            } else {
                self.fail(utf8_lossy(stderr))
            },
            (Phase::WritingText, EventView::Succeeded) => (
                JobView { phase: Phase::WritingHeader, ..self },
                ActionView::WriteFile { name: HEADER_FILE@, content: HEADER_TEXT@ },
            ),
            (Phase::WritingHeader, EventView::Succeeded) => (
                JobView { phase: Phase::Converting, ..self },
                ActionView::Convert,
            ),
            (Phase::Converting, EventView::ToolExited { success, stderr }) => if success {
                (JobView { phase: Phase::Finished, ..self }, ActionView::Finish)
            } else {
                self.fail(utf8_lossy(stderr))
            },
            _ => self.fail(UNEXPECTED_EVENT@),
        }
    }
}

/// Taking one more source into account adds one to the count if it is a
/// diagram, and nothing if it is not.
pub proof fn lemma_diagram_count_next(names: Seq<Seq<char>>, next: int)
    requires
        0 <= next < names.len(),
    ensures
        diagram_count(names.take(next + 1)) == diagram_count(names.take(next)) + (if source_kind(
            names[next],
        ) == Some(SourceKind::Diagram) {
            1nat
        } else {
            0nat
        }),
{
    assert(names.take(next + 1).drop_last() =~= names.take(next));
}

/// Every state that an export reaches is well formed: a step keeps it so.
pub proof fn lemma_step_keeps_wf(job: JobView, event: EventView)
    requires
        job.wf(),
    ensures
        job.step(event).0.wf(),
{
    match (job.phase, event) {
        (Phase::Listing, EventView::Entries(entries)) => {
            lemma_export_sources(entries);
            let listed = JobView { sources: export_sources(entries), ..job };
            assert(listed.sources.take(0) =~= Seq::<Seq<char>>::empty());
        },
        (Phase::Walking, _) => {
            lemma_diagram_count_next(job.sources, job.next as int);
        },
        _ => {},
    }
}

/// A failure ends the export: the state is then finished, and whatever is
/// reported after it fails too, and changes nothing.
pub proof fn lemma_failure_is_final(job: JobView, event: EventView, later: EventView)
    ensures
        job.step(event).1 is Fail || job.step(event).1 is Finish ==> {
            let ended = job.step(event).0;
            &&& ended.phase == Phase::Finished
            &&& ended.step(later) == (ended, ActionView::Fail { message: UNEXPECTED_EVENT@ })
        },
{
}

/// The image that a diagram is rendered to is numbered by the diagram's
/// place among the diagrams: the first is 1, and each one after it is one
/// more than the one before.
pub proof fn lemma_image_numbering(job: JobView, event: EventView)
    requires
        job.wf(),
    ensures
        job.step(event).1 matches ActionView::RenderDiagram { source, image } ==> {
            let after = job.step(event).0;
            &&& source == after.sources[after.next as int]
            &&& image == image_name(diagram_count(after.sources.take(after.next as int + 1)))
        },
{
    let after = job.step(event).0;
    lemma_step_keeps_wf(job, event);
    if job.step(event).1 is RenderDiagram {
        lemma_diagram_count_next(after.sources, after.next as int);
    }
}

/// An export in progress.
#[derive(Debug)]
pub struct ExportJob {
    phase: Phase,
    sources: Vec<String>,
    next: usize,
    diagrams: usize,
    text: String,
}

impl View for ExportJob {
    type V = JobView;

    closed spec fn view(&self) -> JobView {
        JobView {
            phase: self.phase,
            sources: names_of(self.sources@),
            next: self.next as nat,
            diagrams: self.diagrams as nat,
            text: self.text@,
        }
    }
}

impl ExportJob {
    #[verifier::type_invariant]
    spec fn well_formed(&self) -> bool {
        self@.wf()
    }

    /// A new export, and the first thing to do for it: to find out whether
    /// the project path is a directory.
    pub fn start() -> (r: (ExportJob, ExportAction))
        ensures
            r.0@ == JobView::initial(),
            r.0@.wf(),
            r.1@ == ActionView::CheckDirectory,
    {
        let job = ExportJob {
            phase: Phase::Checking,
            sources: Vec::new(),
            next: 0,
            diagrams: 0,
            text: String::new(),
        };
        proof {
            assert(names_of(job.sources@) =~= Seq::<Seq<char>>::empty());
            assert(job@.sources.take(0) =~= Seq::<Seq<char>>::empty());
        }
        (job, ExportAction::CheckDirectory)
    }

    /// Where the export stands.
    pub fn phase(&self) -> (phase: Phase)
        ensures
            phase == self@.phase,
    {
        self.phase
    }

    /// Whether the export has finished or failed.
    pub fn is_finished(&self) -> (finished: bool)
        ensures
            finished == (self@.phase == Phase::Finished),
    {
        self.phase == Phase::Finished
    }

    fn assemble(
        phase: Phase,
        sources: Vec<String>,
        next: usize,
        diagrams: usize,
        text: String,
    ) -> (job: ExportJob)
        requires
            (JobView {
                phase,
                sources: names_of(sources@),
                next: next as nat,
                diagrams: diagrams as nat,
                text: text@,
            }).wf(),
        ensures
            job@ == (JobView {
                phase,
                sources: names_of(sources@),
                next: next as nat,
                diagrams: diagrams as nat,
                text: text@,
            }),
    {
        ExportJob { phase, sources, next, diagrams, text }
    }

    fn failed(
        sources: Vec<String>,
        next: usize,
        diagrams: usize,
        text: String,
        message: String,
        Ghost(before): Ghost<JobView>,
    ) -> (r: (ExportJob, ExportAction))
        requires
            before.wf(),
            before.sources == names_of(sources@),
            before.next == next,
            before.diagrams == diagrams,
            before.text == text@,
        ensures
            (r.0@, r.1@) == before.fail(message@),
    {
        (
            Self::assemble(Phase::Finished, sources, next, diagrams, text),
            ExportAction::Fail { message },
        )
    }

    fn advance(sources: Vec<String>, next: usize, diagrams: usize, text: String) -> (r: (
        ExportJob,
        ExportAction,
    ))
        requires
            next <= sources.len(),
            all_sources(names_of(sources@)),
            sorted_by(names_of(sources@), name_order()),
            diagrams == diagram_count(names_of(sources@).take(next as int)),
        ensures
            (r.0@, r.1@) == (JobView {
                phase: Phase::Walking,
                sources: names_of(sources@),
                next: next as nat,
                diagrams: diagrams as nat,
                text: text@,
            }).advance(),
    {
        if next < sources.len() {
            proof {
                lemma_diagram_count_bound(names_of(sources@).take(next as int));
            }
            let action = match classify(sources[next].as_str()) {
                Some(SourceKind::Diagram) => ExportAction::RenderDiagram {
                    source: sources[next].clone(),
                    image: image_file(diagrams + 1),
                },
                _ => ExportAction::ReadSource { name: sources[next].clone() },
            };
            (Self::assemble(Phase::Walking, sources, next, diagrams, text), action)
        } else {
            let content = text.clone();
            (
                Self::assemble(Phase::WritingText, sources, next, diagrams, text),
                ExportAction::WriteFile { name: TEXT_FILE.to_owned(), content },
            )
        }
    }

    /// Takes in what the driver reports of the action it was handed, and
    /// hands it the next one. The first failure ends the export: its text
    /// is the failure's own, or, where a program exited without success,
    /// what the program wrote to standard error.
    pub fn step(self, event: ExportEvent) -> (r: (ExportJob, ExportAction))
        ensures
            (r.0@, r.1@) == self@.step(event@),
            r.0@.wf(),
    {
        proof {
            use_type_invariant(&self);
            lemma_step_keeps_wf(self@, event@);
        }
        let ghost before = self@;
        let ExportJob { phase, sources, next, diagrams, mut text } = self;
        assert(before == (JobView {
            phase,
            sources: names_of(sources@),
            next: next as nat,
            diagrams: diagrams as nat,
            text: text@,
        }));
        assert(names_of(sources@).len() == sources.len());
        if phase == Phase::Finished {
            return Self::failed(
                sources,
                next,
                diagrams,
                text,
                UNEXPECTED_EVENT.to_owned(),
                Ghost(before),
            );
        }
        match event {
            ExportEvent::Failed(message) => Self::failed(
                sources,
                next,
                diagrams,
                text,
                message,
                Ghost(before),
            ),
            ExportEvent::IsDirectory(is_directory) => {
                if phase != Phase::Checking {
                    Self::failed(
                        sources,
                        next,
                        diagrams,
                        text,
                        UNEXPECTED_EVENT.to_owned(),
                        Ghost(before),
                    )
                } else if is_directory {
                    (
                        Self::assemble(Phase::Resetting, sources, next, diagrams, text),
                        ExportAction::ResetOutput,
                    )
                } else {
                    Self::failed(
                        sources,
                        next,
                        diagrams,
                        text,
                        NOT_A_DIRECTORY.to_owned(),
                        Ghost(before),
                    )
                }
            },
            ExportEvent::Succeeded => match phase {
                Phase::Resetting => (
                    Self::assemble(Phase::Listing, sources, next, diagrams, text),
                    ExportAction::ListEntries,
                ),
                Phase::WritingText => (
                    Self::assemble(Phase::WritingHeader, sources, next, diagrams, text),
                    ExportAction::WriteFile {
                        name: HEADER_FILE.to_owned(),
                        content: HEADER_TEXT.to_owned(),
                    },
                ),
                Phase::WritingHeader => (
                    Self::assemble(Phase::Converting, sources, next, diagrams, text),
                    ExportAction::Convert,
                ),
                _ => Self::failed(
                    sources,
                    next,
                    diagrams,
                    text,
                    UNEXPECTED_EVENT.to_owned(),
                    Ghost(before),
                ),
            },
            ExportEvent::Entries(entries) => {
                if phase != Phase::Listing {
                    Self::failed(
                        sources,
                        next,
                        diagrams,
                        text,
                        UNEXPECTED_EVENT.to_owned(),
                        Ghost(before),
                    )
                } else {
                    let listed = collect_sources(&entries);
                    proof {
                        lemma_export_sources(entries@);
                        assert(names_of(listed@).take(0) =~= Seq::<Seq<char>>::empty());
                    }
                    Self::advance(listed, next, diagrams, text)
                }
            },
            ExportEvent::Text(content) => {
                if phase != Phase::Walking {
                    Self::failed(
                        sources,
                        next,
                        diagrams,
                        text,
                        UNEXPECTED_EVENT.to_owned(),
                        Ghost(before),
                    )
                } else {
                    match classify(sources[next].as_str()) {
                        Some(SourceKind::Diagram) => Self::failed(
                            sources,
                            next,
                            diagrams,
                            text,
                            UNEXPECTED_EVENT.to_owned(),
                            Ghost(before),
                        ),
                        _ => {
                            proof {
                                lemma_diagram_count_next(names_of(sources@), next as int);
                            }
                            push_markdown(&mut text, content.as_str());
                            Self::advance(sources, next + 1, diagrams, text)
                        },
                    }
                }
            },
            ExportEvent::ToolExited { success, stderr } => match phase {
                Phase::Walking => match classify(sources[next].as_str()) {
                    Some(SourceKind::Diagram) => {
                        if success {
                            proof {
                                lemma_diagram_count_next(names_of(sources@), next as int);
                                lemma_diagram_count_bound(names_of(sources@).take(next as int));
                            }
                            let image = image_file(diagrams + 1);
                            push_diagram(&mut text, image.as_str());
                            Self::advance(sources, next + 1, diagrams + 1, text)
                        } else {
                            let message = decode_lossy(stderr.as_slice());
                            Self::failed(sources, next, diagrams, text, message, Ghost(before))
                        }
                    },
                    _ => Self::failed(
                        sources,
                        next,
                        diagrams,
                        text,
                        UNEXPECTED_EVENT.to_owned(),
                        Ghost(before),
                    ),
                },
                Phase::Converting => {
                    if success {
                        (
                            Self::assemble(Phase::Finished, sources, next, diagrams, text),
                            ExportAction::Finish,
                        )
                    } else {
                        let message = decode_lossy(stderr.as_slice());
                        Self::failed(sources, next, diagrams, text, message, Ghost(before))
                    }
                },
                _ => Self::failed(
                    sources,
                    next,
                    diagrams,
                    text,
                    UNEXPECTED_EVENT.to_owned(),
                    Ghost(before),
                ),
            },
        }
    }
}

} // verus!
