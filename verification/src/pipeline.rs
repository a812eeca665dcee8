//! The per-document conversion state machine: it decides what to render,
//! what to save and under what name, and emits progress and status events,
//! staying correct under partial failure. The surrounding program performs
//! the outside work (loading, rasterizing, writing files) and reports each
//! outcome back.
use vstd::prelude::*;
use crate::OutputFormat;
use crate::compositor;
use crate::naming;
use crate::page_range;
use crate::pixels::PixelBuffer;

verus! {

/// How far a document has progressed.
#[derive(Clone, Copy, PartialEq, Eq, Structural, Debug)]
pub enum Status {
    Queued,
    Processing,
    Success,
    Error,
}

impl Status {
    /// The word the status reporter emits for this status.
    pub fn text(&self) -> (r: &'static str)
        ensures
            *self is Queued ==> r@ == "queued"@,
            *self is Processing ==> r@ == "processing"@,
            *self is Success ==> r@ == "success"@,
            *self is Error ==> r@ == "error"@,
    {
        match self {
            Status::Queued => "queued",
            Status::Processing => "processing",
            Status::Success => "success",
            Status::Error => "error",
        }
    }
}

/// One page was processed: the 1-based position within the document's
/// selection, out of the selection's size.
pub struct ProgressEvent {
    pub filename: String,
    pub current: usize,
    pub total: usize,
}

/// A document's status changed, with an error message or an output path
/// where one applies.
pub struct FileStatusEvent {
    pub filename: String,
    pub status: Status,
    pub error: Option<String>,
    pub output_path: Option<String>,
}

/// What the pipeline emits.
pub enum Event {
    Progress(ProgressEvent),
    FileStatus(FileStatusEvent),
}

/// The abstract record of one emitted event. A status event is `terminal`
/// when it ends its document: after it, the document emits nothing more.
pub enum EventModel {
    Progress { current: int, total: int },
    StatusReport { status: Status, message: Option<Seq<char>>, output: Option<Seq<char>>, terminal: bool },
}

pub open spec fn is_terminal(e: EventModel) -> bool {
    e matches EventModel::StatusReport { terminal: true, .. }
}

pub open spec fn is_progress(e: EventModel) -> bool {
    e matches EventModel::Progress { .. }
}

pub open spec fn is_error_report(e: EventModel) -> bool {
    e matches EventModel::StatusReport { status: Status::Error, .. }
}

/// No event of the history ends the document.
pub open spec fn no_terminal(h: Seq<EventModel>) -> bool {
    forall|i: int| 0 <= i < h.len() ==> !is_terminal(#[trigger] h[i])
}

/// Exactly one event ends the document, and it is the last.
pub open spec fn one_terminal_at_end(h: Seq<EventModel>) -> bool {
    &&& h.len() > 0
    &&& is_terminal(h.last())
    &&& forall|i: int| 0 <= i < h.len() - 1 ==> !is_terminal(#[trigger] h[i])
}

pub open spec fn progress_count(h: Seq<EventModel>) -> int
    decreases h.len(),
{
    if h.len() == 0 {
        0
    } else {
        progress_count(h.drop_last()) + if is_progress(h.last()) {
            1int
        } else {
            0int
        }
    }
}

pub open spec fn error_report_count(h: Seq<EventModel>) -> int
    decreases h.len(),
{
    if h.len() == 0 {
        0
    } else {
        error_report_count(h.drop_last()) + if is_error_report(h.last()) {
            1int
        } else {
            0int
        }
    }
}

/// The event model of starting to process a document.
pub open spec fn processing_model() -> EventModel {
    EventModel::StatusReport { status: Status::Processing, message: None, output: None, terminal: false }
}

/// The event model of a terminal outcome.
pub open spec fn terminal_model(st: Status, message: Option<Seq<char>>, output: Option<Seq<char>>) -> EventModel {
    EventModel::StatusReport { status: st, message, output, terminal: true }
}

/// The event model of an incidental per-page failure report.
pub open spec fn page_error_model(message: Seq<char>) -> EventModel {
    EventModel::StatusReport { status: Status::Error, message: Some(message), output: None, terminal: false }
}

/// An emitted status event announcing that processing began.
pub open spec fn is_processing_status(e: Event, name: Seq<char>) -> bool {
    match e {
        Event::FileStatus(fs) => {
            &&& fs.filename@ == name
            &&& fs.status is Processing
            &&& fs.error is None
            &&& fs.output_path is None
        },
        _ => false,
    }
}

/// An emitted status event reporting an error, terminal or not.
pub open spec fn is_error_status(e: Event, name: Seq<char>, msg: Seq<char>) -> bool {
    match e {
        Event::FileStatus(fs) => {
            &&& fs.filename@ == name
            &&& fs.status is Error
            &&& (fs.error matches Some(m) && m@ == msg)
            &&& fs.output_path is None
        },
        _ => false,
    }
}

/// An emitted terminal success event carrying the last output path.
pub open spec fn is_success_status(e: Event, name: Seq<char>, out: Seq<char>) -> bool {
    match e {
        Event::FileStatus(fs) => {
            &&& fs.filename@ == name
            &&& fs.status is Success
            &&& fs.error is None
            &&& (fs.output_path matches Some(p) && p@ == out)
        },
        _ => false,
    }
}

/// An emitted progress event.
pub open spec fn is_progress_event(e: Event, name: Seq<char>, current: int, total: int) -> bool {
    match e {
        Event::Progress(p) => {
            &&& p.filename@ == name
            &&& p.current as int == current
            &&& p.total as int == total
        },
        _ => false,
    }
}

/// The expression selects no page at all of an `n`-page document.
pub open spec fn no_page_selected(expr: Seq<char>, n: int) -> bool {
    !(exists|p: int| page_range::selected(expr, n, p))
}

/// Everything of one batch request that the per-document machine reads.
/// The scale factor stays with the renderer outside.
pub struct ConversionRequest {
    pub output_dir: String,
    pub format: OutputFormat,
    pub page_range_expr: String,
    pub merge: bool,
    pub quality: u8,
}

#[derive(Clone, Copy, PartialEq, Eq, Structural, Debug)]
enum Phase {
    AwaitLoad,
    Rendering,
    AwaitPageSave,
    AwaitMergeSave,
    Done,
}

/// What to do with a page that rendered.
pub enum PageStep {
    /// The page joined the merge stack; nothing to write yet.
    Accumulated,
    /// Write this page's buffer to its own file, then report back.
    SavePage { path: String, buffer: PixelBuffer },
}

/// How a document ends once every selected page was attempted.
pub enum FinishStep {
    /// The document is over; emit its terminal status event.
    Done(Event),
    /// Write the merged canvas to its file, then report back.
    SaveMerged { path: String, buffer: PixelBuffer },
}

/// The state machine of one document's conversion.
pub struct DocumentJob {
    filename: String,
    output_dir: String,
    page_range_expr: String,
    format: OutputFormat,
    merge: bool,
    selection: Vec<usize>,
    cursor: usize,
    buffers: Vec<PixelBuffer>,
    last_output: Option<String>,
    pending_path: Option<String>,
    page_taken: bool,
    phase: Phase,
    history: Ghost<Seq<EventModel>>,
}

impl DocumentJob {
    /// Every event this document has emitted, in order.
    pub closed spec fn events(&self) -> Seq<EventModel> {
        self.history@
    }

    pub closed spec fn done(&self) -> bool {
        self.phase is Done
    }

    pub closed spec fn awaiting_load(&self) -> bool {
        self.phase is AwaitLoad
    }

    pub closed spec fn rendering(&self) -> bool {
        self.phase is Rendering
    }

    pub closed spec fn page_active(&self) -> bool {
        self.phase is AwaitPageSave
    }

    pub closed spec fn awaiting_merge_save(&self) -> bool {
        self.phase is AwaitMergeSave
    }

    pub closed spec fn spec_filename(&self) -> Seq<char> {
        self.filename@
    }

    pub closed spec fn spec_output_dir(&self) -> Seq<char> {
        self.output_dir@
    }

    pub closed spec fn spec_page_range(&self) -> Seq<char> {
        self.page_range_expr@
    }

    pub closed spec fn spec_format(&self) -> OutputFormat {
        self.format
    }

    pub closed spec fn spec_merge(&self) -> bool {
        self.merge
    }

    pub closed spec fn spec_selection(&self) -> Seq<usize> {
        self.selection@
    }

    pub closed spec fn spec_cursor(&self) -> int {
        self.cursor as int
    }

    pub closed spec fn spec_buffers(&self) -> Seq<PixelBuffer> {
        self.buffers@
    }

    /// Some output file of this document was written.
    pub closed spec fn produced_output(&self) -> bool {
        self.last_output is Some
    }

    pub closed spec fn spec_last_output(&self) -> Option<Seq<char>> {
        match self.last_output {
            Some(p) => Some(p@),
            None => None,
        }
    }

    pub closed spec fn spec_pending_path(&self) -> Option<Seq<char>> {
        match self.pending_path {
            Some(p) => Some(p@),
            None => None,
        }
    }

    /// The machine's invariant: the cursor stays within the selection, the
    /// merge stack holds well-formed buffers, and the event history holds no
    /// terminal event until the document is done — then exactly one, last.
    pub closed spec fn inv(&self) -> bool {
        &&& self.cursor as int <= self.selection@.len()
        &&& forall|i: int|
            0 <= i < self.selection@.len() ==> (#[trigger] self.selection@[i]) < 65536
        &&& forall|i: int| 0 <= i < self.buffers@.len() ==> (#[trigger] self.buffers@[i]).wf()
        &&& (self.phase is Done ==> one_terminal_at_end(self.history@))
        &&& (!(self.phase is Done) ==> no_terminal(self.history@))
        &&& (self.phase is AwaitLoad ==> self.cursor == 0 && self.selection@.len() == 0)
        &&& (self.phase is AwaitPageSave ==> self.pending_path is Some && !self.merge
            && self.page_taken)
        &&& (self.phase is AwaitMergeSave ==> self.pending_path is Some && self.merge)
        &&& (self.page_taken ==> (self.phase is Rendering || self.phase is AwaitPageSave) && (
        self.cursor as int) < self.selection@.len())
        &&& progress_count(self.history@) == self.cursor as int + (if self.page_taken {
            1int
        } else {
            0int
        })
    }

    /// The fixed request data never changes while a document runs.
    pub open spec fn same_request(&self, other: &DocumentJob) -> bool {
        &&& self.spec_filename() == other.spec_filename()
        &&& self.spec_output_dir() == other.spec_output_dir()
        &&& self.spec_page_range() == other.spec_page_range()
        &&& self.spec_format() == other.spec_format()
        &&& self.spec_merge() == other.spec_merge()
    }

    /// Begin a document: it enters processing and says so.
    pub fn start(filename: String, req: &ConversionRequest) -> (r: (DocumentJob, Event))
        ensures
            r.0.inv(),
            r.0.awaiting_load(),
            !r.0.done(),
            r.0.events() =~= seq![processing_model()],
            r.0.spec_filename() == filename@,
            r.0.spec_output_dir() == req.output_dir@,
            r.0.spec_page_range() == req.page_range_expr@,
            r.0.spec_format() == req.format,
            r.0.spec_merge() == req.merge,
            !r.0.produced_output(),
            is_processing_status(r.1, filename@),
    {
        let ev = Event::FileStatus(
            FileStatusEvent {
                filename: filename.clone(),
                status: Status::Processing,
                error: None,
                output_path: None,
            },
        );
        let ghost h0: Seq<EventModel> = seq![processing_model()];
        let job = DocumentJob {
            filename,
            output_dir: req.output_dir.clone(),
            page_range_expr: req.page_range_expr.clone(),
            format: req.format,
            merge: req.merge,
            selection: Vec::new(),
            cursor: 0,
            buffers: Vec::new(),
            last_output: None,
            pending_path: None,
            page_taken: false,
            phase: Phase::AwaitLoad,
            history: Ghost(h0),
        };
        proof {
            assert(h0.drop_last() =~= Seq::<EventModel>::empty());
            assert(progress_count(Seq::<EventModel>::empty()) == 0);
            assert(h0.last() == processing_model());
            assert(progress_count(h0) == 0);
        }
        (job, ev)
    }

    /// The document could not be loaded: the document ends in error at once.
    pub fn load_failed(&mut self, message: String) -> (ev: Event)
        requires
            old(self).inv(),
            old(self).awaiting_load(),
        ensures
            final(self).inv(),
            final(self).done(),
            final(self).same_request(old(self)),
            final(self).events() =~= old(self).events().push(
                terminal_model(Status::Error, Some("Load PDF error: "@ + message@), None),
            ),
            is_error_status(ev, old(self).spec_filename(), "Load PDF error: "@ + message@),
    {
        let mut text = String::from_str("Load PDF error: ");
        text.append(message.as_str());
        let ev = Event::FileStatus(
            FileStatusEvent {
                filename: self.filename.clone(),
                status: Status::Error,
                error: Some(text.clone()),
                output_path: None,
            },
        );
        self.phase = Phase::Done;
        proof {
            lemma_progress_count_push_status(
                self.history@,
                terminal_model(Status::Error, Some("Load PDF error: "@ + message@), None),
            );
            self.history@ = self.history@.push(
                terminal_model(Status::Error, Some("Load PDF error: "@ + message@), None),
            );
        }
        ev
    }

    /// The document loaded with a known page count: derive the selection.
    /// An empty selection ends the document in error with no progress
    /// events; otherwise rendering begins.
    #[verifier::rlimit(60)]
    #[verifier::spinoff_prover]
    pub fn loaded(&mut self, total_pages: u16) -> (ev: Option<Event>)
        requires
            old(self).inv(),
            old(self).awaiting_load(),
        ensures
            final(self).inv(),
            final(self).same_request(old(self)),
            final(self).produced_output() == old(self).produced_output(),
            !no_page_selected(old(self).spec_page_range(), total_pages as int) ==> {
                &&& ev is None
                &&& final(self).rendering()
                &&& !final(self).done()
                &&& final(self).spec_cursor() == 0
                &&& final(self).events() == old(self).events()
                &&& final(self).spec_selection().len() > 0
                &&& (forall|i: int, j: int|
                    0 <= i < j < final(self).spec_selection().len() ==> final(self).spec_selection()[i] < final(self).spec_selection()[j])
                &&& (forall|p: int|
                    #![trigger page_range::selected(old(self).spec_page_range(), total_pages as int, p)]
                    page_range::selected(old(self).spec_page_range(), total_pages as int, p)
                        <==> page_range::in_list(final(self).spec_selection(), p))
            },
            no_page_selected(old(self).spec_page_range(), total_pages as int) ==> {
                &&& (ev matches Some(e) && is_error_status(
                    e,
                    old(self).spec_filename(),
                    "No valid pages selected in range"@,
                ))
                &&& final(self).done()
                &&& final(self).events() =~= old(self).events().push(
                    terminal_model(
                        Status::Error,
                        Some("No valid pages selected in range"@),
                        None,
                    ),
                )
                &&& progress_count(final(self).events()) == progress_count(old(self).events())
            },
    {
        let pages = page_range::parse_page_range(self.page_range_expr.as_str(), total_pages);
        let ghost expr = self.page_range_expr@;
        if pages.len() == 0 {
            proof {
                assert forall|p: int| !page_range::selected(expr, total_pages as int, p) by {
                    if page_range::selected(expr, total_pages as int, p) {
                        assert(page_range::in_list(pages@, p));
                    }
                }
                assert(no_page_selected(expr, total_pages as int));
            }
            let msg = String::from_str("No valid pages selected in range");
            let ev = Event::FileStatus(
                FileStatusEvent {
                    filename: self.filename.clone(),
                    status: Status::Error,
                    error: Some(msg),
                    output_path: None,
                },
            );
            self.phase = Phase::Done;
            proof {
                self.history@ = self.history@.push(
                    terminal_model(Status::Error, Some("No valid pages selected in range"@), None),
                );
                lemma_progress_count_push_status(
                    old(self).events(),
                    terminal_model(Status::Error, Some("No valid pages selected in range"@), None),
                );
            }
            Some(ev)
        } else {
            proof {
                assert(page_range::in_list(pages@, pages@[0] as int));
                assert(page_range::selected(expr, total_pages as int, pages@[0] as int));
                assert(!no_page_selected(expr, total_pages as int));
            }
            self.selection = pages;
            self.cursor = 0;
            self.phase = Phase::Rendering;
            None
        }
    }

    /// Whether a selected page still awaits an attempt.
    pub fn has_pending_page(&self) -> (b: bool)
        requires
            self.inv(),
        ensures
            b == (self.rendering() && !self.page_in_progress() && self.spec_cursor()
                < self.spec_selection().len()),
    {
        match self.phase {
            Phase::Rendering => !self.page_taken && self.cursor < self.selection.len(),
            _ => false,
        }
    }

    /// Take up the next selected page: its zero-based index to render, and
    /// the progress event to emit.
    pub fn begin_page(&mut self) -> (r: (usize, Event))
        requires
            old(self).inv(),
            old(self).rendering(),
            !old(self).page_in_progress(),
            old(self).spec_cursor() < old(self).spec_selection().len(),
        ensures
            final(self).inv(),
            final(self).same_request(old(self)),
            !final(self).done(),
            final(self).rendering(),
            final(self).page_in_progress(),
            final(self).spec_cursor() == old(self).spec_cursor(),
            final(self).spec_selection() == old(self).spec_selection(),
            final(self).spec_buffers() == old(self).spec_buffers(),
            final(self).produced_output() == old(self).produced_output(),
            final(self).spec_last_output() == old(self).spec_last_output(),
            r.0 == old(self).spec_selection()[old(self).spec_cursor()],
            is_progress_event(
                r.1,
                old(self).spec_filename(),
                old(self).spec_cursor() + 1,
                old(self).spec_selection().len() as int,
            ),
            final(self).events() =~= old(self).events().push(
                EventModel::Progress {
                    current: old(self).spec_cursor() + 1,
                    total: old(self).spec_selection().len() as int,
                },
            ),
    {
        let total = self.selection.len();
        self.page_taken = true;
        let idx = self.selection[self.cursor];
        let ev = Event::Progress(
            ProgressEvent {
                filename: self.filename.clone(),
                current: self.cursor + 1,
                total,
            },
        );
        proof {
            lemma_progress_count_push_progress(
                self.history@,
                EventModel::Progress {
                    current: self.cursor as int + 1,
                    total: self.selection@.len() as int,
                },
            );
            self.history@ = self.history@.push(
                EventModel::Progress {
                    current: self.cursor as int + 1,
                    total: self.selection@.len() as int,
                },
            );
        }
        (idx, ev)
    }

    /// A page attempt is under way: progress was announced and the attempt's
    /// outcome has not been reported yet.
    pub closed spec fn page_in_progress(&self) -> bool {
        self.page_taken
    }

    /// The page could not be rendered: report the failure as an incidental
    /// error status and move on; the document's outcome is unchanged by it.
    pub fn render_failed(&mut self, message: String) -> (ev: Event)
        requires
            old(self).inv(),
            old(self).rendering(),
            old(self).page_in_progress(),
        ensures
            final(self).inv(),
            final(self).same_request(old(self)),
            !final(self).done(),
            final(self).rendering(),
            !final(self).page_in_progress(),
            final(self).spec_cursor() == old(self).spec_cursor() + 1,
            final(self).spec_selection() == old(self).spec_selection(),
            final(self).spec_buffers() == old(self).spec_buffers(),
            final(self).produced_output() == old(self).produced_output(),
            final(self).spec_last_output() == old(self).spec_last_output(),
            is_error_status(ev, old(self).spec_filename(), "Render error: "@ + message@),
            final(self).events() =~= old(self).events().push(
                page_error_model("Render error: "@ + message@),
            ),
    {
        let mut text = String::from_str("Render error: ");
        text.append(message.as_str());
        let ev = Event::FileStatus(
            FileStatusEvent {
                filename: self.filename.clone(),
                status: Status::Error,
                error: Some(text),
                output_path: None,
            },
        );
        let _n = self.selection.len();
        self.cursor = self.cursor + 1;
        self.page_taken = false;
        proof {
            lemma_progress_count_push_status(
                self.history@,
                page_error_model("Render error: "@ + message@),
            );
            self.history@ = self.history@.push(page_error_model("Render error: "@ + message@));
        }
        ev
    }

    /// The page rendered: when merging it joins the stack, otherwise it is
    /// handed out to be written under its own file name.
    pub fn page_rendered(&mut self, buffer: PixelBuffer) -> (r: PageStep)
        requires
            old(self).inv(),
            old(self).rendering(),
            old(self).page_in_progress(),
            buffer.wf(),
        ensures
            final(self).inv(),
            final(self).same_request(old(self)),
            !final(self).done(),
            final(self).spec_selection() == old(self).spec_selection(),
            final(self).produced_output() == old(self).produced_output(),
            final(self).spec_last_output() == old(self).spec_last_output(),
            final(self).events() == old(self).events(),
            old(self).spec_merge() ==> {
                &&& r is Accumulated
                &&& final(self).rendering()
                &&& !final(self).page_in_progress()
                &&& final(self).spec_cursor() == old(self).spec_cursor() + 1
                &&& final(self).spec_buffers() =~= old(self).spec_buffers().push(buffer)
            },
            !old(self).spec_merge() ==> {
                &&& (r matches PageStep::SavePage { path, buffer: b } && {
                    &&& path@ == naming::spec_file_name(
                        old(self).spec_output_dir(),
                        old(self).spec_filename(),
                        if old(self).spec_selection().len() > 1 {
                            naming::NameSuffix::PageNumber(
                                (old(self).spec_selection()[old(self).spec_cursor()] + 1) as usize,
                            )
                        } else {
                            naming::NameSuffix::Plain
                        },
                        old(self).spec_format(),
                    )
                    &&& b == buffer
                })
                &&& final(self).awaiting_page_save()
                &&& final(self).page_in_progress()
                &&& final(self).spec_cursor() == old(self).spec_cursor()
                &&& final(self).spec_buffers() == old(self).spec_buffers()
                &&& final(self).spec_pending_path() matches Some(p) && (r matches
                    PageStep::SavePage { path, .. } && p == path@)
            },
    {
        let _n = self.selection.len();
        if self.merge {
            self.buffers.push(buffer);
            self.cursor = self.cursor + 1;
            self.page_taken = false;
            PageStep::Accumulated
        } else {
            let suffix = if self.selection.len() > 1 {
                naming::NameSuffix::PageNumber(self.selection[self.cursor] + 1)
            } else {
                naming::NameSuffix::Plain
            };
            let path = naming::output_file_name(
                self.output_dir.as_str(),
                self.filename.as_str(),
                suffix,
                self.format,
            );
            self.pending_path = Some(path.clone());
            self.phase = Phase::AwaitPageSave;
            PageStep::SavePage { path, buffer }
        }
    }

    pub closed spec fn awaiting_page_save(&self) -> bool {
        self.phase is AwaitPageSave
    }

    /// The page's file was written: remember it as the document's latest
    /// output.
    pub fn page_save_ok(&mut self)
        requires
            old(self).inv(),
            old(self).awaiting_page_save(),
        ensures
            final(self).inv(),
            final(self).same_request(old(self)),
            !final(self).done(),
            final(self).rendering(),
            !final(self).page_in_progress(),
            final(self).spec_cursor() == old(self).spec_cursor() + 1,
            final(self).spec_selection() == old(self).spec_selection(),
            final(self).events() == old(self).events(),
            final(self).produced_output(),
            final(self).spec_last_output() == old(self).spec_pending_path(),
    {
        self.last_output = match &self.pending_path {
            Some(p) => Some(p.clone()),
            None => None,
        };
        self.pending_path = None;
        let _n = self.selection.len();
        self.cursor = self.cursor + 1;
        self.page_taken = false;
        self.phase = Phase::Rendering;
    }

    /// The page's file could not be written: report the failure and move
    /// on; the document's outcome is unchanged by it.
    pub fn page_save_failed(&mut self, message: String) -> (ev: Event)
        requires
            old(self).inv(),
            old(self).awaiting_page_save(),
        ensures
            final(self).inv(),
            final(self).same_request(old(self)),
            !final(self).done(),
            final(self).rendering(),
            !final(self).page_in_progress(),
            final(self).spec_cursor() == old(self).spec_cursor() + 1,
            final(self).spec_selection() == old(self).spec_selection(),
            final(self).produced_output() == old(self).produced_output(),
            final(self).spec_last_output() == old(self).spec_last_output(),
            is_error_status(ev, old(self).spec_filename(), "Save error: "@ + message@),
            final(self).events() =~= old(self).events().push(
                page_error_model("Save error: "@ + message@),
            ),
    {
        let mut text = String::from_str("Save error: ");
        text.append(message.as_str());
        let ev = Event::FileStatus(
            FileStatusEvent {
                filename: self.filename.clone(),
                status: Status::Error,
                error: Some(text),
                output_path: None,
            },
        );
        self.pending_path = None;
        let _n = self.selection.len();
        self.cursor = self.cursor + 1;
        self.page_taken = false;
        self.phase = Phase::Rendering;
        proof {
            lemma_progress_count_push_status(
                self.history@,
                page_error_model("Save error: "@ + message@),
            );
            self.history@ = self.history@.push(page_error_model("Save error: "@ + message@));
        }
        ev
    }

    /// Every selected page was attempted: either the document ends now with
    /// its terminal status, or the merged canvas is handed out to be
    /// written. The terminal status is success exactly when some output was
    /// produced. By now the document has emitted exactly one progress event
    /// per selected page.
    pub fn finish(&mut self) -> (r: FinishStep)
        requires
            old(self).inv(),
            old(self).rendering(),
            old(self).spec_cursor() == old(self).spec_selection().len(),
        ensures
            final(self).inv(),
            final(self).same_request(old(self)),
            progress_count(final(self).events()) == old(self).spec_selection().len() as int,
            !old(self).spec_merge() ==> {
                &&& final(self).done()
                &&& (r matches FinishStep::Done(e) && {
                    &&& old(self).produced_output() ==> (old(self).spec_last_output()
                        matches Some(p) && is_success_status(e, old(self).spec_filename(), p)
                        && final(self).events() =~= old(self).events().push(
                        terminal_model(Status::Success, None, Some(p)),
                    ))
                    &&& !old(self).produced_output() ==> (is_error_status(
                        e,
                        old(self).spec_filename(),
                        "No output produced"@,
                    ) && final(self).events() =~= old(self).events().push(
                        terminal_model(Status::Error, Some("No output produced"@), None),
                    ))
                })
            },
            old(self).spec_merge() ==> {
                &&& (old(self).spec_buffers().len() > 0 && compositor::canvas_fits(
                    old(self).spec_buffers(),
                ) && compositor::canvas_width(old(self).spec_buffers()) > 0
                    && compositor::canvas_height(old(self).spec_buffers()) > 0) ==> {
                    &&& (r matches FinishStep::SaveMerged { path, buffer } && {
                        &&& compositor::composed(old(self).spec_buffers(), buffer)
                        &&& path@ == naming::spec_file_name(
                            old(self).spec_output_dir(),
                            old(self).spec_filename(),
                            naming::NameSuffix::Merged,
                            old(self).spec_format(),
                        )
                        &&& final(self).spec_pending_path() == Some(path@)
                    })
                    &&& final(self).awaiting_merge_save()
                    &&& !final(self).done()
                    &&& final(self).events() == old(self).events()
                }
                &&& !(old(self).spec_buffers().len() > 0 && compositor::canvas_fits(
                    old(self).spec_buffers(),
                ) && compositor::canvas_width(old(self).spec_buffers()) > 0
                    && compositor::canvas_height(old(self).spec_buffers()) > 0) ==> {
                    &&& final(self).done()
                    &&& (r matches FinishStep::Done(e) && is_error_status(
                        e,
                        old(self).spec_filename(),
                        "No output produced"@,
                    ))
                    &&& final(self).events() =~= old(self).events().push(
                        terminal_model(Status::Error, Some("No output produced"@), None),
                    )
                }
            },
    {
        if self.merge && self.buffers.len() > 0 {
            if let Some(canvas) = compositor::try_compose(&self.buffers) {
                let path = naming::output_file_name(
                    self.output_dir.as_str(),
                    self.filename.as_str(),
                    naming::NameSuffix::Merged,
                    self.format,
                );
                self.pending_path = Some(path.clone());
                self.phase = Phase::AwaitMergeSave;
                return FinishStep::SaveMerged { path, buffer: canvas };
            }
        }
        if !self.merge && self.last_output.is_some() {
            let out = match &self.last_output {
                Some(p) => p.clone(),
                None => String::new(),
            };
            let ev = Event::FileStatus(
                FileStatusEvent {
                    filename: self.filename.clone(),
                    status: Status::Success,
                    error: None,
                    output_path: Some(out.clone()),
                },
            );
            self.phase = Phase::Done;
            proof {
                lemma_progress_count_push_status(
                    self.history@,
                    terminal_model(Status::Success, None, self.spec_last_output()),
                );
                self.history@ = self.history@.push(
                    terminal_model(Status::Success, None, self.spec_last_output()),
                );
            }
            return FinishStep::Done(ev);
        }
        let msg = String::from_str("No output produced");
        let ev = Event::FileStatus(
            FileStatusEvent {
                filename: self.filename.clone(),
                status: Status::Error,
                error: Some(msg),
                output_path: None,
            },
        );
        self.phase = Phase::Done;
        proof {
            lemma_progress_count_push_status(
                self.history@,
                terminal_model(Status::Error, Some("No output produced"@), None),
            );
            self.history@ = self.history@.push(
                terminal_model(Status::Error, Some("No output produced"@), None),
            );
        }
        FinishStep::Done(ev)
    }

    /// The merged file was written: the document ends in success.
    pub fn merged_save_ok(&mut self) -> (ev: Event)
        requires
            old(self).inv(),
            old(self).awaiting_merge_save(),
        ensures
            final(self).inv(),
            final(self).done(),
            final(self).same_request(old(self)),
            final(self).produced_output(),
            progress_count(final(self).events()) == progress_count(old(self).events()),
            old(self).spec_pending_path() matches Some(p) && is_success_status(
                ev,
                old(self).spec_filename(),
                p,
            ),
            (old(self).spec_pending_path() matches Some(p) && final(self).events() =~= old(self).events().push(terminal_model(Status::Success, None, Some(p)))),
    {
        let out = match &self.pending_path {
            Some(p) => p.clone(),
            None => String::new(),
        };
        self.last_output = Some(out.clone());
        self.pending_path = None;
        let ev = Event::FileStatus(
            FileStatusEvent {
                filename: self.filename.clone(),
                status: Status::Success,
                error: None,
                output_path: Some(out),
            },
        );
        self.phase = Phase::Done;
        proof {
            let p = old(self).spec_pending_path()->0;
            lemma_progress_count_push_status(
                self.history@,
                terminal_model(Status::Success, None, Some(p)),
            );
            self.history@ = self.history@.push(terminal_model(Status::Success, None, Some(p)));
        }
        ev
    }

    /// The merged file could not be written: report the failure, then end
    /// the document in error, since no output was produced.
    pub fn merged_save_failed(&mut self, message: String) -> (r: (Event, Event))
        requires
            old(self).inv(),
            old(self).awaiting_merge_save(),
            !old(self).produced_output(),
        ensures
            final(self).inv(),
            final(self).done(),
            final(self).same_request(old(self)),
            progress_count(final(self).events()) == progress_count(old(self).events()),
            is_error_status(r.0, old(self).spec_filename(), "Merge save error: "@ + message@),
            is_error_status(r.1, old(self).spec_filename(), "No output produced"@),
            final(self).events() =~= old(self).events().push(
                page_error_model("Merge save error: "@ + message@),
            ).push(terminal_model(Status::Error, Some("No output produced"@), None)),
    {
        let mut text = String::from_str("Merge save error: ");
        text.append(message.as_str());
        let ev1 = Event::FileStatus(
            FileStatusEvent {
                filename: self.filename.clone(),
                status: Status::Error,
                error: Some(text),
                output_path: None,
            },
        );
        let msg2 = String::from_str("No output produced");
        let ev2 = Event::FileStatus(
            FileStatusEvent {
                filename: self.filename.clone(),
                status: Status::Error,
                error: Some(msg2),
                output_path: None,
            },
        );
        self.pending_path = None;
        self.phase = Phase::Done;
        proof {
            lemma_progress_count_push_status(
                self.history@,
                page_error_model("Merge save error: "@ + message@),
            );
            lemma_progress_count_push_status(
                self.history@.push(page_error_model("Merge save error: "@ + message@)),
                terminal_model(Status::Error, Some("No output produced"@), None),
            );
            self.history@ = self.history@.push(
                page_error_model("Merge save error: "@ + message@),
            ).push(terminal_model(Status::Error, Some("No output produced"@), None));
        }
        (ev1, ev2)
    }
}

/// Pushing a status event leaves the progress count alone.
proof fn lemma_progress_count_push_status(h: Seq<EventModel>, e: EventModel)
    requires
        !is_progress(e),
    ensures
        progress_count(h.push(e)) == progress_count(h),
{
    assert(h.push(e).drop_last() =~= h);
}

/// Pushing a progress event raises the progress count by one.
proof fn lemma_progress_count_push_progress(h: Seq<EventModel>, e: EventModel)
    requires
        is_progress(e),
    ensures
        progress_count(h.push(e)) == progress_count(h) + 1,
{
    assert(h.push(e).drop_last() =~= h);
}

/// Law: one progress event is emitted per page attempt: the history counts
/// exactly one progress event for each page whose outcome was decided, and
/// one more for an attempt still in flight.
pub proof fn lemma_one_progress_per_attempt(job: DocumentJob)
    requires
        job.inv(),
    ensures
        progress_count(job.events()) == job.spec_cursor() + (if job.page_in_progress() {
            1int
        } else {
            0int
        }),
{
}

/// Law: a finished document has emitted exactly one terminal status event,
/// and it is the last event of its history; an unfinished document has
/// emitted none. With documents processed one after another, each document
/// therefore contributes exactly one terminal status, whatever became of
/// the documents around it.
pub proof fn lemma_one_terminal_per_document(job: DocumentJob)
    requires
        job.inv(),
    ensures
        job.done() ==> one_terminal_at_end(job.events()),
        !job.done() ==> no_terminal(job.events()),
{
}

/// Law: a document whose selection came up empty reports processing and
/// then a single error, with no progress events: its history counts one
/// error report and no progress.
pub proof fn lemma_empty_selection_events(h: Seq<EventModel>, msg: Seq<char>)
    requires
        h =~= seq![processing_model(), terminal_model(Status::Error, Some(msg), None)],
    ensures
        progress_count(h) == 0,
        error_report_count(h) == 1,
        one_terminal_at_end(h),
{
    let e1 = processing_model();
    let e2 = terminal_model(Status::Error, Some(msg), None);
    let s = seq![e1, e2];
    assert(h == s);
    assert(s.drop_last() =~= seq![e1]);
    assert(seq![e1].drop_last() =~= Seq::<EventModel>::empty());
    assert(progress_count(Seq::<EventModel>::empty()) == 0);
    assert(error_report_count(Seq::<EventModel>::empty()) == 0);
    assert(seq![e1].last() == e1);
    assert(progress_count(seq![e1]) == 0);
    assert(error_report_count(seq![e1]) == 0);
    assert(s.last() == e2);
    assert(progress_count(s) == 0);
    assert(error_report_count(s) == 1);
}

} // verus!
