//! The import of the spool into the request log, step by step.
//!
//! A [`SidebarSync`] says what is to be done next ([`SidebarSync::action`]);
//! the application does it and hands back what came of it
//! ([`sync_codex_sidebar_usage`]).

use crate::clock::system_clock;
use crate::cost::{cost_texts, cost_texts_of, CostBreakdown, CostTexts, CostTextsView};
use crate::event::{event_fault, EventView, SidebarUsageEvent, TokenUsage, TokenUsageView};
use crate::import::{
    dedup_key_of, is_nearest, is_same_request, log_row_of, prepare_event, prepared, row_views,
    select_matching_session, AppError, DedupKey, DedupView, ErrorView, ImportItem, ItemView,
    LogRowView, Prepared, PreparedView, ProxyLogRow, RowView, SessionRow,
};
use crate::launch::{configured_value, sidebar_usage_path};
use crate::spool::{
    complete_lines, cursor_after, frame_spool, line_views, record_lines, LineView, SpoolLine,
};
use crate::text::{signed_decimal, signed_decimal_text, text_views};
use vstd::prelude::*;

verus! {

/// What an import has done.
#[derive(Debug)]
pub struct SessionSyncResult {
    pub imported: u32,
    pub skipped: u32,
    pub files_scanned: u32,
    pub errors: Vec<String>,
}

/// What an import has done, text as characters.
pub struct ResultView {
    pub imported: u32,
    pub skipped: u32,
    pub files_scanned: u32,
    pub errors: Seq<Seq<char>>,
}

impl View for SessionSyncResult {
    type V = ResultView;

    open spec fn view(&self) -> ResultView {
        ResultView {
            imported: self.imported,
            skipped: self.skipped,
            files_scanned: self.files_scanned,
            errors: text_views(self.errors@),
        }
    }
}

/// A count and one more, as far as 32 bits go.
pub open spec fn counted(count: u32) -> u32 {
    if count < u32::MAX {
        (count + 1) as u32
    } else {
        u32::MAX
    }
}

impl ResultView {
    /// Nothing has been done, and `files` files were looked at.
    pub open spec fn scanned(files: u32) -> ResultView {
        ResultView { imported: 0, skipped: 0, files_scanned: files, errors: Seq::empty() }
    }

    /// One more event was imported.
    pub open spec fn with_import(self) -> ResultView {
        ResultView { imported: counted(self.imported), ..self }
    }

    /// One more event was left out.
    pub open spec fn with_skip(self) -> ResultView {
        ResultView { skipped: counted(self.skipped), ..self }
    }

    /// One more event was left out because of an error.
    pub open spec fn with_error(self, error: Seq<char>) -> ResultView {
        ResultView { skipped: counted(self.skipped), errors: self.errors.push(error), ..self }
    }
}

impl SessionSyncResult {
    fn scanned(files: u32) -> (result: SessionSyncResult)
        ensures
            result@ == ResultView::scanned(files),
    {
        let result = SessionSyncResult {
            imported: 0,
            skipped: 0,
            files_scanned: files,
            errors: Vec::new(),
        };
        assert(result@.errors =~= Seq::<Seq<char>>::empty());
        result
    }

    fn with_import(self) -> (result: SessionSyncResult)
        ensures
            result@ == self@.with_import(),
    {
        let mut result = self;
        result.imported = result.imported.saturating_add(1);
        result
    }

    fn with_skip(self) -> (result: SessionSyncResult)
        ensures
            result@ == self@.with_skip(),
    {
        let mut result = self;
        result.skipped = result.skipped.saturating_add(1);
        result
    }

    fn with_error(self, error: String) -> (result: SessionSyncResult)
        ensures
            result@ == self@.with_error(error@),
    {
        let mut result = self;
        result.skipped = result.skipped.saturating_add(1);
        result.errors.push(error);
        assert(result@.errors =~= self@.errors.push(error@));
        result
    }
}

/// What the application settles for the import.
#[derive(Debug, Clone, Copy)]
pub struct SyncOptions {
    /// How many seconds a request may be off to be taken for the same one.
    pub dedup_window_seconds: i64,
    /// How the log marks input counts that hold the cached tokens too.
    pub input_token_semantics_total: i64,
}

/// The events of one pass over the spool, and how far their import is.
#[derive(Debug)]
pub struct Batch {
    /// When the spool was last changed.
    pub modified: i64,
    /// Where the next pass over the spool begins.
    pub processed_offset: i64,
    pub result: SessionSyncResult,
    pub events: Vec<SidebarUsageEvent>,
    /// The number of the event that is next.
    pub next: usize,
    /// The models whose prices were looked up, in that order.
    pub priced: Vec<String>,
}

/// The events of one pass over the spool, text as characters.
pub struct BatchView {
    pub modified: i64,
    pub processed_offset: i64,
    pub result: ResultView,
    pub events: Seq<EventView>,
    pub next: nat,
    pub priced: Seq<Seq<char>>,
}

/// The views of a list of events.
pub open spec fn event_views(events: Seq<SidebarUsageEvent>) -> Seq<EventView> {
    Seq::new(events.len(), |i: int| events[i]@)
}

impl View for Batch {
    type V = BatchView;

    open spec fn view(&self) -> BatchView {
        BatchView {
            modified: self.modified,
            processed_offset: self.processed_offset,
            result: self.result@,
            events: event_views(self.events@),
            next: self.next as nat,
            priced: text_views(self.priced@),
        }
    }
}

/// What is being asked about the event that is next.
#[derive(Debug)]
pub enum ImportStep<E> {
    /// Whether a proxy's request is the event's.
    MergeProxy { item: ImportItem },
    /// Which requests the log has of the event's thread.
    FindSession { item: ImportItem },
    /// That a request's missing count of reasoning tokens be filled in.
    CompleteReasoning { item: ImportItem, request_id: String },
    /// Whether the log has the event already.
    CheckDuplicate { item: ImportItem },
    /// That the model's prices be looked up.
    FindPricing { item: ImportItem },
    /// What the event costs at the prices of the model number `slot`.
    CalculateCost { item: ImportItem, slot: usize },
    /// That the event's row be put into the log.
    Insert { item: ImportItem, costs: CostTexts },
    /// What an error is to be called.
    RenderError { error: AppError<E> },
}

/// What is being asked about the event that is next, text as characters.
pub enum StepView<E> {
    MergeProxy { item: ItemView },
    FindSession { item: ItemView },
    CompleteReasoning { item: ItemView, request_id: Seq<char> },
    CheckDuplicate { item: ItemView },
    FindPricing { item: ItemView },
    CalculateCost { item: ItemView, slot: nat },
    Insert { item: ItemView, costs: CostTextsView },
    RenderError { error: ErrorView<E> },
}

impl<E> View for ImportStep<E> {
    type V = StepView<E>;

    open spec fn view(&self) -> StepView<E> {
        match self {
            ImportStep::MergeProxy { item } => StepView::MergeProxy { item: item@ },
            ImportStep::FindSession { item } => StepView::FindSession { item: item@ },
            ImportStep::CompleteReasoning { item, request_id } => StepView::CompleteReasoning {
                item: item@,
                request_id: request_id@,
            },
            ImportStep::CheckDuplicate { item } => StepView::CheckDuplicate { item: item@ },
            ImportStep::FindPricing { item } => StepView::FindPricing { item: item@ },
            ImportStep::CalculateCost { item, slot } => StepView::CalculateCost {
                item: item@,
                slot: *slot as nat,
            },
            ImportStep::Insert { item, costs } => StepView::Insert { item: item@, costs: costs@ },
            ImportStep::RenderError { error } => StepView::RenderError { error: error@ },
        }
    }
}

/// How far an import is.
#[derive(Debug)]
pub enum SyncPhase<E> {
    /// The spool is being looked for.
    Locate,
    /// The state of the last import is being looked up.
    Recall { modified: i64, file_len: i64 },
    /// The spool is being read.
    Read { modified: i64, start_offset: i64 },
    /// Line number `line` is being parsed.
    Parse { batch: Batch, lines: Vec<SpoolLine>, line: usize },
    /// A transaction is being started.
    Begin { batch: Batch },
    /// The next event is being imported.
    Import { batch: Batch, step: ImportStep<E> },
    /// The cursor is being saved, in the same transaction.
    SaveCursor { batch: Batch },
    /// The transaction is being committed.
    Commit { batch: Batch },
    /// The import is over.
    Finished { outcome: Result<SessionSyncResult, AppError<E>> },
}

/// How far an import is, text as characters.
pub enum PhaseView<E> {
    Locate,
    Recall { modified: i64, file_len: i64 },
    Read { modified: i64, start_offset: i64 },
    Parse { batch: BatchView, lines: Seq<LineView>, line: nat },
    Begin { batch: BatchView },
    Import { batch: BatchView, step: StepView<E> },
    SaveCursor { batch: BatchView },
    Commit { batch: BatchView },
    Finished { outcome: Result<ResultView, ErrorView<E>> },
}

/// The view of an outcome.
pub open spec fn outcome_view<E>(outcome: Result<SessionSyncResult, AppError<E>>) -> Result<
    ResultView,
    ErrorView<E>,
> {
    match outcome {
        Ok(result) => Ok(result@),
        Err(error) => Err(error@),
    }
}

impl<E> View for SyncPhase<E> {
    type V = PhaseView<E>;

    open spec fn view(&self) -> PhaseView<E> {
        match self {
            SyncPhase::Locate => PhaseView::Locate,
            SyncPhase::Recall { modified, file_len } => PhaseView::Recall {
                modified: *modified,
                file_len: *file_len,
            },
            SyncPhase::Read { modified, start_offset } => PhaseView::Read {
                modified: *modified,
                start_offset: *start_offset,
            },
            SyncPhase::Parse { batch, lines, line } => PhaseView::Parse {
                batch: batch@,
                lines: line_views(lines@),
                line: *line as nat,
            },
            SyncPhase::Begin { batch } => PhaseView::Begin { batch: batch@ },
            SyncPhase::Import { batch, step } => PhaseView::Import { batch: batch@, step: step@ },
            SyncPhase::SaveCursor { batch } => PhaseView::SaveCursor { batch: batch@ },
            SyncPhase::Commit { batch } => PhaseView::Commit { batch: batch@ },
            SyncPhase::Finished { outcome } => PhaseView::Finished {
                outcome: outcome_view(*outcome),
            },
        }
    }
}

/// An import of the spool.
#[derive(Debug)]
pub struct SidebarSync<E> {
    /// The spool's path.
    path: String,
    options: SyncOptions,
    phase: SyncPhase<E>,
}

/// An import of the spool, text as characters.
pub struct SyncView<E> {
    pub path: Seq<char>,
    pub options: SyncOptions,
    pub phase: PhaseView<E>,
}

impl<E> View for SidebarSync<E> {
    type V = SyncView<E>;

    closed spec fn view(&self) -> SyncView<E> {
        SyncView { path: self.path@, options: self.options, phase: self.phase@ }
    }
}

/// What came of an action.
#[derive(Debug)]
pub enum SyncReply<E> {
    /// There is no spool file.
    NotAFile,
    /// When the spool was last changed, and its length.
    FileStatus { modified: i64, len: u64 },
    /// When the spool was last changed at the last import, and where that ended.
    SyncState { last_modified: i64, saved_offset: i64 },
    /// What the spool holds from the offset on.
    Spool { bytes: Vec<u8> },
    /// The event that a line holds, or why it holds none.
    Parsed { event: Result<SidebarUsageEvent, String> },
    /// Yes or no.
    Answer { yes: bool },
    /// The requests that the log has of a thread.
    Sessions { rows: Vec<SessionRow> },
    /// What the event costs, where prices are known.
    Costs { costs: Option<CostBreakdown> },
    /// How many rows were put into the log.
    Inserted { count: u64 },
    /// What the error is called.
    Rendered { text: String },
    /// It is done.
    Done,
    /// The spool could not be opened.
    OpenFailed { error: String },
    /// The offset could not be reached.
    SeekFailed { error: String },
    /// It failed.
    Failed { error: String },
    /// The application raised an error of its own.
    HostFailed { raised: E },
}

/// An error text about the spool.
pub open spec fn spool_error<E>(what: Seq<char>, path: Seq<char>, error: Seq<char>) -> ErrorView<E> {
    ErrorView::Config(what + path + ": "@ + error)
}

/// An import that is over.
pub open spec fn finished<E>(outcome: Result<ResultView, ErrorView<E>>) -> PhaseView<E> {
    PhaseView::Finished { outcome }
}

/// A length as the cursor counts it.
pub open spec fn cursor_length(len: u64) -> i64 {
    if len <= i64::MAX {
        len as i64
    } else {
        i64::MAX
    }
}

/// Where to read from: where the last import ended, or the beginning where the
/// spool has become shorter than that.
pub open spec fn read_offset(saved_offset: i64, file_len: i64) -> i64 {
    if 0 <= saved_offset <= file_len {
        saved_offset
    } else {
        0
    }
}

/// The phase after the state of the last import is known: an unchanged spool
/// is not read again.
pub open spec fn after_recall<E>(
    modified: i64,
    file_len: i64,
    last_modified: i64,
    saved_offset: i64,
) -> PhaseView<E> {
    if modified == last_modified && saved_offset == file_len {
        finished(Ok(ResultView::scanned(1)))
    } else {
        PhaseView::Read { modified, start_offset: read_offset(saved_offset, file_len) }
    }
}

/// The phase in which line number `line` is next.
pub open spec fn parse_phase<E>(batch: BatchView, lines: Seq<LineView>, line: nat) -> PhaseView<E> {
    if line < lines.len() {
        PhaseView::Parse { batch, lines, line }
    } else {
        PhaseView::Begin { batch }
    }
}

/// The phase after the spool was read.
pub open spec fn after_read<E>(modified: i64, start_offset: i64, bytes: Seq<u8>) -> PhaseView<E> {
    let batch = BatchView {
        modified,
        processed_offset: cursor_after(complete_lines(bytes), start_offset),
        result: ResultView::scanned(1),
        events: Seq::empty(),
        next: 0,
        priced: Seq::empty(),
    };
    parse_phase(batch, record_lines(complete_lines(bytes), start_offset), 0)
}

/// The outcome of parsing a line, text as characters.
pub open spec fn parsed_view(event: Result<SidebarUsageEvent, String>) -> Result<
    EventView,
    Seq<char>,
> {
    match event {
        Ok(event) => Ok(event@),
        Err(error) => Err(error@),
    }
}

/// A batch after a line was parsed: a valid event joins it, anything else is
/// left out and told of.
pub open spec fn with_parsed(
    batch: BatchView,
    line: LineView,
    event: Result<EventView, Seq<char>>,
) -> BatchView {
    match event {
        Ok(event) => match event_fault(event) {
            Some(fault) => BatchView {
                result: batch.result.with_error(
                    "Codex sidebar usage event "@ + event.event_id + " skipped: "@ + fault,
                ),
                ..batch
            },
            None => BatchView { events: batch.events.push(event), ..batch },
        },
        Err(error) => BatchView {
            result: batch.result.with_error(
                "Codex sidebar usage JSON parse failed at byte "@ + signed_decimal(
                    line.offset as int,
                ) + ": "@ + error,
            ),
            ..batch
        },
    }
}

impl BatchView {
    /// The event that is next is done with, with the result `result`.
    pub open spec fn advanced(self, result: ResultView) -> BatchView {
        BatchView { result, next: self.next + 1, ..self }
    }

    /// The event that is next was imported.
    pub open spec fn imported(self) -> BatchView {
        self.advanced(self.result.with_import())
    }

    /// The event that is next was left out.
    pub open spec fn skipped(self) -> BatchView {
        self.advanced(self.result.with_skip())
    }

    /// The event that is next was left out because of an error.
    pub open spec fn failed(self, error: Seq<char>) -> BatchView {
        self.advanced(
            self.result.with_error(
                "Codex sidebar event "@ + self.events[self.next as int].event_id + ": "@ + error,
            ),
        )
    }
}

/// The phase in which the next event is taken up, where `unix` is what the
/// system clock shows. Events without a count above zero are left out; after
/// the last event the cursor is saved.
pub open spec fn next_event<E>(batch: BatchView, unix: Option<u128>) -> PhaseView<E>
    decreases batch.events.len() - batch.next,
{
    if batch.next < batch.events.len() {
        match prepared(batch.events[batch.next as int], unix) {
            PreparedView::Invalid(text) => PhaseView::Import {
                batch,
                step: StepView::RenderError { error: ErrorView::Config(text) },
            },
            PreparedView::NotBillable => next_event(batch.skipped(), unix),
            PreparedView::Ready(item) => PhaseView::Import {
                batch,
                step: StepView::MergeProxy { item },
            },
        }
    } else {
        PhaseView::SaveCursor { batch }
    }
}

/// The phase in which an error about the next event is being named.
pub open spec fn event_error<E>(batch: BatchView, what: Seq<char>, error: Seq<char>) -> PhaseView<E> {
    PhaseView::Import {
        batch,
        step: StepView::RenderError { error: ErrorView::Database(what + error) },
    }
}

/// The phase after the log's requests of the event's thread are known. The
/// event's own request wins over the event; it gets the event's count of
/// reasoning tokens where it has a smaller one.
pub open spec fn after_sessions<E>(
    batch: BatchView,
    item: ItemView,
    rows: Seq<RowView>,
    window: i64,
    unix: Option<u128>,
) -> PhaseView<E> {
    if exists|index: int| is_nearest(rows, item, window, index) {
        let row = rows[choose|index: int| is_nearest(rows, item, window, index)];
        if item.usage.reasoning_output_tokens > row.reasoning_output_tokens
            && item.usage.reasoning_output_tokens > 0 {
            PhaseView::Import {
                batch,
                step: StepView::CompleteReasoning { item, request_id: row.request_id },
            }
        } else {
            next_event(batch.skipped(), unix)
        }
    } else {
        PhaseView::Import { batch, step: StepView::CheckDuplicate { item } }
    }
}

/// The phase in which the event is priced: the prices of a model are looked up
/// once.
pub open spec fn pricing_phase<E>(batch: BatchView, item: ItemView) -> PhaseView<E> {
    if batch.priced.contains(item.model) {
        PhaseView::Import {
            batch,
            step: StepView::CalculateCost {
                item,
                slot: batch.priced.index_of_first(item.model).unwrap() as nat,
            },
        }
    } else {
        PhaseView::Import { batch, step: StepView::FindPricing { item } }
    }
}

/// The phase after a step of the next event's import. A reply that does not
/// answer the step leaves it open.
pub open spec fn after_step<E>(
    batch: BatchView,
    step: StepView<E>,
    reply: SyncReply<E>,
    options: SyncOptions,
    unix: Option<u128>,
) -> PhaseView<E> {
    match (step, reply) {
        (StepView::MergeProxy { item }, SyncReply::Answer { yes }) => if yes {
            next_event(batch.skipped(), unix)
        } else {
            PhaseView::Import { batch, step: StepView::FindSession { item } }
        },
        (StepView::MergeProxy { item }, SyncReply::HostFailed { raised }) => PhaseView::Import {
            batch,
            step: StepView::RenderError { error: ErrorView::Host(raised) },
        },
        (StepView::FindSession { item }, SyncReply::Sessions { rows }) => after_sessions(
            batch,
            item,
            row_views(rows@),
            options.dedup_window_seconds,
            unix,
        ),
        (StepView::FindSession { item }, SyncReply::Failed { error }) => event_error(
            batch,
            "query matching Codex session for sidebar usage failed: "@,
            error@,
        ),
        (StepView::CompleteReasoning { item, request_id }, SyncReply::Done) => next_event(
            batch.skipped(),
            unix,
        ),
        (StepView::CompleteReasoning { item, request_id }, SyncReply::Failed { error }) =>
        event_error(
            batch,
            "complete matching Codex session reasoning tokens failed: "@,
            error@,
        ),
        (StepView::CheckDuplicate { item }, SyncReply::Answer { yes }) => if yes {
            next_event(batch.skipped(), unix)
        } else {
            pricing_phase(batch, item)
        },
        (StepView::CheckDuplicate { item }, SyncReply::HostFailed { raised }) => PhaseView::Import {
            batch,
            step: StepView::RenderError { error: ErrorView::Host(raised) },
        },
        (StepView::FindPricing { item }, SyncReply::Done) => PhaseView::Import {
            batch: BatchView { priced: batch.priced.push(item.model), ..batch },
            step: StepView::CalculateCost { item, slot: batch.priced.len() },
        },
        (StepView::CalculateCost { item, slot }, SyncReply::Costs { costs }) => PhaseView::Import {
            batch,
            step: StepView::Insert { item, costs: cost_texts_of(costs) },
        },
        (StepView::Insert { item, costs }, SyncReply::Inserted { count }) => if count > 0 {
            next_event(batch.imported(), unix)
        } else {
            next_event(batch.skipped(), unix)
        },
        (StepView::Insert { item, costs }, SyncReply::Failed { error }) => event_error(
            batch,
            "insert Codex sidebar usage failed: "@,
            error@,
        ),
        (StepView::RenderError { error }, SyncReply::Rendered { text }) => next_event(
            batch.failed(text@),
            unix,
        ),
        _ => PhaseView::Import { batch, step },
    }
}

/// The phase after an action, where `unix` is what the system clock shows. A
/// reply that does not answer the action leaves the phase as it is.
pub open spec fn phase_after<E>(sync: SyncView<E>, reply: SyncReply<E>, unix: Option<u128>) -> PhaseView<E> {
    match (sync.phase, reply) {
        (PhaseView::Locate, SyncReply::NotAFile) => finished(Ok(ResultView::scanned(0))),
        (PhaseView::Locate, SyncReply::FileStatus { modified, len }) => PhaseView::Recall {
            modified,
            file_len: cursor_length(len),
        },
        (PhaseView::Locate, SyncReply::Failed { error }) => finished(
            Err(spool_error("read Codex sidebar usage metadata failed "@, sync.path, error@)),
        ),
        (
            PhaseView::Recall { modified, file_len },
            SyncReply::SyncState { last_modified, saved_offset },
        ) => after_recall(modified, file_len, last_modified, saved_offset),
        (PhaseView::Recall { modified, file_len }, SyncReply::HostFailed { raised }) => finished(
            Err(ErrorView::Host(raised)),
        ),
        (PhaseView::Read { modified, start_offset }, SyncReply::Spool { bytes }) => after_read(
            modified,
            start_offset,
            bytes@,
        ),
        (PhaseView::Read { modified, start_offset }, SyncReply::OpenFailed { error }) => finished(
            Err(spool_error("open Codex sidebar usage failed "@, sync.path, error@)),
        ),
        (PhaseView::Read { modified, start_offset }, SyncReply::SeekFailed { error }) => finished(
            Err(spool_error("seek Codex sidebar usage failed "@, sync.path, error@)),
        ),
        (PhaseView::Read { modified, start_offset }, SyncReply::Failed { error }) => finished(
            Err(spool_error("read Codex sidebar usage failed "@, sync.path, error@)),
        ),
        (PhaseView::Parse { batch, lines, line }, SyncReply::Parsed { event }) => parse_phase(
            with_parsed(batch, lines[line as int], parsed_view(event)),
            lines,
            line + 1,
        ),
        (PhaseView::Begin { batch }, SyncReply::Done) => next_event(batch, unix),
        (PhaseView::Begin { batch }, SyncReply::Failed { error }) => finished(
            Err(ErrorView::Database("start Codex sidebar batch: "@ + error@)),
        ),
        (PhaseView::Begin { batch }, SyncReply::HostFailed { raised }) => finished(
            Err(ErrorView::Host(raised)),
        ),
        (PhaseView::Import { batch, step }, _) => after_step(
            batch,
            step,
            reply,
            sync.options,
            unix,
        ),
        (PhaseView::SaveCursor { batch }, SyncReply::Done) => PhaseView::Commit { batch },
        (PhaseView::SaveCursor { batch }, SyncReply::HostFailed { raised }) => finished(
            Err(ErrorView::Host(raised)),
        ),
        (PhaseView::Commit { batch }, SyncReply::Done) => finished(Ok(batch.result)),
        (PhaseView::Commit { batch }, SyncReply::Failed { error }) => finished(
            Err(ErrorView::Database("commit Codex sidebar batch: "@ + error@)),
        ),
        _ => sync.phase,
    }
}

/// An import after an action.
pub open spec fn sync_after<E>(sync: SyncView<E>, reply: SyncReply<E>, unix: Option<u128>) -> SyncView<E> {
    SyncView { phase: phase_after(sync, reply, unix), ..sync }
}

/// What an import needs to go on: the places of its counters.
pub open spec fn is_sound<E>(sync: SyncView<E>) -> bool {
    match sync.phase {
        PhaseView::Parse { batch, lines, line } => batch.next == 0 && line < lines.len(),
        PhaseView::Begin { batch } => batch.next == 0,
        PhaseView::Import { batch, step } => batch.next < batch.events.len(),
        _ => true,
    }
}

/// What is to be done next.
#[derive(Debug)]
pub enum SyncAction<'a, E> {
    /// Look whether there is a spool, and how long it is.
    LocateSpool,
    /// Look up the state of the last import.
    RecallState,
    /// Read the spool from an offset on.
    ReadSpool { offset: i64 },
    /// Parse a line of the spool.
    ParseLine { content: Vec<u8> },
    /// Start a transaction.
    BeginTransaction,
    /// Fill the reasoning tokens into a proxy's request that is the event's, if
    /// there is one.
    MergeProxy { key: DedupKey },
    /// List the requests that the log has of a thread.
    FindSessions { thread_id: String },
    /// Raise a request's count of reasoning tokens.
    CompleteReasoning { request_id: String, reasoning_output_tokens: u32 },
    /// Ask whether the log has the event already.
    CheckDuplicate { event_id: String, key: DedupKey },
    /// Look up a model's prices and keep them in the next free slot.
    FindPricing { model: String },
    /// Reckon the costs at the prices in a slot.
    CalculateCost { usage: TokenUsage, slot: usize },
    /// Put a row into the log, unless its id is there.
    InsertRow { row: ProxyLogRow },
    /// Put an error into words.
    RenderError { error: &'a AppError<E> },
    /// Save the cursor within the transaction.
    SaveCursor { modified: i64, offset: i64 },
    /// Commit the transaction.
    Commit,
    /// Nothing: the import is over.
    Finish,
}

/// What is to be done next, text as characters.
pub enum ActionView<E> {
    LocateSpool,
    RecallState,
    ReadSpool { offset: i64 },
    ParseLine { content: Seq<u8> },
    BeginTransaction,
    MergeProxy { key: DedupView },
    FindSessions { thread_id: Seq<char> },
    CompleteReasoning { request_id: Seq<char>, reasoning_output_tokens: u32 },
    CheckDuplicate { event_id: Seq<char>, key: DedupView },
    FindPricing { model: Seq<char> },
    CalculateCost { usage: TokenUsageView, slot: nat },
    InsertRow { row: LogRowView },
    RenderError { error: ErrorView<E> },
    SaveCursor { modified: i64, offset: i64 },
    Commit,
    Finish,
}

impl<'a, E> View for SyncAction<'a, E> {
    type V = ActionView<E>;

    open spec fn view(&self) -> ActionView<E> {
        match self {
            SyncAction::LocateSpool => ActionView::LocateSpool,
            SyncAction::RecallState => ActionView::RecallState,
            SyncAction::ReadSpool { offset } => ActionView::ReadSpool { offset: *offset },
            SyncAction::ParseLine { content } => ActionView::ParseLine { content: content@ },
            SyncAction::BeginTransaction => ActionView::BeginTransaction,
            SyncAction::MergeProxy { key } => ActionView::MergeProxy { key: key@ },
            SyncAction::FindSessions { thread_id } => ActionView::FindSessions {
                thread_id: thread_id@,
            },
            SyncAction::CompleteReasoning { request_id, reasoning_output_tokens } =>
            ActionView::CompleteReasoning {
                request_id: request_id@,
                reasoning_output_tokens: *reasoning_output_tokens,
            },
            SyncAction::CheckDuplicate { event_id, key } => ActionView::CheckDuplicate {
                event_id: event_id@,
                key: key@,
            },
            SyncAction::FindPricing { model } => ActionView::FindPricing { model: model@ },
            SyncAction::CalculateCost { usage, slot } => ActionView::CalculateCost {
                usage: usage@,
                slot: *slot as nat,
            },
            SyncAction::InsertRow { row } => ActionView::InsertRow { row: row@ },
            SyncAction::RenderError { error } => ActionView::RenderError { error: error@ },
            SyncAction::SaveCursor { modified, offset } => ActionView::SaveCursor {
                modified: *modified,
                offset: *offset,
            },
            SyncAction::Commit => ActionView::Commit,
            SyncAction::Finish => ActionView::Finish,
        }
    }
}

/// What a step of the next event's import asks for.
pub open spec fn step_action<E>(step: StepView<E>, options: SyncOptions) -> ActionView<E> {
    match step {
        StepView::MergeProxy { item } => ActionView::MergeProxy { key: dedup_key_of(item) },
        StepView::FindSession { item } => ActionView::FindSessions { thread_id: item.thread_id },
        StepView::CompleteReasoning { item, request_id } => ActionView::CompleteReasoning {
            request_id,
            reasoning_output_tokens: item.usage.reasoning_output_tokens,
        },
        StepView::CheckDuplicate { item } => ActionView::CheckDuplicate {
            event_id: item.event_id,
            key: dedup_key_of(item),
        },
        StepView::FindPricing { item } => ActionView::FindPricing { model: item.model },
        StepView::CalculateCost { item, slot } => ActionView::CalculateCost {
            usage: item.usage,
            slot,
        },
        StepView::Insert { item, costs } => ActionView::InsertRow {
            row: log_row_of(item, costs, options.input_token_semantics_total),
        },
        StepView::RenderError { error } => ActionView::RenderError { error },
    }
}

/// What is to be done next.
pub open spec fn action_of<E>(sync: SyncView<E>) -> ActionView<E> {
    match sync.phase {
        PhaseView::Locate => ActionView::LocateSpool,
        PhaseView::Recall { modified, file_len } => ActionView::RecallState,
        PhaseView::Read { modified, start_offset } => ActionView::ReadSpool {
            offset: start_offset,
        },
        PhaseView::Parse { batch, lines, line } => ActionView::ParseLine {
            content: lines[line as int].content,
        },
        PhaseView::Begin { batch } => ActionView::BeginTransaction,
        PhaseView::Import { batch, step } => step_action(step, sync.options),
        PhaseView::SaveCursor { batch } => ActionView::SaveCursor {
            modified: batch.modified,
            offset: batch.processed_offset,
        },
        PhaseView::Commit { batch } => ActionView::Commit,
        PhaseView::Finished { outcome } => ActionView::Finish,
    }
}

/// Texts one after another.
fn joined4(a: &str, b: &str, c: &str, d: &str) -> (text: String)
    ensures
        text@ == a@ + b@ + c@ + d@,
{
    let mut text = a.to_owned();
    text.append(b);
    text.append(c);
    text.append(d);
    text
}

/// Two texts one after the other.
fn joined2(a: &str, b: &str) -> (text: String)
    ensures
        text@ == a@ + b@,
{
    let mut text = a.to_owned();
    text.append(b);
    text
}

/// An error about the spool.
fn spool_failure<E>(what: &str, path: &str, error: &str) -> (phase: SyncPhase<E>)
    ensures
        phase@ == finished(Err(spool_error::<E>(what@, path@, error@))),
{
    SyncPhase::Finished { outcome: Err(AppError::Config(joined4(what, path, ": ", error))) }
}

impl Batch {
    /// The event that is next is done with, with the result `result`.
    fn advanced(self, result: SessionSyncResult) -> (batch: Batch)
        requires
            self.next < self.events@.len(),
        ensures
            batch@ == self@.advanced(result@),
    {
        let mut batch = self;
        let count: usize = batch.events.len();
        assert(batch.next < count);
        batch.result = result;
        batch.next = batch.next + 1;
        batch
    }

    fn imported(self) -> (batch: Batch)
        requires
            self.next < self.events@.len(),
        ensures
            batch@ == self@.imported(),
    {
        let Batch { modified, processed_offset, result, events, next, priced } = self;
        let done = SessionSyncResult::scanned(0);
        Batch { modified, processed_offset, result: done, events, next, priced }.advanced(
            result.with_import(),
        )
    }

    fn skipped(self) -> (batch: Batch)
        requires
            self.next < self.events@.len(),
        ensures
            batch@ == self@.skipped(),
    {
        let Batch { modified, processed_offset, result, events, next, priced } = self;
        let done = SessionSyncResult::scanned(0);
        Batch { modified, processed_offset, result: done, events, next, priced }.advanced(
            result.with_skip(),
        )
    }

    fn failed(self, error: &str) -> (batch: Batch)
        requires
            self.next < self.events@.len(),
        ensures
            batch@ == self@.failed(error@),
    {
        let Batch { modified, processed_offset, result, events, next, priced } = self;
        let text = joined4(
            "Codex sidebar event ",
            events[next].event_id.as_str(),
            ": ",
            error,
        );
        let done = SessionSyncResult::scanned(0);
        Batch { modified, processed_offset, result: done, events, next, priced }.advanced(
            result.with_error(text),
        )
    }
}

/// Takes up the next event, where `unix` is what the system clock shows.
fn take_next_event<E>(batch: Batch, unix: Option<u128>) -> (phase: SyncPhase<E>)
    ensures
        phase@ == next_event::<E>(batch@, unix),
    decreases batch.events@.len() - batch.next,
{
    if batch.next < batch.events.len() {
        match prepare_event(&batch.events[batch.next], unix) {
            Prepared::Invalid(text) => SyncPhase::Import {
                batch,
                step: ImportStep::RenderError { error: AppError::Config(text) },
            },
            Prepared::NotBillable => {
                let ghost before = batch@;
                let rest = batch.skipped();
                assert(rest@.events.len() == before.events.len());
                take_next_event(rest, unix)
            },
            Prepared::Ready(item) => SyncPhase::Import {
                batch,
                step: ImportStep::MergeProxy { item },
            },
        }
    } else {
        SyncPhase::SaveCursor { batch }
    }
}

/// Puts an error about the next event up for naming.
fn event_failure<E>(batch: Batch, what: &str, error: &str) -> (phase: SyncPhase<E>)
    ensures
        phase@ == event_error::<E>(batch@, what@, error@),
{
    SyncPhase::Import {
        batch,
        step: ImportStep::RenderError { error: AppError::Database(joined2(what, error)) },
    }
}

/// There is at most one nearest row.
proof fn lemma_nearest_unique(rows: Seq<RowView>, item: ItemView, window: i64, a: int, b: int)
    requires
        is_nearest(rows, item, window, a),
        is_nearest(rows, item, window, b),
    ensures
        a == b,
{
    assert(is_same_request(rows[a], item, window));
    assert(is_same_request(rows[b], item, window));
}

/// Goes on after the log's requests of the event's thread are known.
fn take_sessions<E>(
    batch: Batch,
    item: ImportItem,
    rows: Vec<SessionRow>,
    window: i64,
    unix: Option<u128>,
) -> (phase: SyncPhase<E>)
    requires
        batch.next < batch.events@.len(),
    ensures
        phase@ == after_sessions::<E>(batch@, item@, row_views(rows@), window, unix),
{
    let ghost views = row_views(rows@);
    match select_matching_session(&rows, &item, window) {
        Some(index) => {
            proof {
                let chosen = choose|i: int| is_nearest(views, item@, window, i);
                lemma_nearest_unique(views, item@, window, chosen, index as int);
            }
            let row = &rows[index];
            if item.usage.reasoning_output_tokens as i64 > row.reasoning_output_tokens
                && item.usage.reasoning_output_tokens > 0 {
                let request_id = row.request_id.clone();
                SyncPhase::Import {
                    batch,
                    step: ImportStep::CompleteReasoning { item, request_id },
                }
            } else {
                take_next_event(batch.skipped(), unix)
            }
        },
        None => {
            proof {
                assert(!exists|i: int| is_nearest(views, item@, window, i)) by {
                    if exists|i: int| is_nearest(views, item@, window, i) {
                        let i = choose|i: int| is_nearest(views, item@, window, i);
                        assert(is_same_request(views[i], item@, window));
                    }
                }
            }
            SyncPhase::Import { batch, step: ImportStep::CheckDuplicate { item } }
        },
    }
}

/// Where a model stands among those whose prices were looked up.
fn price_slot(priced: &Vec<String>, model: &str) -> (slot: Option<usize>)
    ensures
        match slot {
            Some(slot) => {
                &&& text_views(priced@).contains(model@)
                &&& text_views(priced@).index_of_first(model@) == Some(slot as int)
            },
            None => !text_views(priced@).contains(model@),
        },
{
    let ghost views = text_views(priced@);
    let mut i: usize = 0;
    while i < priced.len()
        invariant
            i <= priced@.len(),
            views == text_views(priced@),
            forall|j: int| 0 <= j < i ==> #[trigger] views[j] != model@,
        decreases priced@.len() - i,
    {
        if priced[i].as_str().eq(model) {
            proof {
                assert(views[i as int] == model@);
                views.index_of_first_ensures(model@);
                let first = views.index_of_first(model@).unwrap();
                assert(views[first] == model@);
            }
            return Some(i);
        }
        i = i + 1;
    }
    None
}

/// Goes on to the price of an event.
fn take_pricing<E>(batch: Batch, item: ImportItem) -> (phase: SyncPhase<E>)
    ensures
        phase@ == pricing_phase::<E>(batch@, item@),
{
    match price_slot(&batch.priced, item.model.as_str()) {
        Some(slot) => SyncPhase::Import { batch, step: ImportStep::CalculateCost { item, slot } },
        None => SyncPhase::Import { batch, step: ImportStep::FindPricing { item } },
    }
}

/// Goes on after a step of the next event's import.
fn take_step<E>(
    batch: Batch,
    step: ImportStep<E>,
    reply: SyncReply<E>,
    options: SyncOptions,
    unix: Option<u128>,
) -> (phase: SyncPhase<E>)
    requires
        batch.next < batch.events@.len(),
    ensures
        phase@ == after_step::<E>(batch@, step@, reply, options, unix),
{
    match (step, reply) {
        (ImportStep::MergeProxy { item }, SyncReply::Answer { yes }) => if yes {
            take_next_event(batch.skipped(), unix)
        } else {
            SyncPhase::Import { batch, step: ImportStep::FindSession { item } }
        },
        (ImportStep::MergeProxy { item: _ }, SyncReply::HostFailed { raised }) =>
        SyncPhase::Import { batch, step: ImportStep::RenderError { error: AppError::Host(raised) } },
        (ImportStep::FindSession { item }, SyncReply::Sessions { rows }) => take_sessions(
            batch,
            item,
            rows,
            options.dedup_window_seconds,
            unix,
        ),
        (ImportStep::FindSession { item: _ }, SyncReply::Failed { error }) => event_failure(
            batch,
            "query matching Codex session for sidebar usage failed: ",
            error.as_str(),
        ),
        (ImportStep::CompleteReasoning { item: _, request_id: _ }, SyncReply::Done) =>
        take_next_event(batch.skipped(), unix),
        (ImportStep::CompleteReasoning { item: _, request_id: _ }, SyncReply::Failed { error }) =>
        event_failure(
            batch,
            "complete matching Codex session reasoning tokens failed: ",
            error.as_str(),
        ),
        (ImportStep::CheckDuplicate { item }, SyncReply::Answer { yes }) => if yes {
            take_next_event(batch.skipped(), unix)
        } else {
            take_pricing(batch, item)
        },
        (ImportStep::CheckDuplicate { item: _ }, SyncReply::HostFailed { raised }) =>
        SyncPhase::Import { batch, step: ImportStep::RenderError { error: AppError::Host(raised) } },
        (ImportStep::FindPricing { item }, SyncReply::Done) => {
            let ghost before = batch@;
            let mut batch = batch;
            let slot: usize = batch.priced.len();
            batch.priced.push(item.model.clone());
            assert(batch@.priced =~= before.priced.push(item.model@));
            SyncPhase::Import { batch, step: ImportStep::CalculateCost { item, slot } }
        },
        (ImportStep::CalculateCost { item, slot: _ }, SyncReply::Costs { costs }) => {
            let texts = cost_texts(&costs);
            SyncPhase::Import { batch, step: ImportStep::Insert { item, costs: texts } }
        },
        (ImportStep::Insert { item: _, costs: _ }, SyncReply::Inserted { count }) => if count > 0 {
            take_next_event(batch.imported(), unix)
        } else {
            take_next_event(batch.skipped(), unix)
        },
        (ImportStep::Insert { item: _, costs: _ }, SyncReply::Failed { error }) => event_failure(
            batch,
            "insert Codex sidebar usage failed: ",
            error.as_str(),
        ),
        (ImportStep::RenderError { error: _ }, SyncReply::Rendered { text }) => take_next_event(
            batch.failed(text.as_str()),
            unix,
        ),
        (step, _) => SyncPhase::Import { batch, step },
    }
}

/// Goes on after the spool was read.
fn take_spool<E>(modified: i64, start_offset: i64, bytes: &Vec<u8>) -> (phase: SyncPhase<E>)
    ensures
        phase@ == after_read::<E>(modified, start_offset, bytes@),
{
    let pass = frame_spool(bytes.as_slice(), start_offset);
    let batch = Batch {
        modified,
        processed_offset: pass.processed_offset,
        result: SessionSyncResult::scanned(1),
        events: Vec::new(),
        next: 0,
        priced: Vec::new(),
    };
    assert(batch@.events =~= Seq::<EventView>::empty());
    assert(batch@.priced =~= Seq::<Seq<char>>::empty());
    if pass.lines.len() > 0 {
        SyncPhase::Parse { batch, lines: pass.lines, line: 0 }
    } else {
        SyncPhase::Begin { batch }
    }
}

/// Takes the outcome of parsing a line into the batch.
fn take_parsed(batch: Batch, offset: i64, event: Result<SidebarUsageEvent, String>) -> (after:
    Batch)
    ensures
        forall|line: LineView|
            line.offset == offset ==> after@ == #[trigger] with_parsed(
                batch@,
                line,
                parsed_view(event),
            ),
{
    let ghost before = batch@;
    let Batch { modified, processed_offset, result, events, next, priced } = batch;
    let mut events = events;
    let result = match event {
        Ok(event) => match event.validate() {
            Ok(()) => {
                let ghost view = event@;
                events.push(event);
                assert(event_views(events@) =~= before.events.push(view));
                result
            },
            Err(fault) => result.with_error(
                joined4(
                    "Codex sidebar usage event ",
                    event.event_id.as_str(),
                    " skipped: ",
                    fault.as_str(),
                ),
            ),
        },
        Err(error) => result.with_error(
            joined4(
                "Codex sidebar usage JSON parse failed at byte ",
                signed_decimal_text(offset).as_str(),
                ": ",
                error.as_str(),
            ),
        ),
    };
    Batch { modified, processed_offset, result, events, next, priced }
}

impl<E> SidebarSync<E> {
    #[verifier::type_invariant]
    spec fn well_formed(self) -> bool {
        is_sound(self@)
    }

    /// An import of the spool at `path` that is about to begin.
    pub fn new(path: String, options: SyncOptions) -> (sync: SidebarSync<E>)
        ensures
            sync@ == (SyncView { path: path@, options, phase: PhaseView::<E>::Locate }),
    {
        SidebarSync { path, options, phase: SyncPhase::Locate }
    }

    /// An import that is about to begin, of the spool at the configured path, or
    /// else, where none is configured or an empty one, at the default path.
    pub fn begin(
        value: Option<String>,
        is_empty: bool,
        default: String,
        options: SyncOptions,
    ) -> (sync: SidebarSync<E>)
        ensures
            sync@ == (SyncView {
                path: match configured_value(value, is_empty) {
                    Some(path) => path@,
                    None => default@,
                },
                options,
                phase: PhaseView::<E>::Locate,
            }),
    {
        SidebarSync::new(sidebar_usage_path(value, is_empty, default), options)
    }

    /// What is to be done next.
    pub fn action(&self) -> (action: SyncAction<'_, E>)
        ensures
            action@ == action_of(self@),
    {
        proof {
            use_type_invariant(self);
        }
        match &self.phase {
            SyncPhase::Locate => SyncAction::LocateSpool,
            SyncPhase::Recall { modified: _, file_len: _ } => SyncAction::RecallState,
            SyncPhase::Read { modified: _, start_offset } => SyncAction::ReadSpool {
                offset: *start_offset,
            },
            SyncPhase::Parse { batch: _, lines, line } => SyncAction::ParseLine {
                content: vstd::slice::slice_to_vec(lines[*line].content.as_slice()),
            },
            SyncPhase::Begin { batch: _ } => SyncAction::BeginTransaction,
            SyncPhase::Import { batch: _, step } => step.action(self.options),
            SyncPhase::SaveCursor { batch } => SyncAction::SaveCursor {
                modified: batch.modified,
                offset: batch.processed_offset,
            },
            SyncPhase::Commit { batch: _ } => SyncAction::Commit,
            SyncPhase::Finished { outcome: _ } => SyncAction::Finish,
        }
    }

    /// The import after the action that was due, where `reply` is what came of
    /// it and `unix` what the system clock shows.
    pub fn advance(self, reply: SyncReply<E>, unix: Option<u128>) -> (after: SidebarSync<E>)
        ensures
            after@ == sync_after(self@, reply, unix),
    {
        proof {
            use_type_invariant(&self);
        }
        let SidebarSync { path, options, phase } = self;
        let phase = match (phase, reply) {
            (SyncPhase::Locate, SyncReply::NotAFile) => SyncPhase::Finished {
                outcome: Ok(SessionSyncResult::scanned(0)),
            },
            (SyncPhase::Locate, SyncReply::FileStatus { modified, len }) => {
                let file_len: i64 = if len <= i64::MAX as u64 {
                    len as i64
                } else {
                    i64::MAX
                };
                SyncPhase::Recall { modified, file_len }
            },
            (SyncPhase::Locate, SyncReply::Failed { error }) => spool_failure(
                "read Codex sidebar usage metadata failed ",
                path.as_str(),
                error.as_str(),
            ),
            (
                SyncPhase::Recall { modified, file_len },
                SyncReply::SyncState { last_modified, saved_offset },
            ) => if modified == last_modified && saved_offset == file_len {
                SyncPhase::Finished { outcome: Ok(SessionSyncResult::scanned(1)) }
            } else if saved_offset >= 0 && saved_offset <= file_len {
                SyncPhase::Read { modified, start_offset: saved_offset }
            } else {
                SyncPhase::Read { modified, start_offset: 0 }
            },
            (SyncPhase::Recall { modified: _, file_len: _ }, SyncReply::HostFailed { raised }) =>
            SyncPhase::Finished { outcome: Err(AppError::Host(raised)) },
            (SyncPhase::Read { modified, start_offset }, SyncReply::Spool { bytes }) => take_spool(
                modified,
                start_offset,
                &bytes,
            ),
            (SyncPhase::Read { modified: _, start_offset: _ }, SyncReply::OpenFailed { error }) =>
            spool_failure("open Codex sidebar usage failed ", path.as_str(), error.as_str()),
            (SyncPhase::Read { modified: _, start_offset: _ }, SyncReply::SeekFailed { error }) =>
            spool_failure("seek Codex sidebar usage failed ", path.as_str(), error.as_str()),
            (SyncPhase::Read { modified: _, start_offset: _ }, SyncReply::Failed { error }) =>
            spool_failure("read Codex sidebar usage failed ", path.as_str(), error.as_str()),
            (SyncPhase::Parse { batch, lines, line }, SyncReply::Parsed { event }) => {
                let ghost view = line_views(lines@)[line as int];
                let ghost before = batch@;
                let batch = take_parsed(batch, lines[line].offset, event);
                assert(batch@ == with_parsed(before, view, parsed_view(event)));
                let count: usize = lines.len();
                assert(line < count);
                if line + 1 < count {
                    SyncPhase::Parse { batch, lines, line: line + 1 }
                } else {
                    SyncPhase::Begin { batch }
                }
            },
            (SyncPhase::Begin { batch }, SyncReply::Done) => take_next_event(batch, unix),
            (SyncPhase::Begin { batch: _ }, SyncReply::Failed { error }) => SyncPhase::Finished {
                outcome: Err(
                    AppError::Database(joined2("start Codex sidebar batch: ", error.as_str())),
                ),
            },
            (SyncPhase::Begin { batch: _ }, SyncReply::HostFailed { raised }) =>
            SyncPhase::Finished { outcome: Err(AppError::Host(raised)) },
            (SyncPhase::Import { batch, step }, reply) => take_step(
                batch,
                step,
                reply,
                options,
                unix,
            ),
            (SyncPhase::SaveCursor { batch }, SyncReply::Done) => SyncPhase::Commit { batch },
            (SyncPhase::SaveCursor { batch: _ }, SyncReply::HostFailed { raised }) =>
            SyncPhase::Finished { outcome: Err(AppError::Host(raised)) },
            (SyncPhase::Commit { batch }, SyncReply::Done) => SyncPhase::Finished {
                outcome: Ok(batch.result),
            },
            (SyncPhase::Commit { batch: _ }, SyncReply::Failed { error }) => SyncPhase::Finished {
                outcome: Err(
                    AppError::Database(joined2("commit Codex sidebar batch: ", error.as_str())),
                ),
            },
            (phase, _) => phase,
        };
        proof {
            lemma_stays_sound(self@, reply, unix);
            assert(phase@ == phase_after(self@, reply, unix));
        }
        SidebarSync { path, options, phase }
    }

    /// How the import ended, where it is over.
    pub fn outcome(self) -> (outcome: Option<Result<SessionSyncResult, AppError<E>>>)
        ensures
            match outcome {
                Some(outcome) => self@.phase == finished(outcome_view(outcome)),
                None => !(self@.phase is Finished),
            },
    {
        match self.phase {
            SyncPhase::Finished { outcome } => Some(outcome),
            _ => None,
        }
    }
}

/// Taking up the next event leaves the counters in place.
proof fn lemma_next_event_sound<E>(batch: BatchView, unix: Option<u128>)
    ensures
        next_event::<E>(batch, unix) matches PhaseView::Import { batch: taken, step }
            ==> taken.next < taken.events.len(),
        next_event::<E>(batch, unix) is Import || next_event::<E>(batch, unix) is SaveCursor,
    decreases batch.events.len() - batch.next,
{
    if batch.next < batch.events.len() {
        if prepared(batch.events[batch.next as int], unix) is NotBillable {
            lemma_next_event_sound::<E>(batch.skipped(), unix);
        }
    }
}

/// An import stays one that can go on.
pub(crate) proof fn lemma_stays_sound<E>(sync: SyncView<E>, reply: SyncReply<E>, unix: Option<u128>)
    requires
        is_sound(sync),
    ensures
        is_sound(sync_after(sync, reply, unix)),
{
    match sync.phase {
        PhaseView::Begin { batch } => {
            lemma_next_event_sound::<E>(batch, unix);
        },
        PhaseView::Import { batch, step } => {
            lemma_next_event_sound::<E>(batch.skipped(), unix);
            lemma_next_event_sound::<E>(batch.imported(), unix);
            match reply {
                SyncReply::Rendered { text } => {
                    lemma_next_event_sound::<E>(batch.failed(text@), unix);
                },
                _ => {},
            }
        },
        _ => {},
    }
}

impl<E> ImportStep<E> {
    /// What the step asks for.
    fn action(&self, options: SyncOptions) -> (action: SyncAction<'_, E>)
        ensures
            action@ == step_action(self@, options),
    {
        match self {
            ImportStep::MergeProxy { item } => SyncAction::MergeProxy { key: item.dedup_key() },
            ImportStep::FindSession { item } => SyncAction::FindSessions {
                thread_id: item.thread_id.clone(),
            },
            ImportStep::CompleteReasoning { item, request_id } => SyncAction::CompleteReasoning {
                request_id: request_id.clone(),
                reasoning_output_tokens: item.usage.reasoning_output_tokens,
            },
            ImportStep::CheckDuplicate { item } => SyncAction::CheckDuplicate {
                event_id: item.event_id.clone(),
                key: item.dedup_key(),
            },
            ImportStep::FindPricing { item } => SyncAction::FindPricing {
                model: item.model.clone(),
            },
            ImportStep::CalculateCost { item, slot } => SyncAction::CalculateCost {
                usage: item.usage.copy(),
                slot: *slot,
            },
            ImportStep::Insert { item, costs } => SyncAction::InsertRow {
                row: item.log_row(costs, options.input_token_semantics_total),
            },
            ImportStep::RenderError { error } => SyncAction::RenderError { error },
        }
    }
}

/// Takes an import of the spool one step further: `reply` is what came of the
/// action that was due. An event that does not say when it was completed counts
/// as completed at the time that the system clock shows.
pub fn sync_codex_sidebar_usage<E>(sync: SidebarSync<E>, reply: SyncReply<E>) -> (after: SidebarSync<E>)
    ensures
        exists|unix: Option<u128>| after@ == #[trigger] sync_after(sync@, reply, unix),
{
    let unix = system_clock();
    sync.advance(reply, unix)
}

} // verus!
