//! The interactive UCM session: what to launch, how its output is scanned
//! for the prompt and for the lock failure, and the life cycle that follows.
//!
//! The session here is the deciding half. Its owner opens the pseudo-terminal,
//! starts the process described by a [`SpawnPlan`], hands every read to
//! [`UCMPtyManager::on_read`] and carries out the commands it takes from
//! [`UCMPtyManager::next_command`].

use crate::decimal::{decimal, decimal_text};
use crate::port_utils::{find_available_port, scan_limit};
use crate::text::{
    append_str, char_is_whitespace, chars_of, contains, find, is_whitespace, join,
    lemma_find_from, lemma_lines_of_joined, lemma_rfind_char_to, lines, rfind_char, slice,
    string_of, text_contains, text_eq, text_find, text_join, text_lines, text_rfind_char,
    text_trim, texts, trim, utf8_text,
};
use vstd::prelude::*;
use vstd::slice::slice_to_vec;
use vstd::utf8::{decode_utf8, encode_utf8, valid_utf8};

verus! {

/// The project and branch that UCM is working in.
#[derive(Debug)]
pub struct UCMContext {
    pub project: Option<String>,
    pub branch: Option<String>,
}

/// A context as plain text.
pub struct ContextView {
    pub project: Option<Seq<char>>,
    pub branch: Option<Seq<char>>,
}

/// The characters of a string, where there is one.
pub open spec fn text_option(s: Option<String>) -> Option<Seq<char>> {
    match s {
        Some(t) => Some(t@),
        None => None,
    }
}

impl View for UCMContext {
    type V = ContextView;

    open spec fn view(&self) -> ContextView {
        ContextView { project: text_option(self.project), branch: text_option(self.branch) }
    }
}

/// A context as plain text, where there is one.
pub open spec fn context_option(c: Option<UCMContext>) -> Option<ContextView> {
    match c {
        Some(x) => Some(x@),
        None => None,
    }
}

fn clone_text_option(s: &Option<String>) -> (r: Option<String>)
    ensures
        text_option(r) == text_option(*s),
{
    match s {
        Some(t) => Some(t.clone()),
        None => None,
    }
}

fn same_text_option(a: &Option<String>, b: &Option<String>) -> (r: bool)
    ensures
        r == (text_option(*a) == text_option(*b)),
{
    match (a, b) {
        (Some(x), Some(y)) => {
            let same = text_eq(&chars_of(x.as_str()), &chars_of(y.as_str()));
            same
        },
        (None, None) => true,
        _ => false,
    }
}

impl Clone for UCMContext {
    fn clone(&self) -> (r: Self)
        ensures
            r@ == self@,
    {
        UCMContext {
            project: clone_text_option(&self.project),
            branch: clone_text_option(&self.branch),
        }
    }
}

impl Default for UCMContext {
    fn default() -> (r: Self)
        ensures
            r@ == (ContextView { project: None, branch: None }),
    {
        UCMContext { project: None, branch: None }
    }
}

impl UCMContext {
    /// Whether two contexts name the same project and branch.
    pub fn same_as(&self, other: &UCMContext) -> (r: bool)
        ensures
            r == (self@ == other@),
    {
        same_text_option(&self.project, &other.project) && same_text_option(
            &self.branch,
            &other.branch,
        )
    }
}

/// The ports that one UCM instance serves on.
#[derive(Debug, Clone, Copy, PartialEq, Eq, Structural)]
pub struct UCMPorts {
    pub api_port: u16,
    pub lsp_port: u16,
}

/// No character of the text is white space.
pub open spec fn no_whitespace(s: Seq<char>) -> bool {
    forall|i: int| 0 <= i < s.len() ==> !is_whitespace(#[trigger] s[i])
}

/// The part of a prompt that names the context: what stands before the first
/// colon, or all of it.
pub open spec fn context_part(prompt: Seq<char>) -> Seq<char> {
    match find(prompt, ":"@) {
        Some(colon) => prompt.subrange(0, colon),
        None => prompt,
    }
}

/// The project and branch that one line shows as a prompt, if it is one.
///
/// The prompt ends at the last `>` of the trimmed line. A `:path` after the
/// context is dropped. What remains is split at its last `/`; both sides,
/// trimmed, must be non-empty and hold no white space.
pub open spec fn prompt_of_line(line: Seq<char>) -> Option<ContextView> {
    let trimmed = trim(line);
    match rfind_char(trimmed, '>') {
        None => None,
        Some(end) => {
            let part = context_part(trimmed.subrange(0, end));
            match rfind_char(part, '/') {
                None => None,
                Some(slash) => {
                    let project = trim(part.subrange(0, slash));
                    let branch = trim(part.subrange(slash + 1, part.len() as int));
                    if project.len() > 0 && branch.len() > 0 && no_whitespace(project)
                        && no_whitespace(branch) {
                        Some(ContextView { project: Some(project), branch: Some(branch) })
                    } else {
                        None
                    }
                },
            }
        },
    }
}

/// The prompt of the last line among the first `n` that shows one.
pub open spec fn last_prompt(lines: Seq<Seq<char>>, n: int) -> Option<ContextView>
    decreases n,
{
    if n <= 0 || n > lines.len() {
        None
    } else {
        match prompt_of_line(lines[n - 1]) {
            Some(c) => Some(c),
            None => last_prompt(lines, n - 1),
        }
    }
}

/// The context that terminal output shows: that of its last prompt line.
pub open spec fn prompt_context(output: Seq<char>) -> Option<ContextView> {
    last_prompt(lines(output), lines(output).len() as int)
}

/// Of several lines the last one that shows a prompt decides.
pub proof fn lemma_last_prompt_line_wins(all: Seq<Seq<char>>, k: int, n: int)
    requires
        0 <= k < n <= all.len(),
        prompt_of_line(all[k]) is Some,
        forall|j: int| k < j < n ==> prompt_of_line(all[j]) is None,
    ensures
        last_prompt(all, n) == prompt_of_line(all[k]),
    decreases n - k,
{
    if k + 1 < n {
        lemma_last_prompt_line_wins(all, k, n - 1);
    }
}

/// Output shows no context exactly when none of its lines shows a prompt.
pub proof fn lemma_no_prompt(all: Seq<Seq<char>>, n: int)
    requires
        0 <= n <= all.len(),
    ensures
        last_prompt(all, n) is None <==> forall|j: int| 0 <= j < n ==> prompt_of_line(all[j]) is None,
    decreases n,
{
    if n > 0 {
        lemma_no_prompt(all, n - 1);
    }
}

fn has_no_whitespace(s: &Vec<char>) -> (r: bool)
    ensures
        r == no_whitespace(s@),
{
    let mut i: usize = 0;
    while i < s.len()
        invariant
            i <= s.len(),
            forall|j: int| 0 <= j < i ==> !is_whitespace(#[trigger] s@[j]),
        decreases s.len() - i,
    {
        if char_is_whitespace(s[i]) {
            return false;
        }
        i += 1;
    }
    true
}

fn line_prompt(line: &Vec<char>) -> (r: Option<UCMContext>)
    ensures
        context_option(r) == prompt_of_line(line@),
{
    let trimmed = text_trim(line);
    let end = match text_rfind_char(&trimmed, '>') {
        Some(end) => end,
        None => { return None; },
    };
    proof {
        lemma_rfind_char_to(trimmed@, '>', trimmed@.len() as int);
    }
    let prompt = slice(&trimmed, 0, end);
    let part = match text_find(&prompt, ":") {
        Some(colon) => {
            proof {
                lemma_find_from(prompt@, ":"@, 0);
            }
            slice(&prompt, 0, colon)
        },
        None => prompt,
    };
    let slash = match text_rfind_char(&part, '/') {
        Some(slash) => slash,
        None => { return None; },
    };
    proof {
        lemma_rfind_char_to(part@, '/', part@.len() as int);
    }
    let project = text_trim(&slice(&part, 0, slash));
    let branch = text_trim(&slice(&part, slash + 1, part.len()));
    if project.len() > 0 && branch.len() > 0 && has_no_whitespace(&project) && has_no_whitespace(
        &branch,
    ) {
        Some(UCMContext { project: Some(string_of(&project)), branch: Some(string_of(&branch)) })
    } else {
        None
    }
}

/// The context shown by the last prompt line of the given text.
pub fn detect_prompt(output: &Vec<char>) -> (r: Option<UCMContext>)
    ensures
        context_option(r) == prompt_context(output@),
{
    let all = text_lines(output);
    let mut n: usize = all.len();
    while n > 0
        invariant
            n <= all.len(),
            texts(all@) == lines(output@),
            prompt_context(output@) == last_prompt(texts(all@), n as int),
        decreases n,
    {
        match line_prompt(&all[n - 1]) {
            Some(c) => { return Some(c); },
            None => {},
        }
        n -= 1;
    }
    None
}

/// Reads the project and branch from terminal output that ends in a UCM
/// prompt such as `project/branch> ` or `project/branch:some.path> `.
///
/// Lines are tried from the last to the first; the first that shows a prompt
/// decides. Returns `None` exactly when no line shows one.
pub fn parse_ucm_prompt(output: &str) -> (r: Option<UCMContext>)
    ensures
        context_option(r) == prompt_context(output@),
{
    let text = chars_of(output);
    detect_prompt(&text)
}

/// Where a session stands in its life. `Stopped`, `Exited` and `Dead` are
/// final: such a session is discarded, never used again.
#[derive(Debug, Clone, Copy, PartialEq, Eq, Structural)]
pub enum SessionState {
    Starting,
    Running,
    Stopped,
    Exited,
    Dead,
}

impl SessionState {
    /// The session has not ended.
    pub open spec fn live(self) -> bool {
        self == SessionState::Starting || self == SessionState::Running
    }

    /// Whether the session has not ended.
    pub fn is_live(self) -> (r: bool)
        ensures
            r == self.live(),
    {
        match self {
            SessionState::Starting => true,
            SessionState::Running => true,
            _ => false,
        }
    }
}

/// Work for the single consumer that owns the terminal handle.
#[derive(Debug)]
pub enum SessionCommand {
    Write(Vec<u8>),
    Resize { rows: u16, cols: u16 },
}

/// A command as plain values.
pub enum CommandView {
    Write(Seq<u8>),
    Resize { rows: u16, cols: u16 },
}

impl View for SessionCommand {
    type V = CommandView;

    open spec fn view(&self) -> CommandView {
        match self {
            SessionCommand::Write(data) => CommandView::Write(data@),
            SessionCommand::Resize { rows, cols } => CommandView::Resize {
                rows: *rows,
                cols: *cols,
            },
        }
    }
}

/// The commands as plain values.
pub open spec fn commands_view(v: Seq<SessionCommand>) -> Seq<CommandView> {
    Seq::new(v.len(), |i: int| v[i]@)
}

/// What a session reports upward.
#[derive(Debug)]
pub enum SessionEvent {
    /// A chunk of terminal output, exactly as read.
    Output(Vec<u8>),
    /// The prompt shows another project or branch than before.
    ContextChanged(UCMContext),
    /// The process ended or the terminal failed.
    ProcessExited,
    /// UCM could not take the lock on its codebase.
    LockConflict,
}

/// An event as plain values.
pub enum EventView {
    Output(Seq<u8>),
    ContextChanged(ContextView),
    ProcessExited,
    LockConflict,
}

impl View for SessionEvent {
    type V = EventView;

    open spec fn view(&self) -> EventView {
        match self {
            SessionEvent::Output(data) => EventView::Output(data@),
            SessionEvent::ContextChanged(c) => EventView::ContextChanged(c@),
            SessionEvent::ProcessExited => EventView::ProcessExited,
            SessionEvent::LockConflict => EventView::LockConflict,
        }
    }
}

/// The events as plain values.
pub open spec fn events_view(v: Seq<SessionEvent>) -> Seq<EventView> {
    Seq::new(v.len(), |i: int| v[i]@)
}

/// How one read of the terminal ended.
#[derive(Debug)]
pub enum ReadOutcome {
    Data(Vec<u8>),
    Eof,
    WouldBlock,
    Failed,
}

/// The outcome of a read as plain values.
pub enum OutcomeView {
    Data(Seq<u8>),
    Eof,
    WouldBlock,
    Failed,
}

impl View for ReadOutcome {
    type V = OutcomeView;

    open spec fn view(&self) -> OutcomeView {
        match self {
            ReadOutcome::Data(data) => OutcomeView::Data(data@),
            ReadOutcome::Eof => OutcomeView::Eof,
            ReadOutcome::WouldBlock => OutcomeView::WouldBlock,
            ReadOutcome::Failed => OutcomeView::Failed,
        }
    }
}

/// What the read loop does next.
#[derive(Debug, Clone, Copy, PartialEq, Eq, Structural)]
pub enum ReaderAction {
    /// Read again at once.
    Continue,
    /// Wait a short while, then read again.
    Backoff,
    /// Leave the loop.
    Stop,
}

/// The events of one read, in the order to emit them, and what to do next.
#[derive(Debug)]
pub struct ReadStep {
    pub events: Vec<SessionEvent>,
    pub action: ReaderAction,
}

/// A session as plain values.
pub struct SessionModel {
    pub state: SessionState,
    pub context: ContextView,
    /// The tail of the text read so far that is still scanned.
    pub buffer: Seq<char>,
    /// Reads since the buffer was last scanned.
    pub reads: nat,
    /// Commands accepted and not yet taken, oldest first.
    pub pending: Seq<CommandView>,
    pub ports: UCMPorts,
}

/// The session after a read, what it reports, and what the loop does next.
pub struct StepView {
    pub next: SessionModel,
    pub events: Seq<EventView>,
    pub action: ReaderAction,
}

/// The text with which UCM reports that another process holds its codebase.
pub open spec fn lock_failure() -> Seq<char> {
    "Failed to obtain a file lock"@
}

/// Whether a read is scanned: every fifth read is, and so is every read of
/// fewer than 1000 bytes.
pub open spec fn scans(reads: nat, len: nat) -> bool {
    reads + 1 >= 5 || len < 1000
}

/// The scanned text is kept to its last 512 characters once it has grown
/// beyond 1024.
pub open spec fn bounded_tail(t: Seq<char>) -> Seq<char> {
    if t.len() > 1024 {
        t.subrange(t.len() - 512, t.len() as int)
    } else {
        t
    }
}

/// The session after its process has ended or its terminal has failed.
pub open spec fn exited(s: SessionModel) -> StepView {
    StepView {
        next: SessionModel { state: SessionState::Exited, ..s },
        events: seq![EventView::ProcessExited],
        action: ReaderAction::Stop,
    }
}

/// A live session takes a non-empty chunk of output. The chunk is reported
/// first, as it is. If the read is scanned and the chunk is valid UTF-8, its
/// text joins the buffer; the lock failure anywhere in the buffer kills the
/// session; otherwise a prompt that shows another context than the current
/// one changes it and is reported.
pub open spec fn after_output(s: SessionModel, chunk: Seq<u8>) -> StepView {
    let output = seq![EventView::Output(chunk)];
    if !scans(s.reads, chunk.len()) {
        StepView {
            next: SessionModel { reads: s.reads + 1, ..s },
            events: output,
            action: ReaderAction::Continue,
        }
    } else if !valid_utf8(chunk) {
        StepView {
            next: SessionModel { reads: 0, ..s },
            events: output,
            action: ReaderAction::Continue,
        }
    } else {
        let t = s.buffer + decode_utf8(chunk);
        if contains(t, lock_failure()) {
            StepView {
                next: SessionModel { state: SessionState::Dead, reads: 0, buffer: t, ..s },
                events: output.push(EventView::LockConflict),
                action: ReaderAction::Stop,
            }
        } else {
            match prompt_context(t) {
                Some(c) => if c != s.context {
                    StepView {
                        next: SessionModel { context: c, reads: 0, buffer: bounded_tail(t), ..s },
                        events: output.push(EventView::ContextChanged(c)),
                        action: ReaderAction::Continue,
                    }
                } else {
                    StepView {
                        next: SessionModel { reads: 0, buffer: bounded_tail(t), ..s },
                        events: output,
                        action: ReaderAction::Continue,
                    }
                },
                None => StepView {
                    next: SessionModel { reads: 0, buffer: bounded_tail(t), ..s },
                    events: output,
                    action: ReaderAction::Continue,
                },
            }
        }
    }
}

/// One step of the read loop. A session that has ended reports nothing and
/// stops the loop. A read that would block is tried again after a pause. End
/// of file, an empty read and any other failure end the session.
pub open spec fn read_step(s: SessionModel, outcome: OutcomeView) -> StepView {
    if !s.state.live() {
        StepView { next: s, events: Seq::empty(), action: ReaderAction::Stop }
    } else {
        match outcome {
            OutcomeView::WouldBlock => StepView {
                next: s,
                events: Seq::empty(),
                action: ReaderAction::Backoff,
            },
            OutcomeView::Eof => exited(s),
            OutcomeView::Failed => exited(s),
            OutcomeView::Data(chunk) => if chunk.len() == 0 {
                exited(s)
            } else {
                after_output(s, chunk)
            },
        }
    }
}

/// The session after `stop`: a live one is stopped, one that has ended is
/// left as it is.
pub open spec fn stopped(s: SessionModel) -> SessionModel {
    if s.state.live() {
        SessionModel { state: SessionState::Stopped, ..s }
    } else {
        s
    }
}

/// The session after it has accepted a command.
pub open spec fn queued(s: SessionModel, c: CommandView) -> SessionModel {
    SessionModel { pending: s.pending.push(c), ..s }
}

/// What a session that has ended says to a write.
pub open spec fn write_refusal() -> Seq<char> {
    "Failed to send write to PTY: channel closed"@
}

/// What a session that has ended says to a change of size.
pub open spec fn resize_refusal() -> Seq<char> {
    "Failed to send resize to PTY: channel closed"@
}

/// The bytes that ask UCM to switch to a project and branch.
pub open spec fn switch_command(project: Seq<char>, branch: Seq<char>) -> Seq<u8> {
    encode_utf8("switch "@ + project + "/"@ + branch + "\n"@)
}

/// The context that a session detects in a chunk of output: that of the last
/// prompt in its buffer once the chunk's text has joined it. Nothing is
/// detected where the session has ended, the chunk is empty, not scanned or
/// not valid UTF-8, or the buffer then holds the lock failure.
pub open spec fn detected(s: SessionModel, chunk: Seq<u8>) -> Option<ContextView> {
    if s.state.live() && chunk.len() > 0 && scans(s.reads, chunk.len()) && valid_utf8(chunk)
        && !contains(s.buffer + decode_utf8(chunk), lock_failure()) {
        prompt_context(s.buffer + decode_utf8(chunk))
    } else {
        None
    }
}

/// How many of the events report a changed context.
pub open spec fn context_changes(events: Seq<EventView>) -> nat
    decreases events.len(),
{
    if events.len() == 0 {
        0
    } else {
        context_changes(events.drop_last()) + if events.last() is ContextChanged {
            1nat
        } else {
            0nat
        }
    }
}

/// A read reports a changed context exactly when it detects a context other
/// than the current one, and then reports it once and makes it current.
pub proof fn lemma_change_follows_detection(s: SessionModel, chunk: Seq<u8>)
    ensures
        ({
            let step = read_step(s, OutcomeView::Data(chunk));
            let found = detected(s, chunk);
            if found is Some && found->0 != s.context {
                context_changes(step.events) == 1 && step.next.context == found->0
            } else {
                context_changes(step.events) == 0 && step.next.context == s.context
            }
        }),
{
    let step = read_step(s, OutcomeView::Data(chunk));
    let e = step.events;
    reveal_with_fuel(context_changes, 3);
    if e.len() == 1 {
        assert(e.drop_last().len() == 0);
    } else if e.len() == 2 {
        assert(e.drop_last().len() == 1);
        assert(e.drop_last().drop_last().len() == 0);
        assert(e.drop_last().last() == e[0]);
    }
}

/// Output in which the session detects the context it already has, or none,
/// changes nothing and is reported as output only.
pub proof fn lemma_known_context_is_silent(s: SessionModel, chunk: Seq<u8>)
    requires
        detected(s, chunk) is None || detected(s, chunk) == Some(s.context),
    ensures
        context_changes(read_step(s, OutcomeView::Data(chunk)).events) == 0,
        read_step(s, OutcomeView::Data(chunk)).next.context == s.context,
{
    lemma_change_follows_detection(s, chunk);
}

/// The same output read twice in a row reports at most one changed context,
/// unless the second read detects yet another context than the first did:
/// the buffer has grown by then, and its last prompt line may be a new one.
pub proof fn lemma_same_output_twice(s: SessionModel, chunk: Seq<u8>)
    requires
        ({
            let first = detected(s, chunk);
            let second = detected(read_step(s, OutcomeView::Data(chunk)).next, chunk);
            first is None || first == Some(s.context) || second is None || second == first
        }),
    ensures
        ({
            let first = read_step(s, OutcomeView::Data(chunk));
            let second = read_step(first.next, OutcomeView::Data(chunk));
            context_changes(first.events) + context_changes(second.events) <= 1
        }),
{
    let first = read_step(s, OutcomeView::Data(chunk));
    lemma_change_follows_detection(s, chunk);
    lemma_change_follows_detection(first.next, chunk);
}

/// Where the later lines show a prompt, the earlier lines play no part.
pub proof fn lemma_last_prompt_of_joined(a: Seq<Seq<char>>, b: Seq<Seq<char>>, n: int)
    requires
        0 <= n <= b.len(),
        last_prompt(b, n) is Some,
    ensures
        last_prompt(a + b, a.len() + n) == last_prompt(b, n),
    decreases n,
{
    if n > 0 {
        assert((a + b)[a.len() + n - 1] == b[n - 1]);
        if prompt_of_line(b[n - 1]) is None {
            lemma_last_prompt_of_joined(a, b, n - 1);
        }
    }
}

/// Output that shows a prompt shows the same prompt behind any text that is
/// empty or ends with a line feed.
pub proof fn lemma_prompt_on_fresh_line(before: Seq<char>, output: Seq<char>)
    requires
        before.len() == 0 || before.last() == '\n',
        prompt_context(output) is Some,
    ensures
        prompt_context(before + output) == prompt_context(output),
{
    lemma_lines_of_joined(before, output, 0);
    lemma_last_prompt_of_joined(lines(before), lines(output), lines(output).len() as int);
}

/// Whole prompt lines read twice in a row change the context at most once.
///
/// The output starts on a fresh line, ends with a line feed and shows a
/// prompt; both reads are scanned (they are short) and the lock failure is
/// not in sight. Then both reads detect the prompt of the output, so the
/// second changes nothing.
pub proof fn lemma_prompt_lines_twice(s: SessionModel, chunk: Seq<u8>)
    requires
        s.state.live(),
        0 < chunk.len() < 1000,
        valid_utf8(chunk),
        decode_utf8(chunk).len() > 0,
        decode_utf8(chunk).last() == '\n',
        s.buffer.len() == 0 || s.buffer.last() == '\n',
        prompt_context(decode_utf8(chunk)) is Some,
        !contains(s.buffer + decode_utf8(chunk), lock_failure()),
        !contains(
            bounded_tail(s.buffer + decode_utf8(chunk)) + decode_utf8(chunk),
            lock_failure(),
        ),
    ensures
        ({
            let first = read_step(s, OutcomeView::Data(chunk));
            let second = read_step(first.next, OutcomeView::Data(chunk));
            &&& context_changes(first.events) + context_changes(second.events) <= 1
            &&& context_changes(second.events) == 0
            &&& Some(second.next.context) == prompt_context(decode_utf8(chunk))
        }),
{
    let t = decode_utf8(chunk);
    let first = read_step(s, OutcomeView::Data(chunk));
    let joined = s.buffer + t;
    let kept = bounded_tail(joined);
    lemma_prompt_on_fresh_line(s.buffer, t);
    assert(joined.last() == '\n');
    assert(kept.last() == '\n');
    assert(first.next.buffer == kept);
    lemma_prompt_on_fresh_line(kept, t);
    lemma_change_follows_detection(s, chunk);
    lemma_change_follows_detection(first.next, chunk);
}

/// Stopping twice is stopping once.
pub proof fn lemma_stop_is_idempotent(s: SessionModel)
    ensures
        stopped(stopped(s)) == stopped(s),
        !stopped(s).state.live(),
{
}

/// A session that has ended reports nothing more, whatever is read, and
/// stays as it is.
pub proof fn lemma_ended_session_is_silent(s: SessionModel, outcome: OutcomeView)
    requires
        !s.state.live(),
    ensures
        read_step(s, outcome).events.len() == 0,
        read_step(s, outcome).next == s,
        read_step(s, outcome).action == ReaderAction::Stop,
{
}

/// Two writes accepted one after the other stand in the queue in that
/// order, behind what was queued before them; commands leave the queue from
/// its front only.
pub proof fn lemma_writes_keep_order(s: SessionModel, first: Seq<u8>, second: Seq<u8>)
    ensures
        ({
            let after = queued(queued(s, CommandView::Write(first)), CommandView::Write(second));
            &&& after.pending == s.pending + seq![
                CommandView::Write(first),
                CommandView::Write(second),
            ]
            &&& after.pending[s.pending.len() as int] == CommandView::Write(first)
            &&& after.pending[s.pending.len() as int + 1] == CommandView::Write(second)
        }),
{
    let after = queued(queued(s, CommandView::Write(first)), CommandView::Write(second));
    assert(after.pending =~= s.pending + seq![
        CommandView::Write(first),
        CommandView::Write(second),
    ]);
}

/// What to start on the pseudo-terminal, and how.
#[derive(Debug)]
pub struct SpawnPlan {
    pub program: String,
    pub args: Vec<String>,
    /// Environment variables to set, in this order.
    pub env: Vec<(String, String)>,
    pub cwd: Option<String>,
    pub rows: u16,
    pub cols: u16,
}

/// A plan as plain values.
pub struct PlanView {
    pub program: Seq<char>,
    pub args: Seq<Seq<char>>,
    pub env: Seq<(Seq<char>, Seq<char>)>,
    pub cwd: Option<Seq<char>>,
    pub rows: u16,
    pub cols: u16,
}

/// The environment variables as plain text.
pub open spec fn pairs_view(v: Seq<(String, String)>) -> Seq<(Seq<char>, Seq<char>)> {
    Seq::new(v.len(), |i: int| (v[i].0@, v[i].1@))
}

impl View for SpawnPlan {
    type V = PlanView;

    open spec fn view(&self) -> PlanView {
        PlanView {
            program: self.program@,
            args: self.args.deep_view(),
            env: pairs_view(self.env@),
            cwd: text_option(self.cwd),
            rows: self.rows,
            cols: self.cols,
        }
    }
}

/// The characters of a string slice, where there is one.
pub open spec fn str_option(s: Option<&str>) -> Option<Seq<char>> {
    match s {
        Some(t) => Some(t@),
        None => None,
    }
}

/// Where programs are looked for whatever the inherited search path says.
pub open spec fn system_dirs() -> Seq<Seq<char>> {
    seq![
        "/opt/homebrew/bin"@,
        "/usr/local/bin"@,
        "/usr/bin"@,
        "/bin"@,
        "/usr/sbin"@,
        "/sbin"@,
    ]
}

/// The user's own two program directories, where the home directory is
/// known, then the system's.
pub open spec fn search_dirs(home: Option<Seq<char>>) -> Seq<Seq<char>> {
    match home {
        Some(h) => seq![h + "/bin"@, h + "/.local/bin"@] + system_dirs(),
        None => system_dirs(),
    }
}

/// The search path of the session: its own directories, then the inherited
/// path where there is one.
pub open spec fn search_path(home: Option<Seq<char>>, existing: Seq<char>) -> Seq<char> {
    let own = join(search_dirs(home), ":"@);
    if existing.len() == 0 {
        own
    } else {
        own + ":"@ + existing
    }
}

/// The environment under which UCM renders properly on a pseudo-terminal.
pub open spec fn session_environment(home: Option<Seq<char>>, existing: Seq<char>) -> Seq<
    (Seq<char>, Seq<char>),
> {
    let head = seq![
        ("PATH"@, search_path(home, existing)),
        ("TERM"@, "xterm-256color"@),
        ("LANG"@, "en_US.UTF-8"@),
        ("LC_ALL"@, "en_US.UTF-8"@),
        ("COLORTERM"@, "truecolor"@),
        ("TERMINFO_DIRS"@, "/usr/share/terminfo:/lib/terminfo:/etc/terminfo"@),
    ];
    let own = match home {
        Some(h) => seq![("HOME"@, h)],
        None => Seq::empty(),
    };
    let tail = seq![
        ("CLICOLOR"@, "1"@),
        ("CLICOLOR_FORCE"@, "1"@),
        ("FORCE_COLOR"@, "1"@),
        ("UCM_COLOR"@, "always"@),
        ("NO_COLOR"@, ""@),
    ];
    head + own + tail
}

/// UCM, told its API port, on a terminal of 24 rows and 80 columns, in the
/// directory asked for or else in the home directory.
pub open spec fn spawn_plan_of(
    api_port: u16,
    cwd: Option<Seq<char>>,
    home: Option<Seq<char>>,
    existing: Seq<char>,
) -> PlanView {
    PlanView {
        program: "ucm"@,
        args: seq!["--port"@, decimal(api_port as nat)],
        env: session_environment(home, existing),
        cwd: match cwd {
            Some(d) => Some(d),
            None => home,
        },
        rows: 24,
        cols: 80,
    }
}

fn entry(key: &str, value: &str) -> (r: (String, String))
    ensures
        r.0@ == key@,
        r.1@ == value@,
{
    (key.to_owned(), value.to_owned())
}

fn session_search_path(home: Option<&str>, existing_path: &str) -> (r: String)
    ensures
        r@ == search_path(str_option(home), existing_path@),
{
    let mut dirs: Vec<Vec<char>> = Vec::new();
    match home {
        Some(h) => {
            let mut own = chars_of(h);
            append_str(&mut own, "/bin");
            dirs.push(own);
            let mut local = chars_of(h);
            append_str(&mut local, "/.local/bin");
            dirs.push(local);
        },
        None => {},
    }
    dirs.push(chars_of("/opt/homebrew/bin"));
    dirs.push(chars_of("/usr/local/bin"));
    dirs.push(chars_of("/usr/bin"));
    dirs.push(chars_of("/bin"));
    dirs.push(chars_of("/usr/sbin"));
    dirs.push(chars_of("/sbin"));
    assert(texts(dirs@) =~= search_dirs(str_option(home)));
    let mut path = text_join(&dirs, ":");
    if existing_path.unicode_len() > 0 {
        append_str(&mut path, ":");
        append_str(&mut path, existing_path);
    }
    string_of(&path)
}

/// The plan for starting UCM with the given API port.
///
/// `home` is the user's home directory where it is known, `existing_path`
/// the inherited search path (empty where there is none).
pub fn spawn_plan(api_port: u16, cwd: Option<&str>, home: Option<&str>, existing_path: &str) -> (r:
    SpawnPlan)
    ensures
        r@ == spawn_plan_of(api_port, str_option(cwd), str_option(home), existing_path@),
{
    let mut args: Vec<String> = Vec::new();
    args.push("--port".to_owned());
    args.push(string_of(&decimal_text(api_port as u64)));
    assert(args.deep_view() =~= seq!["--port"@, decimal(api_port as nat)]);
    let mut env: Vec<(String, String)> = Vec::new();
    env.push(("PATH".to_owned(), session_search_path(home, existing_path)));
    env.push(entry("TERM", "xterm-256color"));
    env.push(entry("LANG", "en_US.UTF-8"));
    env.push(entry("LC_ALL", "en_US.UTF-8"));
    env.push(entry("COLORTERM", "truecolor"));
    env.push(entry("TERMINFO_DIRS", "/usr/share/terminfo:/lib/terminfo:/etc/terminfo"));
    match home {
        Some(h) => {
            env.push(entry("HOME", h));
        },
        None => {},
    }
    env.push(entry("CLICOLOR", "1"));
    env.push(entry("CLICOLOR_FORCE", "1"));
    env.push(entry("FORCE_COLOR", "1"));
    env.push(entry("UCM_COLOR", "always"));
    env.push(entry("NO_COLOR", ""));
    assert(pairs_view(env@) =~= session_environment(str_option(home), existing_path@));
    let dir = match cwd {
        Some(d) => Some(d.to_owned()),
        None => match home {
            Some(h) => Some(h.to_owned()),
            None => None,
        },
    };
    SpawnPlan { program: "ucm".to_owned(), args: args, env: env, cwd: dir, rows: 24, cols: 80 }
}

/// The first port tried for the UCM API server.
pub const API_PORT_START: u16 = 5858;

/// The port on which UCM serves the language server protocol.
pub const LSP_PORT: u16 = 5757;

/// The deciding half of one UCM session.
pub struct UCMPtyManager {
    state: SessionState,
    context: UCMContext,
    line_buffer: Vec<char>,
    reads_since_parse: u32,
    pending: Vec<SessionCommand>,
    ports: UCMPorts,
}

impl View for UCMPtyManager {
    type V = SessionModel;

    closed spec fn view(&self) -> SessionModel {
        SessionModel {
            state: self.state,
            context: self.context@,
            buffer: self.line_buffer@,
            reads: self.reads_since_parse as nat,
            pending: commands_view(self.pending@),
            ports: self.ports,
        }
    }
}

impl UCMPtyManager {
    /// Starts a session: picks the API port with the probe, from 5858 on, and
    /// takes 5757 for the language server. Fails exactly when the probe found
    /// no free port.
    pub fn spawn<F: Fn(u16) -> bool>(probe: F) -> (r: Result<(UCMPtyManager, UCMPorts), String>)
        requires
            forall|p: u16|
                API_PORT_START <= p < scan_limit(API_PORT_START) ==> call_requires(probe, (p,)),
        ensures
            match r {
                Ok((manager, ports)) => {
                    &&& manager@ == SessionModel {
                        state: SessionState::Starting,
                        context: ContextView { project: None, branch: None },
                        buffer: Seq::<char>::empty(),
                        reads: 0,
                        pending: Seq::<CommandView>::empty(),
                        ports: ports,
                    }
                    &&& ports.lsp_port == LSP_PORT
                    &&& API_PORT_START <= ports.api_port < scan_limit(API_PORT_START)
                    &&& call_ensures(probe, (ports.api_port,), true)
                    &&& forall|q: u16|
                        API_PORT_START <= q < ports.api_port ==> #[trigger] call_ensures(
                            probe,
                            (q,),
                            false,
                        )
                },
                Err(e) => {
                    &&& e@ == "Could not find available port for UCM API server"@
                    &&& forall|q: u16|
                        API_PORT_START <= q < scan_limit(API_PORT_START) ==> #[trigger] call_ensures(
                            probe,
                            (q,),
                            false,
                        )
                },
            },
    {
        match find_available_port(API_PORT_START, probe) {
            Some(api_port) => {
                let ports = UCMPorts { api_port: api_port, lsp_port: LSP_PORT };
                let manager = UCMPtyManager {
                    state: SessionState::Starting,
                    context: UCMContext::default(),
                    line_buffer: Vec::new(),
                    reads_since_parse: 0,
                    pending: Vec::new(),
                    ports: ports,
                };
                assert(commands_view(manager.pending@) =~= Seq::<CommandView>::empty());
                Ok((manager, ports))
            },
            None => Err("Could not find available port for UCM API server".to_owned()),
        }
    }

    /// The process has been started on the terminal.
    pub fn started(&mut self)
        ensures
            final(self)@ == (if old(self)@.state == SessionState::Starting {
                SessionModel { state: SessionState::Running, ..old(self)@ }
            } else {
                old(self)@
            }),
    {
        if self.state == SessionState::Starting {
            self.state = SessionState::Running;
        }
    }

    fn accept(&mut self, command: SessionCommand)
        ensures
            final(self)@ == queued(old(self)@, command@),
    {
        let ghost before = self.pending@;
        self.pending.push(command);
        assert(commands_view(before.push(command)) =~= commands_view(before).push(command@));
    }

    /// Queues bytes for the terminal. A session that has ended refuses them.
    pub fn write(&mut self, data: &[u8]) -> (r: Result<(), String>)
        ensures
            old(self)@.state.live() ==> r is Ok && final(self)@ == queued(
                old(self)@,
                CommandView::Write(data@),
            ),
            !old(self)@.state.live() ==> r is Err && r->Err_0@ == write_refusal()
                && final(self)@ == old(self)@,
    {
        if self.state.is_live() {
            self.accept(SessionCommand::Write(slice_to_vec(data)));
            Ok(())
        } else {
            Err("Failed to send write to PTY: channel closed".to_owned())
        }
    }

    /// Queues the command that makes UCM switch to a project and branch.
    pub fn switch_context(&mut self, project: &str, branch: &str) -> (r: Result<(), String>)
        ensures
            old(self)@.state.live() ==> r is Ok && final(self)@ == queued(
                old(self)@,
                CommandView::Write(switch_command(project@, branch@)),
            ),
            !old(self)@.state.live() ==> r is Err && r->Err_0@ == write_refusal()
                && final(self)@ == old(self)@,
    {
        let mut line: Vec<char> = Vec::new();
        append_str(&mut line, "switch ");
        append_str(&mut line, project);
        append_str(&mut line, "/");
        append_str(&mut line, branch);
        append_str(&mut line, "\n");
        let command = string_of(&line);
        assert(command@ =~= "switch "@ + project@ + "/"@ + branch@ + "\n"@);
        self.write(command.as_str().as_bytes())
    }

    /// Queues a change of the terminal's size. A session that has ended
    /// refuses it.
    pub fn resize(&mut self, rows: u16, cols: u16) -> (r: Result<(), String>)
        ensures
            old(self)@.state.live() ==> r is Ok && final(self)@ == queued(
                old(self)@,
                CommandView::Resize { rows: rows, cols: cols },
            ),
            !old(self)@.state.live() ==> r is Err && r->Err_0@ == resize_refusal()
                && final(self)@ == old(self)@,
    {
        if self.state.is_live() {
            self.accept(SessionCommand::Resize { rows: rows, cols: cols });
            Ok(())
        } else {
            Err("Failed to send resize to PTY: channel closed".to_owned())
        }
    }

    /// Takes the oldest command that was accepted and not yet taken.
    pub fn next_command(&mut self) -> (r: Option<SessionCommand>)
        ensures
            match r {
                Some(c) => old(self)@.pending.len() > 0 && c@ == old(self)@.pending[0]
                    && final(self)@ == (SessionModel {
                    pending: old(self)@.pending.drop_first(),
                    ..old(self)@
                }),
                None => old(self)@.pending.len() == 0 && final(self)@ == old(self)@,
            },
    {
        if self.pending.len() == 0 {
            None
        } else {
            let ghost before = self.pending@;
            let c = self.pending.remove(0);
            assert(commands_view(before.remove(0)) =~= commands_view(before).drop_first());
            Some(c)
        }
    }

    /// The context that the prompt showed last.
    pub fn get_context(&self) -> (r: UCMContext)
        ensures
            r@ == self@.context,
    {
        self.context.clone()
    }

    /// Stops a live session; does nothing to one that has ended.
    pub fn stop(&mut self)
        ensures
            final(self)@ == stopped(old(self)@),
    {
        if self.state.is_live() {
            self.state = SessionState::Stopped;
        }
    }

    /// Whether the session has not ended.
    pub fn is_running(&self) -> (r: bool)
        ensures
            r == self@.state.live(),
    {
        self.state.is_live()
    }

    /// Where the session stands in its life.
    pub fn state(&self) -> (r: SessionState)
        ensures
            r == self@.state,
    {
        self.state
    }

    /// The ports that the session was given.
    pub fn ports(&self) -> (r: UCMPorts)
        ensures
            r == self@.ports,
    {
        self.ports
    }

    fn exit(&mut self) -> (step: ReadStep)
        ensures
            final(self)@ == exited(old(self)@).next,
            events_view(step.events@) == exited(old(self)@).events,
            step.action == exited(old(self)@).action,
    {
        self.state = SessionState::Exited;
        let mut events: Vec<SessionEvent> = Vec::new();
        events.push(SessionEvent::ProcessExited);
        assert(events_view(events@) =~= seq![EventView::ProcessExited]);
        ReadStep { events: events, action: ReaderAction::Stop }
    }

    /// Scans the buffer after the text of a chunk has joined it.
    fn scan(&mut self, text: &str) -> (r: (Option<SessionEvent>, ReaderAction))
        requires
            old(self)@.state.live(),
        ensures
            ({
                let s = old(self)@;
                let t = s.buffer + text@;
                let lost = contains(t, lock_failure());
                let found = prompt_context(t);
                let changed = !lost && found is Some && found->0 != s.context;
                &&& final(self)@ == SessionModel {
                    state: if lost {
                        SessionState::Dead
                    } else {
                        s.state
                    },
                    context: if changed {
                        found->0
                    } else {
                        s.context
                    },
                    buffer: if lost {
                        t
                    } else {
                        bounded_tail(t)
                    },
                    ..s
                }
                &&& lost ==> r.0 is Some && r.0->0@ == EventView::LockConflict && r.1
                    == ReaderAction::Stop
                &&& changed ==> r.0 is Some && r.0->0@ == EventView::ContextChanged(found->0)
                    && r.1 == ReaderAction::Continue
                &&& !lost && !changed ==> r.0 is None && r.1 == ReaderAction::Continue
            }),
    {
        append_str(&mut self.line_buffer, text);
        if text_contains(&self.line_buffer, "Failed to obtain a file lock") {
            self.state = SessionState::Dead;
            return (Some(SessionEvent::LockConflict), ReaderAction::Stop);
        }
        let mut event: Option<SessionEvent> = None;
        match detect_prompt(&self.line_buffer) {
            Some(found) => {
                if !found.same_as(&self.context) {
                    self.context = found.clone();
                    event = Some(SessionEvent::ContextChanged(found));
                }
            },
            None => {},
        }
        if self.line_buffer.len() > 1024 {
            let from: usize = self.line_buffer.len() - 512;
            self.line_buffer = slice(&self.line_buffer, from, self.line_buffer.len());
        }
        (event, ReaderAction::Continue)
    }

    /// Takes the outcome of one read of the terminal and says what to emit
    /// and whether to go on reading.
    pub fn on_read(&mut self, outcome: ReadOutcome) -> (step: ReadStep)
        ensures
            final(self)@ == read_step(old(self)@, outcome@).next,
            events_view(step.events@) == read_step(old(self)@, outcome@).events,
            step.action == read_step(old(self)@, outcome@).action,
    {
        if !self.state.is_live() {
            let events: Vec<SessionEvent> = Vec::new();
            assert(events_view(events@) =~= Seq::<EventView>::empty());
            return ReadStep { events: events, action: ReaderAction::Stop };
        }
        match outcome {
            ReadOutcome::WouldBlock => {
                let events: Vec<SessionEvent> = Vec::new();
                assert(events_view(events@) =~= Seq::<EventView>::empty());
                ReadStep { events: events, action: ReaderAction::Backoff }
            },
            ReadOutcome::Eof => self.exit(),
            ReadOutcome::Failed => self.exit(),
            ReadOutcome::Data(data) => {
                if data.len() == 0 {
                    return self.exit();
                }
                let mut extra: Option<SessionEvent> = None;
                let mut action = ReaderAction::Continue;
                if self.reads_since_parse < 4 && data.len() >= 1000 {
                    self.reads_since_parse = self.reads_since_parse + 1;
                } else {
                    self.reads_since_parse = 0;
                    match utf8_text(data.as_slice()) {
                        Some(text) => {
                            let scanned = self.scan(text);
                            extra = scanned.0;
                            action = scanned.1;
                        },
                        None => {},
                    }
                }
                let ghost chunk = data@;
                let mut events: Vec<SessionEvent> = Vec::new();
                events.push(SessionEvent::Output(data));
                match extra {
                    Some(e) => {
                        events.push(e);
                        assert(events_view(events@) =~= seq![EventView::Output(chunk)].push(e@));
                    },
                    None => {
                        assert(events_view(events@) =~= seq![EventView::Output(chunk)]);
                    },
                }
                ReadStep { events: events, action: action }
            },
        }
    }
}

} // verus!
