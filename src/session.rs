use vstd::prelude::*;
use crate::tokens::{request_token, response_token, status_of, RequestType, ResponseType, Status};
use crate::text::{get_response_type, int_text, field_value, parse_long, response_of, trim, trim_line};
use crate::codec::{encode_be, decode_cells, is_square, read_matrix, rows_of, Matrix, Writer};

verus! {

/// Prefix of the header that carries the matrix size.
pub open spec fn size_prefix() -> Seq<u8> {
    seq![115u8, 105, 122, 101, 58, 32]
}

/// Prefix of the header that carries the declared thread count.
pub open spec fn threads_prefix() -> Seq<u8> {
    seq![110u8, 117, 109, 98, 101, 114, 45, 111, 102, 45, 116, 104, 114, 101, 97, 100, 115, 58, 32]
}

/// Prefix of the header that carries a task id.
pub open spec fn id_prefix() -> Seq<u8> {
    seq![105u8, 100, 58, 32]
}

/// Prefix of the header that carries the execution time.
pub open spec fn time_prefix() -> Seq<u8> {
    seq![101u8, 120, 101, 99, 117, 116, 105, 111, 110, 45, 116, 105, 109, 101, 58, 32]
}

/// The bytes of the size header prefix.
pub fn size_prefix_bytes() -> (r: Vec<u8>)
    ensures
        r@ == size_prefix(),
{
    let r = vec![115u8, 105, 122, 101, 58, 32];
    assert(r@ == size_prefix());
    r
}

/// The bytes of the thread-count header prefix.
pub fn threads_prefix_bytes() -> (r: Vec<u8>)
    ensures
        r@ == threads_prefix(),
{
    let r = vec![110u8, 117, 109, 98, 101, 114, 45, 111, 102, 45, 116, 104, 114, 101, 97, 100, 115, 58, 32];
    assert(r@ == threads_prefix());
    r
}

/// The bytes of the task-id header prefix.
pub fn id_prefix_bytes() -> (r: Vec<u8>)
    ensures
        r@ == id_prefix(),
{
    let r = vec![105u8, 100, 58, 32];
    assert(r@ == id_prefix());
    r
}

/// The bytes of the execution-time header prefix.
pub fn time_prefix_bytes() -> (r: Vec<u8>)
    ensures
        r@ == time_prefix(),
{
    let r = vec![101u8, 120, 101, 99, 117, 116, 105, 111, 110, 45, 116, 105, 109, 101, 58, 32];
    assert(r@ == time_prefix());
    r
}

/// The shutdown request: its token and the empty terminator line.
pub open spec fn shutdown_message() -> Seq<u8> {
    request_token(RequestType::Shutdown) + seq![10u8] + seq![10u8]
}

/// The submit request with its thread-count and size headers.
pub open spec fn submit_message(threads: int, size: int) -> Seq<u8> {
    request_token(RequestType::PostNewTask) + seq![10u8]
        + threads_prefix() + int_text(threads) + seq![10u8]
        + size_prefix() + int_text(size) + seq![10u8]
        + seq![10u8]
}

/// A request that names a task by its id.
pub open spec fn task_message(t: RequestType, task_id: int) -> Seq<u8> {
    request_token(t) + seq![10u8] + id_prefix() + int_text(task_id) + seq![10u8] + seq![10u8]
}

/// The acknowledgement that frames a result transfer.
pub open spec fn ack_message() -> Seq<u8> {
    response_token(ResponseType::OK) + seq![10u8]
}

/// What the connection is to deliver once the outgoing bytes are written.
#[derive(Debug, Clone, Copy, PartialEq, Eq, Structural)]
pub enum Receive {
    /// Nothing: report `Event::Sent`.
    Nothing,
    /// One line, as `Event::Line`.
    Line,
    /// Exactly this many bytes, as `Event::Body`.
    Bytes(usize),
}

/// Why a session ended without a result.
#[derive(Debug, Clone, Copy, PartialEq, Eq, Structural)]
pub enum Failure {
    /// The connection failed or ended where a reply was due.
    Transport,
    /// The generated grid was not `size` by `size`.
    InvalidMatrix,
    /// The server answered a status query with BAD_REQUEST.
    StatusRejected,
    /// The status line held no known status token.
    UnknownStatus,
    /// The server refused an explicit result request.
    ResultUnavailable,
}

/// A fetched result: the grid and the execution time the server reported.
pub struct ExecutionResult {
    pub matrix: Matrix,
    pub execution_time: i64,
}

/// How a session ended.
pub enum Outcome {
    /// The shutdown request was sent; the reply line, trimmed, if one came.
    ShutdownDone(Option<Vec<u8>>),
    /// The server did not accept the task: no valid task id was assigned.
    NotAccepted,
    /// The server refused to start the task.
    StartRejected,
    Failed(Failure),
    /// The fetched result.
    Completed(ExecutionResult),
}

/// What the session asks of the connection next.
pub enum Action {
    /// Generate a `size` by `size` grid and report it as `Event::Generated`.
    Generate(usize),
    /// Write and flush these bytes (none, possibly), then receive.
    Transfer(Vec<u8>, Receive),
    /// Wait this many milliseconds, then report `Event::Resumed`.
    Pause(u64),
    /// The session is over.
    Finish(Outcome),
}

/// What the connection reports after carrying out an action.
pub enum Event {
    Generated(Vec<Vec<u64>>),
    Sent,
    /// A line as read, with its line ending; empty at the end of the input.
    Line(Vec<u8>),
    Body(Vec<u8>),
    Resumed,
    /// A read or a write failed.
    Failed,
}

pub enum OutcomeView {
    ShutdownDone(Option<Seq<u8>>),
    NotAccepted,
    StartRejected,
    Failed(Failure),
    Completed(Seq<Seq<u64>>, int),
}

pub enum ActionView {
    Generate(nat),
    Transfer(Seq<u8>, Receive),
    Pause(nat),
    Finish(OutcomeView),
}

impl Outcome {
    pub open spec fn view(&self) -> OutcomeView {
        match self {
            Outcome::ShutdownDone(r) => OutcomeView::ShutdownDone(
                match r { Some(v) => Some(v@), None => None }),
            Outcome::NotAccepted => OutcomeView::NotAccepted,
            Outcome::StartRejected => OutcomeView::StartRejected,
            Outcome::Failed(f) => OutcomeView::Failed(*f),
            Outcome::Completed(r) => OutcomeView::Completed(r.matrix@, r.execution_time as int),
        }
    }
}

impl Action {
    pub open spec fn view(&self) -> ActionView {
        match self {
            Action::Generate(n) => ActionView::Generate(*n as nat),
            Action::Transfer(b, r) => ActionView::Transfer(b@, *r),
            Action::Pause(ms) => ActionView::Pause(*ms as nat),
            Action::Finish(o) => ActionView::Finish(o@),
        }
    }
}

/// Where a session stands: what it waits for.
#[derive(Debug, Clone, Copy, PartialEq, Eq, Structural)]
pub enum Phase {
    Fresh,
    AwaitShutdownReply,
    AwaitMatrix,
    AwaitSubmitResponse,
    AwaitSubmitError,
    AwaitTaskId,
    PauseBeforeStart,
    AwaitStartResponse,
    PauseBeforePoll,
    AwaitStatusResponse,
    AwaitStatusToken,
    AwaitStatusError,
    /// `true` when the result was asked for explicitly, not after a DONE.
    AwaitResult(bool),
    AwaitResultError(bool),
    AwaitExecutionTime(bool),
    AwaitBody(bool),
    AwaitAck(bool),
    PauseAfterPoll,
    Finished,
}

/// The part of a session that its steps change.
pub struct SessionView {
    pub phase: Phase,
    pub task_id: int,
    pub payload: Seq<u8>,
    pub result: Option<Seq<Seq<u64>>>,
    pub execution_time: int,
    pub server_error: Option<Seq<u8>>,
    pub polls: nat,
    pub polls_done: nat,
}

} // verus!

verus! {

/// Builds the shutdown request.
pub fn shutdown_request() -> (r: Vec<u8>)
    ensures
        r@ == shutdown_message(),
{
    let mut w = Writer::new(Vec::new());
    w.println_request(RequestType::Shutdown);
    w.println_end();
    assert(w.out@ =~= shutdown_message());
    w.out
}

/// Builds the submit request for a grid of `size` and a declared thread count.
pub fn submit_request(threads: i32, size: i32) -> (r: Vec<u8>)
    ensures
        r@ == submit_message(threads as int, size as int),
{
    let mut w = Writer::new(Vec::new());
    w.println_request(RequestType::PostNewTask);
    let tp = threads_prefix_bytes();
    w.println_field(tp.as_slice(), threads as i64);
    let sp = size_prefix_bytes();
    w.println_field(sp.as_slice(), size as i64);
    w.println_end();
    assert(w.out@ =~= submit_message(threads as int, size as int));
    w.out
}

/// Builds a request of kind `t` naming task `task_id`.
pub fn task_request(t: RequestType, task_id: i64) -> (r: Vec<u8>)
    ensures
        r@ == task_message(t, task_id as int),
{
    let mut w = Writer::new(Vec::new());
    w.println_request(t);
    let ip = id_prefix_bytes();
    w.println_field(ip.as_slice(), task_id);
    w.println_end();
    assert(w.out@ =~= task_message(t, task_id as int));
    w.out
}

/// Builds the acknowledgement line.
pub fn ack_request() -> (r: Vec<u8>)
    ensures
        r@ == ack_message(),
{
    let mut w = Writer::new(Vec::new());
    w.println_response(ResponseType::OK);
    assert(w.out@ =~= ack_message());
    w.out
}

/// One benchmark session over one connection: its configuration and where
/// its task lifecycle stands.
pub struct Client {
    pub host: String,
    pub port: u16,
    pub size: i32,
    pub id: i32,
    pub thread_number: i32,
    pub task_id: i64,
    pub phase: Phase,
    pub payload: Vec<u8>,
    pub result: Option<Matrix>,
    pub execution_time: i64,
    /// The last error line the server sent after a BAD_REQUEST, trimmed.
    pub server_error: Option<Vec<u8>>,
    /// How many status queries to make before asking for the result anyway.
    pub polls: u32,
    pub polls_done: u32,
}

pub open spec fn finish(s: SessionView, o: OutcomeView) -> (SessionView, ActionView) {
    (SessionView { phase: Phase::Finished, ..s }, ActionView::Finish(o))
}

pub open spec fn fail(s: SessionView, f: Failure) -> (SessionView, ActionView) {
    finish(s, OutcomeView::Failed(f))
}

pub open spec fn goto(s: SessionView, p: Phase, a: ActionView) -> (SessionView, ActionView) {
    (SessionView { phase: p, ..s }, a)
}

pub open spec fn receive_line(s: SessionView, p: Phase) -> (SessionView, ActionView) {
    goto(s, p, ActionView::Transfer(Seq::empty(), Receive::Line))
}

/// The error text a session keeps after reading the line that follows a
/// BAD_REQUEST: that line trimmed, unless the input ended or failed.
pub open spec fn error_line(s: SessionView, e: Event) -> Option<Seq<u8>> {
    match e {
        Event::Line(l) => if l@.len() > 0 { Some(trim(l@)) } else { s.server_error },
        _ => s.server_error,
    }
}

/// Hands over the result held by the session, if any.
pub open spec fn complete(s: SessionView) -> (SessionView, ActionView) {
    match s.result {
        Some(m) => finish(SessionView { result: None, ..s }, OutcomeView::Completed(m, s.execution_time)),
        None => fail(s, Failure::Transport),
    }
}

/// The first action of a session: a shutdown session (size at most one)
/// sends only the shutdown request; any other starts its task by asking for
/// a grid to submit.
pub open spec fn begin(size: int, s: SessionView) -> (SessionView, ActionView) {
    if size <= 1 {
        goto(s, Phase::AwaitShutdownReply, ActionView::Transfer(shutdown_message(), Receive::Line))
    } else {
        goto(s, Phase::AwaitMatrix, ActionView::Generate(size as nat))
    }
}

/// One step of the task lifecycle: the next state and action after event `e`.
pub open spec fn next(size: int, threads: int, s: SessionView, e: Event) -> (SessionView, ActionView) {
    match s.phase {
        Phase::AwaitShutdownReply => match e {
            Event::Line(l) => finish(s, OutcomeView::ShutdownDone(
                if l@.len() > 0 { Some(trim(l@)) } else { None })),
            _ => finish(s, OutcomeView::ShutdownDone(None)),
        },
        Phase::AwaitMatrix => match e {
            Event::Generated(rows) => if size >= 0 && is_square(rows_of(rows@), size as nat) {
                (SessionView { phase: Phase::AwaitSubmitResponse, payload: encode_be(rows_of(rows@), size as nat), ..s },
                    ActionView::Transfer(submit_message(threads, size), Receive::Line))
            } else {
                fail(s, Failure::InvalidMatrix)
            },
            _ => fail(s, Failure::Transport),
        },
        Phase::AwaitSubmitResponse => match e {
            Event::Line(l) => if l@.len() > 0 && response_of(l@) == ResponseType::OK {
                (SessionView { phase: Phase::AwaitTaskId, payload: Seq::empty(), ..s },
                    ActionView::Transfer(s.payload, Receive::Line))
            } else if l@.len() > 0 {
                receive_line(SessionView { task_id: -1, ..s }, Phase::AwaitSubmitError)
            } else {
                finish(SessionView { task_id: -1, ..s }, OutcomeView::NotAccepted)
            },
            _ => finish(SessionView { task_id: -1, ..s }, OutcomeView::NotAccepted),
        },
        Phase::AwaitSubmitError => finish(SessionView { task_id: -1, server_error: error_line(s, e), ..s },
            OutcomeView::NotAccepted),
        Phase::AwaitTaskId => match e {
            Event::Line(l) => {
                let id = match field_value(l@, id_prefix()) { Some(v) => v, None => -1 };
                if id < 0 {
                    finish(SessionView { task_id: id, ..s }, OutcomeView::NotAccepted)
                } else {
                    goto(SessionView { task_id: id, ..s }, Phase::PauseBeforeStart, ActionView::Pause(2))
                }
            },
            _ => finish(SessionView { task_id: -1, ..s }, OutcomeView::NotAccepted),
        },
        Phase::PauseBeforeStart => match e {
            Event::Resumed => goto(s, Phase::AwaitStartResponse,
                ActionView::Transfer(task_message(RequestType::StartTask, s.task_id), Receive::Line)),
            _ => fail(s, Failure::Transport),
        },
        Phase::AwaitStartResponse => match e {
            Event::Line(l) => if l@.len() == 0 {
                fail(s, Failure::Transport)
            } else if response_of(l@) == ResponseType::OK {
                goto(s, Phase::PauseBeforePoll, ActionView::Pause(1))
            } else {
                finish(s, OutcomeView::StartRejected)
            },
            _ => fail(s, Failure::Transport),
        },
        Phase::PauseBeforePoll => match e {
            Event::Resumed => goto(SessionView { polls_done: 1, ..s }, Phase::AwaitStatusResponse,
                ActionView::Transfer(task_message(RequestType::GetTaskStatus, s.task_id), Receive::Line)),
            _ => fail(s, Failure::Transport),
        },
        Phase::AwaitStatusResponse => match e {
            Event::Line(l) => if l@.len() == 0 {
                fail(s, Failure::Transport)
            } else if response_of(l@) == ResponseType::OK {
                receive_line(s, Phase::AwaitStatusToken)
            } else {
                receive_line(s, Phase::AwaitStatusError)
            },
            _ => fail(s, Failure::Transport),
        },
        Phase::AwaitStatusError => fail(SessionView { server_error: error_line(s, e), ..s }, Failure::StatusRejected),
        Phase::AwaitStatusToken => match e {
            Event::Line(l) => match status_of(trim(l@)) {
                Some(Status::Done) => receive_line(s, Phase::AwaitResult(false)),
                Some(_) => goto(s, Phase::PauseAfterPoll, ActionView::Pause(1)),
                None => fail(s, Failure::UnknownStatus),
            },
            _ => fail(s, Failure::Transport),
        },
        Phase::AwaitResult(explicit) => match e {
            Event::Line(l) => if l@.len() == 0 {
                fail(s, Failure::Transport)
            } else if response_of(l@) == ResponseType::OK {
                receive_line(s, Phase::AwaitExecutionTime(explicit))
            } else {
                receive_line(s, Phase::AwaitResultError(explicit))
            },
            _ => fail(s, Failure::Transport),
        },
        Phase::AwaitResultError(explicit) => if explicit {
            fail(SessionView { server_error: error_line(s, e), ..s }, Failure::ResultUnavailable)
        } else {
            goto(SessionView { server_error: error_line(s, e), ..s }, Phase::PauseAfterPoll, ActionView::Pause(1))
        },
        Phase::AwaitExecutionTime(explicit) => match e {
            Event::Line(l) => if 0 <= size && size * size * 8 <= usize::MAX {
                let t = match field_value(l@, time_prefix()) { Some(v) => v, None => -1 };
                (SessionView { phase: Phase::AwaitBody(explicit), execution_time: t, ..s },
                    ActionView::Transfer(ack_message(), Receive::Bytes((size * size * 8) as usize)))
            } else {
                fail(s, Failure::Transport)
            },
            _ => fail(s, Failure::Transport),
        },
        Phase::AwaitBody(explicit) => match e {
            Event::Body(b) => if 0 <= size && size * size * 8 <= b@.len() {
                (SessionView { phase: Phase::AwaitAck(explicit), result: Some(decode_cells(b@, size as nat, true)), ..s },
                    ActionView::Transfer(ack_message(), Receive::Nothing))
            } else {
                fail(s, Failure::Transport)
            },
            _ => fail(s, Failure::Transport),
        },
        Phase::AwaitAck(explicit) => match e {
            Event::Sent => if explicit {
                complete(s)
            } else {
                goto(s, Phase::PauseAfterPoll, ActionView::Pause(1))
            },
            _ => fail(s, Failure::Transport),
        },
        Phase::PauseAfterPoll => match e {
            Event::Resumed => match s.result {
                Some(_) => complete(s),
                None => if s.polls_done < s.polls {
                    goto(SessionView { polls_done: s.polls_done + 1, ..s }, Phase::AwaitStatusResponse,
                        ActionView::Transfer(task_message(RequestType::GetTaskStatus, s.task_id), Receive::Line))
                } else {
                    goto(s, Phase::AwaitResult(true),
                        ActionView::Transfer(task_message(RequestType::GetResult, s.task_id), Receive::Line))
                },
            },
            _ => fail(s, Failure::Transport),
        },
        Phase::Fresh => begin(size, s),
        Phase::Finished => fail(s, Failure::Transport),
    }
}

/// A held result is a `size` by `size` grid.
pub open spec fn session_inv(size: int, s: SessionView) -> bool {
    s.result matches Some(m) ==> size >= 0 && is_square(m, size as nat)
}

} // verus!

verus! {

impl Client {
    pub open spec fn view(&self) -> SessionView {
        SessionView {
            phase: self.phase,
            task_id: self.task_id as int,
            payload: self.payload@,
            result: match self.result { Some(m) => Some(m@), None => None },
            execution_time: self.execution_time as int,
            server_error: match self.server_error { Some(v) => Some(v@), None => None },
            polls: self.polls as nat,
            polls_done: self.polls_done as nat,
        }
    }

    /// The result held by the session is a grid of its size.
    pub open spec fn inv(&self) -> bool {
        session_inv(self.size as int, self@)
            && (self.result matches Some(m) ==> m.size == self.size)
    }

    /// A session that has not yet acted.
    pub fn new(host: &str, port: u16, size: i32, id: i32, thread_number: i32, task_id: i64) -> (r: Client)
        ensures
            r.host@ == host@,
            r.port == port,
            r.size == size,
            r.id == id,
            r.thread_number == thread_number,
            r.task_id == task_id,
            r.phase == Phase::Fresh,
            r@.payload.len() == 0,
            r.result is None,
            r.execution_time == -1,
            r.server_error is None,
            r.polls == 1,
            r.polls_done == 0,
            r.inv(),
    {
        Client {
            host: host.to_owned(),
            port,
            size,
            id,
            thread_number,
            task_id,
            phase: Phase::Fresh,
            payload: Vec::new(),
            result: None,
            execution_time: -1,
            server_error: None,
            polls: 1,
            polls_done: 0,
        }
    }

    /// Whether the session has ended.
    pub fn is_finished(&self) -> (r: bool)
        ensures
            r == (self.phase == Phase::Finished),
    {
        self.phase == Phase::Finished
    }

    /// Starts the session: see `begin`.
    pub fn start(&mut self) -> (r: Action)
        requires
            old(self).phase == Phase::Fresh,
            old(self).inv(),
        ensures
            (final(self)@, r@) == begin(old(self).size as int, old(self)@),
            final(self).size == old(self).size,
            final(self).thread_number == old(self).thread_number,
            final(self).id == old(self).id,
            final(self).host == old(self).host,
            final(self).port == old(self).port,
            final(self).inv(),
    {
        if self.size <= 1 {
            self.phase = Phase::AwaitShutdownReply;
            Action::Transfer(shutdown_request(), Receive::Line)
        } else {
            self.phase = Phase::AwaitMatrix;
            Action::Generate(self.size as usize)
        }
    }

    fn finish_with(&mut self, o: Outcome) -> (r: Action)
        ensures
            final(self)@ == (SessionView { phase: Phase::Finished, ..old(self)@ }),
            r@ == ActionView::Finish(o@),
            final(self).size == old(self).size,
            final(self).thread_number == old(self).thread_number,
            final(self).id == old(self).id,
            final(self).host == old(self).host,
            final(self).port == old(self).port,
            final(self).result == old(self).result,
    {
        self.phase = Phase::Finished;
        Action::Finish(o)
    }

    fn wait_line(&mut self, p: Phase) -> (r: Action)
        ensures
            (final(self)@, r@) == receive_line(old(self)@, p),
            final(self).size == old(self).size,
            final(self).thread_number == old(self).thread_number,
            final(self).id == old(self).id,
            final(self).host == old(self).host,
            final(self).port == old(self).port,
            final(self).result == old(self).result,
    {
        self.phase = p;
        let r = Action::Transfer(Vec::new(), Receive::Line);
        assert(r@ == ActionView::Transfer(Seq::<u8>::empty(), Receive::Line));
        r
    }

    fn note_error(&mut self, e: Event)
        ensures
            final(self)@ == (SessionView { server_error: error_line(old(self)@, e), ..old(self)@ }),
            final(self).size == old(self).size,
            final(self).thread_number == old(self).thread_number,
            final(self).id == old(self).id,
            final(self).host == old(self).host,
            final(self).port == old(self).port,
            final(self).result == old(self).result,
    {
        match e {
            Event::Line(l) => if l.len() > 0 {
                self.server_error = Some(trim_line(l.as_slice()));
            },
            _ => {},
        }
    }

    /// Sets how many status queries the session makes before it asks for the
    /// result regardless of the last status.
    pub fn set_polls(&mut self, polls: u32)
        requires
            old(self).phase == Phase::Fresh,
        ensures
            final(self)@ == (SessionView { polls: polls as nat, ..old(self)@ }),
            final(self).size == old(self).size,
            final(self).thread_number == old(self).thread_number,
            final(self).id == old(self).id,
            final(self).host == old(self).host,
            final(self).port == old(self).port,
            final(self).inv() == old(self).inv(),
    {
        self.polls = polls;
    }

    fn hand_over(&mut self) -> (r: Action)
        requires
            old(self).inv(),
        ensures
            r matches Action::Finish(Outcome::Completed(er))
                ==> er.matrix.size == old(self).size && er.matrix.wf(),
            (final(self)@, r@) == complete(old(self)@),
            final(self).size == old(self).size,
            final(self).thread_number == old(self).thread_number,
            final(self).id == old(self).id,
            final(self).host == old(self).host,
            final(self).port == old(self).port,
            final(self).result is None || final(self).result == old(self).result,
    {
        match self.result.take() {
            Some(m) => {
                self.phase = Phase::Finished;
                Action::Finish(Outcome::Completed(ExecutionResult { matrix: m, execution_time: self.execution_time }))
            },
            None => self.finish_with(Outcome::Failed(Failure::Transport)),
        }
    }
}

} // verus!

verus! {

impl Client {
    /// Advances the session by one event: see `next`.
    #[verifier::rlimit(50)]
    pub fn step(&mut self, e: Event) -> (r: Action)
        requires
            old(self).phase != Phase::Finished,
            old(self).inv(),
        ensures
            (final(self)@, r@) == next(old(self).size as int, old(self).thread_number as int, old(self)@, e),
            r matches Action::Finish(Outcome::Completed(er))
                ==> er.matrix.size == old(self).size as usize && er.matrix.wf(),
            final(self).size == old(self).size,
            final(self).thread_number == old(self).thread_number,
            final(self).id == old(self).id,
            final(self).host == old(self).host,
            final(self).port == old(self).port,
            final(self).inv(),
    {
        let size = self.size;
        match self.phase {
            Phase::Fresh => self.start(),
            Phase::AwaitShutdownReply => match e {
                Event::Line(l) => if l.len() > 0 {
                    let t = trim_line(l.as_slice());
                    self.finish_with(Outcome::ShutdownDone(Some(t)))
                } else {
                    self.finish_with(Outcome::ShutdownDone(None))
                },
                _ => self.finish_with(Outcome::ShutdownDone(None)),
            },
            Phase::AwaitMatrix => match e {
                Event::Generated(rows) => {
                    let m = Matrix::from_data(rows);
                    if size >= 0 && m.size == size as usize && m.check_square() {
                        let mut w = Writer::new(Vec::new());
                        w.write_matrix(&m.data);
                        self.payload = w.out;
                        assert(self.payload@ =~= encode_be(rows_of(m.data@), size as nat));
                        self.phase = Phase::AwaitSubmitResponse;
                        Action::Transfer(submit_request(self.thread_number, size), Receive::Line)
                    } else {
                        self.finish_with(Outcome::Failed(Failure::InvalidMatrix))
                    }
                },
                _ => self.finish_with(Outcome::Failed(Failure::Transport)),
            },
            Phase::AwaitSubmitResponse => match e {
                Event::Line(l) => if l.len() > 0 && matches!(get_response_type(l.as_slice()), Some(ResponseType::OK)) {
                    let mut body: Vec<u8> = Vec::new();
                    std::mem::swap(&mut body, &mut self.payload);
                    self.phase = Phase::AwaitTaskId;
                    Action::Transfer(body, Receive::Line)
                } else if l.len() > 0 {
                    self.task_id = -1;
                    self.wait_line(Phase::AwaitSubmitError)
                } else {
                    self.task_id = -1;
                    self.finish_with(Outcome::NotAccepted)
                },
                _ => {
                    self.task_id = -1;
                    self.finish_with(Outcome::NotAccepted)
                },
            },
            Phase::AwaitSubmitError => {
                self.task_id = -1;
                self.note_error(e);
                self.finish_with(Outcome::NotAccepted)
            },
            Phase::AwaitTaskId => match e {
                Event::Line(l) => {
                    let ip = id_prefix_bytes();
                    let id = parse_long(l.as_slice(), ip.as_slice());
                    self.task_id = id;
                    if id < 0 {
                        self.finish_with(Outcome::NotAccepted)
                    } else {
                        self.phase = Phase::PauseBeforeStart;
                        Action::Pause(2)
                    }
                },
                _ => {
                    self.task_id = -1;
                    self.finish_with(Outcome::NotAccepted)
                },
            },
            Phase::PauseBeforeStart => match e {
                Event::Resumed => {
                    self.phase = Phase::AwaitStartResponse;
                    Action::Transfer(task_request(RequestType::StartTask, self.task_id), Receive::Line)
                },
                _ => self.finish_with(Outcome::Failed(Failure::Transport)),
            },
            Phase::AwaitStartResponse => match e {
                Event::Line(l) => if l.len() == 0 {
                    self.finish_with(Outcome::Failed(Failure::Transport))
                } else if matches!(get_response_type(l.as_slice()), Some(ResponseType::OK)) {
                    self.phase = Phase::PauseBeforePoll;
                    Action::Pause(1)
                } else {
                    self.finish_with(Outcome::StartRejected)
                },
                _ => self.finish_with(Outcome::Failed(Failure::Transport)),
            },
            Phase::PauseBeforePoll => match e {
                Event::Resumed => {
                    self.polls_done = 1;
                    self.phase = Phase::AwaitStatusResponse;
                    Action::Transfer(task_request(RequestType::GetTaskStatus, self.task_id), Receive::Line)
                },
                _ => self.finish_with(Outcome::Failed(Failure::Transport)),
            },
            Phase::AwaitStatusResponse => match e {
                Event::Line(l) => if l.len() == 0 {
                    self.finish_with(Outcome::Failed(Failure::Transport))
                } else if matches!(get_response_type(l.as_slice()), Some(ResponseType::OK)) {
                    self.wait_line(Phase::AwaitStatusToken)
                } else {
                    self.wait_line(Phase::AwaitStatusError)
                },
                _ => self.finish_with(Outcome::Failed(Failure::Transport)),
            },
            Phase::AwaitStatusError => {
                self.note_error(e);
                self.finish_with(Outcome::Failed(Failure::StatusRejected))
            },
            Phase::AwaitStatusToken => match e {
                Event::Line(l) => {
                    let t = trim_line(l.as_slice());
                    match Status::from_token(t.as_slice()) {
                        Ok(Status::Done) => self.wait_line(Phase::AwaitResult(false)),
                        Ok(_) => {
                            self.phase = Phase::PauseAfterPoll;
                            Action::Pause(1)
                        },
                        Err(()) => self.finish_with(Outcome::Failed(Failure::UnknownStatus)),
                    }
                },
                _ => self.finish_with(Outcome::Failed(Failure::Transport)),
            },
            Phase::AwaitResult(explicit) => match e {
                Event::Line(l) => if l.len() == 0 {
                    self.finish_with(Outcome::Failed(Failure::Transport))
                } else if matches!(get_response_type(l.as_slice()), Some(ResponseType::OK)) {
                    self.wait_line(Phase::AwaitExecutionTime(explicit))
                } else {
                    self.wait_line(Phase::AwaitResultError(explicit))
                },
                _ => self.finish_with(Outcome::Failed(Failure::Transport)),
            },
            Phase::AwaitResultError(explicit) => if explicit {
                self.note_error(e);
                self.finish_with(Outcome::Failed(Failure::ResultUnavailable))
            } else {
                self.note_error(e);
                self.phase = Phase::PauseAfterPoll;
                Action::Pause(1)
            },
            Phase::AwaitExecutionTime(explicit) => match e {
                Event::Line(l) => {
                    if size < 0 {
                        return self.finish_with(Outcome::Failed(Failure::Transport));
                    }
                    let n = size as usize;
                    let total: Option<usize> = match n.checked_mul(n) {
                        Some(n2) => n2.checked_mul(8),
                        None => None,
                    };
                    match total {
                        Some(total) => {
                            let tp = time_prefix_bytes();
                            self.execution_time = parse_long(l.as_slice(), tp.as_slice());
                            self.phase = Phase::AwaitBody(explicit);
                            Action::Transfer(ack_request(), Receive::Bytes(total))
                        },
                        None => {
                            assert(size * size * 8 >= size * size) by (nonlinear_arith);
                            self.finish_with(Outcome::Failed(Failure::Transport))
                        },
                    }
                },
                _ => self.finish_with(Outcome::Failed(Failure::Transport)),
            },
            Phase::AwaitBody(explicit) => match e {
                Event::Body(b) => if size < 0 {
                    self.finish_with(Outcome::Failed(Failure::Transport))
                } else {
                    match read_matrix(b.as_slice(), size as usize, true) {
                    Some(m) => {
                        self.result = Some(m);
                        self.phase = Phase::AwaitAck(explicit);
                        Action::Transfer(ack_request(), Receive::Nothing)
                    },
                    None => self.finish_with(Outcome::Failed(Failure::Transport)),
                    }
                },
                _ => self.finish_with(Outcome::Failed(Failure::Transport)),
            },
            Phase::AwaitAck(explicit) => match e {
                Event::Sent => if explicit {
                    self.hand_over()
                } else {
                    self.phase = Phase::PauseAfterPoll;
                    Action::Pause(1)
                },
                _ => self.finish_with(Outcome::Failed(Failure::Transport)),
            },
            Phase::PauseAfterPoll => match e {
                Event::Resumed => if self.result.is_some() {
                    self.hand_over()
                } else if self.polls_done < self.polls {
                    self.polls_done = self.polls_done + 1;
                    self.phase = Phase::AwaitStatusResponse;
                    Action::Transfer(task_request(RequestType::GetTaskStatus, self.task_id), Receive::Line)
                } else {
                    self.phase = Phase::AwaitResult(true);
                    Action::Transfer(task_request(RequestType::GetResult, self.task_id), Receive::Line)
                },
                _ => self.finish_with(Outcome::Failed(Failure::Transport)),
            },
            Phase::Finished => self.finish_with(Outcome::Failed(Failure::Transport)),
        }
    }
}

} // verus!

verus! {

/// Every step keeps a held result a `size` by `size` grid, so a session
/// that completes hands over a grid with exactly `size` rows and `size`
/// columns.
pub proof fn lemma_completed_grid_is_square(size: int, threads: int, s: SessionView, e: Event)
    requires
        session_inv(size, s),
        s.phase != Phase::Finished,
    ensures
        session_inv(size, next(size, threads, s, e).0),
        next(size, threads, s, e).1 matches ActionView::Finish(OutcomeView::Completed(m, _))
            ==> is_square(m, size as nat),
{
    match s.phase {
        Phase::AwaitBody(x) => {
            match e {
                Event::Body(b) => {
                    if 0 <= size && size * size * 8 <= b@.len() {
                        let d = decode_cells(b@, size as nat, true);
                        assert forall|i: int| 0 <= i < size implies (#[trigger] d[i]).len() == size by {}
                    }
                },
                _ => {},
            }
        },
        _ => {},
    }
}

/// A BAD_REQUEST answer to a submit gives a negative task id; the session
/// then only reads the error line and ends, whatever that read brings, so it
/// never sends a start or a status request.
pub proof fn lemma_rejected_submit_ends(size: int, threads: int, s: SessionView, l: Vec<u8>, e: Event)
    requires
        s.phase == Phase::AwaitSubmitResponse,
        l@.len() > 0,
        response_of(l@) == ResponseType::BadRequest,
    ensures
        next(size, threads, s, Event::Line(l)).1 == ActionView::Transfer(Seq::<u8>::empty(), Receive::Line),
        next(size, threads, s, Event::Line(l)).0.task_id < 0,
        next(size, threads, next(size, threads, s, Event::Line(l)).0, e).0.phase == Phase::Finished,
        next(size, threads, next(size, threads, s, Event::Line(l)).0, e).0.task_id < 0,
        next(size, threads, next(size, threads, s, Event::Line(l)).0, e).1
            == ActionView::Finish(OutcomeView::NotAccepted),
{
}

/// A status line that holds no known status token ends the session with a
/// failure; it is never taken for WAITING.
pub proof fn lemma_unknown_status_fails(size: int, threads: int, s: SessionView, l: Vec<u8>)
    requires
        s.phase == Phase::AwaitStatusToken,
        status_of(trim(l@)) is None,
    ensures
        next(size, threads, s, Event::Line(l)).0.phase == Phase::Finished,
        next(size, threads, s, Event::Line(l)).1 == ActionView::Finish(OutcomeView::Failed(Failure::UnknownStatus)),
{
}

/// A session of size at most one skips the task lifecycle: it sends exactly
/// the `SHUTDOWN` token and the empty terminator line, and ends on whatever
/// comes back, keeping the reply as trimmed text without classifying it.
pub proof fn lemma_shutdown_session(size: int, threads: int, s: SessionView, e: Event)
    requires
        size <= 1,
        s.phase == Phase::Fresh,
    ensures
        begin(size, s).1 == ActionView::Transfer(
            seq![83u8, 72, 85, 84, 68, 79, 87, 78, 10, 10], Receive::Line),
        next(size, threads, begin(size, s).0, e).0.phase == Phase::Finished,
        next(size, threads, begin(size, s).0, e).1 == ActionView::Finish(OutcomeView::ShutdownDone(
            match e {
                Event::Line(l) => if l@.len() > 0 { Some(trim(l@)) } else { None },
                _ => None,
            })),
{
    assert(shutdown_message() =~= seq![83u8, 72, 85, 84, 68, 79, 87, 78, 10, 10]);
}

} // verus!
