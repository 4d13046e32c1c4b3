use vstd::prelude::*;

verus! {

/// Request kinds a client may open a message with.
#[derive(Debug, Clone, Copy, PartialEq, Eq, Structural)]
pub enum RequestType {
    PostNewTask,
    StartTask,
    GetTaskStatus,
    GetResult,
    Shutdown,
}

/// The status line of a server response.
#[derive(Debug, Clone, Copy, PartialEq, Eq, Structural)]
pub enum ResponseType {
    OK,
    BadRequest,
}

/// Server-side state of a task, as reported by a status query.
#[derive(Debug, Clone, Copy, PartialEq, Eq, Structural)]
pub enum Status {
    Waiting,
    Running,
    Done,
}

/// The literal token of a request kind.
pub open spec fn request_token(t: RequestType) -> Seq<u8> {
    match t {
        RequestType::PostNewTask => seq![80u8, 79, 83, 84, 95, 78, 69, 87, 95, 84, 65, 83, 75],
        RequestType::StartTask => seq![83u8, 84, 65, 82, 84, 95, 84, 65, 83, 75],
        RequestType::GetTaskStatus => seq![71u8, 69, 84, 95, 84, 65, 83, 75, 95, 83, 84, 65, 84, 85, 83],
        RequestType::GetResult => seq![71u8, 69, 84, 95, 82, 69, 83, 85, 76, 84],
        RequestType::Shutdown => seq![83u8, 72, 85, 84, 68, 79, 87, 78],
    }
}

/// The literal token of a response status line.
pub open spec fn response_token(t: ResponseType) -> Seq<u8> {
    match t {
        ResponseType::OK => seq![79u8, 75],
        ResponseType::BadRequest => seq![66u8, 65, 68, 95, 82, 69, 81, 85, 69, 83, 84],
    }
}

/// The literal token of a task status.
pub open spec fn status_token(s: Status) -> Seq<u8> {
    match s {
        Status::Waiting => seq![87u8, 65, 73, 84, 73, 78, 71],
        Status::Running => seq![82u8, 85, 78, 78, 73, 78, 71],
        Status::Done => seq![68u8, 79, 78, 69],
    }
}

/// The status whose token is exactly `s`, if any.
pub open spec fn status_of(s: Seq<u8>) -> Option<Status> {
    if s == status_token(Status::Done) {
        Some(Status::Done)
    } else if s == status_token(Status::Running) {
        Some(Status::Running)
    } else if s == status_token(Status::Waiting) {
        Some(Status::Waiting)
    } else {
        None
    }
}

/// Whether two byte vectors hold the same bytes.
pub fn bytes_equal(a: &[u8], b: &[u8]) -> (r: bool)
    ensures
        r == (a@ == b@),
{
    if a.len() != b.len() {
        return false;
    }
    let mut i: usize = 0;
    while i < a.len()
        invariant
            a@.len() == b@.len(),
            i <= a@.len(),
            a@.subrange(0, i as int) == b@.subrange(0, i as int),
        decreases a@.len() - i,
    {
        if a[i] != b[i] {
            assert(a@[i as int] != b@[i as int]);
            return false;
        }
        assert(a@.subrange(0, i + 1) == a@.subrange(0, i as int).push(a@[i as int]));
        assert(b@.subrange(0, i + 1) == b@.subrange(0, i as int).push(b@[i as int]));
        i = i + 1;
    }
    assert(a@ == a@.subrange(0, i as int));
    assert(b@ == b@.subrange(0, i as int));
    true
}

impl RequestType {
    /// The token that opens a request of this kind.
    pub fn token(&self) -> (r: Vec<u8>)
        ensures
            r@ == request_token(*self),
    {
        let r = match self {
            RequestType::PostNewTask => vec![80u8, 79, 83, 84, 95, 78, 69, 87, 95, 84, 65, 83, 75],
            RequestType::StartTask => vec![83u8, 84, 65, 82, 84, 95, 84, 65, 83, 75],
            RequestType::GetTaskStatus => vec![71u8, 69, 84, 95, 84, 65, 83, 75, 95, 83, 84, 65, 84, 85, 83],
            RequestType::GetResult => vec![71u8, 69, 84, 95, 82, 69, 83, 85, 76, 84],
            RequestType::Shutdown => vec![83u8, 72, 85, 84, 68, 79, 87, 78],
        };
        assert(r@ == request_token(*self));
        r
    }
}

impl ResponseType {
    /// The token of this response status.
    pub fn token(&self) -> (r: Vec<u8>)
        ensures
            r@ == response_token(*self),
    {
        let r = match self {
            ResponseType::OK => vec![79u8, 75],
            ResponseType::BadRequest => vec![66u8, 65, 68, 95, 82, 69, 81, 85, 69, 83, 84],
        };
        assert(r@ == response_token(*self));
        r
    }
}

impl Status {
    /// The token of this status.
    pub fn token(&self) -> (r: Vec<u8>)
        ensures
            r@ == status_token(*self),
    {
        let r = match self {
            Status::Waiting => vec![87u8, 65, 73, 84, 73, 78, 71],
            Status::Running => vec![82u8, 85, 78, 78, 73, 78, 71],
            Status::Done => vec![68u8, 79, 78, 69],
        };
        assert(r@ == status_token(*self));
        r
    }

    /// Reads a status token; anything but an exact token is an error.
    pub fn from_token(s: &[u8]) -> (r: Result<Status, ()>)
        ensures
            r matches Ok(st) ==> status_of(s@) == Some(st),
            r is Err ==> status_of(s@) is None,
    {
        let done = Status::Done.token();
        let running = Status::Running.token();
        let waiting = Status::Waiting.token();
        if bytes_equal(s, done.as_slice()) {
            Ok(Status::Done)
        } else if bytes_equal(s, running.as_slice()) {
            Ok(Status::Running)
        } else if bytes_equal(s, waiting.as_slice()) {
            Ok(Status::Waiting)
        } else {
            Err(())
        }
    }
}

} // verus!
