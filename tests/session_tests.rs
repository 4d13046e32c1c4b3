use matrix_client::{plan_sessions, shutdown_client, task_client, Action, Client, CustomError, Event};
use matrix_client::{Failure, Outcome, Phase, Receive, SessionConfig};

fn expect_transfer(a: Action) -> (Vec<u8>, Receive) {
    match a {
        Action::Transfer(b, r) => (b, r),
        _ => panic!("expected a transfer"),
    }
}

fn line(s: &str) -> Event {
    Event::Line(s.as_bytes().to_vec())
}

fn grid(size: usize) -> Vec<Vec<u64>> {
    (0..size).map(|i| (0..size).map(|j| ((i * size + j) as f64).to_bits()).collect()).collect()
}

fn start_task(size: i32, threads: i32) -> Client {
    let mut c = Client::new("localhost", 1234, size, 1, threads, -1);
    match c.start() {
        Action::Generate(n) => assert_eq!(n, size as usize),
        _ => panic!("expected generation"),
    }
    c
}

#[test]
fn full_lifecycle_with_done_status() {
    let mut c = start_task(4, 2);
    let cells = grid(4);
    let (req, recv) = expect_transfer(c.step(Event::Generated(cells.clone())));
    assert_eq!(req, b"POST_NEW_TASK\nnumber-of-threads: 2\nsize: 4\n\n".to_vec());
    assert_eq!(recv, Receive::Line);
    let (body, recv) = expect_transfer(c.step(line("OK\n")));
    assert_eq!(body.len(), 4 * 4 * 8);
    assert_eq!(&body[8..16], &1.0f64.to_be_bytes());
    assert_eq!(recv, Receive::Line);
    assert!(matches!(c.step(line("id: 7\n")), Action::Pause(2)));
    assert_eq!(c.task_id, 7);
    let (req, _) = expect_transfer(c.step(Event::Resumed));
    assert_eq!(req, b"START_TASK\nid: 7\n\n".to_vec());
    assert!(matches!(c.step(line("OK\n")), Action::Pause(1)));
    let (req, _) = expect_transfer(c.step(Event::Resumed));
    assert_eq!(req, b"GET_TASK_STATUS\nid: 7\n\n".to_vec());
    let (req, _) = expect_transfer(c.step(line("OK\n")));
    assert!(req.is_empty());
    let (req, _) = expect_transfer(c.step(line("DONE\n")));
    assert!(req.is_empty());
    let (req, _) = expect_transfer(c.step(line("OK\n")));
    assert!(req.is_empty());
    let (ack, recv) = expect_transfer(c.step(line("execution-time: 15\n")));
    assert_eq!(ack, b"OK\n".to_vec());
    assert_eq!(recv, Receive::Bytes(128));
    let mut fixture = Vec::new();
    for k in 0..16 {
        fixture.extend_from_slice(&(k as f64 * 0.5).to_le_bytes());
    }
    let (ack, recv) = expect_transfer(c.step(Event::Body(fixture)));
    assert_eq!(ack, b"OK\n".to_vec());
    assert_eq!(recv, Receive::Nothing);
    assert!(matches!(c.step(Event::Sent), Action::Pause(1)));
    match c.step(Event::Resumed) {
        Action::Finish(Outcome::Completed(r)) => {
            let m = r.matrix;
            assert_eq!(r.execution_time, 15);
            assert_eq!(m.size, 4);
            assert_eq!(m.data.len(), 4);
            for (i, row) in m.data.iter().enumerate() {
                assert_eq!(row.len(), 4);
                for (j, cell) in row.iter().enumerate() {
                    assert_eq!(f64::from_bits(*cell), (i * 4 + j) as f64 * 0.5);
                }
            }
        }
        _ => panic!("expected a result"),
    }
    assert!(c.is_finished());
}

#[test]
fn unready_result_is_requested_explicitly() {
    let mut c = start_task(2, 8);
    c.step(Event::Generated(grid(2)));
    c.step(line("OK\n"));
    c.step(line("id: 3\n"));
    c.step(Event::Resumed);
    c.step(line("OK\n"));
    c.step(Event::Resumed);
    c.step(line("OK\n"));
    assert!(matches!(c.step(line("RUNNING\n")), Action::Pause(1)));
    let (req, _) = expect_transfer(c.step(Event::Resumed));
    assert_eq!(req, b"GET_RESULT\nid: 3\n\n".to_vec());
    c.step(line("OK\n"));
    let (_, recv) = expect_transfer(c.step(line("execution-time: 4\n")));
    assert_eq!(recv, Receive::Bytes(32));
    c.step(Event::Body(vec![0u8; 32]));
    match c.step(Event::Sent) {
        Action::Finish(Outcome::Completed(r)) => {
            assert_eq!(r.execution_time, 4);
            assert_eq!(r.matrix.data, vec![vec![0, 0], vec![0, 0]]);
        }
        _ => panic!("expected a result"),
    }
}

#[test]
fn refused_explicit_result_fails() {
    let mut c = start_task(2, 1);
    c.step(Event::Generated(grid(2)));
    c.step(line("OK\n"));
    c.step(line("id: 0\n"));
    c.step(Event::Resumed);
    c.step(line("OK\n"));
    c.step(Event::Resumed);
    c.step(line("OK\n"));
    c.step(line("WAITING\n"));
    c.step(Event::Resumed);
    c.step(line("BAD_REQUEST\n"));
    assert!(matches!(
        c.step(line("no such task\n")),
        Action::Finish(Outcome::Failed(Failure::ResultUnavailable))
    ));
    assert_eq!(c.server_error, Some(b"no such task".to_vec()));
}

#[test]
fn second_poll_sees_done() {
    let mut c = Client::new("localhost", 1234, 2, 5, 4, -1);
    c.set_polls(2);
    c.start();
    c.step(Event::Generated(grid(2)));
    c.step(line("OK\n"));
    c.step(line("id: 11\n"));
    c.step(Event::Resumed);
    c.step(line("OK\n"));
    c.step(Event::Resumed);
    c.step(line("OK\n"));
    c.step(line("WAITING\n"));
    let (req, _) = expect_transfer(c.step(Event::Resumed));
    assert_eq!(req, b"GET_TASK_STATUS\nid: 11\n\n".to_vec());
    assert_eq!(c.polls_done, 2);
    c.step(line("OK\n"));
    c.step(line("DONE\n"));
    c.step(line("OK\n"));
    c.step(line("execution-time: 1\n"));
    c.step(Event::Body(vec![0u8; 32]));
    assert!(matches!(c.step(Event::Sent), Action::Pause(1)));
    match c.step(Event::Resumed) {
        Action::Finish(Outcome::Completed(r)) => assert_eq!(r.execution_time, 1),
        _ => panic!("expected a result"),
    }
}

#[test]
fn rejected_submit_never_starts() {
    let mut c = start_task(4, 2);
    c.step(Event::Generated(grid(4)));
    let (req, recv) = expect_transfer(c.step(line("BAD_REQUEST\n")));
    assert!(req.is_empty());
    assert_eq!(recv, Receive::Line);
    assert!(c.task_id < 0);
    assert!(matches!(c.step(line("too big\n")), Action::Finish(Outcome::NotAccepted)));
    assert!(c.task_id < 0);
    assert_eq!(c.server_error, Some(b"too big".to_vec()));
    assert!(c.is_finished());
}

#[test]
fn malformed_task_id_is_not_accepted() {
    let mut c = start_task(3, 2);
    c.step(Event::Generated(grid(3)));
    c.step(line("OK\n"));
    assert!(matches!(c.step(line("id: seven\n")), Action::Finish(Outcome::NotAccepted)));
    assert_eq!(c.task_id, -1);
}

#[test]
fn start_reply_with_unicode_space_is_accepted() {
    let mut c = start_task(2, 2);
    c.step(Event::Generated(grid(2)));
    c.step(line("OK\n"));
    c.step(line("id: 1\n"));
    c.step(Event::Resumed);
    assert!(matches!(c.step(line("OK\u{a0}\n")), Action::Pause(1)));
}

#[test]
fn rejected_start_ends_session() {
    let mut c = start_task(2, 2);
    c.step(Event::Generated(grid(2)));
    c.step(line("OK\n"));
    c.step(line("id: 1\n"));
    c.step(Event::Resumed);
    assert!(matches!(c.step(line("BAD_REQUEST\n")), Action::Finish(Outcome::StartRejected)));
}

#[test]
fn unknown_status_token_fails() {
    let mut c = start_task(2, 2);
    c.step(Event::Generated(grid(2)));
    c.step(line("OK\n"));
    c.step(line("id: 1\n"));
    c.step(Event::Resumed);
    c.step(line("OK\n"));
    c.step(Event::Resumed);
    c.step(line("OK\n"));
    assert!(matches!(
        c.step(line("SLEEPING\n")),
        Action::Finish(Outcome::Failed(Failure::UnknownStatus))
    ));
}

#[test]
fn rejected_status_query_fails() {
    let mut c = start_task(2, 2);
    c.step(Event::Generated(grid(2)));
    c.step(line("OK\n"));
    c.step(line("id: 1\n"));
    c.step(Event::Resumed);
    c.step(line("OK\n"));
    c.step(Event::Resumed);
    c.step(line("BAD_REQUEST\n"));
    assert!(matches!(
        c.step(line("invalid id\n")),
        Action::Finish(Outcome::Failed(Failure::StatusRejected))
    ));
}

#[test]
fn transport_failure_is_contained() {
    let mut c = start_task(2, 2);
    c.step(Event::Generated(grid(2)));
    c.step(line("OK\n"));
    c.step(line("id: 1\n"));
    c.step(Event::Resumed);
    assert!(matches!(c.step(Event::Failed), Action::Finish(Outcome::Failed(Failure::Transport))));
    let mut d = start_task(2, 2);
    d.step(Event::Generated(grid(2)));
    assert!(matches!(d.step(line("")), Action::Finish(Outcome::NotAccepted)));
}

#[test]
fn wrong_grid_is_refused() {
    let mut c = start_task(3, 2);
    assert!(matches!(
        c.step(Event::Generated(grid(2))),
        Action::Finish(Outcome::Failed(Failure::InvalidMatrix))
    ));
}

#[test]
fn small_size_only_shuts_down() {
    for size in [1, 0, -1] {
        let mut c = Client::new("localhost", 1234, size, -1, -1, -1);
        let (req, recv) = expect_transfer(c.start());
        assert_eq!(req, b"SHUTDOWN\n\n".to_vec());
        assert_eq!(recv, Receive::Line);
        assert_eq!(c.phase, Phase::AwaitShutdownReply);
        match c.step(line("BAD_REQUEST\n")) {
            Action::Finish(Outcome::ShutdownDone(Some(reply))) => assert_eq!(reply, b"BAD_REQUEST".to_vec()),
            _ => panic!("expected the shutdown to end the session"),
        }
    }
    let mut k = shutdown_client("h", 9);
    assert_eq!(k.size, -1);
    k.start();
    assert!(matches!(k.step(line("")), Action::Finish(Outcome::ShutdownDone(None))));
}

#[test]
fn batch_plan_covers_the_grid() {
    let plan = plan_sessions(&vec![256, 1, 8], &vec![4096, 2048]);
    assert_eq!(plan.len(), 6);
    assert_eq!(plan[0], SessionConfig { size: 4096, id: 1, thread_number: 256 });
    assert_eq!(plan[1], SessionConfig { size: 2048, id: 2, thread_number: 256 });
    assert_eq!(plan[2], SessionConfig { size: 4096, id: 3, thread_number: 1 });
    assert_eq!(plan[5], SessionConfig { size: 2048, id: 6, thread_number: 8 });
    for w in plan.windows(2) {
        assert!(w[0].id < w[1].id);
    }
    assert!(plan_sessions(&vec![], &vec![1, 2]).is_empty());
    let c = task_client("localhost", 1234, plan[3]);
    assert_eq!((c.size, c.id, c.thread_number, c.task_id), (2048, 4, 1, -1));
}

#[test]
fn custom_error_keeps_message() {
    assert_eq!(CustomError::new("get_status error").message, "get_status error");
}
