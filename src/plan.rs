use vstd::prelude::*;
use crate::session::Client;

verus! {

/// What one task session of a benchmark batch runs with.
#[derive(Debug, Clone, Copy, PartialEq, Eq, Structural)]
pub struct SessionConfig {
    pub size: i32,
    pub id: i32,
    pub thread_number: i32,
}

/// Entry `k` of the batch over `threads` x `sizes`: thread counts in the
/// outer order, sizes in the inner, correlation ids counting up from one.
pub open spec fn grid_entry(threads: Seq<i32>, sizes: Seq<i32>, k: int) -> SessionConfig {
    SessionConfig {
        size: sizes[k % sizes.len() as int],
        id: (k + 1) as i32,
        thread_number: threads[k / sizes.len() as int],
    }
}

/// The task sessions of one batch: one per pair of a thread count and a
/// size, each with its own correlation id, ids strictly increasing.
pub fn plan_sessions(thread_numbers: &Vec<i32>, sizes: &Vec<i32>) -> (r: Vec<SessionConfig>)
    requires
        thread_numbers@.len() * sizes@.len() <= i32::MAX,
    ensures
        r@.len() == thread_numbers@.len() * sizes@.len(),
        forall|k: int| 0 <= k < r@.len() ==> #[trigger] r@[k] == grid_entry(thread_numbers@, sizes@, k),
        forall|j: int, k: int| 0 <= j < k < r@.len() ==> r@[j].id < r@[k].id,
{
    let mut r: Vec<SessionConfig> = Vec::new();
    let s = sizes.len();
    let mut counter: i32 = 0;
    let mut t: usize = 0;
    while t < thread_numbers.len()
        invariant
            s == sizes@.len(),
            t <= thread_numbers@.len(),
            thread_numbers@.len() * s <= i32::MAX,
            r@.len() == t * s,
            counter == t * s,
            forall|k: int| 0 <= k < r@.len() ==> #[trigger] r@[k] == grid_entry(thread_numbers@, sizes@, k),
        decreases thread_numbers@.len() - t,
    {
        let mut j: usize = 0;
        while j < s
            invariant
                s == sizes@.len(),
                t < thread_numbers@.len(),
                j <= s,
                thread_numbers@.len() * s <= i32::MAX,
                r@.len() == t * s + j,
                counter == t * s + j,
                forall|k: int| 0 <= k < r@.len() ==> #[trigger] r@[k] == grid_entry(thread_numbers@, sizes@, k),
            decreases s - j,
        {
            proof {
                assert(t * s + j + 1 <= thread_numbers@.len() * s) by (nonlinear_arith)
                    requires t < thread_numbers@.len(), j < s;
                let k = t * s + j;
                vstd::arithmetic::div_mod::lemma_fundamental_div_mod_converse(k, s as int, t as int, j as int);
            }
            counter = counter + 1;
            r.push(SessionConfig { size: sizes[j], id: counter, thread_number: thread_numbers[t] });
            j = j + 1;
        }
        proof {
            assert(t * s + s == (t + 1) * s) by (nonlinear_arith);
        }
        t = t + 1;
    }
    r
}

/// The session that ends a run: size, correlation id, thread count and task
/// id all at the sentinel `-1`, so it only asks the server to shut down.
pub fn shutdown_client(host: &str, port: u16) -> (r: Client)
    ensures
        r.host@ == host@,
        r.port == port,
        r.size == -1,
        r.id == -1,
        r.thread_number == -1,
        r.task_id == -1,
        r.phase == crate::session::Phase::Fresh,
        r.inv(),
{
    Client::new(host, port, -1, -1, -1, -1)
}

/// The session for one entry of a batch, with no task id yet.
pub fn task_client(host: &str, port: u16, c: SessionConfig) -> (r: Client)
    ensures
        r.host@ == host@,
        r.port == port,
        r.size == c.size,
        r.id == c.id,
        r.thread_number == c.thread_number,
        r.task_id == -1,
        r.phase == crate::session::Phase::Fresh,
        r.inv(),
{
    Client::new(host, port, c.size, c.id, c.thread_number, -1)
}

} // verus!
