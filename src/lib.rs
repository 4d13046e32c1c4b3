//! Client side of a matrix-computation task protocol: the wire tokens, the
//! line and binary codec, the per-connection session state machine, and the
//! plan of a benchmark batch.

pub mod tokens;
pub mod text;
pub mod codec;
pub mod session;
pub mod plan;
pub mod error;

pub use tokens::{RequestType, ResponseType, Status};
pub use codec::{Matrix, Writer, read_matrix};
pub use text::{get_response_type, parse_long, parse_field, trim_line};
pub use session::{Action, Client, Event, ExecutionResult, Failure, Outcome, Phase, Receive};
pub use plan::{plan_sessions, shutdown_client, task_client, SessionConfig};
pub use error::CustomError;
