use vstd::prelude::*;
use crate::protocol::{BackendMessage, Column, DbError, Error};

verus! {

/// The kinds of operation that a connection runs.
#[derive(Clone, Copy, Debug, PartialEq, Eq, Structural)]
pub enum OpKind {
    Prepare,
    Execute,
    Query,
    Bind,
    QueryPortal,
    CopyIn,
    CopyOut,
    BatchExecute,
}

/// How far the server's reply to an operation has come.
#[derive(Debug, PartialEq, Eq)]
pub enum Stage {
    /// Nothing of the reply has arrived yet.
    Sent,
    /// The statement was parsed.
    Parsed,
    /// The statement's parameter types are known.
    Described(Vec<u32>),
    /// The unnamed portal was bound.
    Bound,
    /// The server waits for copy data.
    CopyIn,
    /// The server sends copy data.
    CopyOut,
    /// The server has sent all copy data.
    CopyOutDone,
    /// The operation's result was delivered; the server's ReadyForQuery is awaited.
    Done,
}

/// What a successful operation produced.
#[derive(Debug, PartialEq, Eq)]
pub enum Outcome {
    /// A prepared statement's parameter types and result columns.
    Statement { params: Vec<u32>, columns: Vec<Column> },
    /// The number of rows that the command affected.
    RowsAffected(u64),
    /// The portal was bound.
    Portal,
    /// The portal has more rows than were asked for.
    Suspended,
    /// The portal has no more rows.
    Exhausted,
    /// The command completed.
    Done,
}

/// An item of a stream of results.
#[derive(Debug, PartialEq, Eq)]
pub enum Item {
    /// A row's column values, `None` for SQL NULL.
    Row(Vec<Option<Vec<u8>>>),
    /// A chunk of COPY data.
    Chunk(Vec<u8>),
}

/// What the operation at the head of the queue does with a message.
#[derive(Debug)]
pub enum Reaction {
    /// Moves to the given stage, and delivers nothing. An error that the server reports
    /// after the operation's result was delivered changes nothing: it stays local to
    /// that operation, whose outcome is already fixed.
    Advance(Stage),
    /// Stays in the given stage, and delivers a stream item.
    Emit(Stage, Item),
    /// Delivers the operation's result, and waits for ReadyForQuery.
    Complete(Result<Outcome, Error>),
    /// Leaves the queue; its result was delivered before.
    Finish,
    /// Delivers the operation's result and leaves the queue.
    CompleteAndFinish(Result<Outcome, Error>),
    /// The message does not fit: the connection is broken.
    Violation,
}

/// The reply protocol of each kind of operation. `width` is the number of columns of the
/// rows that a Query or QueryPortal expects; a row of another width breaks the protocol.
pub open spec fn reaction(kind: OpKind, stage: Stage, width: usize, msg: BackendMessage) -> Reaction {
    match msg {
        BackendMessage::ErrorResponse(e) => {
            if stage is Done {
                Reaction::Advance(Stage::Done)
            } else {
                Reaction::Complete(Err(Error::Db(e)))
            }
        },
        BackendMessage::ReadyForQuery => {
            if stage is Done {
                Reaction::Finish
            } else if kind == OpKind::BatchExecute && stage is Sent {
                Reaction::CompleteAndFinish(Ok(Outcome::Done))
            } else {
                Reaction::Violation
            }
        },
        BackendMessage::ParseComplete => {
            if kind == OpKind::Prepare && stage is Sent {
                Reaction::Advance(Stage::Parsed)
            } else {
                Reaction::Violation
            }
        },
        BackendMessage::ParameterDescription(p) => {
            if kind == OpKind::Prepare && stage is Parsed {
                Reaction::Advance(Stage::Described(p))
            } else {
                Reaction::Violation
            }
        },
        BackendMessage::RowDescription(c) => {
            match stage {
                Stage::Described(p) => {
                    if kind == OpKind::Prepare {
                        Reaction::Complete(Ok(Outcome::Statement { params: p, columns: c }))
                    } else {
                        Reaction::Violation
                    }
                },
                Stage::Sent => {
                    if kind == OpKind::BatchExecute {
                        Reaction::Advance(Stage::Sent)
                    } else {
                        Reaction::Violation
                    }
                },
                _ => Reaction::Violation,
            }
        },
        BackendMessage::BindComplete => {
            if !(stage is Sent) {
                Reaction::Violation
            } else if kind == OpKind::Bind {
                Reaction::Complete(Ok(Outcome::Portal))
            } else if kind == OpKind::Execute || kind == OpKind::Query || kind == OpKind::CopyIn
                || kind == OpKind::CopyOut {
                Reaction::Advance(Stage::Bound)
            } else {
                Reaction::Violation
            }
        },
        BackendMessage::DataRow(r) => {
            if (kind == OpKind::Query || kind == OpKind::QueryPortal) && r@.len() != width {
                Reaction::Violation
            } else if kind == OpKind::Query && stage is Bound {
                Reaction::Emit(Stage::Bound, Item::Row(r))
            } else if kind == OpKind::QueryPortal && stage is Sent {
                Reaction::Emit(Stage::Sent, Item::Row(r))
            } else if kind == OpKind::Execute && stage is Bound {
                Reaction::Advance(Stage::Bound)
            } else if kind == OpKind::BatchExecute && stage is Sent {
                Reaction::Advance(Stage::Sent)
            } else {
                Reaction::Violation
            }
        },
        BackendMessage::CommandComplete(n) => {
            if kind == OpKind::Execute && stage is Bound {
                Reaction::Complete(Ok(Outcome::RowsAffected(n)))
            } else if kind == OpKind::Query && stage is Bound {
                Reaction::Complete(Ok(Outcome::Done))
            } else if kind == OpKind::QueryPortal && stage is Sent {
                Reaction::Complete(Ok(Outcome::Exhausted))
            } else if kind == OpKind::CopyIn && stage is CopyIn {
                Reaction::Complete(Ok(Outcome::RowsAffected(n)))
            } else if kind == OpKind::CopyOut && stage is CopyOutDone {
                Reaction::Complete(Ok(Outcome::Done))
            } else if kind == OpKind::BatchExecute && stage is Sent {
                Reaction::Advance(Stage::Sent)
            } else {
                Reaction::Violation
            }
        },
        BackendMessage::EmptyQueryResponse => {
            if kind == OpKind::Execute && stage is Bound {
                Reaction::Complete(Ok(Outcome::RowsAffected(0)))
            } else if kind == OpKind::Query && stage is Bound {
                Reaction::Complete(Ok(Outcome::Done))
            } else if kind == OpKind::BatchExecute && stage is Sent {
                Reaction::Advance(Stage::Sent)
            } else {
                Reaction::Violation
            }
        },
        BackendMessage::PortalSuspended => {
            if kind == OpKind::QueryPortal && stage is Sent {
                Reaction::Complete(Ok(Outcome::Suspended))
            } else {
                Reaction::Violation
            }
        },
        BackendMessage::CopyInResponse => {
            if kind == OpKind::CopyIn && stage is Bound {
                Reaction::Advance(Stage::CopyIn)
            } else {
                Reaction::Violation
            }
        },
        BackendMessage::CopyOutResponse => {
            if kind == OpKind::CopyOut && stage is Bound {
                Reaction::Advance(Stage::CopyOut)
            } else {
                Reaction::Violation
            }
        },
        BackendMessage::CopyData(d) => {
            if kind == OpKind::CopyOut && stage is CopyOut {
                Reaction::Emit(Stage::CopyOut, Item::Chunk(d))
            } else {
                Reaction::Violation
            }
        },
        BackendMessage::CopyDone => {
            if kind == OpKind::CopyOut && stage is CopyOut {
                Reaction::Advance(Stage::CopyOutDone)
            } else {
                Reaction::Violation
            }
        },
        _ => Reaction::Violation,
    }
}

fn is_sent(stage: &Stage) -> (r: bool)
    ensures
        r == (*stage is Sent),
{
    match stage {
        Stage::Sent => true,
        _ => false,
    }
}

fn is_bound(stage: &Stage) -> (r: bool)
    ensures
        r == (*stage is Bound),
{
    match stage {
        Stage::Bound => true,
        _ => false,
    }
}

/// Advances the operation at the head of the queue by one message of its reply.
pub fn react(kind: OpKind, stage: Stage, width: usize, msg: BackendMessage) -> (r: Reaction)
    ensures
        r == reaction(kind, stage, width, msg),
{
    match msg {
        BackendMessage::ErrorResponse(e) => match stage {
            Stage::Done => Reaction::Advance(Stage::Done),
            _ => Reaction::Complete(Err(Error::Db(e))),
        },
        BackendMessage::ReadyForQuery => match stage {
            Stage::Done => Reaction::Finish,
            Stage::Sent => {
                if kind == OpKind::BatchExecute {
                    Reaction::CompleteAndFinish(Ok(Outcome::Done))
                } else {
                    Reaction::Violation
                }
            },
            _ => Reaction::Violation,
        },
        BackendMessage::ParseComplete => {
            if kind == OpKind::Prepare && is_sent(&stage) {
                Reaction::Advance(Stage::Parsed)
            } else {
                Reaction::Violation
            }
        },
        BackendMessage::ParameterDescription(p) => match stage {
            Stage::Parsed => {
                if kind == OpKind::Prepare {
                    Reaction::Advance(Stage::Described(p))
                } else {
                    Reaction::Violation
                }
            },
            _ => Reaction::Violation,
        },
        BackendMessage::RowDescription(c) => match stage {
            Stage::Described(p) => {
                if kind == OpKind::Prepare {
                    Reaction::Complete(Ok(Outcome::Statement { params: p, columns: c }))
                } else {
                    Reaction::Violation
                }
            },
            Stage::Sent => {
                if kind == OpKind::BatchExecute {
                    Reaction::Advance(Stage::Sent)
                } else {
                    Reaction::Violation
                }
            },
            _ => Reaction::Violation,
        },
        BackendMessage::BindComplete => {
            if !is_sent(&stage) {
                Reaction::Violation
            } else if kind == OpKind::Bind {
                Reaction::Complete(Ok(Outcome::Portal))
            } else if kind == OpKind::Execute || kind == OpKind::Query || kind == OpKind::CopyIn
                || kind == OpKind::CopyOut {
                Reaction::Advance(Stage::Bound)
            } else {
                Reaction::Violation
            }
        },
        BackendMessage::DataRow(r) => {
            if (kind == OpKind::Query || kind == OpKind::QueryPortal) && r.len() != width {
                Reaction::Violation
            } else if kind == OpKind::Query && is_bound(&stage) {
                Reaction::Emit(Stage::Bound, Item::Row(r))
            } else if kind == OpKind::QueryPortal && is_sent(&stage) {
                Reaction::Emit(Stage::Sent, Item::Row(r))
            } else if kind == OpKind::Execute && is_bound(&stage) {
                Reaction::Advance(Stage::Bound)
            } else if kind == OpKind::BatchExecute && is_sent(&stage) {
                Reaction::Advance(Stage::Sent)
            } else {
                Reaction::Violation
            }
        },
        BackendMessage::CommandComplete(n) => {
            let copy_in = match stage {
                Stage::CopyIn => true,
                _ => false,
            };
            let copy_out_done = match stage {
                Stage::CopyOutDone => true,
                _ => false,
            };
            if kind == OpKind::Execute && is_bound(&stage) {
                Reaction::Complete(Ok(Outcome::RowsAffected(n)))
            } else if kind == OpKind::Query && is_bound(&stage) {
                Reaction::Complete(Ok(Outcome::Done))
            } else if kind == OpKind::QueryPortal && is_sent(&stage) {
                Reaction::Complete(Ok(Outcome::Exhausted))
            } else if kind == OpKind::CopyIn && copy_in {
                Reaction::Complete(Ok(Outcome::RowsAffected(n)))
            } else if kind == OpKind::CopyOut && copy_out_done {
                Reaction::Complete(Ok(Outcome::Done))
            } else if kind == OpKind::BatchExecute && is_sent(&stage) {
                Reaction::Advance(Stage::Sent)
            } else {
                Reaction::Violation
            }
        },
        BackendMessage::EmptyQueryResponse => {
            if kind == OpKind::Execute && is_bound(&stage) {
                Reaction::Complete(Ok(Outcome::RowsAffected(0)))
            } else if kind == OpKind::Query && is_bound(&stage) {
                Reaction::Complete(Ok(Outcome::Done))
            } else if kind == OpKind::BatchExecute && is_sent(&stage) {
                Reaction::Advance(Stage::Sent)
            } else {
                Reaction::Violation
            }
        },
        BackendMessage::PortalSuspended => {
            if kind == OpKind::QueryPortal && is_sent(&stage) {
                Reaction::Complete(Ok(Outcome::Suspended))
            } else {
                Reaction::Violation
            }
        },
        BackendMessage::CopyInResponse => {
            if kind == OpKind::CopyIn && is_bound(&stage) {
                Reaction::Advance(Stage::CopyIn)
            } else {
                Reaction::Violation
            }
        },
        BackendMessage::CopyOutResponse => {
            if kind == OpKind::CopyOut && is_bound(&stage) {
                Reaction::Advance(Stage::CopyOut)
            } else {
                Reaction::Violation
            }
        },
        BackendMessage::CopyData(d) => match stage {
            Stage::CopyOut => {
                if kind == OpKind::CopyOut {
                    Reaction::Emit(Stage::CopyOut, Item::Chunk(d))
                } else {
                    Reaction::Violation
                }
            },
            _ => Reaction::Violation,
        },
        BackendMessage::CopyDone => match stage {
            Stage::CopyOut => {
                if kind == OpKind::CopyOut {
                    Reaction::Advance(Stage::CopyOutDone)
                } else {
                    Reaction::Violation
                }
            },
            _ => Reaction::Violation,
        },
        _ => Reaction::Violation,
    }
}

} // verus!
