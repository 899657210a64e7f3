use vstd::prelude::*;
use crate::protocol::Error;

verus! {

/// The statements with which a transaction is bracketed.
#[derive(Clone, Copy, Debug, PartialEq, Eq, Structural)]
pub enum TxCommand {
    Begin,
    Commit,
    Rollback,
}

impl TxCommand {
    /// The SQL text of the command.
    pub fn sql(&self) -> (r: &'static str)
        ensures
            *self == TxCommand::Begin ==> r@ == "BEGIN"@,
            *self == TxCommand::Commit ==> r@ == "COMMIT"@,
            *self == TxCommand::Rollback ==> r@ == "ROLLBACK"@,
    {
        match self {
            TxCommand::Begin => "BEGIN",
            TxCommand::Commit => "COMMIT",
            TxCommand::Rollback => "ROLLBACK",
        }
    }
}

/// The error of a transaction: that of the inner computation, or that of a bracketing
/// statement.
#[derive(Debug, PartialEq, Eq)]
pub enum TransactionError<E> {
    Inner(E),
    Client(Error),
}

/// Where a transaction stands.
#[derive(Debug)]
pub enum TxState<T, E> {
    NotStarted,
    BeginSent,
    RunningInner,
    /// COMMIT was sent after the inner computation produced this value.
    CommitSent(T),
    /// ROLLBACK was sent after the inner computation failed with this error.
    RollbackSent(E),
    Done,
}

/// What happened since the transaction was last driven.
#[derive(Debug)]
pub enum TxEvent<T, E> {
    /// The transaction is driven for the first time.
    Start,
    /// The last bracketing statement completed.
    BatchDone(Result<(), Error>),
    /// The inner computation completed.
    InnerDone(Result<T, E>),
}

/// What the transaction asks its driver to do next.
#[derive(Debug, PartialEq, Eq)]
pub enum TxAction<T, E> {
    /// Issue this statement, and report its completion.
    Send(TxCommand),
    /// Drive the inner computation, and report its completion.
    RunInner,
    /// The transaction is over, with this outcome.
    Finish(Result<T, TransactionError<E>>),
    /// The event does not fit the state; nothing changes.
    Ignore,
}

/// One step of a transaction.
pub open spec fn tx_step<T, E>(state: TxState<T, E>, event: TxEvent<T, E>) -> (
    TxState<T, E>,
    TxAction<T, E>,
) {
    match (state, event) {
        (TxState::NotStarted, TxEvent::Start) => (
            TxState::BeginSent,
            TxAction::Send(TxCommand::Begin),
        ),
        (TxState::BeginSent, TxEvent::BatchDone(Ok(()))) => (TxState::RunningInner, TxAction::RunInner),
        (TxState::BeginSent, TxEvent::BatchDone(Err(e))) => (
            TxState::Done,
            TxAction::Finish(Err(TransactionError::Client(e))),
        ),
        (TxState::RunningInner, TxEvent::InnerDone(Ok(v))) => (
            TxState::CommitSent(v),
            TxAction::Send(TxCommand::Commit),
        ),
        (TxState::RunningInner, TxEvent::InnerDone(Err(e))) => (
            TxState::RollbackSent(e),
            TxAction::Send(TxCommand::Rollback),
        ),
        (TxState::CommitSent(v), TxEvent::BatchDone(Ok(()))) => (
            TxState::Done,
            TxAction::Finish(Ok(v)),
        ),
        (TxState::CommitSent(_), TxEvent::BatchDone(Err(e))) => (
            TxState::Done,
            TxAction::Finish(Err(TransactionError::Client(e))),
        ),
        (TxState::RollbackSent(e), TxEvent::BatchDone(Ok(()))) => (
            TxState::Done,
            TxAction::Finish(Err(TransactionError::Inner(e))),
        ),
        (TxState::RollbackSent(_), TxEvent::BatchDone(Err(r))) => (
            TxState::Done,
            TxAction::Finish(Err(TransactionError::Client(r))),
        ),
        (s, _) => (s, TxAction::Ignore),
    }
}

/// Prepares a transaction on a client.
#[derive(Debug)]
pub struct TransactionBuilder {}

impl TransactionBuilder {
    /// A transaction around an inner computation with results of type `T` and errors of
    /// type `E`, not yet started.
    pub fn build<T, E>(self) -> (r: Transaction<T, E>)
        ensures
            r.state is NotStarted,
    {
        Transaction { state: TxState::NotStarted }
    }
}

/// A computation bracketed by BEGIN and COMMIT, or ROLLBACK where it fails.
#[derive(Debug)]
pub struct Transaction<T, E> {
    pub state: TxState<T, E>,
}

impl<T, E> Transaction<T, E> {
    /// Advances the transaction by one event, and says what to do next.
    pub fn poll(&mut self, event: TxEvent<T, E>) -> (r: TxAction<T, E>)
        ensures
            (final(self).state, r) == tx_step(old(self).state, event),
    {
        let mut state = TxState::Done;
        std::mem::swap(&mut state, &mut self.state);
        match state {
            TxState::NotStarted => match event {
                TxEvent::Start => {
                    self.state = TxState::BeginSent;
                    TxAction::Send(TxCommand::Begin)
                },
                _ => {
                    self.state = TxState::NotStarted;
                    TxAction::Ignore
                },
            },
            TxState::BeginSent => match event {
                TxEvent::BatchDone(Ok(())) => {
                    self.state = TxState::RunningInner;
                    TxAction::RunInner
                },
                TxEvent::BatchDone(Err(e)) => {
                    TxAction::Finish(Err(TransactionError::Client(e)))
                },
                _ => {
                    self.state = TxState::BeginSent;
                    TxAction::Ignore
                },
            },
            TxState::RunningInner => match event {
                TxEvent::InnerDone(Ok(v)) => {
                    self.state = TxState::CommitSent(v);
                    TxAction::Send(TxCommand::Commit)
                },
                TxEvent::InnerDone(Err(e)) => {
                    self.state = TxState::RollbackSent(e);
                    TxAction::Send(TxCommand::Rollback)
                },
                _ => {
                    self.state = TxState::RunningInner;
                    TxAction::Ignore
                },
            },
            TxState::CommitSent(v) => match event {
                TxEvent::BatchDone(Ok(())) => TxAction::Finish(Ok(v)),
                TxEvent::BatchDone(Err(e)) => TxAction::Finish(Err(TransactionError::Client(e))),
                _ => {
                    self.state = TxState::CommitSent(v);
                    TxAction::Ignore
                },
            },
            TxState::RollbackSent(e) => match event {
                TxEvent::BatchDone(Ok(())) => TxAction::Finish(Err(TransactionError::Inner(e))),
                TxEvent::BatchDone(Err(r)) => TxAction::Finish(Err(TransactionError::Client(r))),
                _ => {
                    self.state = TxState::RollbackSent(e);
                    TxAction::Ignore
                },
            },
            TxState::Done => TxAction::Ignore,
        }
    }
}

/// A transaction whose BEGIN succeeds issues BEGIN, then runs the inner computation, then
/// issues COMMIT if that succeeded and ROLLBACK if it failed, and nothing after. Its
/// outcome is the inner value after a successful COMMIT; the inner error after a
/// successful ROLLBACK; and the error of COMMIT or ROLLBACK where that statement failed.
pub proof fn lemma_transaction_bracket<T, E>(inner: Result<T, E>, end: Result<(), Error>)
    ensures
        ({
            let (s1, a1) = tx_step(TxState::<T, E>::NotStarted, TxEvent::Start);
            let (s2, a2) = tx_step(s1, TxEvent::BatchDone(Ok(())));
            let (s3, a3) = tx_step(s2, TxEvent::InnerDone(inner));
            let (s4, a4) = tx_step(s3, TxEvent::BatchDone(end));
            &&& a1 == TxAction::<T, E>::Send(TxCommand::Begin)
            &&& a2 == TxAction::<T, E>::RunInner
            &&& a3 == TxAction::<T, E>::Send(
                if inner is Ok {
                    TxCommand::Commit
                } else {
                    TxCommand::Rollback
                },
            )
            &&& s4 is Done
            &&& a4 == TxAction::<T, E>::Finish(
                match (inner, end) {
                    (Ok(v), Ok(())) => Ok(v),
                    (Err(e), Ok(())) => Err(TransactionError::Inner(e)),
                    (_, Err(r)) => Err(TransactionError::Client(r)),
                },
            )
            &&& tx_step(s4, TxEvent::BatchDone(end)).1 == TxAction::<T, E>::Ignore
        }),
{
}

} // verus!
