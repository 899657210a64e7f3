use vstd::prelude::*;
use crate::names::NameAllocator;
use crate::operation::{react, reaction, Item, OpKind, Outcome, Reaction, Stage};
use crate::protocol::{
    BackendMessage, CancelData, ConnectError, DbError, Error, FrontendMessage, IoKind,
    Notification, Violation,
};

verus! {

/// An operation whose reply has not fully arrived.
#[derive(Debug)]
pub struct Pending {
    pub id: u64,
    pub kind: OpKind,
    /// The number of columns of the rows it expects.
    pub width: usize,
    pub stage: Stage,
}

/// What the driver hands back to the operations' handles, in the order it happened.
#[derive(Debug, PartialEq, Eq)]
pub enum Event {
    /// A stream item of operation `id`; `None` once its handle took it.
    Item { id: u64, item: Option<Item> },
    /// The result of operation `id`; `None` once its handle took it.
    Completed { id: u64, result: Option<Result<Outcome, Error>> },
}

/// A message that the server sent outside the reply to any operation.
#[derive(Debug, PartialEq, Eq)]
pub enum AsyncMessage {
    Notice(DbError),
    Notification(Notification),
}

/// Where the connection stands.
#[derive(Clone, Copy, Debug, PartialEq, Eq, Structural)]
pub enum Mode {
    /// The startup handshake is under way.
    Startup,
    /// The handshake is over.
    Ready,
}

/// The operation whose result `e` is, if it is a result.
pub open spec fn completed_id(e: Event) -> Option<u64> {
    match e {
        Event::Completed { id, .. } => Some(id),
        _ => None,
    }
}

/// The operation whose stream item `e` is, if it is one.
pub open spec fn item_id(e: Event) -> Option<u64> {
    match e {
        Event::Item { id, .. } => Some(id),
        _ => None,
    }
}

/// Every stream item in `events` belongs to an operation numbered below `bound`, and
/// comes before that operation's result.
pub open spec fn items_placed(events: Seq<Event>, bound: u64) -> bool {
    &&& forall|j: int|
        0 <= j < events.len() && #[trigger] item_id(events[j]) is Some ==> item_id(events[j])->0
            < bound
    &&& forall|j: int, k: int|
        0 <= j < events.len() && 0 <= k < events.len() && #[trigger] item_id(events[j]) is Some
            && #[trigger] completed_id(events[k]) == item_id(events[j]) ==> j < k
}

/// Every result in `events` belongs to an operation numbered below `bound`.
pub open spec fn completed_below(events: Seq<Event>, bound: u64) -> bool {
    forall|i: int|
        0 <= i < events.len() && #[trigger] completed_id(events[i]) is Some ==> completed_id(
            events[i],
        )->0 < bound
}

/// The results in `events` come in the order in which their operations were submitted.
pub open spec fn completions_ordered(events: Seq<Event>) -> bool {
    forall|i: int, j: int|
        0 <= i < j < events.len() && #[trigger] completed_id(events[i]) is Some
            && #[trigger] completed_id(events[j]) is Some ==> completed_id(events[i])->0
            < completed_id(events[j])->0
}

/// Results for the operations of `q` that have none yet, all failing with `cause`.
pub open spec fn failures(q: Seq<Pending>, cause: Error) -> Seq<Event>
    decreases q.len(),
{
    if q.len() == 0 {
        Seq::empty()
    } else {
        let rest = failures(q.drop_last(), cause);
        if q.last().stage is Done {
            rest
        } else {
            rest.push(Event::Completed { id: q.last().id, result: Some(Err(cause)) })
        }
    }
}

/// The value last reported for parameter `name`.
pub open spec fn lookup(params: Seq<(String, String)>, name: Seq<char>) -> Option<Seq<char>>
    decreases params.len(),
{
    if params.len() == 0 {
        None
    } else if params.last().0@ == name {
        Some(params.last().1@)
    } else {
        lookup(params.drop_last(), name)
    }
}

proof fn lemma_failures_depend_on_ids(a: Seq<Pending>, b: Seq<Pending>, cause: Error)
    requires
        a.len() == b.len(),
        forall|i: int|
            0 <= i < a.len() ==> (#[trigger] a[i]).id == b[i].id && (a[i].stage is Done) == (
            b[i].stage is Done),
    ensures
        failures(a, cause) == failures(b, cause),
    decreases a.len(),
{
    if a.len() > 0 {
        lemma_failures_depend_on_ids(a.drop_last(), b.drop_last(), cause);
    }
}

/// The effect of a reply message on the queue and on the events, for a connection
/// that is not poisoned.
pub open spec fn dispatched(pre: Connection, msg: BackendMessage, post: Connection) -> bool {
    if pre.queue@.len() == 0 {
        &&& post.poisoned == Some(Error::Protocol(Violation::NoPendingOperation))
        &&& post.queue@.len() == 0
        &&& post.events@ == pre.events@
    } else {
        let h = pre.queue@[0];
        let rest = pre.queue@.drop_first();
        match reaction(h.kind, h.stage, h.width, msg) {
            Reaction::Advance(stage) => {
                &&& post.poisoned is None
                &&& post.queue@ == seq![Pending { id: h.id, kind: h.kind, width: h.width, stage }] + rest
                &&& post.events@ == pre.events@
            },
            Reaction::Emit(stage, item) => {
                &&& post.poisoned is None
                &&& post.queue@ == seq![Pending { id: h.id, kind: h.kind, width: h.width, stage }] + rest
                &&& post.events@ == pre.events@.push(Event::Item { id: h.id, item: Some(item) })
            },
            Reaction::Complete(result) => {
                &&& post.poisoned is None
                &&& post.queue@ == seq![Pending { id: h.id, kind: h.kind, width: h.width, stage: Stage::Done }]
                    + rest
                &&& post.events@ == pre.events@.push(Event::Completed { id: h.id, result: Some(result) })
            },
            Reaction::Finish => {
                &&& post.poisoned is None
                &&& post.queue@ == rest
                &&& post.events@ == pre.events@
            },
            Reaction::CompleteAndFinish(result) => {
                &&& post.poisoned is None
                &&& post.queue@ == rest
                &&& post.events@ == pre.events@.push(Event::Completed { id: h.id, result: Some(result) })
            },
            Reaction::Violation => {
                &&& post.poisoned == Some(Error::Protocol(Violation::UnexpectedMessage))
                &&& post.queue@.len() == 0
                &&& post.events@ == pre.events@ + failures(
                    pre.queue@,
                    Error::Protocol(Violation::UnexpectedMessage),
                )
            },
        }
    }
}

/// `post` differs from `pre` at most in the queue, the events and the poisoned state.
pub open spec fn frame(pre: Connection, post: Connection) -> bool {
    &&& post.password == pre.password
    &&& post.rejection == pre.rejection
    &&& post.mode == pre.mode
    &&& post.messages == pre.messages
    &&& post.outbound == pre.outbound
    &&& post.parameters == pre.parameters
    &&& post.cancel_data == pre.cancel_data
    &&& post.next_id == pre.next_id
    &&& post.names == pre.names
}

/// `post` is `pre` poisoned with `cause`: every operation without a result fails with it.
pub open spec fn poisoned_with(pre: Connection, cause: Error, post: Connection) -> bool {
    &&& frame(pre, post)
    &&& post.poisoned == Some(cause)
    &&& post.queue@.len() == 0
    &&& post.events@ == pre.events@ + failures(pre.queue@, cause)
}

/// `post` differs from `pre` at most in the side channel.
pub open spec fn frame_but_messages(pre: Connection, post: Connection) -> bool {
    &&& post.password == pre.password
    &&& post.rejection == pre.rejection
    &&& post.mode == pre.mode
    &&& post.outbound == pre.outbound
    &&& post.parameters == pre.parameters
    &&& post.cancel_data == pre.cancel_data
    &&& post.next_id == pre.next_id
    &&& post.names == pre.names
}

/// The effect of a message of the server on a connection that is not poisoned.
pub open spec fn received(pre: Connection, msg: BackendMessage, post: Connection) -> bool {
    let unchanged_ops = post.queue == pre.queue && post.events == pre.events && post.poisoned
        == pre.poisoned && post.outbound == pre.outbound && post.next_id == pre.next_id
        && post.names == pre.names && post.password == pre.password
        && post.rejection == pre.rejection;
    match msg {
        BackendMessage::ParameterStatus { name, value } => {
            &&& unchanged_ops
            &&& lookup(post.parameters@, name@) == Some(value@)
            &&& forall|n: Seq<char>| n != name@ ==> #[trigger] lookup(post.parameters@, n) == lookup(pre.parameters@, n)
            &&& post.parameters@.len() <= pre.parameters@.len() + 1
            &&& post.messages == pre.messages
            &&& post.mode == pre.mode && post.cancel_data == pre.cancel_data
        },
        BackendMessage::NoticeResponse(e) => {
            &&& unchanged_ops
            &&& post.messages@ == pre.messages@.push(AsyncMessage::Notice(e))
            &&& post.parameters == pre.parameters
            &&& post.mode == pre.mode && post.cancel_data == pre.cancel_data
        },
        BackendMessage::NotificationResponse(n) => {
            &&& unchanged_ops
            &&& post.messages@ == pre.messages@.push(AsyncMessage::Notification(n))
            &&& post.parameters == pre.parameters
            &&& post.mode == pre.mode && post.cancel_data == pre.cancel_data
        },
        _ => if pre.mode == Mode::Startup {
            match msg {
                BackendMessage::AuthenticationOk => post == pre,
                BackendMessage::BackendKeyData { process_id, secret_key } => if pre.cancel_data is Some {
                    poisoned_with(pre, Error::Protocol(Violation::UnexpectedMessage), post)
                } else {
                    &&& unchanged_ops
                    &&& post.cancel_data == Some(CancelData { process_id, secret_key })
                    &&& post.mode == pre.mode
                    &&& post.messages == pre.messages && post.parameters == pre.parameters
                },
                BackendMessage::ReadyForQuery => {
                    &&& unchanged_ops
                    &&& post.mode == Mode::Ready
                    &&& post.cancel_data == pre.cancel_data
                    &&& post.messages == pre.messages && post.parameters == pre.parameters
                },
                BackendMessage::ErrorResponse(e) => {
                    &&& poisoned_with(
                        pre,
                        Error::Connect(ConnectError::Rejected),
                        Connection { rejection: pre.rejection, ..post },
                    )
                    &&& post.rejection == Some(e)
                },
                BackendMessage::AuthenticationCleartextPassword => match pre.password {
                    Some(p) => {
                        &&& post.queue == pre.queue && post.events == pre.events
                        &&& post.poisoned == pre.poisoned && post.next_id == pre.next_id
                        &&& post.names == pre.names && post.password == pre.password
                        &&& post.rejection == pre.rejection
                        &&& post.mode == pre.mode && post.cancel_data == pre.cancel_data
                        &&& post.messages == pre.messages && post.parameters == pre.parameters
                        &&& post.outbound@.len() == pre.outbound@.len() + 1
                        &&& post.outbound@.drop_last() == pre.outbound@
                        &&& post.outbound@.last() matches FrontendMessage::Password { password }
                            && password@ == p@
                    },
                    None => poisoned_with(pre, Error::Connect(ConnectError::PasswordRequired), post),
                },
                BackendMessage::AuthenticationRequest => poisoned_with(
                    pre,
                    Error::Connect(ConnectError::UnsupportedAuthentication),
                    post,
                ),
                _ => poisoned_with(pre, Error::Protocol(Violation::UnexpectedMessage), post),
            }
        } else {
            frame(pre, post) && dispatched(pre, msg, post)
        },
    }
}

/// The result of operation `id` that is still in `events`, if any.
pub open spec fn result_in(events: Seq<Event>, id: u64) -> Option<Result<Outcome, Error>>
    decreases events.len(),
{
    if events.len() == 0 {
        None
    } else {
        match events[0] {
            Event::Completed { id: i, result: Some(r) } => if i == id {
                Some(r)
            } else {
                result_in(events.drop_first(), id)
            },
            _ => result_in(events.drop_first(), id),
        }
    }
}

/// The stream items of operation `id` that are still in `events`, in order.
pub open spec fn items_in(events: Seq<Event>, id: u64) -> Seq<Item>
    decreases events.len(),
{
    if events.len() == 0 {
        Seq::empty()
    } else {
        let rest = items_in(events.drop_last(), id);
        match events.last() {
            Event::Item { id: i, item: Some(x) } => if i == id {
                rest.push(x)
            } else {
                rest
            },
            _ => rest,
        }
    }
}

/// `e` with the stream item of operation `id` taken out.
pub open spec fn item_taken(e: Event, id: u64) -> Event {
    match e {
        Event::Item { id: i, item: Some(_) } => if i == id {
            Event::Item { id: i, item: None }
        } else {
            e
        },
        _ => e,
    }
}

/// Whether `e` still holds a payload that no handle took.
pub open spec fn untaken(e: Event) -> bool {
    match e {
        Event::Item { item, .. } => item is Some,
        Event::Completed { result, .. } => result is Some,
    }
}

/// The events of `events` that still hold a payload, in order.
pub open spec fn untaken_events(events: Seq<Event>) -> Seq<Event>
    decreases events.len(),
{
    if events.len() == 0 {
        Seq::empty()
    } else if untaken(events[0]) {
        seq![events[0]] + untaken_events(events.drop_first())
    } else {
        untaken_events(events.drop_first())
    }
}

proof fn lemma_result_in_absent(s: Seq<Event>, id: u64)
    requires
        forall|k: int| 0 <= k < s.len() ==> #[trigger] completed_id(s[k]) != Some(id),
    ensures
        result_in(s, id) is None,
    decreases s.len(),
{
    if s.len() > 0 {
        assert(completed_id(s[0]) != Some(id));
        assert forall|k: int| 0 <= k < s.drop_first().len() implies #[trigger] completed_id(s.drop_first()[k]) != Some(id) by {
            assert(s.drop_first()[k] == s[k + 1]);
        }
        lemma_result_in_absent(s.drop_first(), id);
    }
}

/// Emptying the one result of operation `id` hides it and no other.
proof fn lemma_result_taken(s: Seq<Event>, i: int, id: u64)
    requires
        0 <= i < s.len(),
        completed_id(s[i]) == Some(id),
        forall|k: int| 0 <= k < s.len() && k != i ==> #[trigger] completed_id(s[k]) != Some(id),
    ensures
        result_in(s.update(i, Event::Completed { id, result: None }), id) is None,
        forall|d: u64| d != id ==> #[trigger] result_in(s.update(i, Event::Completed { id, result: None }), d) == result_in(s, d),
    decreases s.len(),
{
    let x = Event::Completed { id, result: None };
    let u = s.update(i, x);
    if i == 0 {
        assert(u.drop_first() =~= s.drop_first());
        assert forall|k: int| 0 <= k < s.drop_first().len() implies #[trigger] completed_id(s.drop_first()[k]) != Some(id) by {
            assert(s.drop_first()[k] == s[k + 1]);
        }
        lemma_result_in_absent(s.drop_first(), id);
    } else {
        assert(u.drop_first() =~= s.drop_first().update(i - 1, x));
        assert(u[0] == s[0]);
        assert forall|k: int| 0 <= k < s.drop_first().len() && k != i - 1 implies #[trigger] completed_id(s.drop_first()[k]) != Some(id) by {
            assert(s.drop_first()[k] == s[k + 1]);
        }
        assert(completed_id(s[0]) != Some(id));
        lemma_result_taken(s.drop_first(), i - 1, id);
    }
    assert forall|d: u64| d != id implies #[trigger] result_in(u, d) == result_in(s, d) by {
        if i == 0 {
            assert(result_in(u, d) == result_in(u.drop_first(), d));
        } else {
            assert(result_in(s.drop_first().update(i - 1, x), d) == result_in(s.drop_first(), d));
        }
    }
}

/// Taking the items of operation `id` leaves none of them, and those of the others as
/// they were.
proof fn lemma_items_taken(s: Seq<Event>, id: u64)
    ensures
        items_in(s.map_values(|e: Event| item_taken(e, id)), id).len() == 0,
        forall|d: u64| d != id ==> items_in(s.map_values(|e: Event| item_taken(e, id)), d) == #[trigger] items_in(s, d),
    decreases s.len(),
{
    let m = s.map_values(|e: Event| item_taken(e, id));
    if s.len() > 0 {
        assert(m.drop_last() =~= s.drop_last().map_values(|e: Event| item_taken(e, id)));
        lemma_items_taken(s.drop_last(), id);
        assert(m.last() == item_taken(s.last(), id));
        assert forall|d: u64| d != id implies items_in(m, d) == #[trigger] items_in(s, d) by {
            assert(items_in(s.drop_last().map_values(|e: Event| item_taken(e, id)), d) == items_in(s.drop_last(), d));
        }
    } else {
        assert forall|d: u64| d != id implies items_in(m, d) == #[trigger] items_in(s, d) by {}
    }
}

proof fn lemma_lookup_absent(params: Seq<(String, String)>, name: Seq<char>)
    requires
        forall|k: int| 0 <= k < params.len() ==> (#[trigger] params[k]).0@ != name,
    ensures
        lookup(params, name) is None,
    decreases params.len(),
{
    if params.len() > 0 {
        assert(params.last().0@ != name);
        assert forall|k: int| 0 <= k < params.drop_last().len() implies (#[trigger] params.drop_last()[k]).0@ != name by {
            assert(params.drop_last()[k] == params[k]);
        }
        lemma_lookup_absent(params.drop_last(), name);
    }
}

/// Replacing the last entry of a name changes its value and no other.
proof fn lemma_lookup_update(params: Seq<(String, String)>, i: int, entry: (String, String))
    requires
        0 <= i < params.len(),
        params[i].0@ == entry.0@,
        forall|k: int| i < k < params.len() ==> (#[trigger] params[k]).0@ != entry.0@,
    ensures
        lookup(params.update(i, entry), entry.0@) == Some(entry.1@),
        forall|n: Seq<char>| n != entry.0@ ==> #[trigger] lookup(params.update(i, entry), n) == lookup(params, n),
    decreases params.len(),
{
    let u = params.update(i, entry);
    if i == params.len() - 1 {
        assert(u.drop_last() =~= params.drop_last());
    } else {
        assert(u.drop_last() =~= params.drop_last().update(i, entry));
        assert(u.last() == params.last());
        lemma_lookup_update(params.drop_last(), i, entry);
    }
    assert forall|n: Seq<char>| n != entry.0@ implies #[trigger] lookup(u, n) == lookup(params, n) by {
        if i < params.len() - 1 {
            assert(lookup(params.drop_last().update(i, entry), n) == lookup(params.drop_last(), n));
        }
    }
}

/// The driver of one connection: the only owner of its protocol state.
pub struct Connection {
    pub mode: Mode,
    /// The fatal error that ended the connection, if any.
    pub poisoned: Option<Error>,
    /// Operations whose reply is awaited, oldest first.
    pub queue: Vec<Pending>,
    /// Results and stream items, in the order they arrived.
    pub events: Vec<Event>,
    /// Notices and notifications not yet taken.
    pub messages: Vec<AsyncMessage>,
    /// Messages to send, oldest first.
    pub outbound: Vec<FrontendMessage>,
    /// The server's parameters: the last value reported for each name.
    pub parameters: Vec<(String, String)>,
    pub cancel_data: Option<CancelData>,
    /// The password to give where the server asks for it.
    pub password: Option<String>,
    /// The server's error that ended the startup, if it did.
    pub rejection: Option<DbError>,
    /// The number that the next operation gets.
    pub next_id: u64,
    pub names: NameAllocator,
}

impl Connection {
    pub open spec fn wf(&self) -> bool {
        &&& self.poisoned is Some ==> self.poisoned->0.is_fatal() && self.queue@.len() == 0
        &&& forall|i: int, j: int|
            0 <= i < j < self.queue@.len() ==> #[trigger] self.queue@[i].id
                < #[trigger] self.queue@[j].id
        &&& forall|i: int| 0 <= i < self.queue@.len() ==> #[trigger] self.queue@[i].id < self.next_id
        &&& forall|i: int| 1 <= i < self.queue@.len() ==> !(#[trigger] self.queue@[i].stage is Done)
        &&& forall|i: int|
            0 <= i < self.queue@.len() && !(#[trigger] self.queue@[i].stage is Done)
                ==> completed_below(self.events@, self.queue@[i].id)
        &&& completed_below(self.events@, self.next_id)
        &&& completions_ordered(self.events@)
        &&& items_placed(self.events@, self.next_id)
    }

    /// A driver for a connection whose startup message was sent.
    pub fn new() -> (r: Connection)
        ensures
            r.wf(),
            r.mode == Mode::Startup,
            r.poisoned is None,
            r.queue@.len() == 0,
            r.events@.len() == 0,
            r.messages@.len() == 0,
            r.outbound@.len() == 0,
            r.parameters@.len() == 0,
            r.cancel_data is None,
            r.password is None,
            r.rejection is None,
            r.next_id == 0,
    {
        Connection {
            mode: Mode::Startup,
            poisoned: None,
            queue: Vec::new(),
            events: Vec::new(),
            messages: Vec::new(),
            outbound: Vec::new(),
            parameters: Vec::new(),
            cancel_data: None,
            password: None,
            rejection: None,
            next_id: 0,
            names: NameAllocator::new(),
        }
    }

    /// A driver for a new session of `user` on `database` (the server's default where
    /// `None`), with `password` to give if the server asks for it; the startup message
    /// is the first to send.
    pub fn start(user: &str, database: Option<String>, password: Option<String>) -> (r: Connection)
        ensures
            r.wf(),
            r.mode == Mode::Startup,
            r.poisoned is None,
            r.queue@.len() == 0,
            r.events@.len() == 0,
            r.messages@.len() == 0,
            r.parameters@.len() == 0,
            r.cancel_data is None,
            r.password == password,
            r.rejection is None,
            r.next_id == 0,
            r.outbound@.len() == 1,
            r.outbound@[0] matches FrontendMessage::Startup { user: u, database: d } && u@ == user@
                && d == database,
    {
        let mut r = Connection::new();
        r.outbound.push(FrontendMessage::Startup { user: user.to_owned(), database });
        r.password = password;
        r
    }

    /// Ends the connection with `cause`: every operation without a result fails with it,
    /// in the order of the queue.
    fn poison(&mut self, cause: Error)
        requires
            old(self).wf(),
            old(self).poisoned is None,
            cause.is_fatal(),
        ensures
            final(self).wf(),
            final(self).poisoned == Some(cause),
            final(self).queue@.len() == 0,
            final(self).events@ == old(self).events@ + failures(old(self).queue@, cause),
            final(self).mode == old(self).mode,
            final(self).messages == old(self).messages,
            final(self).outbound == old(self).outbound,
            final(self).parameters == old(self).parameters,
            final(self).cancel_data == old(self).cancel_data,
            final(self).password == old(self).password,
            final(self).rejection == old(self).rejection,
            final(self).next_id == old(self).next_id,
            final(self).names == old(self).names,
    {
        let n = self.queue.len();
        let mut i: usize = 0;
        while i < n
            invariant
                n == self.queue@.len(),
                self.queue@ == old(self).queue@,
                old(self).wf(),
                0 <= i <= n,
                cause.is_fatal(),
                self.events@ == old(self).events@ + failures(self.queue@.subrange(0, i as int), cause),
                completions_ordered(self.events@),
                completed_below(self.events@, self.next_id),
                items_placed(self.events@, self.next_id),
                self.next_id == old(self).next_id,
                self.mode == old(self).mode,
                self.poisoned == old(self).poisoned,
                self.messages == old(self).messages,
                self.outbound == old(self).outbound,
                self.parameters == old(self).parameters,
                self.cancel_data == old(self).cancel_data,
                self.password == old(self).password,
                self.rejection == old(self).rejection,
                self.names == old(self).names,
                forall|k: int|
                    i <= k < n && !(#[trigger] self.queue@[k].stage is Done) ==> completed_below(
                        self.events@,
                        self.queue@[k].id,
                    ),
            decreases n - i,
        {
            let id = self.queue[i].id;
            let done = match self.queue[i].stage {
                Stage::Done => true,
                _ => false,
            };
            proof {
                assert(self.queue@.subrange(0, i + 1).drop_last() =~= self.queue@.subrange(0, i as int));
            }
            if !done {
                let ghost before = self.events@;
                self.events.push(Event::Completed { id, result: Some(Err(cause.copy_fatal())) });
                proof {
                    assert(completed_id(self.events@.last()) == Some(id));
                    assert forall|k: int|
                        i + 1 <= k < n && !(#[trigger] self.queue@[k].stage is Done) implies completed_below(
                            self.events@,
                            self.queue@[k].id,
                        ) by {
                        assert(self.queue@[i as int].id < self.queue@[k].id);
                        assert forall|j: int|
                            0 <= j < self.events@.len() && #[trigger] completed_id(self.events@[j]) is Some implies completed_id(
                                self.events@[j],
                            )->0 < self.queue@[k].id by {
                            if j < before.len() {
                                assert(self.events@[j] == before[j]);
                            }
                        }
                    }
                    assert forall|j: int|
                        0 <= j < self.events@.len() && #[trigger] completed_id(self.events@[j]) is Some implies completed_id(
                            self.events@[j],
                        )->0 < self.next_id by {
                        if j < before.len() {
                            assert(self.events@[j] == before[j]);
                        }
                    }
                    assert forall|j: int| 0 <= j < before.len() implies #[trigger] self.events@[j] == before[j] by {}
                    assert(item_id(self.events@.last()) is None);
                    assert forall|a: int, b: int|
                        0 <= a < b < self.events@.len() && #[trigger] completed_id(self.events@[a]) is Some
                            && #[trigger] completed_id(self.events@[b]) is Some implies completed_id(
                            self.events@[a],
                        )->0 < completed_id(self.events@[b])->0 by {
                        assert(self.events@[a] == before[a]);
                        if b < before.len() {
                            assert(self.events@[b] == before[b]);
                        }
                    }
                }
            }
            i = i + 1;
        }
        proof {
            assert(self.queue@.subrange(0, n as int) =~= old(self).queue@);
        }
        self.queue.clear();
        self.poisoned = Some(cause);
    }

    /// Takes in one decoded message of the server. Notices and notifications go to
    /// the side channel; during startup the handshake advances; after it the message
    /// goes to the oldest operation. A poisoned connection ignores everything.
    pub fn handle_message(&mut self, msg: BackendMessage)
        requires
            old(self).wf(),
        ensures
            final(self).wf(),
            old(self).poisoned is Some ==> *final(self) == *old(self),
            old(self).poisoned is None ==> received(*old(self), msg, *final(self)),
    {
        if self.poisoned.is_some() {
            return ;
        }
        match msg {
            BackendMessage::ParameterStatus { name, value } => {
                self.set_parameter(name, value);
            },
            BackendMessage::NoticeResponse(e) => {
                self.messages.push(AsyncMessage::Notice(e));
            },
            BackendMessage::NotificationResponse(n) => {
                self.messages.push(AsyncMessage::Notification(n));
            },
            _ => {
                if self.mode == Mode::Startup {
                    self.handle_startup(msg);
                } else {
                    self.dispatch(msg);
                }
            },
        }
    }

    fn handle_startup(&mut self, msg: BackendMessage)
        requires
            old(self).wf(),
            old(self).poisoned is None,
            old(self).mode == Mode::Startup,
            !msg.is_async(),
        ensures
            final(self).wf(),
            received(*old(self), msg, *final(self)),
    {
        match msg {
            BackendMessage::AuthenticationOk => {},
            BackendMessage::BackendKeyData { process_id, secret_key } => {
                if self.cancel_data.is_some() {
                    self.poison(Error::Protocol(Violation::UnexpectedMessage));
                } else {
                    self.cancel_data = Some(CancelData { process_id, secret_key });
                }
            },
            BackendMessage::ReadyForQuery => {
                self.mode = Mode::Ready;
            },
            BackendMessage::ErrorResponse(e) => {
                self.poison(Error::Connect(ConnectError::Rejected));
                self.rejection = Some(e);
            },
            BackendMessage::AuthenticationCleartextPassword => {
                match &self.password {
                    Some(p) => {
                        let password = p.clone();
                        self.outbound.push(FrontendMessage::Password { password });
                        proof {
                            assert(self.outbound@.drop_last() =~= old(self).outbound@);
                        }
                    },
                    None => self.poison(Error::Connect(ConnectError::PasswordRequired)),
                }
            },
            BackendMessage::AuthenticationRequest => {
                self.poison(Error::Connect(ConnectError::UnsupportedAuthentication));
            },
            _ => {
                self.poison(Error::Protocol(Violation::UnexpectedMessage));
            },
        }
    }

    /// Reports a failure of the transport: the connection is poisoned with it, unless
    /// it already was, in which case its first cause stays.
    pub fn transport_failed(&mut self, kind: IoKind)
        requires
            old(self).wf(),
        ensures
            final(self).wf(),
            old(self).poisoned is Some ==> *final(self) == *old(self),
            old(self).poisoned is None ==> poisoned_with(*old(self), Error::Io(kind), *final(self)),
    {
        if self.poisoned.is_none() {
            self.poison(Error::Io(kind));
        }
    }

    /// Takes the oldest notice or notification. With none waiting, a poisoned
    /// connection reports its cause, another reports that nothing has come yet.
    pub fn poll_message(&mut self) -> (r: Result<Option<AsyncMessage>, Error>)
        requires
            old(self).wf(),
        ensures
            final(self).wf(),
            old(self).messages@.len() > 0 ==> {
                &&& r == Ok::<Option<AsyncMessage>, Error>(Some(old(self).messages@[0]))
                &&& final(self).messages@ == old(self).messages@.drop_first()
            },
            old(self).messages@.len() == 0 ==> {
                &&& final(self).messages == old(self).messages
                &&& (old(self).poisoned is Some ==> r == Err::<Option<AsyncMessage>, Error>(
                    old(self).poisoned->0,
                ))
                &&& (old(self).poisoned is None ==> r == Ok::<Option<AsyncMessage>, Error>(None))
            },
            final(self).queue == old(self).queue,
            final(self).events == old(self).events,
            final(self).poisoned == old(self).poisoned,
            frame_but_messages(*old(self), *final(self)),
    {
        if self.messages.len() > 0 {
            let m = self.messages.remove(0);
            Ok(Some(m))
        } else {
            match &self.poisoned {
                Some(e) => Err(e.copy_fatal()),
                None => Ok(None),
            }
        }
    }

    /// Records `value` as the value of parameter `name`, in place of any earlier one.
    fn set_parameter(&mut self, name: String, value: String)
        ensures
            lookup(final(self).parameters@, name@) == Some(value@),
            forall|n: Seq<char>| n != name@ ==> #[trigger] lookup(final(self).parameters@, n) == lookup(old(self).parameters@, n),
            final(self).parameters@.len() <= old(self).parameters@.len() + 1,
            final(self).queue == old(self).queue,
            final(self).events == old(self).events,
            final(self).poisoned == old(self).poisoned,
            final(self).messages == old(self).messages,
            final(self).outbound == old(self).outbound,
            final(self).mode == old(self).mode,
            final(self).cancel_data == old(self).cancel_data,
            final(self).password == old(self).password,
            final(self).rejection == old(self).rejection,
            final(self).next_id == old(self).next_id,
            final(self).names == old(self).names,
    {
        let mut i: usize = self.parameters.len();
        while i > 0
            invariant
                i <= self.parameters@.len(),
                *self == *old(self),
                forall|k: int| i <= k < self.parameters@.len() ==> (#[trigger] self.parameters@[k]).0@ != name@,
            decreases i,
        {
            if self.parameters[i - 1].0 == name {
                let ghost before = self.parameters@;
                let ghost entry = (name, value);
                self.parameters.remove(i - 1);
                self.parameters.insert(i - 1, (name, value));
                proof {
                    assert(self.parameters@ =~= before.update(i - 1, entry));
                    lemma_lookup_update(before, i - 1, entry);
                }
                return ;
            }
            i = i - 1;
        }
        let ghost before = self.parameters@;
        let ghost entry = (name, value);
        self.parameters.push((name, value));
        proof {
            lemma_lookup_absent(before, name@);
            assert(self.parameters@.drop_last() =~= before);
        }
    }

    /// The value that the server last reported for its parameter `name`.
    pub fn parameter(&self, name: &str) -> (r: Option<&str>)
        ensures
            r matches Some(v) ==> lookup(self.parameters@, name@) == Some(v@),
            r is None ==> lookup(self.parameters@, name@) is None,
    {
        let key = name.to_owned();
        let mut i: usize = self.parameters.len();
        proof {
            assert(self.parameters@.subrange(0, i as int) =~= self.parameters@);
        }
        while i > 0
            invariant
                i <= self.parameters@.len(),
                key@ == name@,
                lookup(self.parameters@, name@) == lookup(self.parameters@.subrange(0, i as int), name@),
            decreases i,
        {
            let ghost sub = self.parameters@.subrange(0, i as int);
            proof {
                assert(sub.drop_last() =~= self.parameters@.subrange(0, i - 1));
            }
            if self.parameters[i - 1].0 == key {
                return Some(self.parameters[i - 1].1.as_str());
            }
            i = i - 1;
        }
        None
    }

    /// The connection's own state: the fatal error that ended it, or `None` while it is
    /// usable. Errors of single operations go to their handles, never here.
    pub fn poll(&self) -> (r: Option<Error>)
        requires
            self.wf(),
        ensures
            r == self.poisoned,
    {
        match &self.poisoned {
            Some(e) => Some(e.copy_fatal()),
            None => None,
        }
    }

    /// Takes the messages waiting to be sent, oldest first, and leaves none.
    pub fn take_outbound(&mut self) -> (r: Vec<FrontendMessage>)
        requires
            old(self).wf(),
        ensures
            final(self).wf(),
            r@ == old(self).outbound@,
            final(self).outbound@.len() == 0,
            final(self).queue == old(self).queue,
            final(self).events == old(self).events,
            final(self).poisoned == old(self).poisoned,
            final(self).messages == old(self).messages,
            final(self).parameters == old(self).parameters,
            final(self).mode == old(self).mode,
            final(self).cancel_data == old(self).cancel_data,
            final(self).password == old(self).password,
            final(self).rejection == old(self).rejection,
            final(self).next_id == old(self).next_id,
            final(self).names == old(self).names,
    {
        let mut r: Vec<FrontendMessage> = Vec::new();
        std::mem::swap(&mut r, &mut self.outbound);
        r
    }

    /// The identity of the backend, once the server has sent it.
    pub fn cancel_data(&self) -> (r: Option<CancelData>)
        ensures
            r == self.cancel_data,
    {
        self.cancel_data
    }

    /// Takes the result of operation `id` out of the events, if it has arrived and was
    /// not taken before.
    pub fn take_result(&mut self, id: u64) -> (r: Option<Result<Outcome, Error>>)
        requires
            old(self).wf(),
        ensures
            final(self).wf(),
            r == result_in(old(self).events@, id),
            r is None ==> final(self).events == old(self).events,
            r is Some ==> exists|i: int|
                0 <= i < old(self).events@.len() && old(self).events@[i] == (Event::Completed {
                    id,
                    result: r,
                }) && final(self).events@ == old(self).events@.update(
                    i,
                    Event::Completed { id, result: None },
                ),
            result_in(final(self).events@, id) is None,
            forall|d: u64| d != id ==> #[trigger] result_in(final(self).events@, d) == result_in(old(self).events@, d),
            final(self).queue == old(self).queue,
            final(self).poisoned == old(self).poisoned,
            final(self).messages == old(self).messages,
            frame_but_messages(*old(self), *final(self)),
    {
        let n = self.events.len();
        let mut i: usize = 0;
        proof {
            assert(self.events@.subrange(0, n as int) =~= self.events@);
        }
        while i < n
            invariant
                n == self.events@.len(),
                *self == *old(self),
                old(self).wf(),
                self.events@ == old(self).events@,
                0 <= i <= n,
                result_in(self.events@, id) == result_in(self.events@.subrange(i as int, n as int), id),
            decreases n - i,
        {
            let found = match &self.events[i] {
                Event::Completed { id: j, result: Some(_) } => *j == id,
                _ => false,
            };
            proof {
                assert(self.events@.subrange(i as int, n as int).drop_first() =~= self.events@.subrange(i + 1, n as int));
            }
            if found {
                let ghost before = self.events@;
                let e = self.events.remove(i);
                self.events.insert(i, Event::Completed { id, result: None });
                proof {
                    assert(self.events@ =~= before.update(i as int, Event::Completed { id, result: None }));
                    assert forall|k: int| 0 <= k < before.len() && k != i implies #[trigger] completed_id(before[k]) != Some(id) by {
                        assert(completed_id(before[i as int]) == Some(id));
                    }
                    lemma_result_taken(before, i as int, id);
                    assert forall|j: int| 0 <= j < self.events@.len() implies #[trigger] completed_id(self.events@[j]) == completed_id(before[j]) by {}
                    assert(completed_below(self.events@, self.next_id));
                }
                match e {
                    Event::Completed { result, .. } => return result,
                    _ => return None,
                }
            }
            i = i + 1;
        }
        proof {
            assert(self.events@.subrange(n as int, n as int) =~= Seq::<Event>::empty());
        }
        None
    }

    /// Takes the stream items of operation `id` out of the events, oldest first.
    pub fn take_items(&mut self, id: u64) -> (r: Vec<Item>)
        requires
            old(self).wf(),
        ensures
            final(self).wf(),
            r@ == items_in(old(self).events@, id),
            final(self).events@ == old(self).events@.map_values(|e: Event| item_taken(e, id)),
            items_in(final(self).events@, id).len() == 0,
            forall|d: u64| d != id ==> #[trigger] items_in(final(self).events@, d) == items_in(old(self).events@, d),
            final(self).queue == old(self).queue,
            final(self).poisoned == old(self).poisoned,
            final(self).messages == old(self).messages,
            frame_but_messages(*old(self), *final(self)),
    {
        let n = self.events.len();
        let mut r: Vec<Item> = Vec::new();
        let mut i: usize = 0;
        while i < n
            invariant
                n == self.events@.len(),
                n == old(self).events@.len(),
                0 <= i <= n,
                old(self).wf(),
                r@ == items_in(old(self).events@.subrange(0, i as int), id),
                forall|j: int| 0 <= j < i ==> #[trigger] self.events@[j] == item_taken(old(self).events@[j], id),
                forall|j: int| i <= j < n ==> #[trigger] self.events@[j] == old(self).events@[j],
                self.queue == old(self).queue,
                self.poisoned == old(self).poisoned,
                self.messages == old(self).messages,
                self.next_id == old(self).next_id,
                frame_but_messages(*old(self), *self),
            decreases n - i,
        {
            let found = match &self.events[i] {
                Event::Item { id: j, item: Some(_) } => *j == id,
                _ => false,
            };
            proof {
                assert(old(self).events@.subrange(0, i + 1).drop_last() =~= old(self).events@.subrange(0, i as int));
            }
            if found {
                let e = self.events.remove(i);
                self.events.insert(i, Event::Item { id, item: None });
                match e {
                    Event::Item { item: Some(x), .. } => r.push(x),
                    _ => {},
                }
            }
            i = i + 1;
        }
        proof {
            assert(old(self).events@.subrange(0, n as int) =~= old(self).events@);
            assert(self.events@ =~= old(self).events@.map_values(|e: Event| item_taken(e, id)));
            lemma_items_taken(old(self).events@, id);
            assert forall|j: int| 0 <= j < self.events@.len() implies #[trigger] completed_id(self.events@[j]) == completed_id(old(self).events@[j]) by {}
            assert forall|j: int| 0 <= j < self.events@.len() implies #[trigger] item_id(self.events@[j]) == item_id(old(self).events@[j]) by {}
        }
        r
    }

    /// Drops the events whose payload their handles have taken, so that the events do
    /// not grow without bound; the order of the others is kept.
    pub fn discard_taken(&mut self)
        requires
            old(self).wf(),
        ensures
            final(self).wf(),
            final(self).events@ == untaken_events(old(self).events@),
            final(self).queue == old(self).queue,
            final(self).poisoned == old(self).poisoned,
            final(self).messages == old(self).messages,
            frame_but_messages(*old(self), *final(self)),
    {
        let mut rest: Vec<Event> = Vec::new();
        std::mem::swap(&mut rest, &mut self.events);
        let ghost all = rest@;
        let ghost mut idx: Seq<int> = Seq::empty();
        let ghost mut i: int = 0;
        while rest.len() > 0
            invariant
                old(self).wf(),
                all == old(self).events@,
                0 <= i <= all.len(),
                rest@ == all.subrange(i, all.len() as int),
                self.events@ + untaken_events(rest@) == untaken_events(all),
                idx.len() == self.events@.len(),
                forall|k: int| 0 <= k < idx.len() ==> 0 <= #[trigger] idx[k] < i,
                forall|k: int| 0 <= k < idx.len() ==> self.events@[k] == all[#[trigger] idx[k]],
                forall|a: int, b: int| 0 <= a < b < idx.len() ==> #[trigger] idx[a] < #[trigger] idx[b],
                self.queue == old(self).queue,
                self.poisoned == old(self).poisoned,
                self.messages == old(self).messages,
                self.next_id == old(self).next_id,
                frame_but_messages(*old(self), *self),
            decreases rest@.len(),
        {
            let ghost before = rest@;
            let e = rest.remove(0);
            proof {
                assert(rest@ =~= all.subrange(i + 1, all.len() as int));
                assert(e == all[i]);
            }
            let keep = match &e {
                Event::Item { item, .. } => item.is_some(),
                Event::Completed { result, .. } => result.is_some(),
            };
            if keep {
                let ghost pre = self.events@;
                self.events.push(e);
                proof {
                    assert(untaken_events(before) =~= seq![e] + untaken_events(rest@));
                    assert(self.events@ + untaken_events(rest@) =~= pre + untaken_events(before));
                    idx = idx.push(i);
                }
            } else {
                proof {
                    assert(untaken_events(before) == untaken_events(rest@));
                }
            }
            proof {
                i = i + 1;
            }
        }
        proof {
            assert(self.events@ + untaken_events(rest@) =~= self.events@);
            let ev = self.events@;
            assert forall|a: int, b: int|
                0 <= a < b < ev.len() && #[trigger] completed_id(ev[a]) is Some
                    && #[trigger] completed_id(ev[b]) is Some implies completed_id(ev[a])->0
                    < completed_id(ev[b])->0 by {
                assert(ev[a] == all[idx[a]]);
                assert(ev[b] == all[idx[b]]);
                assert(idx[a] < idx[b]);
            }
            assert forall|q: int|
                0 <= q < self.queue@.len() && !(#[trigger] self.queue@[q].stage is Done)
                    implies completed_below(ev, self.queue@[q].id) by {
                assert forall|j: int| 0 <= j < ev.len() && #[trigger] completed_id(ev[j]) is Some
                    implies completed_id(ev[j])->0 < self.queue@[q].id by {
                    assert(ev[j] == all[idx[j]]);
                }
            }
            assert forall|j: int| 0 <= j < ev.len() && #[trigger] completed_id(ev[j]) is Some
                implies completed_id(ev[j])->0 < self.next_id by {
                assert(ev[j] == all[idx[j]]);
            }
            assert forall|j: int| 0 <= j < ev.len() && #[trigger] item_id(ev[j]) is Some
                implies item_id(ev[j])->0 < self.next_id by {
                assert(ev[j] == all[idx[j]]);
            }
            assert forall|j: int, k: int|
                0 <= j < ev.len() && 0 <= k < ev.len() && #[trigger] item_id(ev[j]) is Some
                    && #[trigger] completed_id(ev[k]) == item_id(ev[j]) implies j < k by {
                assert(ev[j] == all[idx[j]]);
                assert(ev[k] == all[idx[k]]);
                assert(idx[j] < idx[k]);
                if j > k {
                    assert(idx[k] < idx[j]);
                }
            }
        }
    }

    /// Hands one message of the server to the operation at the head of the queue.
    fn dispatch(&mut self, msg: BackendMessage)
        requires
            old(self).wf(),
            old(self).poisoned is None,
        ensures
            final(self).wf(),
            final(self).mode == old(self).mode,
            final(self).messages == old(self).messages,
            final(self).outbound == old(self).outbound,
            final(self).parameters == old(self).parameters,
            final(self).cancel_data == old(self).cancel_data,
            final(self).password == old(self).password,
            final(self).rejection == old(self).rejection,
            final(self).next_id == old(self).next_id,
            final(self).names == old(self).names,
            dispatched(*old(self), msg, *final(self)),
    {
        if self.queue.len() == 0 {
            self.poison(Error::Protocol(Violation::NoPendingOperation));
            proof {
                assert(self.events@ =~= old(self).events@);
            }
            return ;
        }
        let ghost q = self.queue@;
        let ghost ev = self.events@;
        let head = self.queue.remove(0);
        let id = head.id;
        let kind = head.kind;
        let width = head.width;
        let was_done = match head.stage {
            Stage::Done => true,
            _ => false,
        };
        proof {
            assert(q =~= seq![q[0]] + self.queue@);
            assert forall|i: int| 0 <= i < self.queue@.len() implies #[trigger] self.queue@[i] == q[i + 1] by {}
        }
        let ghost rest = q.drop_first();
        proof {
            assert(rest =~= self.queue@);
        }
        match react(kind, head.stage, width, msg) {
            Reaction::Advance(stage) => {
                let ghost p = Pending { id, kind, width, stage };
                self.queue.insert(0, Pending { id, kind, width, stage });
                proof {
                    assert forall|i: int| 1 <= i < self.queue@.len() implies #[trigger] self.queue@[i] == q[i] by {}
                    assert(self.queue@ =~= seq![p] + rest);
                }
            },
            Reaction::Emit(stage, item) => {
                let ghost p = Pending { id, kind, width, stage };
                self.queue.insert(0, Pending { id, kind, width, stage });
                self.events.push(Event::Item { id, item: Some(item) });
                proof {
                    assert(self.queue@ =~= seq![p] + rest);
                    assert forall|i: int| 1 <= i < self.queue@.len() implies #[trigger] self.queue@[i] == q[i] by {}
                    assert(completed_id(self.events@.last()) is None);
                    assert forall|j: int| 0 <= j < ev.len() implies #[trigger] self.events@[j] == ev[j] by {}
                }
            },
            Reaction::Complete(result) => {
                self.queue.insert(0, Pending { id, kind, width, stage: Stage::Done });
                self.events.push(Event::Completed { id, result: Some(result) });
                proof {
                    assert(self.queue@ =~= seq![Pending { id, kind, width, stage: Stage::Done }] + rest);
                    assert forall|i: int| 1 <= i < self.queue@.len() implies #[trigger] self.queue@[i] == q[i] by {}
                    assert(completed_id(self.events@.last()) == Some(id));
                    assert forall|j: int| 0 <= j < ev.len() implies #[trigger] self.events@[j] == ev[j] by {}
                }
            },
            Reaction::Finish => {},
            Reaction::CompleteAndFinish(result) => {
                self.events.push(Event::Completed { id, result: Some(result) });
                proof {
                    assert(completed_id(self.events@.last()) == Some(id));
                    assert forall|j: int| 0 <= j < ev.len() implies #[trigger] self.events@[j] == ev[j] by {}
                }
            },
            Reaction::Violation => {
                let stage = if was_done {
                    Stage::Done
                } else {
                    Stage::Sent
                };
                self.queue.insert(0, Pending { id, kind, width, stage });
                proof {
                    assert forall|i: int| 1 <= i < self.queue@.len() implies #[trigger] self.queue@[i] == q[i] by {}
                    assert(failures(self.queue@, Error::Protocol(Violation::UnexpectedMessage))
                        =~= failures(q, Error::Protocol(Violation::UnexpectedMessage))) by {
                        lemma_failures_depend_on_ids(self.queue@, q, Error::Protocol(Violation::UnexpectedMessage));
                    }
                }
                self.poison(Error::Protocol(Violation::UnexpectedMessage));
            },
        }
    }

    /// Queues an operation of `kind` whose request is `request` and whose rows have
    /// `width` columns, and returns its number.
    /// On a poisoned connection nothing is sent and the operation fails at once with
    /// the connection's error.
    pub fn submit(&mut self, kind: OpKind, width: usize, request: Vec<FrontendMessage>) -> (id: u64)
        requires
            old(self).wf(),
            old(self).next_id < u64::MAX,
        ensures
            final(self).wf(),
            id == old(self).next_id,
            final(self).next_id == old(self).next_id + 1,
            final(self).mode == old(self).mode,
            final(self).poisoned == old(self).poisoned,
            final(self).messages == old(self).messages,
            final(self).parameters == old(self).parameters,
            final(self).cancel_data == old(self).cancel_data,
            final(self).names == old(self).names,
            old(self).poisoned is Some ==> {
                &&& final(self).outbound@ == old(self).outbound@
                &&& final(self).queue@ == old(self).queue@
                &&& final(self).events@ == old(self).events@.push(
                    Event::Completed { id, result: Some(Err(old(self).poisoned->0)) },
                )
            },
            old(self).poisoned is None ==> {
                &&& final(self).outbound@ == old(self).outbound@ + request@
                &&& final(self).queue@ == old(self).queue@.push(
                    Pending { id, kind, width, stage: Stage::Sent },
                )
                &&& final(self).events@ == old(self).events@
            },
    {
        let id = self.next_id;
        match &self.poisoned {
            Some(cause) => {
                let e = cause.copy_fatal();
                self.events.push(Event::Completed { id, result: Some(Err(e)) });
                proof {
                    assert(completed_id(self.events@.last()) == Some(id));
                }
            },
            None => {
                let mut request = request;
                self.outbound.append(&mut request);
                self.queue.push(Pending { id, kind, width, stage: Stage::Sent });
            },
        }
        self.next_id = id + 1;
        id
    }
}

/// Results are delivered in the order in which their operations were submitted: operation
/// numbers grow with each submission, and of two results in the events the earlier one
/// belongs to the operation with the smaller number, whatever was taken out in between.
pub proof fn lemma_results_in_submission_order(c: Connection, i: int, j: int)
    requires
        c.wf(),
        0 <= i < j < c.events@.len(),
        completed_id(c.events@[i]) is Some,
        completed_id(c.events@[j]) is Some,
    ensures
        completed_id(c.events@[i])->0 < completed_id(c.events@[j])->0,
{
}

/// A result appended after results of lower-numbered operations only is the one that
/// its operation finds.
pub proof fn lemma_result_in_push(events: Seq<Event>, id: u64, r: Result<Outcome, Error>)
    requires
        completed_below(events, id),
    ensures
        result_in(events.push(Event::Completed { id, result: Some(r) }), id) == Some(r),
    decreases events.len(),
{
    let x = Event::Completed { id, result: Some(r) };
    if events.len() > 0 {
        assert(events.push(x).drop_first() =~= events.drop_first().push(x));
        assert(events.push(x)[0] == events[0]);
        assert forall|j: int|
            0 <= j < events.drop_first().len() && #[trigger] completed_id(events.drop_first()[j]) is Some
                implies completed_id(events.drop_first()[j])->0 < id by {
            assert(events.drop_first()[j] == events[j + 1]);
        }
        lemma_result_in_push(events.drop_first(), id, r);
        if completed_id(events[0]) is Some {
            assert(completed_id(events[0])->0 < id);
        }
    } else {
        assert(events.push(x).drop_first() =~= Seq::<Event>::empty());
    }
}

/// An operation none of whose stream items is in `events` finds none.
pub proof fn lemma_items_in_absent(events: Seq<Event>, id: u64)
    requires
        forall|k: int| 0 <= k < events.len() ==> #[trigger] item_id(events[k]) != Some(id),
    ensures
        items_in(events, id).len() == 0,
    decreases events.len(),
{
    if events.len() > 0 {
        assert(item_id(events.last()) != Some(id));
        assert forall|k: int| 0 <= k < events.drop_last().len() implies #[trigger] item_id(events.drop_last()[k]) != Some(id) by {
            assert(events.drop_last()[k] == events[k]);
        }
        lemma_items_in_absent(events.drop_last(), id);
    }
}

/// Taking stream items leaves every result where it was.
pub proof fn lemma_result_in_items_taken(s: Seq<Event>, id: u64, d: u64)
    ensures
        result_in(s.map_values(|e: Event| item_taken(e, id)), d) == result_in(s, d),
    decreases s.len(),
{
    let m = s.map_values(|e: Event| item_taken(e, id));
    if s.len() > 0 {
        assert(m.drop_first() =~= s.drop_first().map_values(|e: Event| item_taken(e, id)));
        assert(m[0] == item_taken(s[0], id));
        lemma_result_in_items_taken(s.drop_first(), id, d);
    }
}

/// Emptying a result leaves every stream item where it was.
pub proof fn lemma_items_in_result_taken(s: Seq<Event>, i: int, id: u64, d: u64)
    requires
        0 <= i < s.len(),
        s[i] is Completed,
    ensures
        items_in(s.update(i, Event::Completed { id, result: None }), d) == items_in(s, d),
    decreases s.len(),
{
    let u = s.update(i, Event::Completed { id, result: None });
    if i == s.len() - 1 {
        assert(u.drop_last() =~= s.drop_last());
    } else {
        assert(u.drop_last() =~= s.drop_last().update(i, Event::Completed { id, result: None }));
        assert(u.last() == s.last());
        lemma_items_in_result_taken(s.drop_last(), i, id, d);
    }
}

impl Connection {
    /// Gives up the result and the stream items of operation `id`, whose handle is no
    /// longer wanted: its reply is still read in turn, and what it brings is dropped by
    /// `discard_taken`. The other operations keep theirs.
    pub fn forget(&mut self, id: u64)
        requires
            old(self).wf(),
        ensures
            final(self).wf(),
            result_in(final(self).events@, id) is None,
            items_in(final(self).events@, id).len() == 0,
            forall|d: u64| d != id ==> #[trigger] result_in(final(self).events@, d) == result_in(old(self).events@, d),
            forall|d: u64| d != id ==> #[trigger] items_in(final(self).events@, d) == items_in(old(self).events@, d),
            final(self).queue == old(self).queue,
            final(self).poisoned == old(self).poisoned,
            final(self).messages == old(self).messages,
            frame_but_messages(*old(self), *final(self)),
    {
        let ghost e0 = self.events@;
        let _items = self.take_items(id);
        let ghost e1 = self.events@;
        let r = self.take_result(id);
        proof {
            assert forall|d: u64| #[trigger] result_in(e1, d) == result_in(e0, d) by {
                lemma_result_in_items_taken(e0, id, d);
            }
            if r is Some {
                let i = choose|i: int|
                    0 <= i < e1.len() && e1[i] == (Event::Completed { id, result: r })
                        && self.events@ == e1.update(i, Event::Completed { id, result: None });
                assert forall|d: u64| #[trigger] items_in(self.events@, d) == items_in(e1, d) by {
                    lemma_items_in_result_taken(e1, i, id, d);
                }
            }
        }
    }
}

} // verus!
