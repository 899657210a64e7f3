use vstd::prelude::*;
use crate::connection::{
    frame_but_messages, item_id, item_taken, items_in, lemma_items_in_absent,
    lemma_items_in_result_taken, lemma_result_in_items_taken, lemma_result_in_push, result_in, Connection, Event, Pending,
};
use crate::names::{portal_name, statement_name};
use crate::operation::{reaction, Item, OpKind, Outcome, Reaction, Stage};
use crate::protocol::{BackendMessage, Column, Error, FrontendMessage, Violation};
use crate::transaction::TransactionBuilder;

verus! {

/// A copy of `v`.
fn copy_bytes(v: &Vec<u8>) -> (r: Vec<u8>)
    ensures
        r@ == v@,
{
    let mut r: Vec<u8> = Vec::new();
    let mut i: usize = 0;
    while i < v.len()
        invariant
            0 <= i <= v@.len(),
            r@ == v@.subrange(0, i as int),
        decreases v@.len() - i,
    {
        r.push(v[i]);
        i = i + 1;
        proof {
            assert(r@ =~= v@.subrange(0, i as int));
        }
    }
    r
}

/// A copy of `v`.
fn copy_types(v: &[u32]) -> (r: Vec<u32>)
    ensures
        r@ == v@,
{
    let mut r: Vec<u32> = Vec::new();
    let mut i: usize = 0;
    while i < v.len()
        invariant
            0 <= i <= v@.len(),
            r@ == v@.subrange(0, i as int),
        decreases v@.len() - i,
    {
        r.push(v[i]);
        i = i + 1;
        proof {
            assert(r@ =~= v@.subrange(0, i as int));
        }
    }
    r
}

/// `a` and `b` list the same columns: names and types, in order.
pub open spec fn same_columns(a: Seq<Column>, b: Seq<Column>) -> bool {
    &&& a.len() == b.len()
    &&& forall|i: int| 0 <= i < a.len() ==> (#[trigger] a[i]).name@ == b[i].name@ && a[i].type_oid == b[i].type_oid
}

/// A copy of `v`.
fn copy_columns(v: &[Column]) -> (r: Vec<Column>)
    ensures
        same_columns(r@, v@),
{
    let mut r: Vec<Column> = Vec::new();
    let mut i: usize = 0;
    while i < v.len()
        invariant
            0 <= i <= v@.len(),
            r@.len() == i,
            forall|k: int| 0 <= k < i ==> (#[trigger] r@[k]).name@ == v@[k].name@ && r@[k].type_oid == v@[k].type_oid,
        decreases v@.len() - i,
    {
        r.push(Column { name: v[i].name.clone(), type_oid: v[i].type_oid });
        i = i + 1;
    }
    r
}

/// A prepared statement.
#[derive(Debug)]
pub struct Statement {
    pub name: Vec<u8>,
    pub params: Vec<u32>,
    pub columns: Vec<Column>,
}

impl Statement {
    /// The object ids of the parameter types.
    pub fn params(&self) -> (r: &[u32])
        ensures
            r@ == self.params@,
    {
        self.params.as_slice()
    }

    /// The result columns.
    pub fn columns(&self) -> (r: &[Column])
        ensures
            r@ == self.columns@,
    {
        self.columns.as_slice()
    }
}

/// A bound portal, from which rows are fetched in batches.
#[derive(Debug)]
pub struct Portal {
    pub name: Vec<u8>,
    /// The columns of the statement it was bound from.
    pub columns: Vec<Column>,
}

/// One row of a result: the raw value of each column, `None` for SQL NULL, and the
/// columns of the statement it came from, as many as the values.
#[derive(Debug, PartialEq, Eq)]
pub struct Row {
    values: Vec<Option<Vec<u8>>>,
    columns: Vec<Column>,
}

impl Row {
    #[verifier::type_invariant]
    spec fn well_formed(&self) -> bool {
        self.values@.len() == self.columns@.len()
    }

    /// The raw values, in column order.
    pub closed spec fn values_view(&self) -> Seq<Option<Vec<u8>>> {
        self.values@
    }

    /// The columns of the statement that the row came from.
    pub closed spec fn columns_view(&self) -> Seq<Column> {
        self.columns@
    }

    /// The columns of the statement that the row came from.
    pub fn columns(&self) -> (r: &[Column])
        ensures
            r@ == self.columns_view(),
    {
        self.columns.as_slice()
    }

    /// The number of columns, which is the number of values.
    pub fn len(&self) -> (r: usize)
        ensures
            r == self.columns_view().len(),
            r == self.values_view().len(),
    {
        proof {
            use_type_invariant(self);
        }
        self.columns.len()
    }

    /// The raw value of column `idx`, `None` for SQL NULL.
    pub fn get(&self, idx: usize) -> (r: Option<&Vec<u8>>)
        requires
            idx < self.columns_view().len(),
        ensures
            r is Some <==> self.values_view()[idx as int] is Some,
            r is Some ==> r->0 == self.values_view()[idx as int]->0,
    {
        proof {
            use_type_invariant(self);
        }
        self.values[idx].as_ref()
    }

    /// The raw value of column `idx`: `None` where there is no such column, `Some(None)`
    /// for SQL NULL.
    pub fn try_get(&self, idx: usize) -> (r: Option<Option<&Vec<u8>>>)
        ensures
            idx < self.values_view().len() ==> r is Some && (r->0 is Some <==> self.values_view()[idx as int] is Some)
                && (r->0 is Some ==> r->0->0 == self.values_view()[idx as int]->0),
            idx >= self.values_view().len() ==> r is None,
    {
        if idx < self.values.len() {
            Some(self.values[idx].as_ref())
        } else {
            None
        }
    }
}

/// The rows among `items` that have `width` values, in order. The driver lets no row of
/// another width through to a Query or QueryPortal.
pub open spec fn rows_of(items: Seq<Item>, width: nat) -> Seq<Seq<Option<Vec<u8>>>>
    decreases items.len(),
{
    if items.len() == 0 {
        Seq::empty()
    } else {
        match items[0] {
            Item::Row(v) => if v@.len() == width {
                seq![v@].add(rows_of(items.drop_first(), width))
            } else {
                rows_of(items.drop_first(), width)
            },
            _ => rows_of(items.drop_first(), width),
        }
    }
}

/// The copy data chunks among `items`, in order.
pub open spec fn chunks_of(items: Seq<Item>) -> Seq<Seq<u8>>
    decreases items.len(),
{
    if items.len() == 0 {
        Seq::empty()
    } else {
        match items[0] {
            Item::Chunk(d) => seq![d@].add(chunks_of(items.drop_first())),
            _ => chunks_of(items.drop_first()),
        }
    }
}

fn into_rows(items: Vec<Item>, columns: &Vec<Column>) -> (r: Vec<Row>)
    ensures
        r@.map_values(|row: Row| row.values_view()) == rows_of(items@, columns@.len()),
        forall|k: int| 0 <= k < r@.len() ==> same_columns((#[trigger] r@[k]).columns_view(), columns@),
{
    let mut items = items;
    let ghost all = items@;
    let mut r: Vec<Row> = Vec::new();
    while items.len() > 0
        invariant
            r@.map_values(|row: Row| row.values_view()) + rows_of(items@, columns@.len()) == rows_of(all, columns@.len()),
            forall|k: int| 0 <= k < r@.len() ==> same_columns((#[trigger] r@[k]).columns_view(), columns@),
        decreases items@.len(),
    {
        let ghost before = items@;
        let it = items.remove(0);
        proof {
            assert(items@ =~= before.drop_first());
        }
        match it {
            Item::Row(v) => {
                if v.len() != columns.len() {
                    proof {
                        assert(rows_of(before, columns@.len()) == rows_of(items@, columns@.len()));
                    }
                    continue;
                }
                let ghost pre = r@;
                r.push(Row { values: v, columns: copy_columns(columns) });
                proof {
                    assert(r@.map_values(|row: Row| row.values_view()) =~= pre.map_values(
                        |row: Row| row.values_view(),
                    ).push(v@));
                    assert(rows_of(before, columns@.len()) =~= seq![v@].add(rows_of(items@, columns@.len())));
                    assert(r@.map_values(|row: Row| row.values_view()) + rows_of(items@, columns@.len()) =~= pre.map_values(
                        |row: Row| row.values_view(),
                    ) + rows_of(before, columns@.len()));
                }
            },
            Item::Chunk(_) => {},
        }
    }
    proof {
        assert(r@.map_values(|row: Row| row.values_view()) + rows_of(items@, columns@.len()) =~= r@.map_values(
            |row: Row| row.values_view(),
        ));
    }
    r
}

fn into_chunks(items: Vec<Item>) -> (r: Vec<Vec<u8>>)
    ensures
        r@.map_values(|c: Vec<u8>| c@) == chunks_of(items@),
{
    let mut items = items;
    let ghost all = items@;
    let mut r: Vec<Vec<u8>> = Vec::new();
    while items.len() > 0
        invariant
            r@.map_values(|c: Vec<u8>| c@) + chunks_of(items@) == chunks_of(all),
        decreases items@.len(),
    {
        let ghost before = items@;
        let it = items.remove(0);
        proof {
            assert(items@ =~= before.drop_first());
        }
        match it {
            Item::Chunk(d) => {
                let ghost pre = r@;
                r.push(d);
                proof {
                    assert(r@.map_values(|c: Vec<u8>| c@) =~= pre.map_values(|c: Vec<u8>| c@).push(
                        d@,
                    ));
                    assert(chunks_of(before) =~= seq![d@].add(chunks_of(items@)));
                    assert(r@.map_values(|c: Vec<u8>| c@) + chunks_of(items@) =~= pre.map_values(
                        |c: Vec<u8>| c@,
                    ) + chunks_of(before));
                }
            },
            Item::Row(_) => {},
        }
    }
    proof {
        assert(r@.map_values(|c: Vec<u8>| c@) + chunks_of(items@) =~= r@.map_values(
            |c: Vec<u8>| c@,
        ));
    }
    r
}

} // verus!

verus! {

/// `m` is the request that prepares `query` under `name` with the given parameter types.
pub open spec fn prepare_request(
    m: Seq<FrontendMessage>,
    name: Seq<u8>,
    query: Seq<char>,
    types: Seq<u32>,
) -> bool {
    &&& m.len() == 3
    &&& m[0] matches FrontendMessage::Parse { name: n, query: q, param_types: t } && n@ == name
        && q@ == query && t@ == types
    &&& m[1] matches FrontendMessage::DescribeStatement { name: n } && n@ == name
    &&& m[2] == FrontendMessage::Sync
}

/// `m` binds `params` to `statement` in the portal `portal`, then syncs.
pub open spec fn bind_request(
    m: Seq<FrontendMessage>,
    portal: Seq<u8>,
    statement: Seq<u8>,
    params: Seq<Option<Vec<u8>>>,
) -> bool {
    &&& m.len() == 2
    &&& m[0] matches FrontendMessage::Bind { portal: p, statement: s, params: v } && p@ == portal
        && s@ == statement && v@ == params
    &&& m[1] == FrontendMessage::Sync
}

/// The start of `m` binds `params` to `statement` in the unnamed portal and runs it for
/// all its rows.
pub open spec fn bind_execute_prefix(
    m: Seq<FrontendMessage>,
    statement: Seq<u8>,
    params: Seq<Option<Vec<u8>>>,
) -> bool {
    &&& m.len() >= 2
    &&& m[0] matches FrontendMessage::Bind { portal: p, statement: s, params: v } && p@.len() == 0
        && s@ == statement && v@ == params
    &&& m[1] matches FrontendMessage::Execute { portal: p, max_rows } && p@.len() == 0 && max_rows
        == 0
}

/// `m` binds `params` to `statement` in the unnamed portal, runs it, and syncs.
pub open spec fn bind_execute_request(
    m: Seq<FrontendMessage>,
    statement: Seq<u8>,
    params: Seq<Option<Vec<u8>>>,
) -> bool {
    &&& m.len() == 3
    &&& bind_execute_prefix(m, statement, params)
    &&& m[2] == FrontendMessage::Sync
}

/// `m` is a COPY FROM STDIN of `statement` with `params` that sends `data`, then ends the
/// copy, with `failure` as the reason where the source failed.
pub open spec fn copy_in_request(
    m: Seq<FrontendMessage>,
    statement: Seq<u8>,
    params: Seq<Option<Vec<u8>>>,
    data: Seq<Seq<u8>>,
    failure: Option<Seq<char>>,
) -> bool {
    &&& m.len() == data.len() + 4
    &&& bind_execute_prefix(m, statement, params)
    &&& forall|k: int|
        0 <= k < data.len() ==> (#[trigger] m[k + 2] matches FrontendMessage::CopyData(d) && d@
            == data[k])
    &&& match failure {
        None => m[m.len() - 2] == FrontendMessage::CopyDone,
        Some(reason) => m[m.len() - 2] matches FrontendMessage::CopyFail { message } && message@
            == reason,
    }
    &&& m[m.len() - 1] == FrontendMessage::Sync
}

/// The new messages of `post`'s outbound buffer.
pub open spec fn sent(pre: Connection, post: Connection) -> Seq<FrontendMessage> {
    post.outbound@.subrange(pre.outbound@.len() as int, post.outbound@.len() as int)
}

/// `post` is `pre` with operation `id` of `kind` queued: its request, which `request`
/// describes, was added to the outbound buffer. On a poisoned connection nothing was sent
/// and the operation failed at once with the connection's error.
pub open spec fn enqueued(
    pre: Connection,
    post: Connection,
    id: u64,
    kind: OpKind,
    width: usize,
    request: spec_fn(Seq<FrontendMessage>) -> bool,
) -> bool {
    &&& post.wf()
    &&& id == pre.next_id
    &&& post.next_id == pre.next_id + 1
    &&& post.poisoned == pre.poisoned
    &&& post.mode == pre.mode
    &&& post.messages == pre.messages
    &&& post.parameters == pre.parameters
    &&& post.cancel_data == pre.cancel_data
    &&& pre.poisoned is Some ==> {
        &&& post.outbound@ == pre.outbound@
        &&& post.queue@ == pre.queue@
        &&& post.events@ == pre.events@.push(
            Event::Completed { id, result: Some(Err(pre.poisoned->0)) },
        )
    }
    &&& pre.poisoned is None ==> {
        &&& post.queue@ == pre.queue@.push(Pending { id, kind, width, stage: Stage::Sent })
        &&& post.events@ == pre.events@
        &&& post.outbound@.len() >= pre.outbound@.len()
        &&& post.outbound@.subrange(0, pre.outbound@.len() as int) == pre.outbound@
        &&& request(sent(pre, post))
    }
}

impl Connection {
    /// There is room for one more operation.
    pub open spec fn can_submit(&self) -> bool {
        &&& self.wf()
        &&& self.next_id < u64::MAX
    }
}

/// Once a connection is poisoned, an operation queued on it sends nothing, its handle
/// finds at once the error that poisoned the connection, and it has no rows. A poisoned
/// connection ignores every later message, so none can come.
pub proof fn lemma_poisoned_connection_fails_fast(
    pre: Connection,
    post: Connection,
    id: u64,
    kind: OpKind,
    width: usize,
    request: spec_fn(Seq<FrontendMessage>) -> bool,
)
    requires
        pre.wf(),
        pre.poisoned is Some,
        enqueued(pre, post, id, kind, width, request),
    ensures
        post.poisoned == pre.poisoned,
        post.outbound@ == pre.outbound@,
        result_in(post.events@, id) == Some(Err::<Outcome, Error>(pre.poisoned->0)),
        items_in(post.events@, id).len() == 0,
{
    lemma_result_in_push(pre.events@, id, Err(pre.poisoned->0));
    assert forall|k: int| 0 <= k < post.events@.len() implies #[trigger] item_id(post.events@[k]) != Some(id) by {
        if k < pre.events@.len() {
            assert(post.events@[k] == pre.events@[k]);
        }
    }
    lemma_items_in_absent(post.events@, id);
}

proof fn lemma_sent(pre: Connection, post: Connection, request: Seq<FrontendMessage>)
    requires
        post.outbound@ == pre.outbound@ + request,
    ensures
        sent(pre, post) == request,
        post.outbound@.subrange(0, pre.outbound@.len() as int) == pre.outbound@,
{
    assert(sent(pre, post) =~= request);
    assert(post.outbound@.subrange(0, pre.outbound@.len() as int) =~= pre.outbound@);
}

/// A handle through which operations are queued on a connection. It does no I/O: the
/// connection's driver sends what was queued and routes the replies.
#[derive(Clone, Copy, Debug)]
pub struct Client {}

impl Client {
    pub fn new() -> Client {
        Client {  }
    }

    /// Prepares `query` with the parameter types left to the server.
    pub fn prepare(&mut self, conn: &mut Connection, query: &str) -> (r: Prepare)
        requires
            old(conn).can_submit(),
            old(conn).names.statements < u64::MAX,
        ensures
            enqueued(
                *old(conn),
                *final(conn),
                r.id,
                OpKind::Prepare,
                0,
                |m: Seq<FrontendMessage>| prepare_request(m, r.name@, query@, Seq::empty()),
            ),
            r.name@ == statement_name(old(conn).names.statements as nat),
            final(conn).names.statements == old(conn).names.statements + 1,
            final(conn).names.portals == old(conn).names.portals,
    {
        let param_types_empty: [u32; 0] = [];
        let r = self.prepare_typed(conn, query, &param_types_empty);
        proof {
            if old(conn).poisoned is None {
                assert(param_types_empty@ =~= Seq::<u32>::empty());
            }
        }
        r
    }

    /// Prepares `query`, giving the types of the parameters by their object ids.
    pub fn prepare_typed(&mut self, conn: &mut Connection, query: &str, param_types: &[u32]) -> (r:
        Prepare)
        requires
            old(conn).can_submit(),
            old(conn).names.statements < u64::MAX,
        ensures
            enqueued(
                *old(conn),
                *final(conn),
                r.id,
                OpKind::Prepare,
                0,
                |m: Seq<FrontendMessage>| prepare_request(m, r.name@, query@, param_types@),
            ),
            r.name@ == statement_name(old(conn).names.statements as nat),
            final(conn).names.statements == old(conn).names.statements + 1,
            final(conn).names.portals == old(conn).names.portals,
    {
        let name = conn.names.next_statement();
        let mut request: Vec<FrontendMessage> = Vec::new();
        request.push(
            FrontendMessage::Parse {
                name: copy_bytes(&name),
                query: query.to_owned(),
                param_types: copy_types(param_types),
            },
        );
        request.push(FrontendMessage::DescribeStatement { name: copy_bytes(&name) });
        request.push(FrontendMessage::Sync);
        let ghost pre = *conn;
        let id = conn.submit(OpKind::Prepare, 0, request);
        proof {
            if pre.poisoned is None {
                lemma_sent(pre, *conn, request@);
            }
        }
        Prepare { id, name }
    }

    /// Runs `statement` with the encoded `params`, for the number of rows it affects.
    pub fn execute(
        &mut self,
        conn: &mut Connection,
        statement: &Statement,
        params: Vec<Option<Vec<u8>>>,
    ) -> (r: Execute)
        requires
            old(conn).can_submit(),
        ensures
            enqueued(
                *old(conn),
                *final(conn),
                r.id,
                OpKind::Execute,
                0,
                |m: Seq<FrontendMessage>| bind_execute_request(m, statement.name@, params@),
            ),
            final(conn).names == old(conn).names,
    {
        let id = self.submit_bound(conn, OpKind::Execute, 0, statement, params);
        Execute { id }
    }

    /// Runs `statement` with the encoded `params`, for its rows.
    pub fn query(
        &mut self,
        conn: &mut Connection,
        statement: &Statement,
        params: Vec<Option<Vec<u8>>>,
    ) -> (r: Query)
        requires
            old(conn).can_submit(),
        ensures
            enqueued(
                *old(conn),
                *final(conn),
                r.id,
                OpKind::Query,
                statement.columns@.len() as usize,
                |m: Seq<FrontendMessage>| bind_execute_request(m, statement.name@, params@),
            ),
            final(conn).names == old(conn).names,
            same_columns(r.columns@, statement.columns@),
    {
        let columns = copy_columns(&statement.columns);
        let id = self.submit_bound(conn, OpKind::Query, statement.columns.len(), statement, params);
        Query { id, columns }
    }

    /// Runs `statement`, a COPY TO STDOUT, with the encoded `params`, for its data.
    pub fn copy_out(
        &mut self,
        conn: &mut Connection,
        statement: &Statement,
        params: Vec<Option<Vec<u8>>>,
    ) -> (r: CopyOut)
        requires
            old(conn).can_submit(),
        ensures
            enqueued(
                *old(conn),
                *final(conn),
                r.id,
                OpKind::CopyOut,
                0,
                |m: Seq<FrontendMessage>| bind_execute_request(m, statement.name@, params@),
            ),
            final(conn).names == old(conn).names,
    {
        let id = self.submit_bound(conn, OpKind::CopyOut, 0, statement, params);
        CopyOut { id }
    }

    fn submit_bound(
        &mut self,
        conn: &mut Connection,
        kind: OpKind,
        width: usize,
        statement: &Statement,
        params: Vec<Option<Vec<u8>>>,
    ) -> (id: u64)
        requires
            old(conn).can_submit(),
        ensures
            enqueued(
                *old(conn),
                *final(conn),
                id,
                kind,
                width,
                |m: Seq<FrontendMessage>| bind_execute_request(m, statement.name@, params@),
            ),
            final(conn).names == old(conn).names,
    {
        let mut request: Vec<FrontendMessage> = Vec::new();
        request.push(
            FrontendMessage::Bind {
                portal: Vec::new(),
                statement: copy_bytes(&statement.name),
                params,
            },
        );
        request.push(FrontendMessage::Execute { portal: Vec::new(), max_rows: 0 });
        request.push(FrontendMessage::Sync);
        proof {
            assert(bind_execute_request(request@, statement.name@, params@));
        }
        let ghost pre = *conn;
        let id = conn.submit(kind, width, request);
        proof {
            if pre.poisoned is None {
                lemma_sent(pre, *conn, request@);
                assert(bind_execute_request(sent(pre, *conn), statement.name@, params@));
            }
            assert(conn.wf());
            assert(id == pre.next_id);
        }
        id
    }

    /// Binds the encoded `params` to `statement` in a new portal.
    pub fn bind(
        &mut self,
        conn: &mut Connection,
        statement: &Statement,
        params: Vec<Option<Vec<u8>>>,
    ) -> (r: Bind)
        requires
            old(conn).can_submit(),
            old(conn).names.portals < u64::MAX,
        ensures
            enqueued(
                *old(conn),
                *final(conn),
                r.id,
                OpKind::Bind,
                0,
                |m: Seq<FrontendMessage>| bind_request(m, r.portal@, statement.name@, params@),
            ),
            r.portal@ == portal_name(old(conn).names.portals as nat),
            same_columns(r.columns@, statement.columns@),
            final(conn).names.portals == old(conn).names.portals + 1,
            final(conn).names.statements == old(conn).names.statements,
    {
        let portal = conn.names.next_portal();
        let mut request: Vec<FrontendMessage> = Vec::new();
        request.push(
            FrontendMessage::Bind {
                portal: copy_bytes(&portal),
                statement: copy_bytes(&statement.name),
                params,
            },
        );
        request.push(FrontendMessage::Sync);
        let ghost pre = *conn;
        let id = conn.submit(OpKind::Bind, 0, request);
        proof {
            if pre.poisoned is None {
                lemma_sent(pre, *conn, request@);
            }
        }
        Bind { id, portal, columns: copy_columns(&statement.columns) }
    }

    /// Fetches at most `max_rows` further rows of `portal`, all of them where `max_rows`
    /// is 0.
    pub fn query_portal(&mut self, conn: &mut Connection, portal: &Portal, max_rows: i32) -> (r:
        QueryPortal)
        requires
            old(conn).can_submit(),
        ensures
            enqueued(
                *old(conn),
                *final(conn),
                r.id,
                OpKind::QueryPortal,
                portal.columns@.len() as usize,
                |m: Seq<FrontendMessage>|
                    {
                        &&& m.len() == 2
                        &&& m[0] matches FrontendMessage::Execute { portal: p, max_rows: n } && p@
                            == portal.name@ && n == max_rows
                        &&& m[1] == FrontendMessage::Sync
                    },
            ),
            final(conn).names == old(conn).names,
            same_columns(r.columns@, portal.columns@),
    {
        let mut request: Vec<FrontendMessage> = Vec::new();
        request.push(FrontendMessage::Execute { portal: copy_bytes(&portal.name), max_rows });
        request.push(FrontendMessage::Sync);
        let ghost pre = *conn;
        let id = conn.submit(OpKind::QueryPortal, portal.columns.len(), request);
        proof {
            if pre.poisoned is None {
                lemma_sent(pre, *conn, request@);
            }
        }
        QueryPortal { id, columns: copy_columns(&portal.columns) }
    }

    /// Runs `statement`, a COPY FROM STDIN, with the encoded `params`, sending the chunks of
    /// `data` in order. Where the source of the data failed, `failure` gives the reason,
    /// and the copy is aborted with it after the chunks that came before.
    pub fn copy_in(
        &mut self,
        conn: &mut Connection,
        statement: &Statement,
        params: Vec<Option<Vec<u8>>>,
        data: Vec<Vec<u8>>,
        failure: Option<String>,
    ) -> (r: CopyIn)
        requires
            old(conn).can_submit(),
        ensures
            enqueued(
                *old(conn),
                *final(conn),
                r.id,
                OpKind::CopyIn,
                0,
                |m: Seq<FrontendMessage>|
                    copy_in_request(
                        m,
                        statement.name@,
                        params@,
                        data@.map_values(|c: Vec<u8>| c@),
                        match failure {
                            Some(s) => Some(s@),
                            None => None,
                        },
                    ),
            ),
            final(conn).names == old(conn).names,
    {
        let ghost chunks = data@.map_values(|c: Vec<u8>| c@);
        let ghost reason: Option<Seq<char>> = match &failure {
            Some(s) => Some(s@),
            None => None,
        };
        let mut request: Vec<FrontendMessage> = Vec::new();
        request.push(
            FrontendMessage::Bind {
                portal: Vec::new(),
                statement: copy_bytes(&statement.name),
                params,
            },
        );
        request.push(FrontendMessage::Execute { portal: Vec::new(), max_rows: 0 });
        let mut data = data;
        let n = data.len();
        let mut k: usize = 0;
        while data.len() > 0
            invariant
                request@.len() == k + 2,
                k + data@.len() == n,
                n == chunks.len(),
                bind_execute_prefix(request@, statement.name@, params@),
                forall|j: int| 0 <= j < data@.len() ==> #[trigger] data@[j]@ == chunks[k + j],
                forall|j: int|
                    0 <= j < k ==> (#[trigger] request@[j + 2] matches FrontendMessage::CopyData(d)
                        && d@ == chunks[j]),
            decreases data@.len(),
        {
            let ghost before = data@;
            let chunk = data.remove(0);
            proof {
                assert(chunk@ == chunks[k as int]);
                assert forall|j: int| 0 <= j < data@.len() implies #[trigger] data@[j]@ == chunks[k + 1 + j] by {
                    assert(data@[j] == before[j + 1]);
                }
            }
            request.push(FrontendMessage::CopyData(chunk));
            k = k + 1;
        }
        match failure {
            Some(message) => request.push(FrontendMessage::CopyFail { message }),
            None => request.push(FrontendMessage::CopyDone),
        }
        request.push(FrontendMessage::Sync);
        proof {
            assert(copy_in_request(request@, statement.name@, params@, chunks, reason));
        }
        let ghost pre = *conn;
        let id = conn.submit(OpKind::CopyIn, 0, request);
        proof {
            if pre.poisoned is None {
                lemma_sent(pre, *conn, request@);
            }
        }
        CopyIn { id }
    }

    /// A builder of transactions whose bracketing statements go through this client.
    pub fn transaction(&mut self) -> (r: TransactionBuilder) {
        TransactionBuilder {  }
    }

    /// Runs `sql`, which may hold several statements and no parameters.
    pub fn batch_execute(&mut self, conn: &mut Connection, sql: &str) -> (r: BatchExecute)
        requires
            old(conn).can_submit(),
        ensures
            enqueued(
                *old(conn),
                *final(conn),
                r.id,
                OpKind::BatchExecute,
                0,
                |m: Seq<FrontendMessage>|
                    m.len() == 1 && (m[0] matches FrontendMessage::Query { sql: q } && q@ == sql@),
            ),
            final(conn).names == old(conn).names,
    {
        let mut request: Vec<FrontendMessage> = Vec::new();
        request.push(FrontendMessage::Query { sql: sql.to_owned() });
        let ghost pre = *conn;
        let id = conn.submit(OpKind::BatchExecute, 0, request);
        proof {
            if pre.poisoned is None {
                lemma_sent(pre, *conn, request@);
            }
        }
        BatchExecute { id }
    }
}

} // verus!

verus! {

/// `post` is `pre` after a handle took something out of its events.
pub open spec fn took(pre: Connection, post: Connection) -> bool {
    &&& post.wf()
    &&& post.queue == pre.queue
    &&& post.poisoned == pre.poisoned
    &&& post.messages == pre.messages
    &&& frame_but_messages(pre, post)
}

/// `post` is `pre` after the handle of operation `id` took its result: the one result
/// of that operation was emptied, and nothing else changed.
pub open spec fn took_result(pre: Connection, post: Connection, id: u64) -> bool {
    &&& took(pre, post)
    &&& match result_in(pre.events@, id) {
        None => post.events@ == pre.events@,
        Some(r) => exists|i: int|
            0 <= i < pre.events@.len() && pre.events@[i] == (Event::Completed { id, result: Some(r) })
                && post.events@ == pre.events@.update(i, Event::Completed { id, result: None }),
    }
    &&& result_in(post.events@, id) is None
    &&& forall|d: u64| d != id ==> #[trigger] result_in(post.events@, d) == result_in(pre.events@, d)
}

/// `post` is `pre` after the handle of operation `id` took its stream items: those were
/// emptied, and nothing else changed.
pub open spec fn took_items(pre: Connection, post: Connection, id: u64) -> bool {
    &&& took(pre, post)
    &&& post.events@ == pre.events@.map_values(|e: Event| item_taken(e, id))
    &&& items_in(post.events@, id).len() == 0
    &&& forall|d: u64| d != id ==> #[trigger] items_in(post.events@, d) == items_in(pre.events@, d)
}

/// What a handle that waits for `expected` reports of the result `r`.
pub open spec fn result_as(
    r: Option<Result<Outcome, Error>>,
    expected: spec_fn(Outcome) -> bool,
) -> Option<Result<(), Error>> {
    match r {
        None => None,
        Some(Err(e)) => Some(Err(e)),
        Some(Ok(o)) => if expected(o) {
            Some(Ok(()))
        } else {
            Some(Err(Error::Protocol(Violation::UnexpectedMessage)))
        },
    }
}

/// The number of rows that an Execute or CopyIn handle reports for the result `r`.
pub open spec fn count_result(r: Option<Result<Outcome, Error>>) -> Option<Result<u64, Error>> {
    match r {
        None => None,
        Some(Err(e)) => Some(Err(e)),
        Some(Ok(Outcome::RowsAffected(n))) => Some(Ok(n)),
        Some(Ok(_)) => Some(Err(Error::Protocol(Violation::UnexpectedMessage))),
    }
}

fn count_of(r: Option<Result<Outcome, Error>>) -> (c: Option<Result<u64, Error>>)
    ensures
        c == count_result(r),
{
    match r {
        None => None,
        Some(Err(e)) => Some(Err(e)),
        Some(Ok(Outcome::RowsAffected(n))) => Some(Ok(n)),
        Some(Ok(_)) => Some(Err(Error::Protocol(Violation::UnexpectedMessage))),
    }
}

/// Whether a result is that of a command that completed.
pub open spec fn is_done(o: Outcome) -> bool {
    o is Done
}

fn done_of(r: Option<Result<Outcome, Error>>) -> (c: Option<Result<(), Error>>)
    ensures
        c == result_as(r, |o: Outcome| is_done(o)),
{
    match r {
        None => None,
        Some(Err(e)) => Some(Err(e)),
        Some(Ok(Outcome::Done)) => Some(Ok(())),
        Some(Ok(_)) => Some(Err(Error::Protocol(Violation::UnexpectedMessage))),
    }
}

/// How a batch of rows fetched from a portal ended.
#[derive(Clone, Copy, Debug, PartialEq, Eq, Structural)]
pub enum PortalEnd {
    /// The portal has more rows.
    Suspended,
    /// The portal has no more rows.
    Exhausted,
}

/// What a QueryPortal handle reports of the result `r`.
pub open spec fn portal_result(r: Option<Result<Outcome, Error>>) -> Option<Result<PortalEnd, Error>> {
    match r {
        None => None,
        Some(Err(e)) => Some(Err(e)),
        Some(Ok(Outcome::Suspended)) => Some(Ok(PortalEnd::Suspended)),
        Some(Ok(Outcome::Exhausted)) => Some(Ok(PortalEnd::Exhausted)),
        Some(Ok(_)) => Some(Err(Error::Protocol(Violation::UnexpectedMessage))),
    }
}

/// The pending preparation of a statement.
#[derive(Debug)]
pub struct Prepare {
    pub id: u64,
    pub name: Vec<u8>,
}

impl Prepare {
    /// The prepared statement, once the server has described it.
    pub fn poll(&self, conn: &mut Connection) -> (r: Option<Result<Statement, Error>>)
        requires
            old(conn).wf(),
        ensures
            took_result(*old(conn), *final(conn), self.id),
            match result_in(old(conn).events@, self.id) {
                None => r is None,
                Some(Err(e)) => r == Some(Err::<Statement, Error>(e)),
                Some(Ok(Outcome::Statement { params, columns })) => r matches Some(Ok(s)) && s.name@
                    == self.name@ && s.params == params && s.columns == columns,
                Some(Ok(_)) => r == Some(Err::<Statement, Error>(Error::Protocol(Violation::UnexpectedMessage))),
            },
    {
        match conn.take_result(self.id) {
            None => None,
            Some(Err(e)) => Some(Err(e)),
            Some(Ok(Outcome::Statement { params, columns })) => Some(
                Ok(Statement { name: copy_bytes(&self.name), params, columns }),
            ),
            Some(Ok(_)) => Some(Err(Error::Protocol(Violation::UnexpectedMessage))),
        }
    }
}

/// The pending execution of a statement.
#[derive(Debug)]
pub struct Execute {
    pub id: u64,
}

impl Execute {
    /// The number of rows that the statement affected, once it completed.
    pub fn poll(&self, conn: &mut Connection) -> (r: Option<Result<u64, Error>>)
        requires
            old(conn).wf(),
        ensures
            took_result(*old(conn), *final(conn), self.id),
            r == count_result(result_in(old(conn).events@, self.id)),
    {
        count_of(conn.take_result(self.id))
    }
}

/// The pending COPY FROM STDIN.
#[derive(Debug)]
pub struct CopyIn {
    pub id: u64,
}

impl CopyIn {
    /// The number of rows copied, once the copy completed.
    pub fn poll(&self, conn: &mut Connection) -> (r: Option<Result<u64, Error>>)
        requires
            old(conn).wf(),
        ensures
            took_result(*old(conn), *final(conn), self.id),
            r == count_result(result_in(old(conn).events@, self.id)),
    {
        count_of(conn.take_result(self.id))
    }
}

/// The pending batch of simple statements.
#[derive(Debug)]
pub struct BatchExecute {
    pub id: u64,
}

impl BatchExecute {
    /// Whether the batch succeeded, once the server is ready again.
    pub fn poll(&self, conn: &mut Connection) -> (r: Option<Result<(), Error>>)
        requires
            old(conn).wf(),
        ensures
            took_result(*old(conn), *final(conn), self.id),
            r == result_as(result_in(old(conn).events@, self.id), |o: Outcome| is_done(o)),
    {
        done_of(conn.take_result(self.id))
    }
}

/// The pending binding of a portal.
#[derive(Debug)]
pub struct Bind {
    pub id: u64,
    pub portal: Vec<u8>,
    pub columns: Vec<Column>,
}

impl Bind {
    /// The portal, once the server has bound it.
    pub fn poll(&self, conn: &mut Connection) -> (r: Option<Result<Portal, Error>>)
        requires
            old(conn).wf(),
        ensures
            took_result(*old(conn), *final(conn), self.id),
            match result_in(old(conn).events@, self.id) {
                None => r is None,
                Some(Err(e)) => r == Some(Err::<Portal, Error>(e)),
                Some(Ok(Outcome::Portal)) => r matches Some(Ok(p)) && p.name@ == self.portal@
                    && same_columns(p.columns@, self.columns@),
                Some(Ok(_)) => r == Some(Err::<Portal, Error>(Error::Protocol(Violation::UnexpectedMessage))),
            },
    {
        match conn.take_result(self.id) {
            None => None,
            Some(Err(e)) => Some(Err(e)),
            Some(Ok(Outcome::Portal)) => Some(
                Ok(Portal { name: copy_bytes(&self.portal), columns: copy_columns(&self.columns) }),
            ),
            Some(Ok(_)) => Some(Err(Error::Protocol(Violation::UnexpectedMessage))),
        }
    }
}

/// The rows of a statement, as they arrive.
#[derive(Debug)]
pub struct Query {
    pub id: u64,
    /// The columns of the rows.
    pub columns: Vec<Column>,
}

impl Query {
    /// The rows that arrived since the last call, in order.
    pub fn rows(&self, conn: &mut Connection) -> (r: Vec<Row>)
        requires
            old(conn).wf(),
        ensures
            took_items(*old(conn), *final(conn), self.id),
            r@.map_values(|row: Row| row.values_view()) == rows_of(items_in(old(conn).events@, self.id), self.columns@.len()),
            forall|k: int| 0 <= k < r@.len() ==> same_columns((#[trigger] r@[k]).columns_view(), self.columns@),
    {
        into_rows(conn.take_items(self.id), &self.columns)
    }

    /// How the stream ended, once it has.
    pub fn finish(&self, conn: &mut Connection) -> (r: Option<Result<(), Error>>)
        requires
            old(conn).wf(),
        ensures
            took_result(*old(conn), *final(conn), self.id),
            r == result_as(result_in(old(conn).events@, self.id), |o: Outcome| is_done(o)),
    {
        done_of(conn.take_result(self.id))
    }
}

/// A batch of rows fetched from a portal.
#[derive(Debug)]
pub struct QueryPortal {
    pub id: u64,
    /// The columns of the rows.
    pub columns: Vec<Column>,
}

impl QueryPortal {
    /// The rows that arrived since the last call, in order.
    pub fn rows(&self, conn: &mut Connection) -> (r: Vec<Row>)
        requires
            old(conn).wf(),
        ensures
            took_items(*old(conn), *final(conn), self.id),
            r@.map_values(|row: Row| row.values_view()) == rows_of(items_in(old(conn).events@, self.id), self.columns@.len()),
            forall|k: int| 0 <= k < r@.len() ==> same_columns((#[trigger] r@[k]).columns_view(), self.columns@),
    {
        into_rows(conn.take_items(self.id), &self.columns)
    }

    /// Whether the portal has more rows, once the batch ended.
    pub fn finish(&self, conn: &mut Connection) -> (r: Option<Result<PortalEnd, Error>>)
        requires
            old(conn).wf(),
        ensures
            took_result(*old(conn), *final(conn), self.id),
            r == portal_result(result_in(old(conn).events@, self.id)),
    {
        match conn.take_result(self.id) {
            None => None,
            Some(Err(e)) => Some(Err(e)),
            Some(Ok(Outcome::Suspended)) => Some(Ok(PortalEnd::Suspended)),
            Some(Ok(Outcome::Exhausted)) => Some(Ok(PortalEnd::Exhausted)),
            Some(Ok(_)) => Some(Err(Error::Protocol(Violation::UnexpectedMessage))),
        }
    }
}

/// The data of a COPY TO STDOUT, as it arrives.
#[derive(Debug)]
pub struct CopyOut {
    pub id: u64,
}

impl CopyOut {
    /// The chunks that arrived since the last call, in order.
    pub fn chunks(&self, conn: &mut Connection) -> (r: Vec<Vec<u8>>)
        requires
            old(conn).wf(),
        ensures
            took_items(*old(conn), *final(conn), self.id),
            r@.map_values(|c: Vec<u8>| c@) == chunks_of(items_in(old(conn).events@, self.id)),
    {
        into_chunks(conn.take_items(self.id))
    }

    /// How the copy ended, once it has.
    pub fn finish(&self, conn: &mut Connection) -> (r: Option<Result<(), Error>>)
        requires
            old(conn).wf(),
        ensures
            took_result(*old(conn), *final(conn), self.id),
            r == result_as(result_in(old(conn).events@, self.id), |o: Outcome| is_done(o)),
    {
        done_of(conn.take_result(self.id))
    }
}

/// The order in which handles are polled never changes what another handle finds:
/// after the handle of operation `a` took its result or its items, the handle of any
/// other operation `b` finds the same result and the same items as before.
pub proof fn lemma_poll_order_irrelevant(pre: Connection, mid: Connection, a: u64, b: u64)
    requires
        a != b,
        took_result(pre, mid, a) || took_items(pre, mid, a),
    ensures
        result_in(mid.events@, b) == result_in(pre.events@, b),
        items_in(mid.events@, b) == items_in(pre.events@, b),
{
    if took_result(pre, mid, a) {
        match result_in(pre.events@, a) {
            None => {},
            Some(r) => {
                let i = choose|i: int|
                    0 <= i < pre.events@.len() && pre.events@[i] == (Event::Completed { id: a, result: Some(r) })
                        && mid.events@ == pre.events@.update(i, Event::Completed { id: a, result: None });
                lemma_items_in_result_taken(pre.events@, i, a, b);
            },
        }
    } else {
        lemma_result_in_items_taken(pre.events@, a, b);
    }
}

/// A fetch from a portal hands on each row of the expected width as it comes, and ends
/// in one of two ways that its handle tells apart: PortalSuspended means more rows are
/// left, CommandComplete that the portal is exhausted.
pub proof fn lemma_portal_fetch(width: usize, row: Vec<Option<Vec<u8>>>, n: u64)
    requires
        row@.len() == width,
    ensures
        reaction(OpKind::QueryPortal, Stage::Sent, width, BackendMessage::DataRow(row))
            == Reaction::Emit(Stage::Sent, Item::Row(row)),
        reaction(OpKind::QueryPortal, Stage::Sent, width, BackendMessage::PortalSuspended)
            == Reaction::Complete(Ok(Outcome::Suspended)),
        reaction(OpKind::QueryPortal, Stage::Sent, width, BackendMessage::CommandComplete(n))
            == Reaction::Complete(Ok(Outcome::Exhausted)),
        portal_result(Some(Ok(Outcome::Suspended))) == Some(Ok::<PortalEnd, Error>(PortalEnd::Suspended)),
        portal_result(Some(Ok(Outcome::Exhausted))) == Some(Ok::<PortalEnd, Error>(PortalEnd::Exhausted)),
{
}

} // verus!
