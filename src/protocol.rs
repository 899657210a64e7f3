use vstd::prelude::*;

verus! {

/// Kind of a transport failure, as far as the driver distinguishes them.
#[derive(Clone, Copy, Debug, PartialEq, Eq, Structural)]
pub enum IoKind {
    TimedOut,
    ConnectionReset,
    UnexpectedEof,
    Other,
}

/// Ways in which the server's messages can break the expected sequence.
#[derive(Clone, Copy, Debug, PartialEq, Eq, Structural)]
pub enum Violation {
    /// A message that the current operation does not expect at this point.
    UnexpectedMessage,
    /// A response arrived while no operation was waiting for one.
    NoPendingOperation,
    /// The server answered the upgrade request with an unknown byte.
    BadUpgradeResponse,
}

/// Why a connection attempt failed.
#[derive(Clone, Copy, Debug, PartialEq, Eq, Structural)]
pub enum ConnectError {
    /// The policy asked for an encrypted session and the server declined it.
    TlsRequired,
    /// The server asked for an authentication method that is not offered.
    UnsupportedAuthentication,
    /// The server asked for a password and none was given.
    PasswordRequired,
    /// The server rejected the startup with an error response.
    Rejected,
}

/// An error reported by the server in an ErrorResponse or a NoticeResponse.
#[derive(Clone, Debug, PartialEq, Eq)]
pub struct DbError {
    pub severity: String,
    pub code: String,
    pub message: String,
    pub detail: Option<String>,
    pub hint: Option<String>,
}

/// The error of an operation.
#[derive(Clone, Debug, PartialEq, Eq)]
pub enum Error {
    Connect(ConnectError),
    Db(DbError),
    Io(IoKind),
    Protocol(Violation),
}

impl Error {
    /// Whether the error ends the connection for every operation on it.
    pub open spec fn is_fatal(&self) -> bool {
        match self {
            Error::Io(_) | Error::Protocol(_) | Error::Connect(_) => true,
            Error::Db(_) => false,
        }
    }

    /// A copy of a connection-wide error.
    pub fn copy_fatal(&self) -> (r: Error)
        requires
            self.is_fatal(),
        ensures
            r == *self,
    {
        match self {
            Error::Connect(c) => Error::Connect(*c),
            Error::Io(k) => Error::Io(*k),
            Error::Protocol(v) => Error::Protocol(*v),
            // Not reached: an error of the server is never connection-wide.
            Error::Db(_) => Error::Protocol(Violation::UnexpectedMessage),
        }
    }
}

/// A column of a result: its name and the object id of its type.
#[derive(Clone, Debug, PartialEq, Eq)]
pub struct Column {
    pub name: String,
    pub type_oid: u32,
}

/// An asynchronous notification sent by LISTEN/NOTIFY.
#[derive(Clone, Debug, PartialEq, Eq)]
pub struct Notification {
    pub process_id: i32,
    pub channel: String,
    pub payload: String,
}

/// A decoded message from the server.
#[derive(Debug)]
pub enum BackendMessage {
    AuthenticationOk,
    /// A request for the password in clear text.
    AuthenticationCleartextPassword,
    /// A request for any other kind of authentication.
    AuthenticationRequest,
    BackendKeyData { process_id: i32, secret_key: i32 },
    ParameterStatus { name: String, value: String },
    ReadyForQuery,
    ParseComplete,
    BindComplete,
    ParameterDescription(Vec<u32>),
    /// The columns of a result; empty where the server sent NoData.
    RowDescription(Vec<Column>),
    DataRow(Vec<Option<Vec<u8>>>),
    /// CommandComplete with the row count carried by its tag (0 where the tag has none).
    CommandComplete(u64),
    EmptyQueryResponse,
    PortalSuspended,
    ErrorResponse(DbError),
    NoticeResponse(DbError),
    NotificationResponse(Notification),
    CopyInResponse,
    CopyOutResponse,
    CopyData(Vec<u8>),
    CopyDone,
}

impl BackendMessage {
    /// Messages that the server may send at any time, outside the reply to any operation.
    pub open spec fn is_async(&self) -> bool {
        match self {
            BackendMessage::ParameterStatus { .. } => true,
            BackendMessage::NoticeResponse(_) => true,
            BackendMessage::NotificationResponse(_) => true,
            _ => false,
        }
    }
}

/// A message to the server, before encoding.
#[derive(Debug, PartialEq, Eq)]
pub enum FrontendMessage {
    Parse { name: Vec<u8>, query: String, param_types: Vec<u32> },
    DescribeStatement { name: Vec<u8> },
    Bind { portal: Vec<u8>, statement: Vec<u8>, params: Vec<Option<Vec<u8>>> },
    Execute { portal: Vec<u8>, max_rows: i32 },
    Sync,
    Query { sql: String },
    /// The first message of a session: who connects, and to which database.
    Startup { user: String, database: Option<String> },
    /// The answer to a request for the password in clear text.
    Password { password: String },
    CopyData(Vec<u8>),
    CopyDone,
    CopyFail { message: String },
}

/// The identity of a backend, needed to ask for one of its queries to be cancelled.
#[derive(Clone, Copy, Debug, PartialEq, Eq, Structural)]
pub struct CancelData {
    pub process_id: i32,
    pub secret_key: i32,
}

/// Code that marks a cancel request.
pub const CANCEL_REQUEST_CODE: u32 = 80877102;

/// Code that marks a request to upgrade the session to TLS.
pub const SSL_REQUEST_CODE: u32 = 80877103;

/// Byte by which the server accepts the upgrade.
pub const UPGRADE_ACCEPTED: u8 = 83;

/// Byte by which the server declines the upgrade.
pub const UPGRADE_DECLINED: u8 = 78;

/// `x` as four bytes, most significant first.
pub open spec fn be32(x: u32) -> Seq<u8> {
    seq![
        (x / 16777216) as u8,
        ((x / 65536) % 256) as u8,
        ((x / 256) % 256) as u8,
        (x % 256) as u8,
    ]
}

/// The bytes of a cancel request for the backend that `data` names.
pub open spec fn cancel_request(data: CancelData) -> Seq<u8> {
    be32(16) + be32(CANCEL_REQUEST_CODE) + be32(data.process_id as u32) + be32(
        data.secret_key as u32,
    )
}

/// The bytes of a request to upgrade the session to TLS.
pub open spec fn ssl_request() -> Seq<u8> {
    be32(8) + be32(SSL_REQUEST_CODE)
}

fn push_be32(out: &mut Vec<u8>, x: u32)
    ensures
        final(out)@ == old(out)@ + be32(x),
{
    out.push((x / 16777216) as u8);
    out.push(((x / 65536) % 256) as u8);
    out.push(((x / 256) % 256) as u8);
    out.push((x % 256) as u8);
    proof {
        assert(final(out)@ =~= old(out)@ + be32(x));
    }
}

/// Encodes the message that asks the server to cancel the query running on the
/// backend of `data`.
pub fn encode_cancel_request(data: CancelData) -> (r: Vec<u8>)
    ensures
        r@ == cancel_request(data),
        r@.len() == 16,
{
    let mut r: Vec<u8> = Vec::new();
    push_be32(&mut r, 16);
    push_be32(&mut r, CANCEL_REQUEST_CODE);
    push_be32(&mut r, data.process_id as u32);
    push_be32(&mut r, data.secret_key as u32);
    proof {
        assert(r@ =~= cancel_request(data));
    }
    r
}

/// Encodes the request to upgrade the session to TLS.
pub fn encode_ssl_request() -> (r: Vec<u8>)
    ensures
        r@ == ssl_request(),
        r@.len() == 8,
{
    let mut r: Vec<u8> = Vec::new();
    push_be32(&mut r, 8);
    push_be32(&mut r, SSL_REQUEST_CODE);
    proof {
        assert(r@ =~= ssl_request());
    }
    r
}

/// How a connection treats TLS.
#[derive(Clone, Copy, Debug, PartialEq, Eq, Structural)]
pub enum TlsMode {
    /// Never ask for an upgrade.
    Disable,
    /// Ask for an upgrade, and go on in plain text if the server declines.
    Prefer,
    /// Ask for an upgrade, and give up if the server declines.
    Require,
}

impl TlsMode {
    /// Whether the upgrade request is sent before the startup message.
    pub fn sends_request(&self) -> (r: bool)
        ensures
            r == (*self != TlsMode::Disable),
    {
        match self {
            TlsMode::Disable => false,
            _ => true,
        }
    }

    /// Decides, from the server's one-byte answer to the upgrade request, whether
    /// the handshake goes on over TLS (`Ok(true)`), in plain text (`Ok(false)`), or
    /// not at all.
    pub fn negotiate(&self, response: u8) -> (r: Result<bool, Error>)
        requires
            *self != TlsMode::Disable,
        ensures
            response == UPGRADE_ACCEPTED ==> r == Ok::<bool, Error>(true),
            response == UPGRADE_DECLINED && *self == TlsMode::Prefer ==> r == Ok::<bool, Error>(
                false,
            ),
            response == UPGRADE_DECLINED && *self == TlsMode::Require ==> r == Err::<bool, Error>(
                Error::Connect(ConnectError::TlsRequired),
            ),
            response != UPGRADE_ACCEPTED && response != UPGRADE_DECLINED ==> r == Err::<
                bool,
                Error,
            >(Error::Protocol(Violation::BadUpgradeResponse)),
    {
        if response == UPGRADE_ACCEPTED {
            Ok(true)
        } else if response == UPGRADE_DECLINED {
            match self {
                TlsMode::Require => Err(Error::Connect(ConnectError::TlsRequired)),
                _ => Ok(false),
            }
        } else {
            Err(Error::Protocol(Violation::BadUpgradeResponse))
        }
    }
}

} // verus!
