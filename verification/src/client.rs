//! The submission protocol as seen from the client: what each report from
//! the connection means for a query or for a transaction on its way.
//!
//! The connection itself is the caller's. It sends what the client encoded,
//! and hands each report of the connection to the client, which decides.

use vstd::prelude::*;
use crate::crypto::tag_of;
use crate::crypto::KeyPair;
use crate::error::CryptoError;
use crate::error::Error;
use crate::error::TransportError;
use crate::events::EventIterator;
use crate::events::Filter;
use crate::transaction::wire_form;
use crate::transaction::Metadata;
use crate::transaction::SignedTransaction;
use crate::transaction::TransactionView;
use crate::wire::contents;
use crate::wire::list_fits;
use crate::wire::MAX_LEN;

verus! {

/// Until when a submission waits.
#[derive(Debug, Clone, Copy, PartialEq, Eq, Structural)]
pub enum Mode {
    /// Until the peer has received the transaction.
    Receipt,
    /// Until the peer has committed or rejected it.
    Finality,
}

/// What the connection reports of a transaction on its way.
#[derive(Debug, Clone, PartialEq, Eq)]
pub enum Signal {
    /// The peer has received it.
    Acknowledged,
    /// The peer has committed it.
    Committed,
    /// The peer has rejected it, for that reason.
    Rejected(String),
    /// The peer could not be reached.
    Unreachable,
    /// The connection was lost.
    Disconnected,
}

/// What the connection reports of a query.
#[derive(Debug, Clone, PartialEq, Eq)]
pub enum Reply {
    /// The peer's answer, encoded.
    Value(Vec<u8>),
    /// The peer refused the query, for that reason.
    Refused(String),
    /// The peer could not be reached.
    Unreachable,
    /// The connection was lost.
    Disconnected,
}

/// A transaction on its way.
#[derive(Debug, Clone, PartialEq, Eq)]
pub struct Submission {
    pub mode: Mode,
    pub acknowledged: bool,
    pub id: crate::crypto::Hash,
}

/// Where a submission stands after a report.
#[derive(Debug, PartialEq, Eq)]
pub enum Progress {
    /// It waits for the next report.
    Waiting(Submission),
    /// It is over: the transaction's identifier, or the failure.
    Finished(Result<crate::crypto::Hash, Error>),
}

/// The client: where the peer is, the key pair that signs its transactions,
/// and the headers sent with each request.
pub struct Client {
    pub endpoint: String,
    pub identity: KeyPair,
    pub headers: Vec<(String, String)>,
}

/// Whether a report ends a submission of that mode.
pub open spec fn ends(mode: Mode, signal: Signal) -> bool {
    !(signal is Acknowledged && mode == Mode::Finality)
}

/// What a submission for `id` comes to when `signal` ends it.
pub open spec fn verdict(id: crate::crypto::Hash, signal: Signal) -> Result<crate::crypto::Hash, Error> {
    match signal {
        Signal::Acknowledged => Ok(id),
        Signal::Committed => Ok(id),
        Signal::Rejected(reason) => Err(Error::Remote(reason)),
        Signal::Unreachable => Err(Error::Transport(TransportError::Unreachable)),
        Signal::Disconnected => Err(Error::Transport(TransportError::Disconnected)),
    }
}

/// What a blocking submission for `id` comes to on the reports `signals`, in
/// their order, from the one at `from` on: the verdict of the first report
/// that ends it, or a lost connection where none does.
pub open spec fn blocking_verdict(id: crate::crypto::Hash, signals: Seq<Signal>, from: int) -> Result<crate::crypto::Hash, Error>
    decreases signals.len() - from,
{
    if from < 0 || from >= signals.len() {
        Err(Error::Transport(TransportError::Disconnected))
    } else if ends(Mode::Finality, signals[from]) {
        verdict(id, signals[from])
    } else {
        blocking_verdict(id, signals, from + 1)
    }
}

/// What a query comes to.
pub open spec fn answer(reply: Reply) -> Result<Vec<u8>, Error> {
    match reply {
        Reply::Value(v) => Ok(v),
        Reply::Refused(reason) => Err(Error::Remote(reason)),
        Reply::Unreachable => Err(Error::Transport(TransportError::Unreachable)),
        Reply::Disconnected => Err(Error::Transport(TransportError::Disconnected)),
    }
}

/// A blocking submission succeeds only where the peer committed the
/// transaction, and a rejection by the peer is never reported as a failure
/// of the connection.
pub proof fn lemma_blocking_success_is_commit(id: crate::crypto::Hash, signal: Signal)
    requires
        ends(Mode::Finality, signal),
    ensures
        verdict(id, signal) is Ok <==> signal is Committed,
        signal is Rejected ==> verdict(id, signal) == Err::<crate::crypto::Hash, Error>(
            Error::Remote(signal->Rejected_0),
        ),
{
}

/// A blocking submission that succeeds has seen a report that the peer
/// committed the transaction.
pub proof fn lemma_blocking_verdict_needs_commit(id: crate::crypto::Hash, signals: Seq<Signal>, from: int)
    requires
        0 <= from,
        blocking_verdict(id, signals, from) is Ok,
    ensures
        exists|i: int| from <= i < signals.len() && (#[trigger] signals[i]) is Committed,
    decreases signals.len() - from,
{
    if from < signals.len() {
        if ends(Mode::Finality, signals[from]) {
            assert(signals[from] is Committed);
        } else {
            lemma_blocking_verdict_needs_commit(id, signals, from + 1);
        }
    }
}

/// Whether `signal` ends a submission of `mode`.
pub fn ends_submission(mode: Mode, signal: &Signal) -> (b: bool)
    ensures
        b == ends(mode, *signal),
{
    match signal {
        Signal::Acknowledged => match mode {
            Mode::Receipt => true,
            Mode::Finality => false,
        },
        _ => true,
    }
}

/// What a submission for `id` comes to when `signal` ends it.
pub fn verdict_of(id: crate::crypto::Hash, signal: &Signal) -> (r: Result<crate::crypto::Hash, Error>)
    ensures
        r == verdict(id, *signal),
{
    match signal {
        Signal::Acknowledged => Ok(id),
        Signal::Committed => Ok(id),
        Signal::Rejected(reason) => Err(Error::Remote(reason.clone())),
        Signal::Unreachable => Err(Error::Transport(TransportError::Unreachable)),
        Signal::Disconnected => Err(Error::Transport(TransportError::Disconnected)),
    }
}

impl Submission {
    /// A submission of `mode` for the transaction identified by `id`, just
    /// sent.
    pub fn start(mode: Mode, id: crate::crypto::Hash) -> (s: Submission)
        ensures
            s.mode == mode,
            s.id == id,
            !s.acknowledged,
    {
        Submission { mode, acknowledged: false, id }
    }

    /// Takes one report of the connection.
    pub fn advance(self, signal: Signal) -> (p: Progress)
        ensures
            ends(self.mode, signal) ==> p == Progress::Finished(verdict(self.id, signal)),
            !ends(self.mode, signal) ==> p == Progress::Waiting(
                Submission { acknowledged: true, ..self },
            ),
    {
        match signal {
            Signal::Acknowledged => match self.mode {
                Mode::Receipt => Progress::Finished(Ok(self.id)),
                Mode::Finality => Progress::Waiting(
                    Submission { mode: self.mode, acknowledged: true, id: self.id },
                ),
            },
            Signal::Committed => Progress::Finished(Ok(self.id)),
            Signal::Rejected(reason) => Progress::Finished(Err(Error::Remote(reason))),
            Signal::Unreachable => Progress::Finished(
                Err(Error::Transport(TransportError::Unreachable)),
            ),
            Signal::Disconnected => Progress::Finished(
                Err(Error::Transport(TransportError::Disconnected)),
            ),
        }
    }
}

impl Client {
    /// A client for the peer at `endpoint`, with no headers of its own.
    pub fn new(endpoint: String, identity: KeyPair) -> (c: Client)
        ensures
            c.endpoint == endpoint,
            c.identity == identity,
            c.headers@.len() == 0,
    {
        Client { endpoint, identity, headers: Vec::new() }
    }

    /// A client for the peer at `endpoint` that sends `headers` with each
    /// request.
    pub fn with_headers(endpoint: String, identity: KeyPair, headers: Vec<(String, String)>) -> (c:
        Client)
        ensures
            c.endpoint == endpoint,
            c.identity == identity,
            c.headers == headers,
    {
        Client { endpoint, identity, headers }
    }

    /// What a query comes to, given the connection's report of it.
    pub fn request(&self, reply: Reply) -> (r: Result<Vec<u8>, Error>)
        ensures
            r == answer(reply),
    {
        match reply {
            Reply::Value(v) => Ok(v),
            Reply::Refused(reason) => Err(Error::Remote(reason)),
            Reply::Unreachable => Err(Error::Transport(TransportError::Unreachable)),
            Reply::Disconnected => Err(Error::Transport(TransportError::Disconnected)),
        }
    }

    /// The wire form of the transaction made of `instructions` and
    /// `metadata` and signed by the client's identity; `made` is the
    /// signature that a backend made with that identity over the payload,
    /// `None` where it refused.
    pub fn tx_body(
        &self,
        instructions: Vec<Vec<u8>>,
        metadata: Metadata,
        made: Option<Vec<u8>>,
    ) -> (r: Result<Vec<u8>, Error>)
        requires
            list_fits(contents(instructions@)),
        ensures
            r is Ok <==> made is Some && self.identity.public_bytes().len() <= MAX_LEN
                && made->Some_0@.len() <= MAX_LEN,
            made is None ==> r == Err::<Vec<u8>, Error>(Error::Crypto(CryptoError::Backend)),
            made is Some && r is Err ==> r == Err::<Vec<u8>, Error>(
                Error::Crypto(CryptoError::Oversized),
            ),
            r is Ok ==> r->Ok_0@ == wire_form(
                TransactionView {
                    instructions: contents(instructions@),
                    metadata_keys: metadata.keys_view(),
                    metadata_values: metadata.values_view(),
                    signers: seq![self.identity.public_bytes()],
                    signatures: seq![made->Some_0@],
                    schemes: seq![tag_of(self.identity.algorithm())],
                },
            ),
    {
        let signature = match self.identity.sign(made) {
            Ok(s) => s,
            Err(e) => {
                return Err(e);
            },
        };
        match SignedTransaction::build(instructions, metadata, signature) {
            Ok(tx) => Ok(tx.to_bytes()),
            Err(e) => Err(e),
        }
    }

    /// What a submission that waits for receipt only comes to: the
    /// transaction's identifier once the peer has it.
    pub fn submit_all_with_metadata(&self, id: crate::crypto::Hash, signal: Signal) -> (r: Result<crate::crypto::Hash, Error>)
        ensures
            r == verdict(id, signal),
    {
        match Submission::start(Mode::Receipt, id).advance(signal) {
            Progress::Finished(r) => r,
            Progress::Waiting(s) => Ok(s.id),
        }
    }

    /// What a submission that waits for finality comes to on the reports
    /// `signals`, in their order: the identifier where the peer committed
    /// the transaction, the peer's reason where it rejected it, and a lost
    /// connection where the reports end before either.
    pub fn submit_all_blocking_with_metadata(&self, id: crate::crypto::Hash, signals: &Vec<Signal>) -> (r: Result<
        crate::crypto::Hash,
        Error,
    >)
        ensures
            r == blocking_verdict(id, signals@, 0),
    {
        let mut i: usize = 0;
        while i < signals.len()
            invariant
                i <= signals@.len(),
                blocking_verdict(id, signals@, 0) == blocking_verdict(id, signals@, i as int),
            decreases signals@.len() - i,
        {
            if ends_submission(Mode::Finality, &signals[i]) {
                return verdict_of(id, &signals[i]);
            }
            i = i + 1;
        }
        Err(Error::Transport(TransportError::Disconnected))
    }

    /// A stream of the events that `filter` lets through.
    pub fn listen_for_events(&self, filter: Filter) -> (s: EventIterator)
        ensures
            s.filter() == filter,
            !s.ended(),
    {
        EventIterator::new(filter)
    }
}

} // verus!
