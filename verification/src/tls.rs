//! The order of work on a TLS session that sits on a blocking socket.
//!
//! A TLS session keeps three flags: whether the handshake is still going
//! on, whether it wants ciphertext from the socket, and whether it holds
//! ciphertext for the socket. Every read, write and flush of the stream first
//! drains what the session has pending, then moves plaintext, then settles
//! what that left behind. Moving plaintext through a session that is still
//! in its handshake would block for ever or corrupt the stream.
//!
//! [`OwnedTlsStream`] is the stream: it keeps to that order on a session
//! and a socket that the embedding program hands in as a value of
//! [`TlsSession`]. [`TlsTurn`] gives the same order to an owner that does
//! the socket work itself, one action at a time.
//!
//! A turn decides; it does not touch a socket. The owner of the session
//! and the socket starts a [`TlsTurn`] for each request, hands it the
//! session's flags, does what the turn answers, and repeats until the answer
//! is [`TlsAction::Return`]. If an action fails, the owner gives up the turn
//! and reports the error. All socket work blocks, and nothing cancels it: a
//! peer that hangs makes the caller hang.

use vstd::prelude::*;
use crate::errors::Error;

verus! {

/// What the stream was asked to do.
#[derive(Clone, Copy, Debug, PartialEq, Eq)]
pub enum TlsRequest {
    /// Read plaintext into the caller's buffer.
    Read,
    /// Write the caller's plaintext.
    Write,
    /// Flush what was written.
    Flush,
}

/// The flags of a TLS session.
#[derive(Clone, Copy, Debug, PartialEq, Eq)]
pub struct SessionFlags {
    /// The handshake has not finished.
    pub is_handshaking: bool,
    /// The session wants ciphertext from the socket.
    pub wants_read: bool,
    /// The session holds ciphertext for the socket.
    pub wants_write: bool,
}

/// One piece of work on the session or the socket.
#[derive(Clone, Copy, Debug, PartialEq, Eq)]
pub enum TlsAction {
    /// Exchange ciphertext with the socket until the session is content.
    CompleteIo,
    /// Decrypt into the caller's buffer.
    ReadPlaintext,
    /// Hand the caller's plaintext to the session.
    WritePlaintext,
    /// Flush the session's plaintext writer.
    FlushPlaintext,
    /// The request is done.
    Return,
}

/// How far a turn has come.
#[derive(Clone, Copy, Debug, PartialEq, Eq)]
pub enum TlsStage {
    /// Nothing has been done; a handshake may be pending.
    Handshake,
    /// The handshake is out of the way; ciphertext may be waiting to go out.
    PendingWrites,
    /// Earlier work is drained; a read may first need ciphertext.
    Intake,
    /// The plaintext can move.
    Payload,
    /// The plaintext has moved; ciphertext may be waiting to go out.
    Settle,
    /// Nothing is left to do.
    Done,
}

/// The work on one request.
#[derive(Clone, Copy, Debug, PartialEq, Eq)]
pub struct TlsTurn {
    /// What the stream was asked to do.
    pub request: TlsRequest,
    /// How far the work has come.
    pub stage: TlsStage,
}

impl TlsStage {
    /// The place of the stage in the order of a turn.
    pub open spec fn rank(self) -> int {
        match self {
            TlsStage::Handshake => 0,
            TlsStage::PendingWrites => 1,
            TlsStage::Intake => 2,
            TlsStage::Payload => 3,
            TlsStage::Settle => 4,
            TlsStage::Done => 5,
        }
    }
}

impl TlsRequest {
    /// The action that moves the plaintext of this request.
    pub open spec fn payload(self) -> TlsAction {
        match self {
            TlsRequest::Read => TlsAction::ReadPlaintext,
            TlsRequest::Write => TlsAction::WritePlaintext,
            TlsRequest::Flush => TlsAction::FlushPlaintext,
        }
    }
}

/// A turn at the given stage.
pub open spec fn at(request: TlsRequest, stage: TlsStage) -> TlsTurn {
    TlsTurn { request, stage }
}

/// What a turn does next when the session shows `flags`, and the turn after
/// that.
pub open spec fn step(turn: TlsTurn, flags: SessionFlags) -> (TlsTurn, TlsAction)
    decreases 5 - turn.stage.rank(),
{
    let request = turn.request;
    match turn.stage {
        TlsStage::Handshake => if flags.is_handshaking {
            (at(request, TlsStage::PendingWrites), TlsAction::CompleteIo)
        } else {
            step(at(request, TlsStage::PendingWrites), flags)
        },
        TlsStage::PendingWrites => if flags.wants_write {
            (at(request, TlsStage::Intake), TlsAction::CompleteIo)
        } else {
            step(at(request, TlsStage::Intake), flags)
        },
        TlsStage::Intake => if request == TlsRequest::Read && flags.wants_read {
            (at(request, TlsStage::Payload), TlsAction::CompleteIo)
        } else {
            step(at(request, TlsStage::Payload), flags)
        },
        TlsStage::Payload => match request {
            TlsRequest::Read => (at(request, TlsStage::Done), TlsAction::ReadPlaintext),
            TlsRequest::Write => (at(request, TlsStage::Settle), TlsAction::WritePlaintext),
            TlsRequest::Flush => (at(request, TlsStage::Settle), TlsAction::FlushPlaintext),
        },
        TlsStage::Settle => if request == TlsRequest::Write || flags.wants_write {
            (at(request, TlsStage::Done), TlsAction::CompleteIo)
        } else {
            (at(request, TlsStage::Done), TlsAction::Return)
        },
        TlsStage::Done => (turn, TlsAction::Return),
    }
}

/// The actions of a turn that sees `flags[0]` before its first action,
/// `flags[1]` before its second, and so on.
pub open spec fn run(turn: TlsTurn, flags: Seq<SessionFlags>) -> Seq<TlsAction>
    decreases flags.len(),
{
    if flags.len() == 0 {
        Seq::empty()
    } else {
        let (next, action) = step(turn, flags[0]);
        seq![action] + run(next, flags.drop_first())
    }
}

/// Every step brings a turn forward, and a turn that has not moved its
/// plaintext yet either drains the session or moves the plaintext.
pub proof fn lemma_step(turn: TlsTurn, flags: SessionFlags)
    ensures
        step(turn, flags).0.request == turn.request,
        turn.stage != TlsStage::Done ==> step(turn, flags).0.stage.rank() > turn.stage.rank(),
        turn.stage == TlsStage::Done ==> step(turn, flags) == (turn, TlsAction::Return),
        turn.stage.rank() <= 3 ==> {
            ||| (step(turn, flags).1 == TlsAction::CompleteIo && step(turn, flags).0.stage.rank()
                <= 3)
            ||| (step(turn, flags).1 == turn.request.payload() && step(turn, flags).0.stage.rank()
                >= 4)
        },
        turn.stage.rank() >= 4 ==> {
            ||| step(turn, flags).1 == TlsAction::CompleteIo
            ||| step(turn, flags).1 == TlsAction::Return
        },
    decreases 5 - turn.stage.rank(),
{
    let request = turn.request;
    match turn.stage {
        TlsStage::Handshake => {
            lemma_step(at(request, TlsStage::PendingWrites), flags);
        },
        TlsStage::PendingWrites => {
            lemma_step(at(request, TlsStage::Intake), flags);
        },
        TlsStage::Intake => {
            lemma_step(at(request, TlsStage::Payload), flags);
        },
        _ => {},
    }
}

/// A turn that begins while the session is in its handshake completes the
/// handshake first: its first action is the exchange with the socket, never
/// the plaintext.
pub proof fn lemma_handshake_comes_first(request: TlsRequest, flags: Seq<SessionFlags>)
    requires
        flags.len() > 0,
        flags[0].is_handshaking,
    ensures
        run(at(request, TlsStage::Handshake), flags)[0] == TlsAction::CompleteIo,
{
}

/// In a turn that has not moved its plaintext yet, everything that happens
/// before the plaintext moves is an exchange with the socket, and once the
/// plaintext has moved it does not move again.
pub proof fn lemma_drained_before_payload(turn: TlsTurn, flags: Seq<SessionFlags>, i: int)
    requires
        turn.stage.rank() <= 3,
        0 <= i < flags.len(),
        run(turn, flags)[i] == turn.request.payload(),
    ensures
        forall|j: int| 0 <= j < i ==> run(turn, flags)[j] == TlsAction::CompleteIo,
        forall|j: int| i < j < flags.len() ==> run(turn, flags)[j] != turn.request.payload(),
    decreases flags.len(),
{
    let (next, action) = step(turn, flags[0]);
    let rest = flags.drop_first();
    lemma_step(turn, flags[0]);
    lemma_run_len(next, rest);
    assert forall|j: int| 0 < j < flags.len() implies run(turn, flags)[j] == run(next, rest)[j
        - 1] by {}
    if i == 0 {
        assert forall|j: int| i < j < flags.len() implies run(turn, flags)[j]
            != turn.request.payload() by {
            lemma_no_payload_after(next, rest, j - 1);
        }
    } else {
        if next.stage.rank() >= 4 {
            lemma_no_payload_after(next, rest, i - 1);
        }
        lemma_drained_before_payload(next, rest, i - 1);
    }
}

/// A run has one action for each observation of the flags.
pub proof fn lemma_run_len(turn: TlsTurn, flags: Seq<SessionFlags>)
    ensures
        run(turn, flags).len() == flags.len(),
    decreases flags.len(),
{
    if flags.len() > 0 {
        lemma_run_len(step(turn, flags[0]).0, flags.drop_first());
    }
}

/// A turn that has moved its plaintext moves none again.
pub proof fn lemma_no_payload_after(turn: TlsTurn, flags: Seq<SessionFlags>, i: int)
    requires
        turn.stage.rank() >= 4,
        0 <= i < flags.len(),
    ensures
        run(turn, flags)[i] == TlsAction::CompleteIo || run(turn, flags)[i] == TlsAction::Return,
    decreases flags.len(),
{
    let (next, action) = step(turn, flags[0]);
    lemma_step(turn, flags[0]);
    lemma_run_len(next, flags.drop_first());
    if i > 0 {
        lemma_no_payload_after(next, flags.drop_first(), i - 1);
    }
}

/// A turn is over after at most five actions.
pub proof fn lemma_turn_ends(request: TlsRequest, flags: Seq<SessionFlags>, i: int)
    requires
        5 <= i < flags.len(),
    ensures
        run(at(request, TlsStage::Handshake), flags)[i] == TlsAction::Return,
{
    lemma_ranked_turn_ends(at(request, TlsStage::Handshake), flags, i);
}

/// A turn at rank `r` is over after at most `5 - r` actions.
pub proof fn lemma_ranked_turn_ends(turn: TlsTurn, flags: Seq<SessionFlags>, i: int)
    requires
        5 - turn.stage.rank() <= i < flags.len(),
    ensures
        run(turn, flags)[i] == TlsAction::Return,
    decreases flags.len(),
{
    let (next, action) = step(turn, flags[0]);
    lemma_step(turn, flags[0]);
    lemma_run_len(next, flags.drop_first());
    if i > 0 {
        lemma_ranked_turn_ends(next, flags.drop_first(), i - 1);
    }
}

impl TlsTurn {
    /// Begins the work on a request.
    pub fn new(request: TlsRequest) -> (turn: TlsTurn)
        ensures
            turn == at(request, TlsStage::Handshake),
    {
        TlsTurn { request, stage: TlsStage::Handshake }
    }

    /// Whether nothing is left to do.
    pub fn is_done(&self) -> (r: bool)
        ensures
            r == (self.stage == TlsStage::Done),
    {
        match self.stage {
            TlsStage::Done => true,
            _ => false,
        }
    }

    /// What to do next, given the flags that the session shows now.
    pub fn next(&mut self, flags: SessionFlags) -> (action: TlsAction)
        ensures
            (*final(self), action) == step(*old(self), flags),
    {
        proof {
            reveal_with_fuel(step, 5);
        }
        let request = self.request;
        let is_read = match request {
            TlsRequest::Read => true,
            _ => false,
        };
        let is_write = match request {
            TlsRequest::Write => true,
            _ => false,
        };
        if let TlsStage::Handshake = self.stage {
            self.stage = TlsStage::PendingWrites;
            if flags.is_handshaking {
                return TlsAction::CompleteIo;
            }
        }
        if let TlsStage::PendingWrites = self.stage {
            self.stage = TlsStage::Intake;
            if flags.wants_write {
                return TlsAction::CompleteIo;
            }
        }
        if let TlsStage::Intake = self.stage {
            self.stage = TlsStage::Payload;
            if is_read && flags.wants_read {
                return TlsAction::CompleteIo;
            }
        }
        match self.stage {
            TlsStage::Payload => match request {
                TlsRequest::Read => {
                    self.stage = TlsStage::Done;
                    TlsAction::ReadPlaintext
                },
                TlsRequest::Write => {
                    self.stage = TlsStage::Settle;
                    TlsAction::WritePlaintext
                },
                TlsRequest::Flush => {
                    self.stage = TlsStage::Settle;
                    TlsAction::FlushPlaintext
                },
            },
            TlsStage::Settle => {
                self.stage = TlsStage::Done;
                if is_write || flags.wants_write {
                    TlsAction::CompleteIo
                } else {
                    TlsAction::Return
                }
            },
            _ => TlsAction::Return,
        }
    }
}

/// A TLS session together with the blocking socket that it sits on.
///
/// The relations are the session's own word on what it does. A session that
/// gives them no body promises nothing, and nothing is believed of it.
pub trait TlsSession: Sized {
    /// Whether the session, as it is, may show `flags`.
    open spec fn shows(&self, flags: SessionFlags) -> bool {
        true
    }

    /// Whether the session, as it is, may become `after` and answer `r`
    /// when it exchanges ciphertext with the socket.
    open spec fn completes_io(&self, after: Self, r: Result<(), Error>) -> bool {
        true
    }

    /// Whether the session, as it is, may become `after` and answer `r`
    /// when it decrypts into a buffer, turning it from `before` into
    /// `filled`.
    open spec fn reads_plaintext(
        &self,
        before: Seq<u8>,
        filled: Seq<u8>,
        after: Self,
        r: Result<usize, Error>,
    ) -> bool {
        true
    }

    /// Whether the session, as it is, may become `after` and answer `r`
    /// when it is handed the plaintext `buf`.
    open spec fn writes_plaintext(&self, buf: Seq<u8>, after: Self, r: Result<usize, Error>) -> bool {
        true
    }

    /// Whether the session, as it is, may become `after` and answer `r`
    /// when its plaintext writer is flushed.
    open spec fn flushes_plaintext(&self, after: Self, r: Result<(), Error>) -> bool {
        true
    }

    /// The flags of the session.
    fn flags(&self) -> (flags: SessionFlags)
        ensures
            self.shows(flags),
    ;

    /// Exchanges ciphertext with the socket until the session is content.
    fn complete_io(&mut self) -> (r: Result<(), Error>)
        ensures
            old(self).completes_io(*final(self), r),
    ;

    /// Decrypts into `buf` and says how many bytes.
    fn read_plaintext(&mut self, buf: &mut [u8]) -> (r: Result<usize, Error>)
        ensures
            old(self).reads_plaintext(old(buf)@, final(buf)@, *final(self), r),
    ;

    /// Hands plaintext to the session and says how many bytes it took.
    fn write_plaintext(&mut self, buf: &[u8]) -> (r: Result<usize, Error>)
        ensures
            old(self).writes_plaintext(buf@, *final(self), r),
    ;

    /// Flushes the plaintext writer of the session.
    fn flush_plaintext(&mut self) -> (r: Result<(), Error>)
        ensures
            old(self).flushes_plaintext(*final(self), r),
    ;
}

/// Whether the session `sess` may become `after` and answer `r` when the
/// ciphertext that it holds for the socket is sent: a session that shows
/// that it holds some exchanges ciphertext with the socket, and the answer
/// is what that answers; a session that holds none is left alone.
pub open spec fn sent_pending<T: TlsSession>(sess: T, after: T, r: Result<(), Error>) -> bool {
    exists|flags: SessionFlags|
        #[trigger] sess.shows(flags) && if flags.wants_write {
            sess.completes_io(after, r)
        } else {
            after == sess && r is Ok
        }
}

/// Whether the session `sess` may become `after` and answer `r` when what
/// it has pending is completed: a session that shows that it is in its
/// handshake exchanges ciphertext with the socket first, and a failure of
/// that is the answer; then the ciphertext that it holds is sent as
/// [`sent_pending`] says.
pub open spec fn completed_prior<T: TlsSession>(sess: T, after: T, r: Result<(), Error>) -> bool {
    exists|flags: SessionFlags|
        #[trigger] sess.shows(flags) && if flags.is_handshaking {
            exists|mid: T, shaken: Result<(), Error>|
                #[trigger] sess.completes_io(mid, shaken) && match shaken {
                    Err(e) => r == Err::<(), Error>(e) && after == mid,
                    Ok(()) => sent_pending(mid, after, r),
                }
        } else {
            sent_pending(sess, after, r)
        }
}

/// Whether the session `sess` may become `after` and answer `r` when the
/// plaintext `buf` is written through it.
///
/// What is pending is completed first; if that fails, the failure is the
/// answer and no plaintext is handed over. Then the session is handed the
/// plaintext; a failure of that is the answer. Then the ciphertext goes to
/// the socket at once; if that fails, the failure is the answer, else the
/// answer is the number of bytes that the session took.
pub open spec fn wrote_through<T: TlsSession>(
    sess: T,
    buf: Seq<u8>,
    after: T,
    r: Result<usize, Error>,
) -> bool {
    exists|ready: T, prior: Result<(), Error>|
        #[trigger] completed_prior(sess, ready, prior) && match prior {
            Err(e) => r == Err::<usize, Error>(e) && after == ready,
            Ok(()) => exists|held: T, taken: Result<usize, Error>|
                #[trigger] ready.writes_plaintext(buf, held, taken) && match taken {
                    Err(e) => r == Err::<usize, Error>(e) && after == held,
                    Ok(len) => exists|sent: Result<(), Error>|
                        #[trigger] held.completes_io(after, sent) && match sent {
                            Err(e) => r == Err::<usize, Error>(e),
                            Ok(()) => r == Ok::<usize, Error>(len),
                        },
                },
        }
}

/// Whether the session `sess` may become `after` and answer `r` when
/// plaintext is read through it into a buffer, turning it from `before` into
/// `filled`.
///
/// What is pending is completed first; if that fails, the failure is the
/// answer. A session that then shows that it wants ciphertext exchanges it
/// with the socket once more; a failure of that is the answer. Then the
/// session decrypts into the buffer, and what that answers is the answer.
pub open spec fn read_through<T: TlsSession>(
    sess: T,
    before: Seq<u8>,
    filled: Seq<u8>,
    after: T,
    r: Result<usize, Error>,
) -> bool {
    exists|ready: T, prior: Result<(), Error>|
        #[trigger] completed_prior(sess, ready, prior) && match prior {
            Err(e) => r == Err::<usize, Error>(e) && after == ready && filled == before,
            Ok(()) => exists|flags: SessionFlags|
                #[trigger] ready.shows(flags) && if flags.wants_read {
                    exists|fed: T, got: Result<(), Error>|
                        #[trigger] ready.completes_io(fed, got) && match got {
                            Err(e) => r == Err::<usize, Error>(e) && after == fed && filled == before,
                            Ok(()) => fed.reads_plaintext(before, filled, after, r),
                        }
                } else {
                    ready.reads_plaintext(before, filled, after, r)
                },
        }
}

/// Whether the session `sess` may become `after` and answer `r` when it is
/// flushed.
///
/// What is pending is completed first; if that fails, the failure is the
/// answer. Then the plaintext writer is flushed; a failure of that is the
/// answer. Then the ciphertext that this left is sent as [`sent_pending`]
/// says.
pub open spec fn flushed_through<T: TlsSession>(sess: T, after: T, r: Result<(), Error>) -> bool {
    exists|ready: T, prior: Result<(), Error>|
        #[trigger] completed_prior(sess, ready, prior) && match prior {
            Err(e) => r == Err::<(), Error>(e) && after == ready,
            Ok(()) => exists|held: T, flushed: Result<(), Error>|
                #[trigger] ready.flushes_plaintext(held, flushed) && match flushed {
                    Err(e) => r == Err::<(), Error>(e) && after == held,
                    Ok(()) => sent_pending(held, after, r),
                },
        }
}

/// A write to a session that is in its handshake completes the handshake
/// first: ciphertext is exchanged with the socket on the session as it was
/// when the write began, and if that exchange fails, the write fails with
/// that failure and the session has been handed no plaintext.
pub proof fn lemma_write_completes_the_handshake<T: TlsSession>(
    sess: T,
    buf: Seq<u8>,
    after: T,
    r: Result<usize, Error>,
)
    requires
        wrote_through(sess, buf, after, r),
        forall|flags: SessionFlags| #[trigger] sess.shows(flags) ==> flags.is_handshaking,
    ensures
        exists|mid: T, shaken: Result<(), Error>|
            #[trigger] sess.completes_io(mid, shaken) && (shaken matches Err(e) ==> r == Err::<
                usize,
                Error,
            >(e) && after == mid),
{
    let (ready, prior) = choose|ready: T, prior: Result<(), Error>|
        #[trigger] completed_prior(sess, ready, prior) && match prior {
            Err(e) => r == Err::<usize, Error>(e) && after == ready,
            Ok(()) => exists|held: T, taken: Result<usize, Error>|
                #[trigger] ready.writes_plaintext(buf, held, taken) && match taken {
                    Err(e) => r == Err::<usize, Error>(e) && after == held,
                    Ok(len) => exists|sent: Result<(), Error>|
                        #[trigger] held.completes_io(after, sent) && match sent {
                            Err(e) => r == Err::<usize, Error>(e),
                            Ok(()) => r == Ok::<usize, Error>(len),
                        },
                },
        };
    let flags = choose|flags: SessionFlags|
        #[trigger] sess.shows(flags) && if flags.is_handshaking {
            exists|mid: T, shaken: Result<(), Error>|
                #[trigger] sess.completes_io(mid, shaken) && match shaken {
                    Err(e) => prior == Err::<(), Error>(e) && ready == mid,
                    Ok(()) => sent_pending(mid, ready, prior),
                }
        } else {
            sent_pending(sess, ready, prior)
        };
    assert(flags.is_handshaking);
    let (mid, shaken) = choose|mid: T, shaken: Result<(), Error>|
        #[trigger] sess.completes_io(mid, shaken) && match shaken {
            Err(e) => prior == Err::<(), Error>(e) && ready == mid,
            Ok(()) => sent_pending(mid, ready, prior),
        };
    assert(sess.completes_io(mid, shaken));
}

/// A TLS stream that owns its session and its socket.
pub struct OwnedTlsStream<T: TlsSession> {
    /// The session on its socket.
    pub sess: T,
}

impl<T: TlsSession> OwnedTlsStream<T> {
    /// A stream on the session `sess`.
    pub fn new(sess: T) -> (stream: OwnedTlsStream<T>)
        ensures
            stream.sess == sess,
    {
        OwnedTlsStream { sess }
    }

    /// Sends the ciphertext that the session holds for the socket, if it
    /// holds any.
    fn send_pending(&mut self) -> (r: Result<(), Error>)
        ensures
            sent_pending(old(self).sess, final(self).sess, r),
    {
        let flags = self.sess.flags();
        if flags.wants_write {
            self.sess.complete_io()
        } else {
            Ok(())
        }
    }

    /// Completes what the session has pending: the handshake, then the
    /// ciphertext that it holds for the socket.
    pub fn complete_prior_io(&mut self) -> (r: Result<(), Error>)
        ensures
            completed_prior(old(self).sess, final(self).sess, r),
    {
        let flags = self.sess.flags();
        if flags.is_handshaking {
            let shaken = self.sess.complete_io();
            let ghost mid = self.sess;
            match shaken {
                Ok(()) => {},
                Err(e) => {
                    return Err(e);
                },
            }
            let r = self.send_pending();
            proof {
                assert(old(self).sess.completes_io(mid, shaken));
            }
            r
        } else {
            self.send_pending()
        }
    }

    /// Reads plaintext into `buf` and says how many bytes.
    pub fn read(&mut self, buf: &mut [u8]) -> (r: Result<usize, Error>)
        ensures
            read_through(old(self).sess, old(buf)@, final(buf)@, final(self).sess, r),
    {
        let prior = self.complete_prior_io();
        let ghost ready = self.sess;
        match prior {
            Ok(()) => {},
            Err(e) => {
                return Err(e);
            },
        }
        let flags = self.sess.flags();
        if flags.wants_read {
            let got = self.sess.complete_io();
            let ghost fed = self.sess;
            match got {
                Ok(()) => {},
                Err(e) => {
                    proof {
                        assert(ready.completes_io(fed, got));
                    }
                    return Err(e);
                },
            }
            let r = self.sess.read_plaintext(buf);
            proof {
                assert(ready.completes_io(fed, got));
            }
            r
        } else {
            self.sess.read_plaintext(buf)
        }
    }

    /// Writes the plaintext `buf` and says how many bytes the session
    /// took. The ciphertext goes to the socket before the call returns.
    pub fn write(&mut self, buf: &[u8]) -> (r: Result<usize, Error>)
        ensures
            wrote_through(old(self).sess, buf@, final(self).sess, r),
    {
        let prior = self.complete_prior_io();
        let ghost ready = self.sess;
        match prior {
            Ok(()) => {},
            Err(e) => {
                return Err(e);
            },
        }
        let taken = self.sess.write_plaintext(buf);
        let ghost held = self.sess;
        let len = match taken {
            Ok(len) => len,
            Err(e) => {
                proof {
                    assert(ready.writes_plaintext(buf@, held, taken));
                }
                return Err(e);
            },
        };
        let sent = self.sess.complete_io();
        proof {
            assert(held.completes_io(self.sess, sent));
            assert(ready.writes_plaintext(buf@, held, taken));
        }
        match sent {
            Ok(()) => Ok(len),
            Err(e) => Err(e),
        }
    }

    /// Flushes the plaintext writer and sends the ciphertext that this
    /// leaves.
    pub fn flush(&mut self) -> (r: Result<(), Error>)
        ensures
            flushed_through(old(self).sess, final(self).sess, r),
    {
        let prior = self.complete_prior_io();
        let ghost ready = self.sess;
        match prior {
            Ok(()) => {},
            Err(e) => {
                return Err(e);
            },
        }
        let flushed = self.sess.flush_plaintext();
        let ghost held = self.sess;
        match flushed {
            Ok(()) => {},
            Err(e) => {
                proof {
                    assert(ready.flushes_plaintext(held, flushed));
                }
                return Err(e);
            },
        }
        let r = self.send_pending();
        proof {
            assert(ready.flushes_plaintext(held, flushed));
        }
        r
    }
}

} // verus!
