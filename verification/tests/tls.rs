use boxxy::tls::{SessionFlags, TlsAction, TlsRequest, TlsStage, TlsTurn};

/// A session and a socket that only keep a record of what is done to them.
struct MockSession {
    flags: SessionFlags,
    /// Exchanges with the socket that the handshake still needs.
    handshake_left: u32,
    calls: Vec<TlsAction>,
    sent: Vec<u8>,
    outgoing: Vec<u8>,
}

impl MockSession {
    fn new(handshake_left: u32) -> MockSession {
        MockSession {
            flags: SessionFlags {
                is_handshaking: handshake_left > 0,
                wants_read: false,
                wants_write: handshake_left > 0,
            },
            handshake_left,
            calls: Vec::new(),
            sent: Vec::new(),
            outgoing: Vec::new(),
        }
    }

    fn perform(&mut self, action: TlsAction, buf: &[u8]) {
        self.calls.push(action);
        match action {
            TlsAction::CompleteIo => {
                if self.handshake_left > 0 {
                    self.handshake_left -= 1;
                    self.flags.is_handshaking = self.handshake_left > 0;
                    self.flags.wants_write = false;
                } else {
                    assert!(!self.flags.is_handshaking);
                    self.sent.extend_from_slice(&self.outgoing);
                    self.outgoing.clear();
                    self.flags.wants_write = false;
                    self.flags.wants_read = false;
                }
            }
            TlsAction::WritePlaintext => {
                assert!(!self.flags.is_handshaking, "plaintext written during the handshake");
                self.outgoing.extend_from_slice(buf);
                self.flags.wants_write = true;
            }
            TlsAction::ReadPlaintext | TlsAction::FlushPlaintext => {
                assert!(!self.flags.is_handshaking);
            }
            TlsAction::Return => {}
        }
    }

    fn drive(&mut self, request: TlsRequest, buf: &[u8]) {
        let mut turn = TlsTurn::new(request);
        loop {
            let action = turn.next(self.flags);
            if action == TlsAction::Return {
                break;
            }
            self.perform(action, buf);
        }
        assert!(turn.is_done());
    }
}

#[test]
fn write_before_handshake_completes_it_first() {
    let mut session = MockSession::new(1);
    session.drive(TlsRequest::Write, b"hello");
    assert_eq!(
        session.calls,
        vec![TlsAction::CompleteIo, TlsAction::WritePlaintext, TlsAction::CompleteIo]
    );
    assert_eq!(session.sent, b"hello");
    let first_write = session.calls.iter().position(|a| *a == TlsAction::WritePlaintext).unwrap();
    let first_io = session.calls.iter().position(|a| *a == TlsAction::CompleteIo).unwrap();
    assert!(first_io < first_write);
}

#[test]
fn write_on_open_session_writes_then_flushes_ciphertext() {
    let mut session = MockSession::new(0);
    session.drive(TlsRequest::Write, b"data");
    assert_eq!(session.calls, vec![TlsAction::WritePlaintext, TlsAction::CompleteIo]);
    assert_eq!(session.sent, b"data");
    assert!(session.outgoing.is_empty());
}

#[test]
fn pending_ciphertext_goes_out_before_new_plaintext() {
    let mut session = MockSession::new(0);
    session.outgoing.extend_from_slice(b"old");
    session.flags.wants_write = true;
    session.drive(TlsRequest::Write, b"new");
    assert_eq!(
        session.calls,
        vec![TlsAction::CompleteIo, TlsAction::WritePlaintext, TlsAction::CompleteIo]
    );
    assert_eq!(session.sent, b"oldnew");
}

#[test]
fn read_feeds_the_session_when_it_wants_ciphertext() {
    let mut session = MockSession::new(0);
    session.flags.wants_read = true;
    session.drive(TlsRequest::Read, b"");
    assert_eq!(session.calls, vec![TlsAction::CompleteIo, TlsAction::ReadPlaintext]);

    let mut session = MockSession::new(0);
    session.drive(TlsRequest::Read, b"");
    assert_eq!(session.calls, vec![TlsAction::ReadPlaintext]);
}

#[test]
fn read_before_handshake_completes_it_first() {
    let mut session = MockSession::new(1);
    session.drive(TlsRequest::Read, b"");
    assert_eq!(session.calls, vec![TlsAction::CompleteIo, TlsAction::ReadPlaintext]);
}

#[test]
fn flush_drains_what_is_left() {
    let mut session = MockSession::new(0);
    session.drive(TlsRequest::Flush, b"");
    assert_eq!(session.calls, vec![TlsAction::FlushPlaintext]);

    let mut turn = TlsTurn::new(TlsRequest::Flush);
    let idle = SessionFlags { is_handshaking: false, wants_read: false, wants_write: false };
    let pending = SessionFlags { is_handshaking: false, wants_read: false, wants_write: true };
    assert_eq!(turn.next(idle), TlsAction::FlushPlaintext);
    assert_eq!(turn.next(pending), TlsAction::CompleteIo);
    assert_eq!(turn.next(idle), TlsAction::Return);
}

#[test]
fn write_ignores_that_the_session_wants_to_read() {
    let mut turn = TlsTurn::new(TlsRequest::Write);
    let flags = SessionFlags { is_handshaking: false, wants_read: true, wants_write: false };
    assert_eq!(turn.next(flags), TlsAction::WritePlaintext);
    assert_eq!(turn.next(flags), TlsAction::CompleteIo);
    assert_eq!(turn.next(flags), TlsAction::Return);
    assert_eq!(turn.next(flags), TlsAction::Return);
}

#[test]
fn longest_turn_has_five_actions() {
    let busy = SessionFlags { is_handshaking: true, wants_read: true, wants_write: true };
    let mut turn = TlsTurn::new(TlsRequest::Read);
    assert_eq!(turn.stage, TlsStage::Handshake);
    assert_eq!(turn.next(busy), TlsAction::CompleteIo);
    assert_eq!(turn.next(busy), TlsAction::CompleteIo);
    assert_eq!(turn.next(busy), TlsAction::CompleteIo);
    assert_eq!(turn.next(busy), TlsAction::ReadPlaintext);
    assert_eq!(turn.next(busy), TlsAction::Return);
    assert!(turn.is_done());

    let mut turn = TlsTurn::new(TlsRequest::Write);
    assert_eq!(turn.next(busy), TlsAction::CompleteIo);
    assert_eq!(turn.next(busy), TlsAction::CompleteIo);
    assert_eq!(turn.next(busy), TlsAction::WritePlaintext);
    assert_eq!(turn.next(busy), TlsAction::CompleteIo);
    assert_eq!(turn.next(busy), TlsAction::Return);
}

/// A session that shows scripted flags and records what is done to it.
struct Recorder {
    handshaking: bool,
    wants_read: bool,
    wants_write: bool,
    fail_io: bool,
    calls: Vec<&'static str>,
    plaintext: Vec<u8>,
    sent: Vec<u8>,
}

impl Recorder {
    fn new(handshaking: bool) -> Recorder {
        Recorder {
            handshaking,
            wants_read: false,
            wants_write: handshaking,
            fail_io: false,
            calls: Vec::new(),
            plaintext: Vec::new(),
            sent: Vec::new(),
        }
    }
}

impl boxxy::tls::TlsSession for Recorder {
    fn flags(&self) -> SessionFlags {
        SessionFlags {
            is_handshaking: self.handshaking,
            wants_read: self.wants_read,
            wants_write: self.wants_write,
        }
    }

    fn complete_io(&mut self) -> Result<(), boxxy::Error> {
        self.calls.push("complete_io");
        if self.fail_io {
            return Err(boxxy::Error::io("connection reset"));
        }
        if self.handshaking {
            self.handshaking = false;
        } else {
            self.sent.extend_from_slice(&self.plaintext);
            self.plaintext.clear();
        }
        self.wants_write = false;
        self.wants_read = false;
        Ok(())
    }

    fn read_plaintext(&mut self, buf: &mut [u8]) -> Result<usize, boxxy::Error> {
        self.calls.push("read");
        assert!(!self.handshaking);
        buf[0] = b'p';
        Ok(1)
    }

    fn write_plaintext(&mut self, buf: &[u8]) -> Result<usize, boxxy::Error> {
        self.calls.push("write");
        assert!(!self.handshaking, "plaintext written during the handshake");
        self.plaintext.extend_from_slice(buf);
        self.wants_write = true;
        Ok(buf.len())
    }

    fn flush_plaintext(&mut self) -> Result<(), boxxy::Error> {
        self.calls.push("flush");
        Ok(())
    }
}

#[test]
fn stream_write_completes_the_handshake_first() {
    let mut stream = boxxy::tls::OwnedTlsStream::new(Recorder::new(true));
    assert_eq!(stream.write(b"hello").unwrap(), 5);
    assert_eq!(stream.sess.calls, vec!["complete_io", "write", "complete_io"]);
    assert_eq!(stream.sess.sent, b"hello");
}

#[test]
fn stream_write_hands_over_nothing_when_the_handshake_fails() {
    let mut session = Recorder::new(true);
    session.fail_io = true;
    let mut stream = boxxy::tls::OwnedTlsStream::new(session);
    assert_eq!(stream.write(b"hello").unwrap_err().message, "connection reset");
    assert_eq!(stream.sess.calls, vec!["complete_io"]);
    assert!(stream.sess.plaintext.is_empty());
    assert!(stream.sess.sent.is_empty());
}

#[test]
fn stream_write_on_open_session_flushes_each_write() {
    let mut stream = boxxy::tls::OwnedTlsStream::new(Recorder::new(false));
    stream.write(b"a").unwrap();
    stream.write(b"b").unwrap();
    assert_eq!(stream.sess.calls, vec!["write", "complete_io", "write", "complete_io"]);
    assert_eq!(stream.sess.sent, b"ab");
}

#[test]
fn stream_sends_what_is_pending_before_it_writes() {
    let mut session = Recorder::new(false);
    session.plaintext.extend_from_slice(b"old");
    session.wants_write = true;
    let mut stream = boxxy::tls::OwnedTlsStream::new(session);
    stream.write(b"new").unwrap();
    assert_eq!(stream.sess.calls, vec!["complete_io", "write", "complete_io"]);
    assert_eq!(stream.sess.sent, b"oldnew");
}

#[test]
fn stream_read_feeds_the_session_when_it_wants_ciphertext() {
    let mut buf = [0u8; 4];
    let mut session = Recorder::new(false);
    session.wants_read = true;
    let mut stream = boxxy::tls::OwnedTlsStream::new(session);
    assert_eq!(stream.read(&mut buf).unwrap(), 1);
    assert_eq!(stream.sess.calls, vec!["complete_io", "read"]);

    let mut stream = boxxy::tls::OwnedTlsStream::new(Recorder::new(false));
    assert_eq!(stream.read(&mut buf).unwrap(), 1);
    assert_eq!(stream.sess.calls, vec!["read"]);

    let mut stream = boxxy::tls::OwnedTlsStream::new(Recorder::new(true));
    assert_eq!(stream.read(&mut buf).unwrap(), 1);
    assert_eq!(stream.sess.calls, vec!["complete_io", "read"]);
    assert_eq!(buf[0], b'p');
}

#[test]
fn stream_flush_sends_what_the_flush_left() {
    let mut stream = boxxy::tls::OwnedTlsStream::new(Recorder::new(false));
    stream.flush().unwrap();
    assert_eq!(stream.sess.calls, vec!["flush"]);

    let mut stream = boxxy::tls::OwnedTlsStream::new(Recorder::new(true));
    stream.complete_prior_io().unwrap();
    assert_eq!(stream.sess.calls, vec!["complete_io"]);
    stream.flush().unwrap();
    assert_eq!(stream.sess.calls, vec!["complete_io", "flush"]);
}
