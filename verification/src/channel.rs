//! The wire channel: whole-record message passing and the identity
//! handshake.
//!
//! A channel owns two byte buffers.  Sending serializes a value as one
//! self-terminating record appended to the outgoing buffer; receiving
//! decodes exactly one leading record of the incoming buffer.  The caller
//! that owns the transport moves bytes with [`Channel::take_output`] and
//! [`Channel::feed`]; every operation in between is synchronous over the
//! buffers and never retries.
//!
//! Establishment is a one-round-trip handshake: the initiator presents an
//! identity string, the acceptor consults an injectable admission policy
//! and replies `"ok"` or `"err"`; any other outcome than `"ok"` fails the
//! construction, so an authenticated channel exists only after a
//! successful handshake.

use vstd::prelude::*;
use vstd::pervasive::unreached;
use vstd::slice::{slice_subrange, slice_to_vec};
use vstd::string::StringExecFns;
use crate::wire::{dec_str, enc_str, Wire};

verus! {

/// Why a channel operation failed.
#[derive(Clone, Copy, PartialEq, Eq, Structural, Debug)]
pub enum ChannelError {
    /// The transport failed.
    IoError,
    /// The handshake rejected the peer, or acknowledged with anything but
    /// "ok".
    AuthError,
    /// A value could not be encoded.
    SerializeError,
    /// The incoming bytes held no complete, well-formed record of the
    /// expected type.
    DeserializeError,
}

/// An admission predicate: which peers the acceptor lets in, decided on
/// the identity they present.
pub trait Policy {
    /// The set of identities this policy admits.
    spec fn spec_allows(&self, id: Seq<char>) -> bool;

    /// Decides one identity.
    fn allows(&self, id: &String) -> (r: bool)
        ensures
            r == self.spec_allows(id@),
    ;
}

/// A policy admitting exactly one expected identity.
pub struct ExactIdentity {
    /// The only identity this policy admits.
    pub expected: String,
}

impl Policy for ExactIdentity {
    open spec fn spec_allows(&self, id: Seq<char>) -> bool {
        id == self.expected@
    }

    fn allows(&self, id: &String) -> (r: bool) {
        *id == self.expected
    }
}

/// A bidirectional channel of whole binary records.
pub struct Channel {
    info: Option<String>,
    pending: Option<String>,
    inbuf: Vec<u8>,
    outbuf: Vec<u8>,
}

impl Channel {
    /// The identity agreed during the handshake, if it has succeeded.
    pub closed spec fn spec_info(&self) -> Option<Seq<char>> {
        match self.info {
            Some(s) => Some(s@),
            None => None,
        }
    }

    /// The identity presented at connect, awaiting acknowledgement.
    pub closed spec fn spec_pending(&self) -> Option<Seq<char>> {
        match self.pending {
            Some(s) => Some(s@),
            None => None,
        }
    }

    /// Bytes received from the peer and not yet consumed.
    pub closed spec fn spec_inbuf(&self) -> Seq<u8> {
        self.inbuf@
    }

    /// Bytes written and not yet carried to the peer.
    pub closed spec fn spec_outbuf(&self) -> Seq<u8> {
        self.outbuf@
    }

    /// The agreed identity, or the empty string before the handshake.
    pub fn info(&self) -> (r: &str)
        ensures
            (match self.spec_info() {
                Some(s) => r@ == s,
                None => r@ == Seq::<char>::empty(),
            }),
    {
        match &self.info {
            Some(s) => s.as_str(),
            None => {
                let e = "";
                proof {
                    reveal_strlit("");
                    assert(e@ =~= Seq::<char>::empty());
                }
                e
            },
        }
    }

    /// Hands the channel bytes that arrived from the peer.
    pub fn feed(&mut self, bytes: Vec<u8>)
        ensures
            final(self).spec_inbuf() == old(self).spec_inbuf() + bytes@,
            final(self).spec_outbuf() == old(self).spec_outbuf(),
            final(self).spec_info() == old(self).spec_info(),
            final(self).spec_pending() == old(self).spec_pending(),
            old(self).spec_inbuf().len() + bytes@.len() <= usize::MAX,
    {
        let mut b = bytes;
        self.inbuf.append(&mut b);
        let n = self.inbuf.len();
        proof {
            assert(n as int == final(self).spec_inbuf().len());
        }
    }

    /// Removes and returns the bytes waiting to be carried to the peer.
    pub fn take_output(&mut self) -> (r: Vec<u8>)
        ensures
            r@ == old(self).spec_outbuf(),
            old(self).spec_outbuf().len() <= usize::MAX,
            final(self).spec_outbuf() == Seq::<u8>::empty(),
            final(self).spec_inbuf() == old(self).spec_inbuf(),
            final(self).spec_info() == old(self).spec_info(),
            final(self).spec_pending() == old(self).spec_pending(),
    {
        let n = self.outbuf.len();
        proof {
            assert(n as int == old(self).spec_outbuf().len());
        }
        let mut out: Vec<u8> = Vec::new();
        core::mem::swap(&mut out, &mut self.outbuf);
        out
    }

    /// Creates the acceptor's unauthenticated channel, ready to run the
    /// acceptor side of the handshake once the peer's greeting arrives.
    pub fn accept_open() -> (c: Channel)
        ensures
            c.spec_info() is None,
            c.spec_pending() is None,
            c.spec_inbuf() == Seq::<u8>::empty(),
            c.spec_outbuf() == Seq::<u8>::empty(),
    {
        Channel { info: None, pending: None, inbuf: Vec::new(), outbuf: Vec::new() }
    }

    /// Creates the initiator's channel with its identity greeting written
    /// to the outgoing buffer, ready for [`Channel::connect_finish`] once
    /// the acknowledgement arrives.
    pub fn connect_open(identity: String) -> (c: Channel)
        ensures
            c.spec_info() is None,
            c.spec_pending() == Some(identity@),
            c.spec_inbuf() == Seq::<u8>::empty(),
            c.spec_outbuf() == enc_str(identity@),
    {
        let mut out: Vec<u8> = Vec::new();
        identity.encode(&mut out);
        Channel { info: None, pending: Some(identity), inbuf: Vec::new(), outbuf: out }
    }

    /// Runs the acceptor side of the handshake: reads the peer's identity,
    /// consults the policy, and acknowledges with "ok" or "err".  A
    /// rejected peer still gets the "err" acknowledgement, but the
    /// construction fails with `AuthError`; the identity is recorded only
    /// on success.
    pub fn accept_handshake<Pol: Policy>(&mut self, policy: &Pol) -> (r: Result<(), ChannelError>)
        ensures
            (match dec_str(old(self).spec_inbuf()) {
                Some((id, n)) => {
                    &&& final(self).spec_inbuf() == old(self).spec_inbuf().skip(n)
                    &&& if policy.spec_allows(id) {
                        &&& r is Ok
                        &&& final(self).spec_info() == Some(id)
                        &&& final(self).spec_outbuf() == old(self).spec_outbuf() + enc_str("ok"@)
                    } else {
                        &&& r == Err::<(), ChannelError>(ChannelError::AuthError)
                        &&& final(self).spec_info() == old(self).spec_info()
                        &&& final(self).spec_outbuf() == old(self).spec_outbuf() + enc_str("err"@)
                    }
                },
                None => {
                    &&& r == Err::<(), ChannelError>(ChannelError::DeserializeError)
                    &&& final(self).spec_inbuf() == old(self).spec_inbuf()
                    &&& final(self).spec_outbuf() == old(self).spec_outbuf()
                    &&& final(self).spec_info() == old(self).spec_info()
                },
            }),
            final(self).spec_pending() == old(self).spec_pending(),
    {
        let id: String = match self.recv::<String>() {
            Ok(v) => v,
            Err(e) => {
                return Err(e);
            },
        };
        if policy.allows(&id) {
            let ack = String::from_str("ok");
            let _ = self.send::<String>(&ack);
            self.info = Some(id);
            Ok(())
        } else {
            let ack = String::from_str("err");
            let _ = self.send::<String>(&ack);
            Err(ChannelError::AuthError)
        }
    }

    /// Runs the initiator's second handshake step: reads the
    /// acknowledgement.  Exactly "ok" establishes the channel under the
    /// identity presented at connect; any other reply fails with
    /// `AuthError`.
    pub fn connect_finish(&mut self) -> (r: Result<(), ChannelError>)
        requires
            old(self).spec_pending() is Some,
        ensures
            (match dec_str(old(self).spec_inbuf()) {
                Some((ack, n)) => {
                    &&& final(self).spec_inbuf() == old(self).spec_inbuf().skip(n)
                    &&& final(self).spec_outbuf() == old(self).spec_outbuf()
                    &&& if ack == "ok"@ {
                        r is Ok && final(self).spec_info() == old(self).spec_pending()
                    } else {
                        r == Err::<(), ChannelError>(ChannelError::AuthError)
                            && final(self).spec_info() == old(self).spec_info()
                    }
                },
                None => {
                    &&& r == Err::<(), ChannelError>(ChannelError::DeserializeError)
                    &&& final(self).spec_inbuf() == old(self).spec_inbuf()
                    &&& final(self).spec_outbuf() == old(self).spec_outbuf()
                    &&& final(self).spec_info() == old(self).spec_info()
                },
            }),
            final(self).spec_pending() == old(self).spec_pending(),
    {
        let ack: String = match self.recv::<String>() {
            Ok(v) => v,
            Err(e) => {
                return Err(e);
            },
        };
        let expected = String::from_str("ok");
        if ack == expected {
            let p: String = match &self.pending {
                Some(s) => s.clone(),
                None => unreached(),
            };
            self.info = Some(p);
            Ok(())
        } else {
            Err(ChannelError::AuthError)
        }
    }

    /// Serializes one value into the outgoing buffer as a single record.
    /// Writing to the buffer always succeeds; transport failures surface
    /// where the bytes are moved.
    pub fn send<T: Wire>(&mut self, message: &T) -> (r: Result<(), ChannelError>)
        ensures
            r is Ok,
            final(self).spec_outbuf() == old(self).spec_outbuf() + T::enc_of(message.model()),
            final(self).spec_inbuf() == old(self).spec_inbuf(),
            final(self).spec_info() == old(self).spec_info(),
            final(self).spec_pending() == old(self).spec_pending(),
    {
        message.encode(&mut self.outbuf);
        Ok(())
    }

    /// Decodes exactly one leading record of the incoming buffer as `T`
    /// and consumes it; a missing or malformed record fails with
    /// `DeserializeError` and leaves the channel unchanged.
    pub fn recv<T: Wire>(&mut self) -> (r: Result<T, ChannelError>)
        ensures
            (match T::dec_of(old(self).spec_inbuf()) {
                Some((m, n)) => r matches Ok(v) && v.model() == m && final(self).spec_inbuf()
                    == old(self).spec_inbuf().skip(n),
                None => r == Err::<T, ChannelError>(ChannelError::DeserializeError)
                    && final(self).spec_inbuf() == old(self).spec_inbuf(),
            }),
            final(self).spec_outbuf() == old(self).spec_outbuf(),
            final(self).spec_info() == old(self).spec_info(),
            final(self).spec_pending() == old(self).spec_pending(),
    {
        let parsed = T::decode(self.inbuf.as_slice());
        match parsed {
            Some((v, n)) => {
                proof {
                    T::lemma_dec_len(self.inbuf@);
                }
                let rest = slice_to_vec(slice_subrange(self.inbuf.as_slice(), n, self.inbuf.len()));
                self.inbuf = rest;
                Ok(v)
            },
            None => Err(ChannelError::DeserializeError),
        }
    }

    /// Releases the channel.  No termination record is sent at this layer.
    pub fn close(self) {
    }
}

} // verus!
