//! Session channels: protocol-typed handles over a wire channel.
//!
//! A protocol is written with the marker types below; [`Dual`] maps each
//! protocol to the one its peer must follow, case for case the map that
//! [`crate::proto::spec_dual`] states on protocol terms.  A [`Chan`] binds
//! a wire channel to a
//! current protocol; every operation consumes the handle by value and
//! returns a new handle at the successor protocol, so using a stale handle
//! is unrepresentable rather than detected at run time.  The environment
//! parameter `E` is the stack of enclosing recursion bodies, pushed by
//! [`Chan::enter`] and consumed by [`Chan::zero`]; only the innermost
//! root, [`Var<Z>`], is addressable.

use core::marker::PhantomData;
use vstd::prelude::*;
use vstd::pervasive::unreached;
use crate::channel::{Channel, ChannelError, Policy};
use crate::choice::Choice;
use crate::wire::{dec_bool, enc_bool, enc_str, Wire};

verus! {

/// The result of an external choice: the session continues on one of two
/// protocol branches.
pub enum Branch<L, R> {
    Left(L),
    Right(R),
}

/// The recursion variable naming the innermost enclosing root.
pub struct Z;

/// The terminated protocol: only closing is legal.
pub struct Eps;

/// Send a `T`, then continue as `P`.
pub struct Send<T, P>(PhantomData<(T, P)>);

/// Receive a `T`, then continue as `P`.
pub struct Recv<T, P>(PhantomData<(T, P)>);

/// The peer picks between `P` and `Q`.
pub struct Offer<P, Q>(PhantomData<(P, Q)>);

/// The local party picks between `P` and `Q`.
pub struct Choose<P, Q>(PhantomData<(P, Q)>);

/// Entry point of a recursive protocol with body `P`.
pub struct Rec<P>(PhantomData<P>);

/// A recursion variable with type-level index `N`.
pub struct Var<N>(PhantomData<N>);

/// A protocol with a structural dual: the protocol its peer must follow.
///
/// Sends and receives swap, the two kinds of choice swap, termination and
/// recursion map through.  Each instance mirrors one case of
/// [`crate::proto::spec_dual`], the term-level duality map, which is proved
/// total and involutive there; here the type system resolves the mapping at
/// build time.
pub trait Dual {
    /// The peer's protocol.
    type Dual;
}

impl Dual for Eps {
    type Dual = Eps;
}

impl<T, P: Dual> Dual for Send<T, P> {
    type Dual = Recv<T, P::Dual>;
}

impl<T, P: Dual> Dual for Recv<T, P> {
    type Dual = Send<T, P::Dual>;
}

impl<P: Dual, Q: Dual> Dual for Offer<P, Q> {
    type Dual = Choose<P::Dual, Q::Dual>;
}

impl<P: Dual, Q: Dual> Dual for Choose<P, Q> {
    type Dual = Offer<P::Dual, Q::Dual>;
}

impl<P: Dual> Dual for Rec<P> {
    type Dual = Rec<P::Dual>;
}

impl Dual for Var<Z> {
    type Dual = Var<Z>;
}

/// A session channel: a wire channel bound to environment `E` and current
/// protocol `P`.  Every operation consumes the handle.
pub struct Chan<E, P>(pub Channel, pub PhantomData<(E, P)>);

impl<E> Chan<E, Eps> {
    /// Closes the session; legal only once the protocol has terminated.
    pub fn close(self) {
        self.0.close();
    }
}

impl<E, P> Chan<(P, E), Var<Z>> {
    /// Jumps back to the body of the innermost enclosing recursion root.
    #[must_use]
    pub fn zero(self) -> (r: Chan<(P, E), P>)
        ensures
            r.0 == self.0,
    {
        Chan(self.0, PhantomData)
    }
}

impl<E, P, T: Wire> Chan<E, Send<T, P>> {
    /// Sends one value; the session continues at `P`.
    #[must_use]
    pub fn send(self, v: T) -> (r: Chan<E, P>)
        ensures
            r.0.spec_outbuf() == self.0.spec_outbuf() + T::enc_of(v.model()),
            r.0.spec_inbuf() == self.0.spec_inbuf(),
            r.0.spec_info() == self.0.spec_info(),
            r.0.spec_pending() == self.0.spec_pending(),
    {
        let Chan(mut ch, _) = self;
        let _ = ch.send(&v);
        Chan(ch, PhantomData)
    }
}

impl<E, P, T: Wire> Chan<E, Recv<T, P>> {
    /// Receives one value; the session continues at `P`.  A missing or
    /// malformed record is fatal to the session.
    pub fn recv(self) -> (r: Result<(Chan<E, P>, T), ChannelError>)
        ensures
            (match T::dec_of(self.0.spec_inbuf()) {
                Some((m, n)) => r matches Ok((c, v)) && v.model() == m && c.0.spec_inbuf()
                    == self.0.spec_inbuf().skip(n) && c.0.spec_outbuf() == self.0.spec_outbuf()
                    && c.0.spec_info() == self.0.spec_info() && c.0.spec_pending()
                    == self.0.spec_pending(),
                None => r matches Err(e) && e == ChannelError::DeserializeError,
            }),
    {
        let Chan(mut ch, _) = self;
        match ch.recv::<T>() {
            Ok(v) => Ok((Chan(ch, PhantomData), v)),
            Err(e) => Err(e),
        }
    }
}

impl<E, P, Q> Chan<E, Choose<P, Q>> {
    /// Selects the left branch, telling the peer with a `true` record.
    #[must_use]
    pub fn sel0(self) -> (r: Chan<E, P>)
        ensures
            r.0.spec_outbuf() == self.0.spec_outbuf() + enc_bool(true),
            r.0.spec_inbuf() == self.0.spec_inbuf(),
            r.0.spec_info() == self.0.spec_info(),
            r.0.spec_pending() == self.0.spec_pending(),
    {
        let Chan(mut ch, _) = self;
        let _ = ch.send::<bool>(&true);
        Chan(ch, PhantomData)
    }

    /// Selects the right branch, telling the peer with a `false` record.
    #[must_use]
    pub fn sel1(self) -> (r: Chan<E, Q>)
        ensures
            r.0.spec_outbuf() == self.0.spec_outbuf() + enc_bool(false),
            r.0.spec_inbuf() == self.0.spec_inbuf(),
            r.0.spec_info() == self.0.spec_info(),
            r.0.spec_pending() == self.0.spec_pending(),
    {
        let Chan(mut ch, _) = self;
        let _ = ch.send::<bool>(&false);
        Chan(ch, PhantomData)
    }
}

impl<E, P, Q> Chan<E, Offer<P, Q>> {
    /// Waits for the peer's selection: a `true` record continues on the
    /// left branch, `false` on the right.  Any other record is a protocol
    /// violation reported as `DeserializeError`.
    pub fn offer(self) -> (r: Result<Branch<Chan<E, P>, Chan<E, Q>>, ChannelError>)
        ensures
            (match dec_bool(self.0.spec_inbuf()) {
                Some((sel, n)) => if sel {
                    r matches Ok(b) && b matches Branch::Left(c) && c.0.spec_inbuf()
                        == self.0.spec_inbuf().skip(n) && c.0.spec_outbuf()
                        == self.0.spec_outbuf() && c.0.spec_info() == self.0.spec_info()
                        && c.0.spec_pending() == self.0.spec_pending()
                } else {
                    r matches Ok(b) && b matches Branch::Right(c) && c.0.spec_inbuf()
                        == self.0.spec_inbuf().skip(n) && c.0.spec_outbuf()
                        == self.0.spec_outbuf() && c.0.spec_info() == self.0.spec_info()
                        && c.0.spec_pending() == self.0.spec_pending()
                },
                None => r matches Err(e) && e == ChannelError::DeserializeError,
            }),
    {
        let Chan(mut ch, _) = self;
        match ch.recv::<bool>() {
            Ok(sel) => if sel {
                Ok(Branch::Left(Chan(ch, PhantomData)))
            } else {
                Ok(Branch::Right(Chan(ch, PhantomData)))
            },
            Err(e) => Err(e),
        }
    }
}

impl<E, P> Chan<E, Rec<P>> {
    /// Enters a recursive protocol, pushing its body onto the environment
    /// stack.  No wire traffic.
    #[must_use]
    pub fn enter(self) -> (r: Chan<(P, E), P>)
        ensures
            r.0 == self.0,
    {
        Chan(self.0, PhantomData)
    }
}

/// Establishes an acceptor/initiator session pair over one in-memory
/// handshake.
///
/// The pair exists exactly when the policy allows `identity`: the
/// acceptor's side then runs protocol `P` and the initiator's side its
/// structural dual, both authenticated under `identity` with clean
/// buffers.  A refused identity is acknowledged with "err" and the
/// construction fails with `AuthError`.
pub fn connect_pair<P: Dual, Pol: Policy>(identity: String, policy: &Pol) -> (r: Result<
    (Chan<(), P>, Chan<(), P::Dual>),
    ChannelError,
>)
    ensures
        r is Ok <==> policy.spec_allows(identity@),
        r matches Err(e) ==> e == ChannelError::AuthError,
        r matches Ok(pair) ==> {
            &&& pair.0.0.spec_info() == Some(identity@)
            &&& pair.1.0.spec_info() == Some(identity@)
            &&& pair.0.0.spec_inbuf() == Seq::<u8>::empty()
            &&& pair.0.0.spec_outbuf() == Seq::<u8>::empty()
            &&& pair.1.0.spec_inbuf() == Seq::<u8>::empty()
            &&& pair.1.0.spec_outbuf() == Seq::<u8>::empty()
        },
{
    let ghost id_seq = identity@;
    let mut cli = Channel::connect_open(identity);
    let mut srv = Channel::accept_open();
    let greeting = cli.take_output();
    srv.feed(greeting);
    proof {
        assert(srv.spec_inbuf() =~= enc_str(id_seq) + Seq::<u8>::empty());
        <String as Wire>::lemma_round_trip(id_seq, Seq::<u8>::empty());
    }
    let hs = srv.accept_handshake(policy);
    proof {
        assert(srv.spec_inbuf() =~= Seq::<u8>::empty());
    }
    let reply = srv.take_output();
    cli.feed(reply);
    proof {
        reveal_strlit("ok");
        reveal_strlit("err");
        if policy.spec_allows(id_seq) {
            assert(hs is Ok);
            assert(cli.spec_inbuf() =~= enc_str("ok"@) + Seq::<u8>::empty());
            <String as Wire>::lemma_round_trip("ok"@, Seq::<u8>::empty());
        } else {
            assert(hs == Err::<(), ChannelError>(ChannelError::AuthError));
            assert(cli.spec_inbuf() =~= enc_str("err"@) + Seq::<u8>::empty());
            <String as Wire>::lemma_round_trip("err"@, Seq::<u8>::empty());
            assert("err"@ != "ok"@);
        }
    }
    match cli.connect_finish() {
        Ok(()) => {
            proof {
                assert(policy.spec_allows(id_seq));
                assert(cli.spec_inbuf() =~= Seq::<u8>::empty());
            }
            Ok((Chan(srv, PhantomData), Chan(cli, PhantomData)))
        },
        Err(e) => {
            proof {
                assert(!policy.spec_allows(id_seq));
                assert(e == ChannelError::AuthError);
            }
            Err(e)
        },
    }
}

/// Offer/Choose agreement: whichever branch the choosing party selects,
/// the offering party, reading that selection from the bytes the chooser
/// produced, lands in the same branch.
pub fn choice_agreement<E1, P1, Q1, E2, P2, Q2>(
    pick: Choice,
    chooser: Chan<E1, Choose<P1, Q1>>,
    offerer: Chan<E2, Offer<P2, Q2>>,
) -> (r: (Branch<Chan<E1, P1>, Chan<E1, Q1>>, Branch<Chan<E2, P2>, Chan<E2, Q2>>))
    requires
        chooser.0.spec_outbuf() == Seq::<u8>::empty(),
        offerer.0.spec_inbuf() == Seq::<u8>::empty(),
    ensures
        r.0 matches Branch::Left(_) <==> pick == Choice::Left,
        r.1 matches Branch::Left(_) <==> pick == Choice::Left,
{
    let mut off = offerer;
    match pick {
        Choice::Left => {
            let mut c = chooser.sel0();
            let bytes = c.0.take_output();
            off.0.feed(bytes);
            proof {
                assert(off.0.spec_inbuf() =~= enc_bool(true) + Seq::<u8>::empty());
                <bool as Wire>::lemma_round_trip(true, Seq::<u8>::empty());
            }
            match off.offer() {
                Ok(b) => match b {
                    Branch::Left(oc) => (Branch::Left(c), Branch::Left(oc)),
                    Branch::Right(_) => unreached(),
                },
                Err(_) => unreached(),
            }
        },
        Choice::Right => {
            let mut c = chooser.sel1();
            let bytes = c.0.take_output();
            off.0.feed(bytes);
            proof {
                assert(off.0.spec_inbuf() =~= enc_bool(false) + Seq::<u8>::empty());
                <bool as Wire>::lemma_round_trip(false, Seq::<u8>::empty());
            }
            match off.offer() {
                Ok(b) => match b {
                    Branch::Right(oc) => (Branch::Right(c), Branch::Right(oc)),
                    Branch::Left(_) => unreached(),
                },
                Err(_) => unreached(),
            }
        },
    }
}

} // verus!
