//! A thin request/response layer over the wire channel.
//!
//! [`Channel::call`] sends one domain value and receives one codomain
//! value; [`Channel::accept_call`] receives the domain value, applies a
//! handler inline, sends the result back, and returns what it received.
//! One request, one response; errors propagate unchanged and a handler
//! failure is not isolated from the exchange.

use vstd::prelude::*;
use vstd::pervasive::unreached;
use crate::channel::{Channel, ChannelError};
use crate::wire::Wire;

verus! {

impl Channel {
    /// Sends `domain` and then receives the reply, which is decoded as the
    /// codomain type `C`.
    pub fn call<D: Wire, C: Wire>(&mut self, domain: &D) -> (r: Result<C, ChannelError>)
        ensures
            final(self).spec_outbuf() == old(self).spec_outbuf() + D::enc_of(domain.model()),
            (match C::dec_of(old(self).spec_inbuf()) {
                Some((m, n)) => r matches Ok(c) && c.model() == m && final(self).spec_inbuf()
                    == old(self).spec_inbuf().skip(n),
                None => r == Err::<C, ChannelError>(ChannelError::DeserializeError)
                    && final(self).spec_inbuf() == old(self).spec_inbuf(),
            }),
            final(self).spec_info() == old(self).spec_info(),
            final(self).spec_pending() == old(self).spec_pending(),
    {
        let _ = self.send(domain);
        self.recv::<C>()
    }

    /// Receives one domain value, applies `func` to it, sends the result
    /// back, and returns the received value.  The handler runs inline; the
    /// reply put on the wire is one of the handler's possible results for
    /// exactly the value received.
    pub fn accept_call<D: Wire, C: Wire, F: Fn(&D) -> C>(&mut self, func: F) -> (r: Result<
        D,
        ChannelError,
    >)
        requires
            forall|x: &D| call_requires(func, (x,)),
        ensures
            (match D::dec_of(old(self).spec_inbuf()) {
                Some((m, n)) => {
                    &&& r matches Ok(d)
                    &&& r matches Ok(d) ==> d.model() == m
                    &&& final(self).spec_inbuf() == old(self).spec_inbuf().skip(n)
                    &&& r matches Ok(d) ==> exists|c: C|
                        #[trigger] call_ensures(func, (&d,), c)
                            && final(self).spec_outbuf() == old(self).spec_outbuf()
                            + C::enc_of(c.model())
                },
                None => {
                    &&& r == Err::<D, ChannelError>(ChannelError::DeserializeError)
                    &&& final(self).spec_inbuf() == old(self).spec_inbuf()
                    &&& final(self).spec_outbuf() == old(self).spec_outbuf()
                },
            }),
            final(self).spec_info() == old(self).spec_info(),
            final(self).spec_pending() == old(self).spec_pending(),
    {
        let domain: D = match self.recv::<D>() {
            Ok(v) => v,
            Err(e) => {
                return Err(e);
            },
        };
        let codomain = func(&domain);
        let _ = self.send(&codomain);
        Ok(domain)
    }
}

/// RPC symmetry: one `accept_call` on a channel, paired with the two
/// halves of a `call` on its counterpart, hands the caller a value the
/// handler could have produced for exactly the value the caller sent, and
/// hands the callee that value.
pub fn rpc_exchange<D: Wire, C: Wire, F: Fn(&D) -> C>(
    caller: &mut Channel,
    callee: &mut Channel,
    domain: &D,
    func: F,
) -> (r: Result<(D, C), ChannelError>)
    requires
        old(caller).spec_inbuf() == Seq::<u8>::empty(),
        old(caller).spec_outbuf() == Seq::<u8>::empty(),
        old(callee).spec_inbuf() == Seq::<u8>::empty(),
        old(callee).spec_outbuf() == Seq::<u8>::empty(),
        forall|x: &D| call_requires(func, (x,)),
    ensures
        r matches Ok((d, c)) && d.model() == domain.model() && exists|c0: C|
            call_ensures(func, (&d,), c0) && c.model() == c0.model(),
{
    let _ = caller.send(domain);
    let request = caller.take_output();
    callee.feed(request);
    proof {
        assert(callee.spec_inbuf() =~= D::enc_of(domain.model()) + Seq::<u8>::empty());
        D::lemma_round_trip(domain.model(), Seq::<u8>::empty());
    }
    let received: D = match callee.accept_call(func) {
        Ok(v) => v,
        Err(_) => unreached(),
    };
    let ghost c0 = choose|c0: C|
        call_ensures(func, (&received,), c0) && callee.spec_outbuf() == Seq::<u8>::empty()
            + C::enc_of(c0.model());
    let response = callee.take_output();
    caller.feed(response);
    proof {
        assert(caller.spec_inbuf() =~= C::enc_of(c0.model()) + Seq::<u8>::empty());
        C::lemma_round_trip(c0.model(), Seq::<u8>::empty());
    }
    let reply: C = match caller.recv::<C>() {
        Ok(v) => v,
        Err(_) => unreached(),
    };
    Ok((received, reply))
}

} // verus!
