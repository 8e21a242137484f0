//! The protocol algebra: an explicit term representation of protocols and
//! the structural duality map.
//!
//! A term describes the legal sequence of operations on one side of a
//! session: terminate, send or receive a value of a given shape, internal
//! or external choice, a recursion root, or a recursion variable naming an
//! enclosing root (only the innermost, index `0`, is addressable).  `dual`
//! turns one party's term into the term its peer must follow; it is total
//! and an involution.

use vstd::prelude::*;

verus! {

/// The shape of a value a protocol sends or receives.
#[derive(PartialEq, Eq, Debug)]
pub enum MsgType {
    U64,
    Bool,
    Str,
    Pair(Box<MsgType>, Box<MsgType>),
}

/// A protocol term.
#[derive(PartialEq, Eq, Debug)]
pub enum Term {
    /// The session is over; only closing is legal.
    Terminate,
    /// Send one value of the given shape, then continue.
    Send(MsgType, Box<Term>),
    /// Receive one value of the given shape, then continue.
    Receive(MsgType, Box<Term>),
    /// The local party picks the left or the right continuation.
    Choose(Box<Term>, Box<Term>),
    /// The peer picks the left or the right continuation.
    Offer(Box<Term>, Box<Term>),
    /// Entry point of a recursive protocol.
    RecursionRoot(Box<Term>),
    /// Jump back to an enclosing recursion root.
    RecursionVariable(u64),
}

/// The structural dual of a term: sends and receives swap, the two kinds
/// of choice swap, and the rest is mapped through.
pub open spec fn spec_dual(t: Term) -> Term
    decreases t,
{
    match t {
        Term::Terminate => Term::Terminate,
        Term::Send(m, p) => Term::Receive(m, Box::new(spec_dual(*p))),
        Term::Receive(m, p) => Term::Send(m, Box::new(spec_dual(*p))),
        Term::Choose(p, q) => Term::Offer(Box::new(spec_dual(*p)), Box::new(spec_dual(*q))),
        Term::Offer(p, q) => Term::Choose(Box::new(spec_dual(*p)), Box::new(spec_dual(*q))),
        Term::RecursionRoot(p) => Term::RecursionRoot(Box::new(spec_dual(*p))),
        Term::RecursionVariable(n) => Term::RecursionVariable(n),
    }
}

/// Computes the dual of a term.
pub fn dual(t: Term) -> (r: Term)
    ensures
        r == spec_dual(t),
    decreases t,
{
    match t {
        Term::Terminate => Term::Terminate,
        Term::Send(m, p) => Term::Receive(m, Box::new(dual(*p))),
        Term::Receive(m, p) => Term::Send(m, Box::new(dual(*p))),
        Term::Choose(p, q) => Term::Offer(Box::new(dual(*p)), Box::new(dual(*q))),
        Term::Offer(p, q) => Term::Choose(Box::new(dual(*p)), Box::new(dual(*q))),
        Term::RecursionRoot(p) => Term::RecursionRoot(Box::new(dual(*p))),
        Term::RecursionVariable(n) => Term::RecursionVariable(n),
    }
}

/// Two parties are compatible when one's term is the structural dual of
/// the other's; only such a pair can run a session to completion.
pub open spec fn compatible(mine: Term, theirs: Term) -> bool {
    theirs == spec_dual(mine)
}

/// Compatibility does not depend on which party asks: because duality is
/// an involution, each term is the dual of the other.
pub proof fn lemma_compatible_symmetric(mine: Term, theirs: Term)
    ensures
        compatible(mine, theirs) == compatible(theirs, mine),
{
    lemma_dual_involution(mine);
    lemma_dual_involution(theirs);
}

/// Duality is an involution: the dual of the dual of any term is that term.
pub proof fn lemma_dual_involution(t: Term)
    ensures
        spec_dual(spec_dual(t)) == t,
    decreases t,
{
    match t {
        Term::Terminate => {},
        Term::Send(m, p) => {
            lemma_dual_involution(*p);
        },
        Term::Receive(m, p) => {
            lemma_dual_involution(*p);
        },
        Term::Choose(p, q) => {
            lemma_dual_involution(*p);
            lemma_dual_involution(*q);
        },
        Term::Offer(p, q) => {
            lemma_dual_involution(*p);
            lemma_dual_involution(*q);
        },
        Term::RecursionRoot(p) => {
            lemma_dual_involution(*p);
        },
        Term::RecursionVariable(n) => {},
    }
}

} // verus!
