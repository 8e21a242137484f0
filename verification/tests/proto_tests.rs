use session_channels::proto::{dual, MsgType, Term};

/// The admission protocol seen from the acceptor: receive an id, then
/// choose between sending an expiry and stopping.
fn admission_term() -> Term {
    Term::Receive(
        MsgType::U64,
        Box::new(Term::Choose(
            Box::new(Term::Send(MsgType::U64, Box::new(Term::Terminate))),
            Box::new(Term::Terminate),
        )),
    )
}

#[test]
fn dual_swaps_directions_and_choices() {
    let expected = Term::Send(
        MsgType::U64,
        Box::new(Term::Offer(
            Box::new(Term::Receive(MsgType::U64, Box::new(Term::Terminate))),
            Box::new(Term::Terminate),
        )),
    );
    assert_eq!(expected, dual(admission_term()));
}

#[test]
fn dual_maps_recursion_through() {
    let stream = Term::RecursionRoot(Box::new(Term::Offer(
        Box::new(Term::Send(MsgType::Str, Box::new(Term::RecursionVariable(0)))),
        Box::new(Term::Terminate),
    )));
    let expected = Term::RecursionRoot(Box::new(Term::Choose(
        Box::new(Term::Receive(MsgType::Str, Box::new(Term::RecursionVariable(0)))),
        Box::new(Term::Terminate),
    )));
    assert_eq!(expected, dual(stream));
}

#[test]
fn dual_is_an_involution() {
    assert_eq!(admission_term(), dual(dual(admission_term())));
    let pairs = Term::Send(
        MsgType::Pair(Box::new(MsgType::U64), Box::new(MsgType::Bool)),
        Box::new(Term::RecursionRoot(Box::new(Term::RecursionVariable(0)))),
    );
    let copy = Term::Send(
        MsgType::Pair(Box::new(MsgType::U64), Box::new(MsgType::Bool)),
        Box::new(Term::RecursionRoot(Box::new(Term::RecursionVariable(0)))),
    );
    assert_eq!(copy, dual(dual(pairs)));
}

#[test]
fn dual_of_terminate_is_terminate() {
    assert_eq!(Term::Terminate, dual(Term::Terminate));
}
