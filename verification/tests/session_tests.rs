use session_channels::channel::ExactIdentity;
use session_channels::choice::{read_choice, Choice};
use session_channels::session::{choice_agreement, connect_pair, Branch, Chan, Choose, Dual, Eps,
    Offer, Recv, Rec, Send, Var, Z};

fn nixpulvis_policy() -> ExactIdentity {
    ExactIdentity { expected: "nixpulvis".to_string() }
}

type Hi = Send<String, Eps>;

#[test]
fn send_recv() {
    let policy = nixpulvis_policy();
    let (s, r) = connect_pair::<Hi, ExactIdentity>("nixpulvis".to_string(), &policy).unwrap();
    // sender role
    let mut s = s.send("hi".to_string());
    // receiver role
    let mut r = r;
    r.0.feed(s.0.take_output());
    let (r, msg) = r.recv().unwrap();
    assert_eq!("hi", msg);
    r.close();
    s.close();
}

type Opf = Offer<Send<u64, Eps>, Eps>;

#[test]
fn offer_choose() {
    let policy = nixpulvis_policy();
    let (o, c) = connect_pair::<Opf, ExactIdentity>("nixpulvis".to_string(), &policy).unwrap();
    let r: u64 = 6;
    if r % 2 == 0 {
        // chooser picks the left branch
        let mut c = c.sel0();
        let mut o = o;
        o.0.feed(c.0.take_output());
        match o.offer().unwrap() {
            Branch::Left(oc) => {
                let mut oc = oc.send(42);
                c.0.feed(oc.0.take_output());
                let (c, v) = c.recv().unwrap();
                assert_eq!(42, v);
                c.close();
                oc.close();
            }
            Branch::Right(oc) => {
                oc.close();
                panic!("offer observed the wrong branch");
            }
        }
    } else {
        let c = c.sel1();
        c.close();
    }
}

#[test]
fn choice_agreement_both_ways() {
    let policy = nixpulvis_policy();
    let (o, c) = connect_pair::<Opf, ExactIdentity>("nixpulvis".to_string(), &policy).unwrap();
    let (picked, offered) = choice_agreement(Choice::Left, c, o);
    assert!(matches!(picked, Branch::Left(_)));
    assert!(matches!(offered, Branch::Left(_)));

    let (o, c) = connect_pair::<Opf, ExactIdentity>("nixpulvis".to_string(), &policy).unwrap();
    let (picked, offered) = choice_agreement(Choice::Right, c, o);
    assert!(matches!(picked, Branch::Right(_)));
    assert!(matches!(offered, Branch::Right(_)));
}

#[test]
fn read_choice_maps_bits() {
    assert_eq!(Choice::Left, read_choice(0));
    assert_eq!(Choice::Right, read_choice(1));
}

// The ticket-admission exchange: the acceptor reads a ticket id; a winning
// id is admitted with an expiry value, any other is rejected.
type Admission = Recv<u64, Choose<Send<u64, Eps>, Eps>>;

fn ticket_wins(id: u64) -> bool {
    id == 1337 || id % 3 == 0
}

fn expire_for(id: u64) -> u64 {
    if id == 1337 { 1337 } else { 100 }
}

/// Runs one admission exchange and returns the expiry the client saw.
fn admit_ticket(id: u64) -> Option<u64> {
    let policy = nixpulvis_policy();
    let (acceptor, client) =
        connect_pair::<Admission, ExactIdentity>("nixpulvis".to_string(), &policy).unwrap();
    // client presents its ticket
    let mut client = client.send(id);
    let mut acceptor = acceptor;
    acceptor.0.feed(client.0.take_output());
    let (acceptor, seen) = acceptor.recv().unwrap();
    // acceptor decides
    if ticket_wins(seen) {
        let mut acceptor = acceptor.sel0().send(expire_for(seen));
        client.0.feed(acceptor.0.take_output());
        acceptor.close();
        match client.offer().unwrap() {
            Branch::Left(c) => {
                let (c, expire) = c.recv().unwrap();
                c.close();
                Some(expire)
            }
            Branch::Right(c) => {
                c.close();
                panic!("client saw a rejection for a winning ticket");
            }
        }
    } else {
        let mut acceptor = acceptor.sel1();
        client.0.feed(acceptor.0.take_output());
        acceptor.close();
        match client.offer().unwrap() {
            Branch::Left(c) => {
                let (c, _) = c.recv().unwrap();
                c.close();
                panic!("client saw an admission for a losing ticket");
            }
            Branch::Right(c) => {
                c.close();
                None
            }
        }
    }
}

#[test]
fn ticket_admission_winning_ids() {
    let expire = admit_ticket(1337).unwrap();
    assert_eq!(1337, expire);
    assert!(expire > 60);
    let expire = admit_ticket(9).unwrap();
    assert_eq!(100, expire);
    assert!(expire > 60);
}

#[test]
fn ticket_admission_rejects_other_ids() {
    assert_eq!(None, admit_ticket(10));
}

// A recursive protocol: offer a stream of numbers until the peer stops.
type Stream = Rec<Offer<Send<u64, Var<Z>>, Eps>>;

#[test]
fn recursion_enter_and_loop() {
    let policy = nixpulvis_policy();
    let (producer, consumer) =
        connect_pair::<Stream, ExactIdentity>("nixpulvis".to_string(), &policy).unwrap();
    let producer = producer.enter();
    let mut consumer = consumer.enter();
    // first round: ask for one number
    let mut consumer0 = consumer.sel0();
    let mut producer = producer;
    producer.0.feed(consumer0.0.take_output());
    let (producer, consumer1) = match producer.offer().unwrap() {
        Branch::Left(p) => {
            let mut p = p.send(7);
            consumer0.0.feed(p.0.take_output());
            let (c, v) = consumer0.recv().unwrap();
            assert_eq!(7, v);
            (p.zero(), c.zero())
        }
        Branch::Right(_) => panic!("producer saw the wrong selection"),
    };
    // second round: stop
    let mut consumer1 = consumer1.sel1();
    let mut producer = producer;
    producer.0.feed(consumer1.0.take_output());
    match producer.offer().unwrap() {
        Branch::Left(_) => panic!("producer saw the wrong selection"),
        Branch::Right(p) => {
            p.close();
            consumer1.close();
        }
    }
}
