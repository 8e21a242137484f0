use session_channels::channel::{Channel, ChannelError, ExactIdentity};
use session_channels::rpc::rpc_exchange;

fn nixpulvis_policy() -> ExactIdentity {
    ExactIdentity { expected: "nixpulvis".to_string() }
}

/// Runs the whole handshake in memory and returns the acceptor and
/// initiator channels.
fn handshaken_pair() -> (Channel, Channel) {
    let mut cli = Channel::connect_open("nixpulvis".to_string());
    let mut srv = Channel::accept_open();
    srv.feed(cli.take_output());
    let policy = nixpulvis_policy();
    srv.accept_handshake(&policy).unwrap();
    cli.feed(srv.take_output());
    cli.connect_finish().unwrap();
    (srv, cli)
}

#[test]
fn lib_accept_and_connect() {
    let mut cli = Channel::connect_open("nixpulvis".to_string());
    let mut srv = Channel::accept_open();
    srv.feed(cli.take_output());
    let policy = nixpulvis_policy();
    let result = srv.accept_handshake(&policy);
    assert!(result.is_ok());
    cli.feed(srv.take_output());
    let result = cli.connect_finish();
    assert!(result.is_ok());
}

#[test]
fn handshake_rejects_other_identity() {
    let mut cli = Channel::connect_open("anyone-else".to_string());
    let mut srv = Channel::accept_open();
    srv.feed(cli.take_output());
    let policy = nixpulvis_policy();
    let result = srv.accept_handshake(&policy);
    assert_eq!(result, Err(ChannelError::AuthError));
    cli.feed(srv.take_output());
    let result = cli.connect_finish();
    assert_eq!(result, Err(ChannelError::AuthError));
}

#[test]
fn handshake_messages_are_string_records() {
    let mut cli = Channel::connect_open("nixpulvis".to_string());
    let greeting = cli.take_output();
    let mut expected = vec![9u8, 0, 0, 0, 0, 0, 0, 0];
    expected.extend_from_slice(b"nixpulvis");
    assert_eq!(expected, greeting);
    let mut srv = Channel::accept_open();
    srv.feed(greeting);
    let policy = nixpulvis_policy();
    srv.accept_handshake(&policy).unwrap();
    assert_eq!(vec![2u8, 0, 0, 0, 0, 0, 0, 0, b'o', b'k'], srv.take_output());
}

#[test]
fn info_reports_agreed_identity() {
    let srv = Channel::accept_open();
    assert_eq!("", srv.info());
    let (srv, cli) = handshaken_pair();
    assert_eq!("nixpulvis", srv.info());
    assert_eq!("nixpulvis", cli.info());
}

#[test]
fn send_recv_number() {
    let (mut srv, mut cli) = handshaken_pair();
    assert!(cli.send(&1u64).is_ok());
    srv.feed(cli.take_output());
    let recv: u64 = srv.recv().unwrap();
    assert_eq!(1, recv);
}

#[test]
fn call_recv_send_number() {
    let (mut srv, mut cli) = handshaken_pair();
    // the initiator's call, its two halves interleaved with the acceptor
    let _ = cli.send(&1u64);
    srv.feed(cli.take_output());
    let recv: u64 = srv.recv().unwrap();
    assert_eq!(1, recv);
    assert!(srv.send(&true).is_ok());
    cli.feed(srv.take_output());
    let reply: bool = cli.recv().unwrap();
    assert_eq!(true, reply);
}

#[test]
fn rpc_accept_and_connect() {
    let (mut srv, mut cli) = handshaken_pair();
    let (input, reply) = rpc_exchange(&mut cli, &mut srv, &true, |b: &bool| !b).unwrap();
    assert!(input);
    assert_eq!(false, reply);
}

#[test]
fn call_reads_reply_after_sending_request() {
    let (mut srv, mut cli) = handshaken_pair();
    // stage the callee's reply, then issue the call
    let _ = srv.send(&true);
    cli.feed(srv.take_output());
    let reply: bool = cli.call(&7u64).unwrap();
    assert!(reply);
    // the request reached the callee whole
    srv.feed(cli.take_output());
    assert_eq!(Ok(7), srv.recv());
}

#[test]
fn recv_on_empty_buffer_is_deserialize_error() {
    let (mut srv, _cli) = handshaken_pair();
    let r: Result<u64, ChannelError> = srv.recv();
    assert_eq!(r, Err(ChannelError::DeserializeError));
}

#[test]
fn recv_on_short_record_is_deserialize_error() {
    let (mut srv, _cli) = handshaken_pair();
    srv.feed(vec![1, 2, 3]);
    let r: Result<u64, ChannelError> = srv.recv();
    assert_eq!(r, Err(ChannelError::DeserializeError));
    // the bytes stay for a later, complete read
    srv.feed(vec![0, 0, 0, 0, 0]);
    let r: Result<u64, ChannelError> = srv.recv();
    assert_eq!(r, Ok(1 | (2 << 8) | (3 << 16)));
}

#[test]
fn call_roundtrip_string() {
    let (mut srv, mut cli) = handshaken_pair();
    let (question, answer): (String, u64) =
        rpc_exchange(&mut cli, &mut srv, &"length of this".to_string(), |s: &String| {
            s.len() as u64
        })
        .unwrap();
    assert_eq!("length of this", question);
    assert_eq!(14, answer);
}
