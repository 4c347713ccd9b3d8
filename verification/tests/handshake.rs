use xiu::handshake::{Handshake, HandshakeError, HandshakeState, HandshakeStep};

fn seed(n: u8) -> Vec<u8> {
    (0..1528usize).map(|i| (i as u8).wrapping_mul(31).wrapping_add(n)).collect()
}

#[test]
fn client_greeting_is_version_time_zero_random() {
    let client = Handshake::client(0x0102_0304, &seed(7));
    let greeting = client.greeting();
    assert_eq!(greeting.len(), 1537);
    assert_eq!(greeting[0], 3);
    assert_eq!(&greeting[1..5], &[1, 2, 3, 4]);
    assert_eq!(&greeting[5..9], &[0, 0, 0, 0]);
    assert_eq!(&greeting[9..], &seed(7)[..]);
}

#[test]
fn short_seed_is_filled_with_zeros_and_long_seed_is_cut() {
    let short = Handshake::client(0, &[9, 8, 7]).greeting();
    assert_eq!(&short[9..12], &[9, 8, 7]);
    assert!(short[12..].iter().all(|b| *b == 0));
    let long: Vec<u8> = vec![5; 4000];
    let cut = Handshake::client(0, &long).greeting();
    assert_eq!(cut.len(), 1537);
    assert!(cut[9..].iter().all(|b| *b == 5));
}

#[test]
fn server_and_client_complete_together() {
    let mut client = Handshake::client(10, &seed(1));
    let mut server = Handshake::server(20, &seed(2));
    let greeting = client.greeting();

    server.extend_data(&greeting);
    let reply = match server.advance(30) {
        Ok(HandshakeStep::Send(bytes)) => bytes,
        other => panic!("unexpected {:?}", other),
    };
    assert_eq!(server.state(), HandshakeState::AwaitingEcho);
    assert_eq!(reply.len(), 1 + 1536 + 1536);
    assert_eq!(reply[0], 3);
    assert_eq!(&reply[1..5], &[0, 0, 0, 20]);
    assert_eq!(&reply[9..1537], &seed(2)[..]);
    // the echo: the client's time, the time of reading, the client's random bytes
    assert_eq!(&reply[1537..1541], &[0, 0, 0, 10]);
    assert_eq!(&reply[1541..1545], &[0, 0, 0, 30]);
    assert_eq!(&reply[1545..], &seed(1)[..]);

    client.extend_data(&reply);
    let echo = match client.advance(40) {
        Ok(HandshakeStep::Done { send, leftover }) => {
            assert!(leftover.is_empty());
            send
        }
        other => panic!("unexpected {:?}", other),
    };
    assert_eq!(client.state(), HandshakeState::Done);
    assert_eq!(echo.len(), 1536);
    assert_eq!(&echo[0..4], &[0, 0, 0, 20]);
    assert_eq!(&echo[4..8], &[0, 0, 0, 40]);
    assert_eq!(&echo[8..], &seed(2)[..]);

    server.extend_data(&echo);
    assert_eq!(
        server.advance(50),
        Ok(HandshakeStep::Done { send: Vec::new(), leftover: Vec::new() })
    );
    assert_eq!(server.state(), HandshakeState::Done);
}

#[test]
fn server_waits_for_the_whole_hello() {
    let mut server = Handshake::server(0, &seed(2));
    let greeting = Handshake::client(0, &seed(1)).greeting();
    assert_eq!(server.advance(0), Ok(HandshakeStep::NeedMoreData));
    server.extend_data(&greeting[..1536]);
    assert_eq!(server.advance(0), Ok(HandshakeStep::NeedMoreData));
    assert_eq!(server.state(), HandshakeState::AwaitingHello);
    server.extend_data(&greeting[1536..]);
    assert!(matches!(server.advance(0), Ok(HandshakeStep::Send(_))));
    assert_eq!(server.advance(0), Ok(HandshakeStep::NeedMoreData));
}

#[test]
fn wrong_version_fails_for_good() {
    let mut greeting = Handshake::client(0, &seed(1)).greeting();
    greeting[0] = 6;
    let mut server = Handshake::server(0, &seed(2));
    server.extend_data(&greeting);
    assert_eq!(server.advance(0), Err(HandshakeError::HandshakeFailed));
    assert_eq!(server.state(), HandshakeState::Failed);
    server.extend_data(&Handshake::client(0, &seed(1)).greeting());
    assert_eq!(server.advance(0), Err(HandshakeError::HandshakeFailed));
}

#[test]
fn echo_with_one_wrong_random_byte_fails() {
    for at in [8usize, 700, 1535] {
        let mut server = Handshake::server(20, &seed(2));
        server.extend_data(&Handshake::client(10, &seed(1)).greeting());
        let reply = match server.advance(30) {
            Ok(HandshakeStep::Send(bytes)) => bytes,
            other => panic!("unexpected {:?}", other),
        };
        let mut echo = reply[1..1537].to_vec();
        echo[at] ^= 1;
        server.extend_data(&echo);
        assert_eq!(server.advance(50), Err(HandshakeError::HandshakeFailed));
        assert_eq!(server.state(), HandshakeState::Failed);
    }
}

#[test]
fn time_fields_of_the_echo_are_not_checked() {
    let mut server = Handshake::server(20, &seed(2));
    server.extend_data(&Handshake::client(10, &seed(1)).greeting());
    let reply = match server.advance(30) {
        Ok(HandshakeStep::Send(bytes)) => bytes,
        other => panic!("unexpected {:?}", other),
    };
    let mut echo = reply[1..1537].to_vec();
    for b in echo[0..8].iter_mut() {
        *b = 0xEE;
    }
    server.extend_data(&echo);
    assert!(matches!(server.advance(50), Ok(HandshakeStep::Done { .. })));
}

#[test]
fn client_rejects_an_echo_of_other_random_bytes() {
    let mut client = Handshake::client(10, &seed(1));
    let mut server = Handshake::server(20, &seed(2));
    server.extend_data(&Handshake::client(10, &seed(3)).greeting());
    let reply = match server.advance(30) {
        Ok(HandshakeStep::Send(bytes)) => bytes,
        other => panic!("unexpected {:?}", other),
    };
    client.extend_data(&reply);
    assert_eq!(client.advance(40), Err(HandshakeError::HandshakeFailed));
    assert_eq!(client.state(), HandshakeState::Failed);
}

#[test]
fn client_rejects_a_wrong_version() {
    let mut client = Handshake::client(10, &seed(1));
    let mut server = Handshake::server(20, &seed(2));
    server.extend_data(&client.greeting());
    let mut reply = match server.advance(30) {
        Ok(HandshakeStep::Send(bytes)) => bytes,
        other => panic!("unexpected {:?}", other),
    };
    reply[0] = 2;
    client.extend_data(&reply[..3000]);
    assert_eq!(client.advance(40), Ok(HandshakeStep::NeedMoreData));
    client.extend_data(&reply[3000..]);
    assert_eq!(client.advance(40), Err(HandshakeError::HandshakeFailed));
}

#[test]
fn bytes_behind_the_handshake_are_handed_back() {
    let mut server = Handshake::server(20, &seed(2));
    server.extend_data(&Handshake::client(10, &seed(1)).greeting());
    let reply = match server.advance(30) {
        Ok(HandshakeStep::Send(bytes)) => bytes,
        other => panic!("unexpected {:?}", other),
    };
    let mut more = reply[1..1537].to_vec();
    more.extend_from_slice(&[1, 2, 3]);
    server.extend_data(&more);
    assert_eq!(
        server.advance(50),
        Ok(HandshakeStep::Done { send: Vec::new(), leftover: vec![1, 2, 3] })
    );
    server.extend_data(&[4, 5]);
    assert_eq!(
        server.advance(60),
        Ok(HandshakeStep::Done { send: Vec::new(), leftover: vec![4, 5] })
    );
}
