use socks5_client::Action;
use socks5_client::Address;
use socks5_client::Command;
use socks5_client::DomainName;
use socks5_client::Event;
use socks5_client::ProtocolError;
use socks5_client::Reply;
use socks5_client::Socks5Client;

/// What a scripted proxy saw of one session.
struct Run {
    client: Socks5Client,
    /// The bytes of each write, in order.
    writes: Vec<Vec<u8>>,
    /// What the session did, one letter each: w(rite), f(lush), r(ead).
    order: String,
    /// The limits of the reads, in order.
    limits: Vec<usize>,
    /// The bytes of the script that the session took.
    taken: usize,
    /// The number of events that the session was given.
    events: usize,
    /// The action that ended the session.
    end: Action,
}

/// Drives `client` against a proxy that sends `script` and then closes the
/// stream, and that hands over at most `piece` bytes for each read.
fn drive(mut client: Socks5Client, script: &[u8], piece: usize) -> Run {
    let mut writes: Vec<Vec<u8>> = Vec::new();
    let mut order = String::new();
    let mut limits: Vec<usize> = Vec::new();
    let mut taken: usize = 0;
    let mut action = client.next_action();
    for events in 0..10_000 {
        let event = match action {
            Action::Write(bytes) => {
                order.push('w');
                writes.push(bytes);
                Event::Written
            }
            Action::Flush => {
                order.push('f');
                Event::Flushed
            }
            Action::Read(limit) => {
                order.push('r');
                limits.push(limit);
                assert!(limit > 0);
                let left = script.len() - taken;
                if left == 0 {
                    Event::Closed
                } else {
                    let n = limit.min(piece).min(left);
                    let data = script[taken..taken + n].to_vec();
                    taken += n;
                    Event::Received(data)
                }
            }
            end => {
                return Run { client, writes, order, limits, taken, events, end };
            }
        };
        assert!(client.accepts(&event));
        action = client.advance(event);
    }
    panic!("the session did not end");
}

fn named(bytes: Vec<u8>, port: u16) -> Address {
    Address::Domain(DomainName::new(bytes).expect("a name of 255 bytes at most"), port)
}

fn domain(name: &str, port: u16) -> Address {
    named(name.as_bytes().to_vec(), port)
}

const GREETING: [u8; 3] = [0x05, 0x01, 0x00];

const AGREED: [u8; 2] = [0x05, 0x00];

fn script(response: &[u8]) -> Vec<u8> {
    let mut all = AGREED.to_vec();
    all.extend_from_slice(response);
    all
}

#[test]
fn connect_to_domain_through_proxy_succeeds() {
    let response = [0x05, 0x00, 0x00, 0x01, 0, 0, 0, 0, 0, 0];
    let run = drive(Socks5Client::connect(domain("example.com", 443)), &script(&response), 64);
    assert_eq!(run.end, Action::Done);
    assert_eq!(run.writes.len(), 2);
    assert_eq!(run.writes[0], GREETING.to_vec());
    let mut request = vec![0x05, 0x01, 0x00, 0x03, 11];
    request.extend_from_slice(b"example.com");
    request.extend_from_slice(&[0x01, 0xBB]);
    assert_eq!(run.writes[1], request);
    assert_eq!(run.taken, 12);
    assert_eq!(run.client.bound_address(), Some(&Address::Ipv4([0, 0, 0, 0], 0)));
    assert_eq!(run.client.next_action(), Action::Done);
}

#[test]
fn connect_writes_ipv4_request_layout() {
    let response = [0x05, 0x00, 0x00, 0x01, 10, 0, 0, 1, 0x1F, 0x90];
    let run = drive(
        Socks5Client::connect(Address::Ipv4([192, 168, 1, 20], 8080)),
        &script(&response),
        64,
    );
    assert_eq!(run.end, Action::Done);
    assert_eq!(run.writes[0], vec![0x05, 0x01, 0x00]);
    assert_eq!(run.writes[1], vec![0x05, 0x01, 0x00, 0x01, 192, 168, 1, 20, 0x1F, 0x90]);
    assert_eq!(run.client.bound_address(), Some(&Address::Ipv4([10, 0, 0, 1], 8080)));
}

#[test]
fn connect_writes_ipv6_request_layout() {
    let target: [u8; 16] = [0x20, 0x01, 0x0d, 0xb8, 0, 0, 0, 0, 0, 0, 0, 0, 0, 0, 0, 1];
    let mut response = vec![0x05, 0x00, 0x00, 0x04];
    let bound: [u8; 16] = [0xfe, 0x80, 0, 0, 0, 0, 0, 0, 1, 2, 3, 4, 5, 6, 7, 8];
    response.extend_from_slice(&bound);
    response.extend_from_slice(&[0xC0, 0x01]);
    let run = drive(Socks5Client::connect(Address::Ipv6(target, 53)), &script(&response), 64);
    assert_eq!(run.end, Action::Done);
    let mut request = vec![0x05, 0x01, 0x00, 0x04];
    request.extend_from_slice(&target);
    request.extend_from_slice(&[0x00, 0x35]);
    assert_eq!(run.writes[1], request);
    assert_eq!(run.taken, 2 + 22);
    assert_eq!(run.client.bound_address(), Some(&Address::Ipv6(bound, 0xC001)));
}

#[test]
fn udp_associate_writes_command_three_and_returns_bound_address() {
    let response = [0x05, 0x00, 0x00, 0x01, 203, 0, 113, 7, 0x13, 0x88];
    let run = drive(
        Socks5Client::udp_associate(Address::Ipv4([0, 0, 0, 0], 0)),
        &script(&response),
        64,
    );
    assert_eq!(run.end, Action::Done);
    assert_eq!(run.client.command(), Command::UdpAssociate);
    assert_eq!(run.writes[0], GREETING.to_vec());
    assert_eq!(run.writes[1], vec![0x05, 0x03, 0x00, 0x01, 0, 0, 0, 0, 0, 0]);
    assert_eq!(run.client.bound_address(), Some(&Address::Ipv4([203, 0, 113, 7], 5000)));
}

#[test]
fn udp_associate_returns_bound_domain_bytes_unaltered() {
    let name: Vec<u8> = vec![b'r', 0xFF, 0x00, b'l', 0x80, b'y'];
    let mut response = vec![0x05, 0x00, 0x00, 0x03, 6];
    response.extend_from_slice(&name);
    response.extend_from_slice(&[0xAB, 0xCD]);
    let run = drive(
        Socks5Client::udp_associate(domain("target.example", 9)),
        &script(&response),
        64,
    );
    assert_eq!(run.end, Action::Done);
    let bound = run.client.bound_address().expect("established").clone();
    assert_eq!(bound, named(name, 0xABCD));
    let mut back: Vec<u8> = Vec::new();
    bound.write_to_buf(&mut back);
    assert_eq!(back, response[3..].to_vec());
}

#[test]
fn every_write_is_flushed_before_the_read_that_follows() {
    let response = [0x05, 0x00, 0x00, 0x01, 0, 0, 0, 0, 0, 0];
    let connect = drive(Socks5Client::connect(domain("example.com", 443)), &script(&response), 64);
    assert_eq!(connect.order, "wfrwfrrr");
    let associate =
        drive(Socks5Client::udp_associate(domain("example.com", 443)), &script(&response), 64);
    assert_eq!(associate.order, "wfrwfrrr");
}

#[test]
fn reads_ask_for_exactly_what_is_missing() {
    let response = [0x05, 0x00, 0x00, 0x01, 1, 2, 3, 4, 0, 80];
    let run = drive(Socks5Client::connect(domain("a", 1)), &script(&response), 64);
    assert_eq!(run.limits, vec![2, 3, 1, 6]);
    let mut named = vec![0x05, 0x00, 0x00, 0x03, 4];
    named.extend_from_slice(b"host");
    named.extend_from_slice(&[0, 80]);
    let run = drive(Socks5Client::connect(domain("a", 1)), &script(&named), 64);
    assert_eq!(run.limits, vec![2, 3, 1, 1, 6]);
    assert_eq!(run.end, Action::Done);
    let mut six = vec![0x05, 0x00, 0x00, 0x04];
    six.extend_from_slice(&[7; 16]);
    six.extend_from_slice(&[0, 80]);
    let run = drive(Socks5Client::connect(domain("a", 1)), &script(&six), 64);
    assert_eq!(run.limits, vec![2, 3, 1, 18]);
}

#[test]
fn bytes_that_follow_the_response_are_left_in_the_stream() {
    let mut all = script(&[0x05, 0x00, 0x00, 0x01, 0, 0, 0, 0, 0, 0]);
    all.extend_from_slice(b"HTTP/1.1 200 OK");
    let run = drive(Socks5Client::connect(domain("example.com", 80)), &all, 64);
    assert_eq!(run.end, Action::Done);
    assert_eq!(run.taken, 12);
}

#[test]
fn one_byte_at_a_time_gives_the_same_outcome() {
    let mut response = vec![0x05, 0x00, 0x00, 0x03, 9];
    response.extend_from_slice(b"localhost");
    response.extend_from_slice(&[0x04, 0x38]);
    let whole = drive(Socks5Client::connect(domain("example.com", 443)), &script(&response), 64);
    let slow = drive(Socks5Client::connect(domain("example.com", 443)), &script(&response), 1);
    assert_eq!(whole.end, Action::Done);
    assert_eq!(slow.end, Action::Done);
    assert_eq!(whole.writes, slow.writes);
    assert_eq!(whole.taken, slow.taken);
    assert_eq!(whole.client.bound_address(), slow.client.bound_address());
    assert_eq!(slow.client.bound_address(), Some(&domain("localhost", 1080)));
    assert_eq!(slow.limits[0], 2);
    assert_eq!(slow.limits[1], 1);
}

#[test]
fn other_method_fails_and_no_request_is_written() {
    for method in [0x01u8, 0x02, 0x03, 0x7F, 0x80, 0xFE, 0xFF] {
        let run =
            drive(Socks5Client::connect(domain("example.com", 443)), &[0x05, method, 0x05], 64);
        assert_eq!(run.end, Action::Fail(ProtocolError::UnsupportedAuthMethod));
        assert_eq!(run.writes, vec![GREETING.to_vec()]);
        assert_eq!(run.order, "wfr");
        assert_eq!(run.taken, 2);
        assert_eq!(run.client.bound_address(), None);
    }
}

#[test]
fn other_method_fails_udp_associate_too() {
    let run = drive(Socks5Client::udp_associate(domain("example.com", 443)), &[0x05, 0x02], 1);
    assert_eq!(run.end, Action::Fail(ProtocolError::UnsupportedAuthMethod));
    assert_eq!(run.writes, vec![GREETING.to_vec()]);
}

#[test]
fn every_other_reply_is_reported_with_its_code() {
    let named = [
        (0x01u8, Reply::GeneralFailure),
        (0x02, Reply::ConnectionNotAllowed),
        (0x03, Reply::NetworkUnreachable),
        (0x04, Reply::HostUnreachable),
        (0x05, Reply::ConnectionRefused),
        (0x06, Reply::TtlExpired),
        (0x07, Reply::CommandNotSupported),
        (0x08, Reply::AddressTypeNotSupported),
        (0x09, Reply::OtherReply(0x09)),
        (0xFF, Reply::OtherReply(0xFF)),
    ];
    for (code, reply) in named {
        let response = [0x05, code, 0x00, 0x01, 0, 0, 0, 0, 0, 0];
        let run = drive(Socks5Client::connect(domain("example.com", 443)), &script(&response), 3);
        assert_eq!(run.end, Action::Fail(ProtocolError::ProxyRejected(reply)));
        assert_eq!(run.taken, 12);
        assert_eq!(run.writes.len(), 2);
        assert_eq!(run.client.bound_address(), None);
        assert!(!run.client.accepts(&Event::Written));
        assert!(!run.client.accepts(&Event::Flushed));
        assert!(!run.client.accepts(&Event::Received(vec![0])));
        assert!(!run.client.accepts(&Event::Closed));
        assert!(!run.client.accepts(&Event::TransportFailed));
        assert_eq!(run.client.next_action(), Action::Fail(ProtocolError::ProxyRejected(reply)));
    }
}

#[test]
fn rejected_response_is_read_to_its_end_before_it_fails() {
    let cut = script(&[0x05, 0x05, 0x00]);
    let run = drive(Socks5Client::connect(domain("example.com", 443)), &cut, 64);
    assert_eq!(run.end, Action::Fail(ProtocolError::UnexpectedEof));
}

#[test]
fn partial_response_then_close_is_unexpected_eof() {
    let response = [0x05, 0x00, 0x00, 0x01, 0, 0, 0, 0, 0, 0];
    for cut in 0..response.len() {
        let run = drive(
            Socks5Client::connect(domain("example.com", 443)),
            &script(&response[..cut]),
            64,
        );
        assert_eq!(run.end, Action::Fail(ProtocolError::UnexpectedEof));
        assert_eq!(run.writes.len(), 2);
    }
}

#[test]
fn partial_method_answer_then_close_is_unexpected_eof() {
    let none = drive(Socks5Client::connect(domain("example.com", 443)), &[], 64);
    assert_eq!(none.end, Action::Fail(ProtocolError::UnexpectedEof));
    assert_eq!(none.writes, vec![GREETING.to_vec()]);
    let one = drive(Socks5Client::connect(domain("example.com", 443)), &[0x05], 64);
    assert_eq!(one.end, Action::Fail(ProtocolError::UnexpectedEof));
    let wrong = drive(Socks5Client::connect(domain("example.com", 443)), &[0x04], 64);
    assert_eq!(wrong.end, Action::Fail(ProtocolError::UnexpectedEof));
}

#[test]
fn wrong_version_in_method_answer_is_malformed() {
    let run = drive(Socks5Client::connect(domain("example.com", 443)), &[0x04, 0x00], 64);
    assert_eq!(run.end, Action::Fail(ProtocolError::MalformedMessage));
    assert_eq!(run.writes, vec![GREETING.to_vec()]);
}

#[test]
fn wrong_version_in_response_is_malformed() {
    let response = [0x04, 0x00, 0x00, 0x01, 0, 0, 0, 0, 0, 0];
    let run = drive(Socks5Client::connect(domain("example.com", 443)), &script(&response), 64);
    assert_eq!(run.end, Action::Fail(ProtocolError::MalformedMessage));
    assert_eq!(run.taken, 5);
}

#[test]
fn unknown_address_type_in_response_is_malformed() {
    for kind in [0x00u8, 0x02, 0x05, 0xFF] {
        let response = [0x05, 0x00, 0x00, kind, 0, 0, 0, 0, 0, 0];
        let run = drive(Socks5Client::connect(domain("example.com", 443)), &script(&response), 64);
        assert_eq!(run.end, Action::Fail(ProtocolError::MalformedMessage));
        assert_eq!(run.taken, 6);
    }
}

#[test]
fn reserved_byte_of_response_is_passed_over() {
    let response = [0x05, 0x00, 0x7E, 0x01, 1, 1, 1, 1, 0, 1];
    let run = drive(Socks5Client::connect(domain("example.com", 443)), &script(&response), 64);
    assert_eq!(run.end, Action::Done);
    assert_eq!(run.client.bound_address(), Some(&Address::Ipv4([1, 1, 1, 1], 1)));
}

#[test]
fn transport_failure_ends_the_session_at_every_stage() {
    let response = [0x05, 0x00, 0x00, 0x01, 0, 0, 0, 0, 0, 0];
    let events = [
        Event::Written,
        Event::Flushed,
        Event::Received(vec![0x05]),
        Event::Received(vec![0x00]),
        Event::Written,
        Event::Flushed,
        Event::Received(response[..3].to_vec()),
        Event::Received(response[3..4].to_vec()),
        Event::Received(response[4..].to_vec()),
    ];
    for stage in 0..events.len() {
        let mut client = Socks5Client::connect(domain("example.com", 443));
        for event in events.iter().take(stage) {
            let event = match event {
                Event::Received(data) => Event::Received(data.clone()),
                Event::Written => Event::Written,
                _ => Event::Flushed,
            };
            assert!(client.accepts(&event));
            client.advance(event);
        }
        assert!(client.accepts(&Event::TransportFailed));
        let next = client.advance(Event::TransportFailed);
        assert_eq!(next, Action::Fail(ProtocolError::TransportError));
        assert!(!client.accepts(&Event::TransportFailed));
    }
    let mut client = Socks5Client::connect(domain("example.com", 443));
    for event in events {
        assert!(client.accepts(&event));
        client.advance(event);
    }
    assert_eq!(client.next_action(), Action::Done);
    assert!(!client.accepts(&Event::TransportFailed));
}

#[test]
fn session_accepts_only_the_answer_to_its_action() {
    let mut client = Socks5Client::connect(Address::Ipv4([127, 0, 0, 1], 80));
    assert_eq!(client.next_action(), Action::Write(GREETING.to_vec()));
    assert!(client.accepts(&Event::Written));
    assert!(!client.accepts(&Event::Flushed));
    assert!(!client.accepts(&Event::Received(vec![5, 0])));
    assert!(!client.accepts(&Event::Closed));
    assert_eq!(client.advance(Event::Written), Action::Flush);
    assert!(!client.accepts(&Event::Written));
    assert!(!client.accepts(&Event::Closed));
    assert!(client.accepts(&Event::Flushed));
    assert_eq!(client.advance(Event::Flushed), Action::Read(2));
    assert!(!client.accepts(&Event::Written));
    assert!(!client.accepts(&Event::Flushed));
    assert!(!client.accepts(&Event::Received(vec![])));
    assert!(!client.accepts(&Event::Received(vec![5, 0, 5])));
    assert!(client.accepts(&Event::Received(vec![5])));
    assert!(client.accepts(&Event::Received(vec![5, 0])));
    assert!(client.accepts(&Event::Closed));
    assert_eq!(client.advance(Event::Received(vec![5])), Action::Read(1));
    assert!(!client.accepts(&Event::Received(vec![0, 5])));
    let request = vec![0x05, 0x01, 0x00, 0x01, 127, 0, 0, 1, 0, 80];
    assert_eq!(client.advance(Event::Received(vec![0])), Action::Write(request));
}

#[test]
fn session_keeps_its_command_and_target() {
    let target = domain("example.org", 8443);
    let client = Socks5Client::connect(target.clone());
    assert_eq!(client.command(), Command::TcpConnect);
    assert_eq!(client.target(), &target);
    assert_eq!(client.bound_address(), None);
    let client = Socks5Client::udp_associate(Address::Ipv4([0, 0, 0, 0], 0));
    assert_eq!(client.command(), Command::UdpAssociate);
    assert_eq!(client.target(), &Address::Ipv4([0, 0, 0, 0], 0));
}

#[test]
fn longest_and_empty_names_are_written_and_read() {
    let long = named(vec![b'x'; 255], 65535);
    let mut response = vec![0x05, 0x00, 0x00, 0x03, 255];
    response.extend_from_slice(&[b'y'; 255]);
    response.extend_from_slice(&[0xFF, 0xFF]);
    let run = drive(Socks5Client::connect(long), &script(&response), 64);
    assert_eq!(run.end, Action::Done);
    assert_eq!(run.writes[1].len(), 3 + 2 + 255 + 2);
    assert_eq!(run.writes[1][4], 255);
    assert_eq!(run.client.bound_address(), Some(&named(vec![b'y'; 255], 65535)));
    let empty = named(Vec::new(), 7);
    let run = drive(
        Socks5Client::connect(empty),
        &script(&[0x05, 0x00, 0x00, 0x03, 0, 0x00, 0x07]),
        64,
    );
    assert_eq!(run.end, Action::Done);
    assert_eq!(run.writes[1], vec![0x05, 0x01, 0x00, 0x03, 0, 0x00, 0x07]);
    assert_eq!(run.client.bound_address(), Some(&named(Vec::new(), 7)));
}

#[test]
fn event_that_does_not_answer_changes_nothing() {
    let mut client = Socks5Client::connect(Address::Ipv4([127, 0, 0, 1], 80));
    assert_eq!(client.advance(Event::Flushed), Action::Write(GREETING.to_vec()));
    assert_eq!(client.advance(Event::Received(vec![5, 0])), Action::Write(GREETING.to_vec()));
    assert_eq!(client.advance(Event::Closed), Action::Write(GREETING.to_vec()));
    assert_eq!(client.advance(Event::Written), Action::Flush);
    assert_eq!(client.advance(Event::Written), Action::Flush);
    assert_eq!(client.advance(Event::Flushed), Action::Read(2));
    assert_eq!(client.advance(Event::Received(Vec::new())), Action::Read(2));
    assert_eq!(client.advance(Event::Received(vec![5, 0, 5])), Action::Read(2));
    assert_eq!(client.advance(Event::Received(vec![5])), Action::Read(1));
    assert_eq!(client.advance(Event::Received(vec![0, 5])), Action::Read(1));
    assert_eq!(client.advance(Event::Flushed), Action::Read(1));
    let request = vec![0x05, 0x01, 0x00, 0x01, 127, 0, 0, 1, 0, 80];
    assert_eq!(client.advance(Event::Received(vec![0])), Action::Write(request));
    assert_eq!(client.advance(Event::Written), Action::Flush);
    assert_eq!(client.advance(Event::Flushed), Action::Read(3));
    assert_eq!(client.advance(Event::Received(vec![5, 2, 0])), Action::Read(1));
    assert_eq!(client.advance(Event::Received(vec![1])), Action::Read(6));
    let refused = Action::Fail(ProtocolError::ProxyRejected(Reply::ConnectionNotAllowed));
    assert_eq!(client.advance(Event::Received(vec![0, 0, 0, 0, 0, 0])), refused);
    assert_eq!(client.advance(Event::Written), refused);
    assert_eq!(client.advance(Event::Received(vec![1])), refused);
    assert_eq!(client.advance(Event::Closed), refused);
    assert_eq!(client.advance(Event::TransportFailed), refused);
    assert_eq!(client.bound_address(), None);
}

#[test]
fn established_session_stays_established() {
    let response = [0x05, 0x00, 0x00, 0x01, 9, 9, 9, 9, 0, 9];
    let mut run = drive(Socks5Client::connect(domain("example.com", 443)), &script(&response), 64);
    assert_eq!(run.end, Action::Done);
    assert_eq!(run.client.advance(Event::Closed), Action::Done);
    assert_eq!(run.client.advance(Event::TransportFailed), Action::Done);
    assert_eq!(run.client.advance(Event::Received(vec![1, 2, 3])), Action::Done);
    assert_eq!(run.client.bound_address(), Some(&Address::Ipv4([9, 9, 9, 9], 9)));
}

#[test]
fn longest_session_is_over_within_its_bound() {
    let mut response = vec![0x05, 0x00, 0x00, 0x03, 255];
    response.extend_from_slice(&[b'n'; 255]);
    response.extend_from_slice(&[0, 1]);
    assert_eq!(response.len(), 262);
    let run = drive(Socks5Client::connect(domain("example.com", 443)), &script(&response), 1);
    assert_eq!(run.end, Action::Done);
    assert_eq!(run.taken, 264);
    assert_eq!(run.events, 268);
    assert_eq!(run.writes.len(), 2);
    let cut = drive(
        Socks5Client::connect(domain("example.com", 443)),
        &script(&response[..261]),
        1,
    );
    assert_eq!(cut.end, Action::Fail(ProtocolError::UnexpectedEof));
    assert_eq!(cut.taken, 263);
    assert_eq!(cut.events, 268);
}

#[test]
fn proxy_cannot_have_the_session_read_without_end() {
    let mut flood = script(&[0x05, 0x00, 0x00, 0x03, 255]);
    flood.extend_from_slice(&[0xAA; 5000]);
    let run = drive(Socks5Client::connect(domain("example.com", 443)), &flood, 7);
    assert_eq!(run.end, Action::Done);
    assert_eq!(run.taken, 264);
    assert!(run.events <= 269);
}
