use dns_parser::{Builder, Packet, QueryClass, QueryType, RData};
use libmdns::emitter::{answer_query, handle_question, Interface, IpAddress, Query, Question};
use libmdns::engine::{Command, Dest, Peer, SendOutcome, FSM};
use libmdns::keeper::{Keeper, KeeperAction, REJOIN_INTERVAL_MS};
use libmdns::name::Name;
use libmdns::services::{ServiceData, Services};
use libmdns::wire::{Answer, RData as Data, Response};

fn name(s: &str) -> Name {
    Name::from_dotted(&s.as_bytes().to_vec())
}

fn dotted(n: &Name) -> String {
    let parts: Vec<String> = n.labels.iter().map(|l| String::from_utf8(l.clone()).unwrap()).collect();
    parts.join(".")
}

fn http_service(instance: &str) -> ServiceData {
    ServiceData {
        typ: name("_http._tcp.local"),
        name: name(instance),
        port: 80,
        txt: vec![6, b'p', b'a', b't', b'h', b'=', b'/'],
    }
}

fn registry() -> Services {
    Services::new(
        name("host.local"),
        vec![
            http_service("web._http._tcp.local"),
            ServiceData {
                typ: name("_ipp._tcp.local"),
                name: name("printer._ipp._tcp.local"),
                port: 631,
                txt: vec![0],
            },
            http_service("admin._http._tcp.local"),
        ],
    )
}

fn v4_interfaces() -> Vec<Interface> {
    vec![
        Interface { loopback: true, addr: IpAddress::V4([127, 0, 0, 1]) },
        Interface { loopback: false, addr: IpAddress::V4([192, 168, 1, 5]) },
        Interface { loopback: false, addr: IpAddress::V6([0xfe, 0x80, 0, 0, 0, 0, 0, 0, 0, 0, 0, 0, 0, 0, 0, 1]) },
    ]
}

fn question(n: &str, qtype: u16, unicast: bool) -> Question {
    Question { name: name(n), qtype, qclass: 1, unicast }
}

fn query(id: u16, questions: Vec<Question>) -> Query {
    Query { id, query: true, truncated: false, questions }
}

fn peer() -> Peer {
    Peer { ip: IpAddress::V4([192, 168, 1, 20]), port: 5353 }
}

fn query_bytes(id: u16, qname: &str, qtype: QueryType, unicast: bool) -> Vec<u8> {
    let mut b = Builder::new_query(id, false);
    b.add_question(qname, unicast, qtype, QueryClass::IN);
    b.build().unwrap()
}

#[test]
fn from_dotted_splits_labels() {
    let n = name("host.local.");
    assert_eq!(n.labels, vec![b"host".to_vec(), b"local".to_vec()]);
    assert!(name("a..b").same(&name("a.b")));
    assert!(!name("a.b").same(&name("a.c")));
    assert_eq!(name("").labels.len(), 0);
}

#[test]
fn a_query_for_host_skips_loopback() {
    let mut fsm = FSM::new(&registry(), false);
    fsm.respond(&query(7, vec![question("host.local", 1, false)]), peer(), &v4_interfaces());
    assert_eq!(fsm.outgoing.len(), 2);
    let p = Packet::parse(&fsm.outgoing[0].payload).unwrap();
    assert_eq!(p.header.id, 7);
    assert!(!p.header.query);
    assert_eq!(p.answers.len(), 1);
    assert_eq!(p.answers[0].name.to_string(), "host.local");
    match p.answers[0].data {
        RData::A(ref a) => assert_eq!(a.0.octets(), [192, 168, 1, 5]),
        _ => panic!("expected an A record"),
    }
    assert!(matches!(fsm.outgoing[0].dest, Dest::Group));
    assert!(matches!(fsm.outgoing[1].dest, Dest::Peer(_)));
}

#[test]
fn aaaa_records_on_v6() {
    let svcs = registry();
    let mut b = Response::new(1);
    handle_question(&svcs, &v4_interfaces(), true, &question("host.local", 28, false), &mut b);
    assert_eq!(b.answers.len(), 1);
    assert!(matches!(b.answers[0].data, Data::Aaaa(a) if a[0] == 0xfe));
}

#[test]
fn unicast_question_stays_off_multicast() {
    let svcs = registry();
    let q = query(3, vec![question("host.local", 1, true), question("web._http._tcp.local", 16, false)]);
    let (m, u) = answer_query(&svcs, &v4_interfaces(), false, &q);
    assert_eq!(m.answers.len(), 1);
    assert!(matches!(m.answers[0].data, Data::Txt(_)));
    assert_eq!(u.answers.len(), 2);
    let only_unicast = query(4, vec![question("host.local", 1, true)]);
    let mut fsm = FSM::new(&svcs, false);
    fsm.respond(&only_unicast, peer(), &v4_interfaces());
    assert_eq!(fsm.outgoing.len(), 1);
    assert!(matches!(fsm.outgoing[0].dest, Dest::Peer(_)));
}

#[test]
fn enumeration_lists_each_type_once() {
    let svcs = registry();
    let mut b = Response::new(0);
    handle_question(&svcs, &v4_interfaces(), false, &question("_services._dns-sd._udp.local", 12, false), &mut b);
    let targets: Vec<String> = b
        .answers
        .iter()
        .map(|a| match &a.data {
            Data::Ptr(n) => dotted(n),
            _ => panic!("expected a PTR record"),
        })
        .collect();
    assert_eq!(targets, vec!["_http._tcp.local".to_string(), "_ipp._tcp.local".to_string()]);
    assert_eq!(svcs.get_types().len(), 2);
}

#[test]
fn type_query_gives_one_group_per_instance() {
    let svcs = registry();
    let mut b = Response::new(0);
    handle_question(&svcs, &v4_interfaces(), false, &question("_http._tcp.local", 12, false), &mut b);
    assert_eq!(b.answers.len(), 8);
    assert!(matches!(b.answers[0].data, Data::Ptr(_)));
    assert!(matches!(b.answers[1].data, Data::Srv { port: 80, .. }));
    assert!(matches!(b.answers[2].data, Data::Txt(_)));
    assert!(matches!(b.answers[3].data, Data::A(_)));
    assert_eq!(dotted(&b.answers[5].name), "admin._http._tcp.local");
    let mut none = Response::new(0);
    handle_question(&svcs, &v4_interfaces(), false, &question("_ftp._tcp.local", 12, false), &mut none);
    assert!(none.is_empty());
}

#[test]
fn srv_and_txt_by_instance_name() {
    let svcs = registry();
    let mut b = Response::new(0);
    handle_question(&svcs, &v4_interfaces(), false, &question("printer._ipp._tcp.local", 33, false), &mut b);
    assert_eq!(b.answers.len(), 2);
    assert!(matches!(b.answers[0].data, Data::Srv { port: 631, .. }));
    let mut t = Response::new(0);
    handle_question(&svcs, &v4_interfaces(), false, &question("printer._ipp._tcp.local", 16, false), &mut t);
    assert_eq!(t.answers.len(), 1);
    let mut other = Response::new(0);
    handle_question(&svcs, &v4_interfaces(), false, &question("printer._ipp._tcp.local", 15, false), &mut other);
    assert!(other.is_empty());
    let mut missing = Response::new(0);
    handle_question(&svcs, &v4_interfaces(), false, &question("nobody._ipp._tcp.local", 33, false), &mut missing);
    assert!(missing.is_empty());
}

#[test]
fn other_class_is_ignored() {
    let svcs = registry();
    let q = query(5, vec![Question { name: name("host.local"), qtype: 1, qclass: 3, unicast: false }]);
    let (m, u) = answer_query(&svcs, &v4_interfaces(), false, &q);
    assert!(m.is_empty() && u.is_empty());
}

#[test]
fn round_trip_through_parser() {
    let svc = http_service("web._http._tcp.local");
    let mut fsm = FSM::new(&registry(), false);
    fsm.send_unsolicited_with(&svc, 4500, true, &v4_interfaces());
    let p = Packet::parse(&fsm.outgoing[0].payload).unwrap();
    assert_eq!(p.answers.len(), 4);
    for rr in &p.answers {
        assert_eq!(rr.ttl, 4500);
    }
    match p.answers[0].data {
        RData::PTR(ref r) => assert_eq!(r.0.to_string(), "web._http._tcp.local"),
        _ => panic!("expected PTR"),
    }
    assert_eq!(p.answers[0].name.to_string(), "_http._tcp.local");
    match p.answers[1].data {
        RData::SRV(ref r) => {
            assert_eq!(r.port, 80);
            assert_eq!(r.target.to_string(), "host.local");
        }
        _ => panic!("expected SRV"),
    }
    match p.answers[2].data {
        RData::TXT(ref r) => {
            let parts: Vec<&[u8]> = r.iter().collect();
            assert_eq!(parts, vec![&b"path=/"[..]]);
        }
        _ => panic!("expected TXT"),
    }
    match p.answers[3].data {
        RData::A(ref a) => assert_eq!(a.0.octets(), [192, 168, 1, 5]),
        _ => panic!("expected A"),
    }
}

#[test]
fn unsolicited_is_byte_identical() {
    let svc = http_service("web._http._tcp.local");
    let mut a = FSM::new(&registry(), false);
    let mut b = FSM::new(&registry(), false);
    a.send_unsolicited_with(&svc, 120, true, &v4_interfaces());
    b.send_unsolicited_with(&svc, 120, true, &v4_interfaces());
    assert_eq!(a.outgoing[0].payload, b.outgoing[0].payload);
    assert_eq!(&a.outgoing[0].payload[..2], &[0u8, 0u8]);
}

#[test]
fn send_unsolicited_command_queues_one_packet() {
    let svc = http_service("web._http._tcp.local");
    let mut fsm = FSM::new(&registry(), false);
    let stop = fsm.handle_command(Some(Command::SendUnsolicited { svc, ttl: 120, include_ip: false }));
    assert!(!stop);
    assert_eq!(fsm.outgoing.len(), 1);
    assert!(matches!(fsm.outgoing[0].dest, Dest::Group));
    let p = Packet::parse(&fsm.outgoing[0].payload).unwrap();
    assert_eq!(p.answers.len(), 3);
    assert!(p.answers.iter().all(|rr| rr.ttl == 120));
    let mut with_ip = FSM::new(&registry(), false);
    with_ip.send_unsolicited_with(&http_service("web._http._tcp.local"), 120, true, &v4_interfaces());
    let q = Packet::parse(&with_ip.outgoing[0].payload).unwrap();
    assert_eq!(q.answers.len(), 4);
    assert!(q.answers.iter().all(|rr| rr.ttl == 120));
}

#[test]
fn shutdown_leaves_queue_unflushed() {
    let mut fsm = FSM::new(&registry(), false);
    fsm.send_unsolicited_with(&http_service("web._http._tcp.local"), 120, false, &v4_interfaces());
    assert!(fsm.handle_command(Some(Command::Shutdown)));
    assert_eq!(fsm.outgoing.len(), 1);
    assert!(fsm.handle_command(None));
    assert_eq!(fsm.outgoing.len(), 1);
}

#[test]
fn truncated_or_response_packets_are_dropped() {
    let mut fsm = FSM::new(&registry(), false);
    let mut truncated = query_bytes(9, "_services._dns-sd._udp.local", QueryType::PTR, false);
    truncated[2] |= 0x02;
    fsm.handle_packet(&truncated, peer());
    assert_eq!(fsm.outgoing.len(), 0);
    let mut response = query_bytes(9, "_services._dns-sd._udp.local", QueryType::PTR, false);
    response[2] |= 0x80;
    fsm.handle_packet(&response, peer());
    assert_eq!(fsm.outgoing.len(), 0);
    fsm.handle_packet(&vec![1, 2, 3], peer());
    assert_eq!(fsm.outgoing.len(), 0);
    let mut q = query(1, vec![question("host.local", 1, false)]);
    q.truncated = true;
    fsm.respond(&q, peer(), &v4_interfaces());
    assert_eq!(fsm.outgoing.len(), 0);
}

#[test]
fn parsed_query_is_answered() {
    let mut fsm = FSM::new(&registry(), false);
    let bytes = query_bytes(42, "_services._dns-sd._udp.local", QueryType::PTR, false);
    fsm.handle_packet(&bytes, peer());
    assert_eq!(fsm.outgoing.len(), 2);
    let p = Packet::parse(&fsm.outgoing[1].payload).unwrap();
    assert_eq!(p.header.id, 42);
    assert_eq!(p.answers.len(), 2);
    let unicast = query_bytes(43, "_services._dns-sd._udp.local", QueryType::PTR, true);
    fsm.handle_packet(&unicast, peer());
    assert_eq!(fsm.outgoing.len(), 3);
}

#[test]
fn oversize_datagram_dropped_next_processed() {
    let mut fsm = FSM::new(&registry(), false);
    let full = vec![0u8; 4096];
    assert!(!fsm.on_datagram(&full, 4096, peer()));
    assert_eq!(fsm.outgoing.len(), 0);
    let bytes = query_bytes(11, "_services._dns-sd._udp.local", QueryType::PTR, false);
    let mut buf = vec![0u8; 4096];
    buf[..bytes.len()].copy_from_slice(&bytes);
    assert!(fsm.on_datagram(&buf, bytes.len(), peer()));
    assert_eq!(fsm.outgoing.len(), 2);
}

#[test]
fn send_drain_keeps_order_and_blocks() {
    let mut fsm = FSM::new(&registry(), false);
    fsm.send_unsolicited_with(&http_service("web._http._tcp.local"), 1, false, &v4_interfaces());
    fsm.send_unsolicited_with(&http_service("admin._http._tcp.local"), 2, false, &v4_interfaces());
    fsm.send_unsolicited_with(&http_service("x._http._tcp.local"), 3, false, &v4_interfaces());
    let second = fsm.outgoing[1].payload.clone();
    assert!(!fsm.on_send(SendOutcome::WouldBlock));
    assert_eq!(fsm.outgoing.len(), 3);
    assert!(fsm.on_send(SendOutcome::Sent));
    assert_eq!(fsm.front().unwrap().payload, second);
    assert!(fsm.on_send(SendOutcome::Failed));
    assert!(fsm.on_send(SendOutcome::Sent));
    assert!(fsm.front().is_none());
    assert!(!fsm.on_send(SendOutcome::Sent));
}

#[test]
fn wire_format_of_one_record() {
    let mut b = Response::new(0x1234);
    b.add_answer(Answer { name: name("a.b"), ttl: 0x01020304, data: Data::A([10, 0, 0, 1]) });
    let bytes = b.build();
    assert_eq!(
        bytes,
        vec![
            0x12, 0x34, 0x84, 0, 0, 0, 0, 1, 0, 0, 0, 0, 1, b'a', 1, b'b', 0, 0, 1, 0, 1, 1, 2, 3, 4, 0, 4, 10,
            0, 0, 1
        ]
    );
    let long = Name { labels: vec![vec![b'x'; 70]] };
    let mut c = Response::new(0);
    c.add_answer(Answer { name: long, ttl: 0, data: Data::Txt(vec![]) });
    let out = c.build();
    assert_eq!(out[12], 63);
    assert_eq!(out.len(), 12 + 1 + 63 + 1 + 10);
}

#[test]
fn registry_lookups() {
    let svcs = registry();
    assert_eq!(svcs.find_by_type(&name("_http._tcp.local")).len(), 2);
    assert_eq!(svcs.find_by_type(&name("_ftp._tcp.local")).len(), 0);
    assert_eq!(svcs.find_by_name(&name("printer._ipp._tcp.local")).unwrap().port, 631);
    assert!(svcs.find_by_name(&name("nobody.local")).is_none());
    assert!(svcs.get_hostname().same(&name("host.local")));
}

#[test]
fn keeper_joins_first_then_sleeps_then_rejoins() {
    let mut k = Keeper::new();
    assert!(matches!(k.step(true, 0), KeeperAction::Join));
    assert!(matches!(k.step(true, 100), KeeperAction::Sleep));
    assert_eq!(k.since_join_ms, 100);
    assert!(matches!(k.step(true, REJOIN_INTERVAL_MS - 100), KeeperAction::Sleep));
    assert_eq!(k.since_join_ms, REJOIN_INTERVAL_MS);
    assert!(matches!(k.step(true, 1), KeeperAction::Join));
    assert_eq!(k.since_join_ms, 0);
    assert!(matches!(k.step(true, u64::MAX), KeeperAction::Join));
}

#[test]
fn keeper_exits_when_socket_gone() {
    let mut k = Keeper::new();
    assert!(matches!(k.step(false, 0), KeeperAction::Exit));
    assert!(matches!(k.step(true, 0), KeeperAction::Join));
    assert!(matches!(k.step(false, 100), KeeperAction::Exit));
    assert_eq!(k.since_join_ms, 0);
}

#[test]
fn oversize_record_data_ends_the_answers() {
    let mut b = Response::new(0);
    b.add_answer(Answer { name: name("a"), ttl: 1, data: Data::A([10, 0, 0, 1]) });
    b.add_answer(Answer { name: name("a"), ttl: 1, data: Data::Txt(vec![0u8; 70000]) });
    b.add_answer(Answer { name: name("a"), ttl: 1, data: Data::A([10, 0, 0, 2]) });
    let out = b.build();
    assert_eq!(&out[6..8], &[0u8, 1u8]);
    assert_eq!(out.len(), 12 + 3 + 10 + 4);
    let p = Packet::parse(&out).unwrap();
    assert_eq!(p.answers.len(), 1);
}

#[test]
fn set_services_takes_new_registrations() {
    let mut fsm = FSM::new(&Services::new(name("host.local"), vec![]), false);
    let mut b = Response::new(0);
    handle_question(&fsm.services, &v4_interfaces(), false, &question("web._http._tcp.local", 16, false), &mut b);
    assert!(b.is_empty());
    fsm.set_services(&registry());
    fsm.respond(&query(2, vec![question("web._http._tcp.local", 16, false)]), peer(), &v4_interfaces());
    assert_eq!(fsm.outgoing.len(), 2);
}
