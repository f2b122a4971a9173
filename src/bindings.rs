use vstd::prelude::*;
use crate::emitter::{Interface, IpAddress};

verus! {

/// One question of an inbound packet as the parser hands it over: the name
/// in dotted form, the type and class codes, and the unicast-reply bit.
pub struct RawQuestion {
    pub name: Vec<u8>,
    pub qtype: u16,
    pub qclass: u16,
    pub unicast: bool,
}

/// The header fields and questions of an inbound packet.
pub struct RawPacket {
    pub id: u16,
    pub query: bool,
    pub truncated: bool,
    pub questions: Vec<RawQuestion>,
}

/// What the DNS parser makes of the bytes `b`: `None` where it rejects them.
pub uninterp spec fn parsed_packet(b: Seq<u8>) -> Option<RawPacket>;

/// Relies on dns_parser::Packet::parse, which reads the whole packet
/// (header, questions, answer, authority and additional sections) from the
/// bytes alone and fails if any part is malformed; no packet is shorter than
/// its 12-byte header. The id, the query bit (clear top bit of the third
/// byte), the truncation bit (second-lowest bit of that byte) and the
/// question count come from the header as they stand. Names are handed
/// over in dotted form.
#[verifier::external_body]
pub(crate) fn parse_packet(buf: &Vec<u8>) -> (r: Option<RawPacket>)
    ensures
        r == parsed_packet(buf@),
        buf@.len() < 12 ==> r is None,
        r matches Some(p) ==> {
            &&& p.id as int == buf@[0] as int * 256 + buf@[1] as int
            &&& p.query == (buf@[2] < 128)
            &&& p.truncated == ((buf@[2] / 2) % 2 == 1)
            &&& p.questions@.len() == buf@[4] as int * 256 + buf@[5] as int
        },
{
    match dns_parser::Packet::parse(buf) {
        Ok(p) => Some(RawPacket {
            id: p.header.id,
            query: p.header.query,
            truncated: p.header.truncated,
            questions: p.questions.iter().map(|q| RawQuestion {
                name: q.qname.to_string().into_bytes(),
                qtype: q.qtype as u16,
                qclass: q.qclass as u16,
                unicast: q.prefer_unicast,
            }).collect(),
        }),
        Err(_) => None,
    }
}

/// Relies on get_if_addrs::get_if_addrs for the machine's interfaces and
/// their loopback test; an empty list where they cannot be read.
#[verifier::external_body]
pub(crate) fn local_interfaces() -> (r: Vec<Interface>) {
    match get_if_addrs::get_if_addrs() {
        Ok(list) => list.iter().map(|i| Interface {
            loopback: i.is_loopback(),
            addr: match &i.addr {
                get_if_addrs::IfAddr::V4(a) => IpAddress::V4(a.ip.octets()),
                get_if_addrs::IfAddr::V6(a) => IpAddress::V6(a.ip.octets()),
            },
        }).collect(),
        Err(_) => Vec::new(),
    }
}

} // verus!
