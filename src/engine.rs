use vstd::prelude::*;
use crate::bindings::{local_interfaces, parse_packet, parsed_packet, RawPacket, RawQuestion};
use crate::emitter::{
    add_ip_rr, answer_query, ip_answers, multicast_answers, questions_view, unicast_answers,
    Interface, IpAddress, Query, Question, QuestionV,
};
use crate::name::{dotted_labels, Name};
use crate::services::{ptr_answer, srv_answer, txt_answer, ServiceData, ServiceV, Services};
use crate::wire::{response_wire, AnswerV, Response};

verus! {

/// An explicit action handed to the engine.
pub enum Command {
    /// Announce a service without being asked.
    SendUnsolicited { svc: ServiceData, ttl: u32, include_ip: bool },
    /// Stop the engine at once.
    Shutdown,
}

/// A socket address: IP address and port.
#[derive(Clone, Copy)]
pub struct Peer {
    pub ip: IpAddress,
    pub port: u16,
}

/// Where an outgoing packet goes.
#[derive(Clone, Copy)]
pub enum Dest {
    /// The multicast group of the active address family, at the mDNS port.
    Group,
    /// One host: the querier.
    Peer(Peer),
}

/// A serialized packet waiting for the socket.
pub struct Outgoing {
    pub payload: Vec<u8>,
    pub dest: Dest,
}

pub struct OutgoingV {
    pub payload: Seq<u8>,
    pub dest: Dest,
}

impl View for Outgoing {
    type V = OutgoingV;

    open spec fn view(&self) -> OutgoingV {
        OutgoingV { payload: self.payload@, dest: self.dest }
    }
}

/// What became of an attempt to send the packet at the front of the queue.
#[derive(Clone, Copy)]
pub enum SendOutcome {
    Sent,
    WouldBlock,
    Failed,
}

pub open spec fn raw_question_view(q: RawQuestion) -> QuestionV {
    QuestionV { name: dotted_labels(q.name@), qtype: q.qtype, qclass: q.qclass, unicast: q.unicast }
}

pub open spec fn raw_questions_view(s: Seq<RawQuestion>) -> Seq<QuestionV> {
    s.map_values(|q: RawQuestion| raw_question_view(q))
}

/// The packets that answer a query with reply records `m` (multicast) and
/// `u` (unicast): each reply that holds a record, multicast first.
pub open spec fn reply_packets(id: u16, m: Seq<AnswerV>, u: Seq<AnswerV>, src: Peer) -> Seq<
    OutgoingV,
> {
    (if m.len() > 0 {
        seq![OutgoingV { payload: response_wire(id, m), dest: Dest::Group }]
    } else {
        seq![]
    }) + (if u.len() > 0 {
        seq![OutgoingV { payload: response_wire(id, u), dest: Dest::Peer(src) }]
    } else {
        seq![]
    })
}

/// The records of an unsolicited announcement of `s`.
pub open spec fn unsolicited_answers(
    s: ServiceV,
    host: Seq<Seq<u8>>,
    ifs: Seq<Interface>,
    v6: bool,
    ttl: u32,
    include_ip: bool,
) -> Seq<AnswerV> {
    seq![ptr_answer(s, ttl), srv_answer(s, host, ttl), txt_answer(s, ttl)] + if include_ip {
        ip_answers(host, ifs, v6, ttl)
    } else {
        seq![]
    }
}

/// The packet of an unsolicited announcement: transaction id 0, to the group.
pub open spec fn unsolicited_packet(
    s: ServiceV,
    host: Seq<Seq<u8>>,
    ifs: Seq<Interface>,
    v6: bool,
    ttl: u32,
    include_ip: bool,
) -> OutgoingV {
    OutgoingV {
        payload: response_wire(0, unsolicited_answers(s, host, ifs, v6, ttl, include_ip)),
        dest: Dest::Group,
    }
}

/// The query that a parsed packet stands for.
pub fn query_of(raw: &RawPacket) -> (r: Query)
    ensures
        r.id == raw.id,
        r.query == raw.query,
        r.truncated == raw.truncated,
        questions_view(r.questions@) == raw_questions_view(raw.questions@),
{
    let mut qs: Vec<Question> = Vec::new();
    let mut i: usize = 0;
    while i < raw.questions.len()
        invariant
            i <= raw.questions.len(),
            questions_view(qs@) == raw_questions_view(raw.questions@.take(i as int)),
        decreases raw.questions.len() - i,
    {
        let q = &raw.questions[i];
        let ghost before = qs@;
        qs.push(
            Question {
                name: Name::from_dotted(&q.name),
                qtype: q.qtype,
                qclass: q.qclass,
                unicast: q.unicast,
            },
        );
        proof {
            assert(questions_view(qs@) =~= questions_view(before).push(raw_question_view(*q)));
            assert(raw.questions@.take(i + 1) =~= raw.questions@.take(i as int).push(*q));
            assert(raw_questions_view(raw.questions@.take(i + 1)) =~= raw_questions_view(
                raw.questions@.take(i as int),
            ).push(raw_question_view(*q)));
        }
        i += 1;
    }
    assert(raw.questions@.take(i as int) =~= raw.questions@);
    Query { id: raw.id, query: raw.query, truncated: raw.truncated, questions: qs }
}

/// The responder's state: the registry it answers from, the address family
/// it answers for, and the packets that wait for the socket.
pub struct FSM {
    pub services: Services,
    /// IPv6 (AAAA records) rather than IPv4 (A records).
    pub v6: bool,
    pub outgoing: Vec<Outgoing>,
}

impl FSM {
    pub open spec fn outgoing_v(&self) -> Seq<OutgoingV> {
        self.outgoing@.map_values(|o: Outgoing| o@)
    }

    pub open spec fn host(&self) -> Seq<Seq<u8>> {
        self.services.hostname@
    }

    pub open spec fn services_v(&self) -> Seq<ServiceV> {
        self.services.services_v()
    }

    /// The packets that answer `q` when the interfaces are `ifs`: none for
    /// a response or a truncated packet.
    pub open spec fn replies(&self, q: Query, ifs: Seq<Interface>, src: Peer) -> Seq<OutgoingV> {
        if !q.query || q.truncated {
            seq![]
        } else {
            let qs = questions_view(q.questions@);
            reply_packets(
                q.id,
                multicast_answers(self.host(), self.services_v(), ifs, self.v6, qs),
                unicast_answers(self.host(), self.services_v(), ifs, self.v6, qs),
                src,
            )
        }
    }

    /// An engine that answers from `services`, with nothing queued.
    pub fn new(services: &Services, v6: bool) -> (r: FSM)
        ensures
            r.host() == services.hostname@,
            r.services_v() == services.services_v(),
            r.v6 == v6,
            r.outgoing_v() == Seq::<OutgoingV>::empty(),
    {
        let r = FSM { services: services.duplicate(), v6, outgoing: Vec::new() };
        assert(r.outgoing_v() =~= Seq::<OutgoingV>::empty());
        r
    }

    /// Takes up the current contents of the registry, which is kept
    /// outside the engine and may have changed since the last call.
    pub fn set_services(&mut self, services: &Services)
        ensures
            final(self).host() == services.hostname@,
            final(self).services_v() == services.services_v(),
            final(self).v6 == old(self).v6,
            final(self).outgoing_v() == old(self).outgoing_v(),
    {
        self.services = services.duplicate();
    }

    /// Queues the response for `dest` if it holds a record.
    fn enqueue(&mut self, b: &Response, dest: Dest)
        ensures
            final(self).services == old(self).services,
            final(self).v6 == old(self).v6,
            final(self).outgoing_v() == old(self).outgoing_v() + if b.answers_v().len() > 0 {
                seq![OutgoingV { payload: response_wire(b.id, b.answers_v()), dest }]
            } else {
                seq![]
            },
    {
        if !b.is_empty() {
            let payload = b.build();
            let ghost before = self.outgoing_v();
            self.outgoing.push(Outgoing { payload, dest });
            assert(self.outgoing_v() =~= before + seq![
                OutgoingV { payload: response_wire(b.id, b.answers_v()), dest },
            ]);
        } else {
            assert(self.outgoing_v() =~= old(self).outgoing_v() + seq![]);
        }
    }

    /// Queues the replies to query `q` from `src`, given the interfaces.
    pub fn respond(&mut self, q: &Query, src: Peer, ifs: &Vec<Interface>)
        ensures
            final(self).services == old(self).services,
            final(self).v6 == old(self).v6,
            final(self).outgoing_v() == old(self).outgoing_v() + old(self).replies(*q, ifs@, src),
    {
        if !q.query || q.truncated {
            assert(self.outgoing_v() =~= old(self).outgoing_v() + seq![]);
            return;
        }
        let (multicast, unicast) = answer_query(&self.services, ifs, self.v6, q);
        self.enqueue(&multicast, Dest::Group);
        self.enqueue(&unicast, Dest::Peer(src));
        assert(self.outgoing_v() =~= old(self).outgoing_v() + old(self).replies(*q, ifs@, src));
    }

    /// The packets that answer a parsed packet when the interfaces are `ifs`.
    pub open spec fn raw_replies(&self, raw: RawPacket, ifs: Seq<Interface>, src: Peer) -> Seq<
        OutgoingV,
    > {
        if !raw.query || raw.truncated {
            seq![]
        } else {
            let qs = raw_questions_view(raw.questions@);
            reply_packets(
                raw.id,
                multicast_answers(self.host(), self.services_v(), ifs, self.v6, qs),
                unicast_answers(self.host(), self.services_v(), ifs, self.v6, qs),
                src,
            )
        }
    }

    /// Queues the replies to a packet as the parser handed it over; nothing
    /// for a packet that it rejected.
    pub fn handle_parsed(&mut self, parsed: Option<RawPacket>, src: Peer, ifs: &Vec<Interface>)
        ensures
            final(self).services == old(self).services,
            final(self).v6 == old(self).v6,
            parsed is None ==> final(self).outgoing_v() == old(self).outgoing_v(),
            parsed matches Some(raw) ==> final(self).outgoing_v() == old(self).outgoing_v()
                + old(self).raw_replies(raw, ifs@, src),
    {
        match parsed {
            Some(raw) => {
                let q = query_of(&raw);
                self.respond(&q, src, ifs);
            },
            None => {},
        }
    }

    /// Handles one inbound datagram: parses it and queues the replies.
    /// A packet that does not parse, is no query or is truncated queues
    /// nothing; any other queues at most one multicast and one unicast reply.
    pub fn handle_packet(&mut self, buffer: &Vec<u8>, src: Peer)
        ensures
            final(self).services == old(self).services,
            final(self).v6 == old(self).v6,
            parsed_packet(buffer@) is None ==> final(self).outgoing_v() == old(self).outgoing_v(),
            parsed_packet(buffer@) matches Some(raw) && (!raw.query || raw.truncated)
                ==> final(self).outgoing_v() == old(self).outgoing_v(),
            (buffer@.len() < 12 || buffer@[2] >= 128 || (buffer@[2] / 2) % 2 == 1) ==> (final(self).outgoing_v() == old(self).outgoing_v()),
            parsed_packet(buffer@) matches Some(raw) ==> exists|ifs: Seq<Interface>|
                final(self).outgoing_v() == old(self).outgoing_v() + old(self).raw_replies(
                    raw,
                    ifs,
                    src,
                ),
    {
        let parsed = parse_packet(buffer);
        let ifs = local_interfaces();
        self.handle_parsed(parsed, src, &ifs);
        assert(parsed_packet(buffer@) matches Some(raw) ==> final(self).outgoing_v() == old(self).outgoing_v()
                + old(self).raw_replies(raw, ifs@, src));
    }

    /// Handles a datagram received into `buf`, of which the receive call
    /// reported `received` bytes. One that fills the whole buffer may have
    /// been cut short: it is dropped and `false` returned.
    pub fn on_datagram(&mut self, buf: &Vec<u8>, received: usize, src: Peer) -> (r: bool)
        ensures
            r == (received < buf.len()),
            final(self).services == old(self).services,
            final(self).v6 == old(self).v6,
            !r ==> final(self).outgoing_v() == old(self).outgoing_v(),
            r && parsed_packet(buf@.take(received as int)) is None ==> final(self).outgoing_v()
                == old(self).outgoing_v(),
            r ==> (parsed_packet(buf@.take(received as int)) matches Some(raw) ==> exists|
                ifs: Seq<Interface>,
            |
                final(self).outgoing_v() == old(self).outgoing_v() + old(self).raw_replies(
                    raw,
                    ifs,
                    src,
                )),
    {
        if received >= buf.len() {
            return false;
        }
        let mut packet: Vec<u8> = Vec::new();
        let mut i: usize = 0;
        while i < received
            invariant
                i <= received < buf.len(),
                packet@ == buf@.take(i as int),
            decreases received - i,
        {
            packet.push(buf[i]);
            assert(buf@.take(i + 1) =~= buf@.take(i as int).push(buf@[i as int]));
            i += 1;
        }
        self.handle_packet(&packet, src);
        true
    }

    /// Queues an unsolicited announcement of `svc`, given the interfaces:
    /// PTR, SRV and TXT records, then the address records if `include_ip`,
    /// all with `ttl`, under transaction id 0, to the multicast group.
    pub fn send_unsolicited_with(
        &mut self,
        svc: &ServiceData,
        ttl: u32,
        include_ip: bool,
        ifs: &Vec<Interface>,
    )
        ensures
            final(self).services == old(self).services,
            final(self).v6 == old(self).v6,
            final(self).outgoing_v() == old(self).outgoing_v().push(
                unsolicited_packet(svc@, old(self).host(), ifs@, old(self).v6, ttl, include_ip),
            ),
    {
        let mut builder = Response::new(0);
        let hostname = self.services.get_hostname();
        svc.add_ptr_rr(&mut builder, ttl);
        svc.add_srv_rr(hostname, &mut builder, ttl);
        svc.add_txt_rr(&mut builder, ttl);
        if include_ip {
            add_ip_rr(hostname, &mut builder, ttl, ifs, self.v6);
        }
        assert(builder.answers_v() =~= unsolicited_answers(
            svc@,
            self.host(),
            ifs@,
            self.v6,
            ttl,
            include_ip,
        ));
        self.enqueue(&builder, Dest::Group);
        assert(self.outgoing_v() =~= old(self).outgoing_v().push(
            unsolicited_packet(svc@, old(self).host(), ifs@, old(self).v6, ttl, include_ip),
        ));
    }

    /// Queues an unsolicited announcement of `svc` with the machine's
    /// interfaces (read only where `include_ip` asks for address records).
    pub fn send_unsolicited(&mut self, svc: &ServiceData, ttl: u32, include_ip: bool)
        ensures
            final(self).services == old(self).services,
            final(self).v6 == old(self).v6,
            exists|ifs: Seq<Interface>|
                final(self).outgoing_v() == old(self).outgoing_v().push(
                    #[trigger] unsolicited_packet(svc@, old(self).host(), ifs, old(self).v6, ttl, include_ip),
                ),
            !include_ip ==> final(self).outgoing_v() == old(self).outgoing_v().push(
                unsolicited_packet(svc@, old(self).host(), seq![], old(self).v6, ttl, false),
            ),
    {
        let ifs = if include_ip {
            local_interfaces()
        } else {
            Vec::new()
        };
        self.send_unsolicited_with(svc, ttl, include_ip, &ifs);
        assert(!include_ip ==> ifs@ =~= Seq::<Interface>::empty());
    }

    /// Acts on the next item of the command channel (`None`: every sender
    /// is gone). Returns whether the engine stops: at `Shutdown` and when the
    /// channel is closed, with the queue left as it is.
    pub fn handle_command(&mut self, cmd: Option<Command>) -> (stop: bool)
        ensures
            stop == !(cmd matches Some(Command::SendUnsolicited { .. })),
            final(self).services == old(self).services,
            final(self).v6 == old(self).v6,
            stop ==> final(self).outgoing_v() == old(self).outgoing_v(),
            cmd matches Some(Command::SendUnsolicited { svc, ttl, include_ip }) ==> exists|
                ifs: Seq<Interface>,
            |
                final(self).outgoing_v() == old(self).outgoing_v().push(
                    #[trigger] unsolicited_packet(svc@, old(self).host(), ifs, old(self).v6, ttl, include_ip),
                ),
    {
        match cmd {
            Some(Command::SendUnsolicited { svc, ttl, include_ip }) => {
                self.send_unsolicited(&svc, ttl, include_ip);
                false
            },
            Some(Command::Shutdown) => true,
            None => true,
        }
    }

    /// The packet at the front of the queue, if any.
    pub fn front(&self) -> (r: Option<&Outgoing>)
        ensures
            self.outgoing_v().len() == 0 ==> r is None,
            self.outgoing_v().len() > 0 ==> (r matches Some(o) && o@ == self.outgoing_v()[0]),
    {
        if self.outgoing.len() == 0 {
            None
        } else {
            Some(&self.outgoing[0])
        }
    }

    /// Records what became of sending the front packet. It leaves the queue
    /// when it was sent or failed for good; it stays when the socket would
    /// block. Returns whether the drain goes on.
    pub fn on_send(&mut self, outcome: SendOutcome) -> (go_on: bool)
        ensures
            final(self).services == old(self).services,
            final(self).v6 == old(self).v6,
            go_on == (old(self).outgoing_v().len() > 0 && !(outcome is WouldBlock)),
            go_on ==> final(self).outgoing_v() == old(self).outgoing_v().drop_first(),
            !go_on ==> final(self).outgoing_v() == old(self).outgoing_v(),
    {
        if self.outgoing.len() == 0 {
            return false;
        }
        match outcome {
            SendOutcome::WouldBlock => false,
            _ => {
                self.outgoing.remove(0);
                assert(self.outgoing_v() =~= old(self).outgoing_v().drop_first());
                true
            },
        }
    }
}

} // verus!
