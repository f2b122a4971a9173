use vstd::prelude::*;
use crate::name::Name;
use crate::services::{
    names_view, ptr_answer, services_view, srv_answer, txt_answer, types_of, with_name, with_type,
    ServiceData, ServiceV, Services,
};
use crate::wire::{Answer, AnswerV, RData, RDataV, Response};

verus! {

/// TTL of the records sent in answer to a query.
pub const DEFAULT_TTL: u32 = 60;

/// Query type codes that a question may ask for.
pub const QTYPE_A: u16 = 1;
pub const QTYPE_PTR: u16 = 12;
pub const QTYPE_TXT: u16 = 16;
pub const QTYPE_AAAA: u16 = 28;
pub const QTYPE_SRV: u16 = 33;
pub const QTYPE_ALL: u16 = 255;

/// Query class codes.
pub const QCLASS_IN: u16 = 1;
pub const QCLASS_ANY: u16 = 255;

/// An IP address, as its bytes in network order.
#[derive(Clone, Copy)]
pub enum IpAddress {
    V4([u8; 4]),
    V6([u8; 16]),
}

/// A local network interface, as far as the answers depend on it.
#[derive(Clone, Copy)]
pub struct Interface {
    pub loopback: bool,
    pub addr: IpAddress,
}

/// One question of a query.
pub struct Question {
    pub name: Name,
    pub qtype: u16,
    pub qclass: u16,
    /// The querier asks for a unicast reply.
    pub unicast: bool,
}

pub struct QuestionV {
    pub name: Seq<Seq<u8>>,
    pub qtype: u16,
    pub qclass: u16,
    pub unicast: bool,
}

impl View for Question {
    type V = QuestionV;

    open spec fn view(&self) -> QuestionV {
        QuestionV { name: self.name@, qtype: self.qtype, qclass: self.qclass, unicast: self.unicast }
    }
}

pub open spec fn questions_view(v: Seq<Question>) -> Seq<QuestionV> {
    v.map_values(|q: Question| q@)
}

/// The parts of an inbound packet that decide the answer.
pub struct Query {
    pub id: u16,
    /// The packet is a query, not a response.
    pub query: bool,
    pub truncated: bool,
    pub questions: Vec<Question>,
}

/// The labels of `_services._dns-sd._udp.local`, the name under which the
/// service types are enumerated.
pub open spec fn enumeration_name() -> Seq<Seq<u8>> {
    seq![
        seq![95u8, 115, 101, 114, 118, 105, 99, 101, 115],
        seq![95u8, 100, 110, 115, 45, 115, 100],
        seq![95u8, 117, 100, 112],
        seq![108u8, 111, 99, 97, 108],
    ]
}

pub fn service_enumeration_name() -> (r: Name)
    ensures
        r@ == enumeration_name(),
{
    let r = Name {
        labels: vec![
            vec![95u8, 115, 101, 114, 118, 105, 99, 101, 115],
            vec![95u8, 100, 110, 115, 45, 115, 100],
            vec![95u8, 117, 100, 112],
            vec![108u8, 111, 99, 97, 108],
        ],
    };
    assert(r.labels@[0]@ =~= enumeration_name()[0]);
    assert(r.labels@[1]@ =~= enumeration_name()[1]);
    assert(r.labels@[2]@ =~= enumeration_name()[2]);
    assert(r.labels@[3]@ =~= enumeration_name()[3]);
    assert(r@ =~= enumeration_name());
    r
}

/// The address record that interface `i` gives, if any: none for a loopback
/// interface or for an address of the other family.
pub open spec fn interface_answer(i: Interface, host: Seq<Seq<u8>>, v6: bool, ttl: u32) -> Option<
    AnswerV,
> {
    if i.loopback {
        None
    } else {
        match i.addr {
            IpAddress::V4(a) => if !v6 {
                Some(AnswerV { name: host, ttl, data: RDataV::A(a@) })
            } else {
                None
            },
            IpAddress::V6(a) => if v6 {
                Some(AnswerV { name: host, ttl, data: RDataV::Aaaa(a@) })
            } else {
                None
            },
        }
    }
}

/// The address records of the host, one per non-loopback interface of the
/// active family, in interface order.
pub open spec fn ip_answers(host: Seq<Seq<u8>>, ifs: Seq<Interface>, v6: bool, ttl: u32) -> Seq<
    AnswerV,
>
    decreases ifs.len(),
{
    if ifs.len() == 0 {
        seq![]
    } else {
        let r = ip_answers(host, ifs.drop_last(), v6, ttl);
        match interface_answer(ifs.last(), host, v6, ttl) {
            Some(a) => r.push(a),
            None => r,
        }
    }
}

/// PTR, SRV, TXT and address records of one instance.
pub open spec fn instance_answers(
    s: ServiceV,
    host: Seq<Seq<u8>>,
    ifs: Seq<Interface>,
    v6: bool,
    ttl: u32,
) -> Seq<AnswerV> {
    seq![ptr_answer(s, ttl), srv_answer(s, host, ttl), txt_answer(s, ttl)] + ip_answers(
        host,
        ifs,
        v6,
        ttl,
    )
}

/// The records of all instances of `ss`, one group after the other.
pub open spec fn instances_answers(
    ss: Seq<ServiceV>,
    host: Seq<Seq<u8>>,
    ifs: Seq<Interface>,
    v6: bool,
    ttl: u32,
) -> Seq<AnswerV>
    decreases ss.len(),
{
    if ss.len() == 0 {
        seq![]
    } else {
        instances_answers(ss.drop_last(), host, ifs, v6, ttl) + instance_answers(
            ss.last(),
            host,
            ifs,
            v6,
            ttl,
        )
    }
}

/// One PTR record under `qname` for each of `types`.
pub open spec fn type_answers(qname: Seq<Seq<u8>>, types: Seq<Seq<Seq<u8>>>, ttl: u32) -> Seq<
    AnswerV,
>
    decreases types.len(),
{
    if types.len() == 0 {
        seq![]
    } else {
        type_answers(qname, types.drop_last(), ttl).push(
            AnswerV { name: qname, ttl, data: RDataV::Ptr(types.last()) },
        )
    }
}

/// The records that answer one question.
pub open spec fn question_answers(
    host: Seq<Seq<u8>>,
    svcs: Seq<ServiceV>,
    ifs: Seq<Interface>,
    v6: bool,
    q: QuestionV,
) -> Seq<AnswerV> {
    if (q.qtype == QTYPE_A || q.qtype == QTYPE_AAAA || q.qtype == QTYPE_ALL) && q.name == host {
        ip_answers(host, ifs, v6, DEFAULT_TTL)
    } else if q.qtype == QTYPE_PTR {
        if q.name == enumeration_name() {
            type_answers(q.name, types_of(svcs), DEFAULT_TTL)
        } else {
            instances_answers(with_type(svcs, q.name), host, ifs, v6, DEFAULT_TTL)
        }
    } else if q.qtype == QTYPE_SRV {
        match with_name(svcs, q.name) {
            Some(s) => seq![srv_answer(s, host, DEFAULT_TTL)] + ip_answers(
                host,
                ifs,
                v6,
                DEFAULT_TTL,
            ),
            None => seq![],
        }
    } else if q.qtype == QTYPE_TXT {
        match with_name(svcs, q.name) {
            Some(s) => seq![txt_answer(s, DEFAULT_TTL)],
            None => seq![],
        }
    } else {
        seq![]
    }
}

/// Whether the question's class is one that this responder answers.
pub open spec fn class_answered(q: QuestionV) -> bool {
    q.qclass == QCLASS_IN || q.qclass == QCLASS_ANY
}

/// The records of the unicast reply: those of every answered question.
pub open spec fn unicast_answers(
    host: Seq<Seq<u8>>,
    svcs: Seq<ServiceV>,
    ifs: Seq<Interface>,
    v6: bool,
    qs: Seq<QuestionV>,
) -> Seq<AnswerV>
    decreases qs.len(),
{
    if qs.len() == 0 {
        seq![]
    } else {
        let r = unicast_answers(host, svcs, ifs, v6, qs.drop_last());
        if class_answered(qs.last()) {
            r + question_answers(host, svcs, ifs, v6, qs.last())
        } else {
            r
        }
    }
}

/// The records of the multicast reply: those of every answered question
/// that does not ask for a unicast reply.
pub open spec fn multicast_answers(
    host: Seq<Seq<u8>>,
    svcs: Seq<ServiceV>,
    ifs: Seq<Interface>,
    v6: bool,
    qs: Seq<QuestionV>,
) -> Seq<AnswerV>
    decreases qs.len(),
{
    if qs.len() == 0 {
        seq![]
    } else {
        let r = multicast_answers(host, svcs, ifs, v6, qs.drop_last());
        if class_answered(qs.last()) && !qs.last().unicast {
            r + question_answers(host, svcs, ifs, v6, qs.last())
        } else {
            r
        }
    }
}

/// Appends an address record of `hostname` for each non-loopback interface
/// of the active family.
pub fn add_ip_rr(hostname: &Name, builder: &mut Response, ttl: u32, ifs: &Vec<Interface>, v6: bool)
    ensures
        final(builder).id == old(builder).id,
        final(builder).answers_v() == old(builder).answers_v() + ip_answers(
            hostname@,
            ifs@,
            v6,
            ttl,
        ),
{
    let mut i: usize = 0;
    while i < ifs.len()
        invariant
            i <= ifs.len(),
            builder.id == old(builder).id,
            builder.answers_v() == old(builder).answers_v() + ip_answers(
                hostname@,
                ifs@.take(i as int),
                v6,
                ttl,
            ),
        decreases ifs.len() - i,
    {
        let iface = ifs[i];
        proof {
            assert(ifs@.take(i + 1).drop_last() =~= ifs@.take(i as int));
            assert(ifs@.take(i + 1).last() == iface);
        }
        let ghost before = builder.answers_v();
        if !iface.loopback {
            match iface.addr {
                IpAddress::V4(a) => {
                    if !v6 {
                        builder.add_answer(
                            Answer { name: hostname.duplicate(), ttl, data: RData::A(a) },
                        );
                    }
                },
                IpAddress::V6(a) => {
                    if v6 {
                        builder.add_answer(
                            Answer { name: hostname.duplicate(), ttl, data: RData::Aaaa(a) },
                        );
                    }
                },
            }
        }
        proof {
            let prev = ip_answers(hostname@, ifs@.take(i as int), v6, ttl);
            match interface_answer(iface, hostname@, v6, ttl) {
                Some(x) => {
                    assert(builder.answers_v() =~= before.push(x));
                    assert(old(builder).answers_v() + prev.push(x) =~= (old(
                        builder,
                    ).answers_v() + prev).push(x));
                },
                None => {},
            }
        }
        i += 1;
    }
    assert(ifs@.take(i as int) =~= ifs@);
}

/// Appends the records of every instance of `found`, one group after the other.
fn add_instances(
    services: &Services,
    found: &Vec<ServiceData>,
    builder: &mut Response,
    ifs: &Vec<Interface>,
    v6: bool,
)
    ensures
        final(builder).id == old(builder).id,
        final(builder).answers_v() == old(builder).answers_v() + instances_answers(
            services_view(found@),
            services.hostname@,
            ifs@,
            v6,
            DEFAULT_TTL,
        ),
{
    let ghost host = services.hostname@;
    let ghost fv = services_view(found@);
    let mut i: usize = 0;
    while i < found.len()
        invariant
            i <= found.len(),
            fv == services_view(found@),
            host == services.hostname@,
            builder.id == old(builder).id,
            builder.answers_v() == old(builder).answers_v() + instances_answers(
                fv.take(i as int),
                host,
                ifs@,
                v6,
                DEFAULT_TTL,
            ),
        decreases found.len() - i,
    {
        let ghost before = builder.answers_v();
        let svc = &found[i];
        svc.add_ptr_rr(builder, DEFAULT_TTL);
        svc.add_srv_rr(services.get_hostname(), builder, DEFAULT_TTL);
        svc.add_txt_rr(builder, DEFAULT_TTL);
        add_ip_rr(services.get_hostname(), builder, DEFAULT_TTL, ifs, v6);
        proof {
            assert(fv.take(i + 1).drop_last() =~= fv.take(i as int));
            assert(fv.take(i + 1).last() == fv[i as int]);
            assert(fv[i as int] == svc@);
            let prev = instances_answers(fv.take(i as int), host, ifs@, v6, DEFAULT_TTL);
            let g = instance_answers(svc@, host, ifs@, v6, DEFAULT_TTL);
            assert(builder.answers_v() =~= before + g);
            assert(old(builder).answers_v() + (prev + g) =~= (old(builder).answers_v() + prev)
                + g);
        }
        i += 1;
    }
    assert(fv.take(i as int) =~= fv);
}

/// Appends one PTR record under `qname` for each of `types`.
fn add_type_ptrs(qname: &Name, types: &Vec<Name>, builder: &mut Response)
    ensures
        final(builder).id == old(builder).id,
        final(builder).answers_v() == old(builder).answers_v() + type_answers(
            qname@,
            names_view(types@),
            DEFAULT_TTL,
        ),
{
    let ghost tv = names_view(types@);
    let mut i: usize = 0;
    while i < types.len()
        invariant
            i <= types.len(),
            tv == names_view(types@),
            builder.id == old(builder).id,
            builder.answers_v() == old(builder).answers_v() + type_answers(
                qname@,
                tv.take(i as int),
                DEFAULT_TTL,
            ),
        decreases types.len() - i,
    {
        let ghost before = builder.answers_v();
        builder.add_answer(
            Answer { name: qname.duplicate(), ttl: DEFAULT_TTL, data: RData::Ptr(types[i].duplicate()) },
        );
        proof {
            assert(tv.take(i + 1).drop_last() =~= tv.take(i as int));
            assert(tv.take(i + 1).last() == tv[i as int]);
            let prev = type_answers(qname@, tv.take(i as int), DEFAULT_TTL);
            let x = AnswerV { name: qname@, ttl: DEFAULT_TTL, data: RDataV::Ptr(tv[i as int]) };
            assert(old(builder).answers_v() + prev.push(x) =~= (old(builder).answers_v()
                + prev).push(x));
        }
        i += 1;
    }
    assert(tv.take(i as int) =~= tv);
}

/// Appends the records that answer question `q`.
pub fn handle_question(
    services: &Services,
    ifs: &Vec<Interface>,
    v6: bool,
    q: &Question,
    builder: &mut Response,
)
    ensures
        final(builder).id == old(builder).id,
        final(builder).answers_v() == old(builder).answers_v() + question_answers(
            services.hostname@,
            services.services_v(),
            ifs@,
            v6,
            q@,
        ),
{
    let ghost b0 = builder.answers_v();
    let hostname = services.get_hostname();
    if (q.qtype == QTYPE_A || q.qtype == QTYPE_AAAA || q.qtype == QTYPE_ALL) && q.name.same(
        hostname,
    ) {
        add_ip_rr(hostname, builder, DEFAULT_TTL, ifs, v6);
    } else if q.qtype == QTYPE_PTR {
        if q.name.same(&service_enumeration_name()) {
            let types = services.get_types();
            add_type_ptrs(&q.name, &types, builder);
        } else {
            let found = services.find_by_type(&q.name);
            add_instances(services, &found, builder, ifs, v6);
        }
    } else if q.qtype == QTYPE_SRV {
        match services.find_by_name(&q.name) {
            Some(svc) => {
                svc.add_srv_rr(hostname, builder, DEFAULT_TTL);
                add_ip_rr(hostname, builder, DEFAULT_TTL, ifs, v6);
                assert(builder.answers_v() =~= b0 + (seq![srv_answer(svc@, hostname@, DEFAULT_TTL)]
                    + ip_answers(hostname@, ifs@, v6, DEFAULT_TTL)));
            },
            None => {
                assert(builder.answers_v() =~= b0 + seq![]);
            },
        }
    } else if q.qtype == QTYPE_TXT {
        match services.find_by_name(&q.name) {
            Some(svc) => {
                svc.add_txt_rr(builder, DEFAULT_TTL);
                assert(builder.answers_v() =~= b0 + seq![txt_answer(svc@, DEFAULT_TTL)]);
            },
            None => {
                assert(builder.answers_v() =~= b0 + seq![]);
            },
        }
    } else {
        assert(builder.answers_v() =~= b0 + seq![]);
    }
}

/// The multicast and the unicast reply to a query, both under the query's
/// transaction id; either may be empty.
pub fn answer_query(services: &Services, ifs: &Vec<Interface>, v6: bool, query: &Query) -> (r: (
    Response,
    Response,
))
    ensures
        r.0.id == query.id,
        r.1.id == query.id,
        r.0.answers_v() == multicast_answers(
            services.hostname@,
            services.services_v(),
            ifs@,
            v6,
            questions_view(query.questions@),
        ),
        r.1.answers_v() == unicast_answers(
            services.hostname@,
            services.services_v(),
            ifs@,
            v6,
            questions_view(query.questions@),
        ),
{
    let ghost host = services.hostname@;
    let ghost svcs = services.services_v();
    let ghost qv = questions_view(query.questions@);
    let mut multicast = Response::new(query.id);
    let mut unicast = Response::new(query.id);
    let mut i: usize = 0;
    while i < query.questions.len()
        invariant
            i <= query.questions.len(),
            qv == questions_view(query.questions@),
            host == services.hostname@,
            svcs == services.services_v(),
            multicast.id == query.id,
            unicast.id == query.id,
            multicast.answers_v() == multicast_answers(host, svcs, ifs@, v6, qv.take(i as int)),
            unicast.answers_v() == unicast_answers(host, svcs, ifs@, v6, qv.take(i as int)),
        decreases query.questions.len() - i,
    {
        let q = &query.questions[i];
        proof {
            assert(qv.take(i + 1).drop_last() =~= qv.take(i as int));
            assert(qv.take(i + 1).last() == q@);
        }
        if q.qclass == QCLASS_IN || q.qclass == QCLASS_ANY {
            if !q.unicast {
                handle_question(services, ifs, v6, q, &mut multicast);
            }
            handle_question(services, ifs, v6, q, &mut unicast);
        }
        i += 1;
    }
    assert(qv.take(i as int) =~= qv);
    (multicast, unicast)
}

} // verus!
