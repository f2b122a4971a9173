use vstd::prelude::*;
use crate::emitter::{
    enumeration_name, instance_answers, instances_answers, ip_answers, multicast_answers,
    question_answers, type_answers, Interface, QuestionV, DEFAULT_TTL, QTYPE_PTR,
};
use crate::engine::{unsolicited_packet, Dest};
use crate::services::{types_of, with_type, ServiceV};
use crate::wire::{AnswerV, RDataV};

verus! {

/// A question that asks for a unicast reply adds nothing to the multicast
/// reply, wherever it stands among the questions of a packet.
pub proof fn lemma_unicast_question_not_multicast(
    host: Seq<Seq<u8>>,
    svcs: Seq<ServiceV>,
    ifs: Seq<Interface>,
    v6: bool,
    before: Seq<QuestionV>,
    q: QuestionV,
    after: Seq<QuestionV>,
)
    requires
        q.unicast,
    ensures
        multicast_answers(host, svcs, ifs, v6, before + seq![q] + after) == multicast_answers(
            host,
            svcs,
            ifs,
            v6,
            before + after,
        ),
    decreases after.len(),
{
    if after.len() == 0 {
        assert(before + seq![q] + after =~= before.push(q));
        assert(before + after =~= before);
        assert(before.push(q).drop_last() =~= before);
    } else {
        lemma_unicast_question_not_multicast(host, svcs, ifs, v6, before, q, after.drop_last());
        assert((before + seq![q] + after).drop_last() =~= before + seq![q] + after.drop_last());
        assert((before + after).drop_last() =~= before + after.drop_last());
        assert((before + seq![q] + after).last() == after.last());
        assert((before + after).last() == after.last());
    }
}

/// The service types listed by `types_of` hold no duplicate, and they are
/// exactly the types of the registered services.
pub proof fn lemma_types_exact(svcs: Seq<ServiceV>)
    ensures
        types_of(svcs).no_duplicates(),
        forall|t: Seq<Seq<u8>>|
            types_of(svcs).contains(t) <==> exists|i: int| 0 <= i < svcs.len() && svcs[i].typ == t,
    decreases svcs.len(),
{
    if svcs.len() > 0 {
        let init = svcs.drop_last();
        lemma_types_exact(init);
        let it = types_of(init);
        let x = svcs.last().typ;
        assert forall|t: Seq<Seq<u8>>|
            types_of(svcs).contains(t) <==> exists|i: int|
                0 <= i < svcs.len() && svcs[i].typ == t by {
            if types_of(svcs).contains(t) {
                if it.contains(t) {
                    let i = choose|i: int| 0 <= i < init.len() && init[i].typ == t;
                    assert(svcs[i] == init[i]);
                } else {
                    let j = choose|j: int| 0 <= j < types_of(svcs).len() && types_of(svcs)[j] == t;
                    if !it.contains(x) {
                        if j < it.len() {
                            assert(it[j] == t);
                        }
                    }
                    assert(svcs[svcs.len() - 1].typ == t);
                }
            }
            if exists|i: int| 0 <= i < svcs.len() && svcs[i].typ == t {
                let i = choose|i: int| 0 <= i < svcs.len() && svcs[i].typ == t;
                if i < svcs.len() - 1 {
                    assert(init[i] == svcs[i]);
                    assert(it.contains(t));
                    let j = choose|j: int| 0 <= j < it.len() && it[j] == t;
                    if !it.contains(x) {
                        assert(it.push(x)[j] == t);
                    }
                } else {
                    assert(x == t);
                    if !it.contains(x) {
                        assert(it.push(x)[it.len() as int] == t);
                    }
                }
            }
        }
        if !types_of(init).contains(svcs.last().typ) {
            let r = types_of(init).push(svcs.last().typ);
            assert forall|a: int, b: int| 0 <= a < b < r.len() implies r[a] != r[b] by {
                if b == r.len() - 1 {
                    assert(types_of(init).contains(r[a]));
                }
            }
        }
    }
}

/// The PTR records under `n`, one per type, in order.
proof fn lemma_type_answers_items(n: Seq<Seq<u8>>, types: Seq<Seq<Seq<u8>>>, ttl: u32)
    ensures
        type_answers(n, types, ttl).len() == types.len(),
        forall|i: int|
            0 <= i < types.len() ==> #[trigger] type_answers(n, types, ttl)[i] == (AnswerV {
                name: n,
                ttl,
                data: RDataV::Ptr(types[i]),
            }),
    decreases types.len(),
{
    if types.len() > 0 {
        lemma_type_answers_items(n, types.drop_last(), ttl);
        assert forall|i: int| 0 <= i < types.len() implies #[trigger] type_answers(n, types, ttl)[i]
            == (AnswerV { name: n, ttl, data: RDataV::Ptr(types[i]) }) by {
            if i < types.len() - 1 {
                assert(types.drop_last()[i] == types[i]);
            }
        }
    }
}

/// A PTR question for the service-enumeration name is answered with one PTR
/// record per registered service type, each type once.
pub proof fn lemma_enumeration_answers(
    host: Seq<Seq<u8>>,
    svcs: Seq<ServiceV>,
    ifs: Seq<Interface>,
    v6: bool,
    q: QuestionV,
)
    requires
        q.qtype == QTYPE_PTR,
        q.name == enumeration_name(),
    ensures
        ({
            let r = question_answers(host, svcs, ifs, v6, q);
            let ts = types_of(svcs);
            &&& r.len() == ts.len()
            &&& forall|i: int|
                0 <= i < ts.len() ==> #[trigger] r[i] == (AnswerV {
                    name: q.name,
                    ttl: DEFAULT_TTL,
                    data: RDataV::Ptr(ts[i]),
                })
            &&& ts.no_duplicates()
            &&& forall|t: Seq<Seq<u8>>|
                ts.contains(t) <==> exists|i: int| 0 <= i < svcs.len() && svcs[i].typ == t
        }),
{
    lemma_types_exact(svcs);
    lemma_type_answers_items(q.name, types_of(svcs), DEFAULT_TTL);
}

/// Every instance that `with_type` picks has the type asked for; none is
/// picked where no service has it.
proof fn lemma_with_type_members(svcs: Seq<ServiceV>, t: Seq<Seq<u8>>)
    ensures
        forall|j: int|
            0 <= j < with_type(svcs, t).len() ==> (#[trigger] with_type(svcs, t)[j]).typ == t,
        (forall|i: int| 0 <= i < svcs.len() ==> svcs[i].typ != t) ==> with_type(svcs, t).len()
            == 0,
    decreases svcs.len(),
{
    if svcs.len() > 0 {
        let init = svcs.drop_last();
        lemma_with_type_members(init, t);
        let wi = with_type(init, t);
        assert forall|j: int| 0 <= j < with_type(svcs, t).len() implies (#[trigger] with_type(
            svcs,
            t,
        )[j]).typ == t by {
            if j < wi.len() {
                assert(with_type(svcs, t)[j] == wi[j]);
            }
        }
        if forall|i: int| 0 <= i < svcs.len() ==> svcs[i].typ != t {
            assert forall|i: int| 0 <= i < init.len() implies init[i].typ != t by {
                assert(init[i] == svcs[i]);
            }
            assert(svcs[svcs.len() - 1].typ != t);
        }
    }
}

/// The records of a sequence of instances: one group of PTR, SRV, TXT and
/// address records per instance, group `i` at offset `i * k`.
proof fn lemma_instance_groups(
    ss: Seq<ServiceV>,
    host: Seq<Seq<u8>>,
    ifs: Seq<Interface>,
    v6: bool,
    ttl: u32,
)
    ensures
        ({
            let k = 3 + ip_answers(host, ifs, v6, ttl).len();
            let r = instances_answers(ss, host, ifs, v6, ttl);
            &&& r.len() == ss.len() * k
            &&& forall|i: int|
                0 <= i < ss.len() ==> #[trigger] r.subrange(i * k, i * k + k) == instance_answers(
                    ss[i],
                    host,
                    ifs,
                    v6,
                    ttl,
                )
        }),
    decreases ss.len(),
{
    let k = 3 + ip_answers(host, ifs, v6, ttl).len();
    if ss.len() > 0 {
        let init = ss.drop_last();
        lemma_instance_groups(init, host, ifs, v6, ttl);
        let p = instances_answers(init, host, ifs, v6, ttl);
        let g = instance_answers(ss.last(), host, ifs, v6, ttl);
        let r = instances_answers(ss, host, ifs, v6, ttl);
        assert(r == p + g);
        assert(ss.len() * k == init.len() * k + k) by (nonlinear_arith)
            requires
                ss.len() == init.len() + 1,
        ;
        assert forall|i: int| 0 <= i < ss.len() implies #[trigger] r.subrange(i * k, i * k + k)
            == instance_answers(ss[i], host, ifs, v6, ttl) by {
            if i < init.len() {
                assert(i * k + k <= init.len() * k) by (nonlinear_arith)
                    requires
                        i < init.len(),
                        k >= 0,
                ;
                assert(0 <= i * k) by (nonlinear_arith)
                    requires
                        i >= 0,
                        k >= 0,
                ;
                assert(r.subrange(i * k, i * k + k) =~= p.subrange(i * k, i * k + k));
                assert(init[i] == ss[i]);
            } else {
                assert(i * k == init.len() * k);
                assert(r.subrange(i * k, i * k + k) =~= g);
            }
        }
    } else {
        assert(ss.len() * k == 0) by (nonlinear_arith)
            requires
                ss.len() == 0,
        ;
    }
}

/// A PTR question for a service type is answered with one group of PTR,
/// SRV, TXT and address records per registered instance of that type, and
/// with nothing for a type that no service has.
pub proof fn lemma_type_query_groups(
    host: Seq<Seq<u8>>,
    svcs: Seq<ServiceV>,
    ifs: Seq<Interface>,
    v6: bool,
    q: QuestionV,
)
    requires
        q.qtype == QTYPE_PTR,
        q.name != enumeration_name(),
    ensures
        ({
            let r = question_answers(host, svcs, ifs, v6, q);
            let found = with_type(svcs, q.name);
            let k = 3 + ip_answers(host, ifs, v6, DEFAULT_TTL).len();
            &&& forall|j: int| 0 <= j < found.len() ==> (#[trigger] found[j]).typ == q.name
            &&& r.len() == found.len() * k
            &&& forall|i: int|
                0 <= i < found.len() ==> #[trigger] r.subrange(i * k, i * k + k)
                    == instance_answers(found[i], host, ifs, v6, DEFAULT_TTL)
            &&& (forall|i: int| 0 <= i < svcs.len() ==> svcs[i].typ != q.name) ==> r.len() == 0
        }),
{
    let found = with_type(svcs, q.name);
    lemma_with_type_members(svcs, q.name);
    lemma_instance_groups(found, host, ifs, v6, DEFAULT_TTL);
    if forall|i: int| 0 <= i < svcs.len() ==> svcs[i].typ != q.name {
        assert(found.len() == 0);
        assert(instances_answers(found, host, ifs, v6, DEFAULT_TTL).len() == 0);
    }
}

/// Two unsolicited announcements built from the same inputs are the same
/// packet, sent to the multicast group under transaction id 0.
pub proof fn lemma_unsolicited_idempotent(
    s1: ServiceV,
    s2: ServiceV,
    host: Seq<Seq<u8>>,
    ifs: Seq<Interface>,
    v6: bool,
    ttl: u32,
    include_ip: bool,
)
    requires
        s1 == s2,
    ensures
        unsolicited_packet(s1, host, ifs, v6, ttl, include_ip) == unsolicited_packet(
            s2,
            host,
            ifs,
            v6,
            ttl,
            include_ip,
        ),
        unsolicited_packet(s1, host, ifs, v6, ttl, include_ip).dest == Dest::Group,
        unsolicited_packet(s1, host, ifs, v6, ttl, include_ip).payload.take(2) == seq![0u8, 0u8],
{
    assert(unsolicited_packet(s1, host, ifs, v6, ttl, include_ip).payload.take(2) =~= seq![
        0u8,
        0u8,
    ]);
}

} // verus!
