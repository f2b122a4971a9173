use vstd::prelude::*;
use crate::name::{copy_bytes, Name};
use crate::wire::{Answer, AnswerV, RData, RDataV, Response};

verus! {

/// One published service instance.
pub struct ServiceData {
    /// Service type, such as `_http._tcp.local`.
    pub typ: Name,
    /// Instance name, such as `web._http._tcp.local`.
    pub name: Name,
    pub port: u16,
    /// TXT payload, already in wire form.
    pub txt: Vec<u8>,
}

pub struct ServiceV {
    pub typ: Seq<Seq<u8>>,
    pub name: Seq<Seq<u8>>,
    pub port: u16,
    pub txt: Seq<u8>,
}

impl View for ServiceData {
    type V = ServiceV;

    open spec fn view(&self) -> ServiceV {
        ServiceV { typ: self.typ@, name: self.name@, port: self.port, txt: self.txt@ }
    }
}

pub open spec fn services_view(v: Seq<ServiceData>) -> Seq<ServiceV> {
    v.map_values(|s: ServiceData| s@)
}

pub open spec fn names_view(v: Seq<Name>) -> Seq<Seq<Seq<u8>>> {
    v.map_values(|n: Name| n@)
}

/// The PTR record that points from the service type to the instance.
pub open spec fn ptr_answer(s: ServiceV, ttl: u32) -> AnswerV {
    AnswerV { name: s.typ, ttl, data: RDataV::Ptr(s.name) }
}

/// The SRV record of the instance, naming the host and port.
pub open spec fn srv_answer(s: ServiceV, host: Seq<Seq<u8>>, ttl: u32) -> AnswerV {
    AnswerV { name: s.name, ttl, data: RDataV::Srv { port: s.port, target: host } }
}

/// The TXT record of the instance.
pub open spec fn txt_answer(s: ServiceV, ttl: u32) -> AnswerV {
    AnswerV { name: s.name, ttl, data: RDataV::Txt(s.txt) }
}

impl ServiceData {
    /// A copy of the service.
    pub fn duplicate(&self) -> (r: ServiceData)
        ensures
            r@ == self@,
    {
        ServiceData {
            typ: self.typ.duplicate(),
            name: self.name.duplicate(),
            port: self.port,
            txt: copy_bytes(&self.txt),
        }
    }

    pub fn add_ptr_rr(&self, builder: &mut Response, ttl: u32)
        ensures
            final(builder).id == old(builder).id,
            final(builder).answers_v() == old(builder).answers_v().push(ptr_answer(self@, ttl)),
    {
        builder.add_answer(Answer { name: self.typ.duplicate(), ttl, data: RData::Ptr(self.name.duplicate()) });
    }

    pub fn add_srv_rr(&self, hostname: &Name, builder: &mut Response, ttl: u32)
        ensures
            final(builder).id == old(builder).id,
            final(builder).answers_v() == old(builder).answers_v().push(
                srv_answer(self@, hostname@, ttl),
            ),
    {
        builder.add_answer(
            Answer {
                name: self.name.duplicate(),
                ttl,
                data: RData::Srv { port: self.port, target: hostname.duplicate() },
            },
        );
    }

    pub fn add_txt_rr(&self, builder: &mut Response, ttl: u32)
        ensures
            final(builder).id == old(builder).id,
            final(builder).answers_v() == old(builder).answers_v().push(txt_answer(self@, ttl)),
    {
        builder.add_answer(Answer { name: self.name.duplicate(), ttl, data: RData::Txt(copy_bytes(&self.txt)) });
    }
}

/// The distinct service types of `s`, in order of first appearance.
pub open spec fn types_of(s: Seq<ServiceV>) -> Seq<Seq<Seq<u8>>>
    decreases s.len(),
{
    if s.len() == 0 {
        seq![]
    } else {
        let t = types_of(s.drop_last());
        if t.contains(s.last().typ) {
            t
        } else {
            t.push(s.last().typ)
        }
    }
}

/// The services of `s` whose type is `t`, in order.
pub open spec fn with_type(s: Seq<ServiceV>, t: Seq<Seq<u8>>) -> Seq<ServiceV>
    decreases s.len(),
{
    if s.len() == 0 {
        seq![]
    } else {
        let r = with_type(s.drop_last(), t);
        if s.last().typ == t {
            r.push(s.last())
        } else {
            r
        }
    }
}

/// The first service of `s` whose instance name is `n`.
pub open spec fn with_name(s: Seq<ServiceV>, n: Seq<Seq<u8>>) -> Option<ServiceV>
    decreases s.len(),
{
    if s.len() == 0 {
        None
    } else {
        match with_name(s.drop_last(), n) {
            Some(x) => Some(x),
            None => if s.last().name == n {
                Some(s.last())
            } else {
                None
            },
        }
    }
}

/// The registry of locally published services and the host's own name.
pub struct Services {
    pub hostname: Name,
    pub services: Vec<ServiceData>,
}

impl Services {
    pub open spec fn services_v(&self) -> Seq<ServiceV> {
        services_view(self.services@)
    }

    pub fn new(hostname: Name, services: Vec<ServiceData>) -> (r: Services)
        ensures
            r.hostname@ == hostname@,
            r.services_v() == services_view(services@),
    {
        Services { hostname, services }
    }

    pub fn get_hostname(&self) -> (r: &Name)
        ensures
            r@ == self.hostname@,
    {
        &self.hostname
    }

    /// A copy of the registry.
    pub fn duplicate(&self) -> (r: Services)
        ensures
            r.hostname@ == self.hostname@,
            r.services_v() == self.services_v(),
    {
        let mut v: Vec<ServiceData> = Vec::new();
        let mut i: usize = 0;
        while i < self.services.len()
            invariant
                i <= self.services.len(),
                services_view(v@) == self.services_v().take(i as int),
            decreases self.services.len() - i,
        {
            let ghost before = v@;
            v.push(self.services[i].duplicate());
            proof {
                assert(services_view(v@) =~= services_view(before).push(self.services_v()[i as int]));
                assert(self.services_v().take(i + 1) =~= self.services_v().take(i as int).push(
                    self.services_v()[i as int],
                ));
            }
            i += 1;
        }
        assert(self.services_v().take(i as int) =~= self.services_v());
        Services { hostname: self.hostname.duplicate(), services: v }
    }

    /// The distinct service types, in order of first registration.
    pub fn get_types(&self) -> (r: Vec<Name>)
        ensures
            names_view(r@) == types_of(self.services_v()),
    {
        let mut r: Vec<Name> = Vec::new();
        let mut i: usize = 0;
        while i < self.services.len()
            invariant
                i <= self.services.len(),
                names_view(r@) == types_of(self.services_v().take(i as int)),
            decreases self.services.len() - i,
        {
            let ghost sv = self.services_v();
            proof {
                assert(sv.take(i + 1).drop_last() =~= sv.take(i as int));
                assert(sv.take(i + 1).last() == sv[i as int]);
            }
            let t = &self.services[i].typ;
            if !contains_name(&r, t) {
                let ghost before = r@;
                r.push(t.duplicate());
                assert(names_view(r@) =~= names_view(before).push(t@));
            }
            i += 1;
        }
        assert(self.services_v().take(i as int) =~= self.services_v());
        r
    }

    /// The services of the given type, in order of registration.
    pub fn find_by_type(&self, t: &Name) -> (r: Vec<ServiceData>)
        ensures
            services_view(r@) == with_type(self.services_v(), t@),
    {
        let mut r: Vec<ServiceData> = Vec::new();
        let mut i: usize = 0;
        while i < self.services.len()
            invariant
                i <= self.services.len(),
                services_view(r@) == with_type(self.services_v().take(i as int), t@),
            decreases self.services.len() - i,
        {
            let ghost sv = self.services_v();
            proof {
                assert(sv.take(i + 1).drop_last() =~= sv.take(i as int));
                assert(sv.take(i + 1).last() == sv[i as int]);
            }
            if self.services[i].typ.same(t) {
                let ghost before = r@;
                r.push(self.services[i].duplicate());
                assert(services_view(r@) =~= services_view(before).push(sv[i as int]));
            }
            i += 1;
        }
        assert(self.services_v().take(i as int) =~= self.services_v());
        r
    }

    /// The first service with the given instance name, if any.
    pub fn find_by_name(&self, n: &Name) -> (r: Option<ServiceData>)
        ensures
            r matches Some(s) ==> with_name(self.services_v(), n@) == Some(s@),
            r is None ==> with_name(self.services_v(), n@) is None,
    {
        let mut i: usize = 0;
        while i < self.services.len()
            invariant
                i <= self.services.len(),
                with_name(self.services_v().take(i as int), n@) is None,
            decreases self.services.len() - i,
        {
            let ghost sv = self.services_v();
            proof {
                assert(sv.take(i + 1).drop_last() =~= sv.take(i as int));
                assert(sv.take(i + 1).last() == sv[i as int]);
            }
            if self.services[i].name.same(n) {
                proof {
                    lemma_with_name_prefix(sv, n@, i + 1);
                }
                return Some(self.services[i].duplicate());
            }
            i += 1;
        }
        assert(self.services_v().take(i as int) =~= self.services_v());
        None
    }
}

/// Once a prefix holds a service of the name, the whole sequence gives that one.
proof fn lemma_with_name_prefix(s: Seq<ServiceV>, n: Seq<Seq<u8>>, k: int)
    requires
        0 <= k <= s.len(),
        with_name(s.take(k), n) is Some,
    ensures
        with_name(s, n) == with_name(s.take(k), n),
    decreases s.len() - k,
{
    if k < s.len() {
        assert(s.take(k + 1).drop_last() =~= s.take(k));
        lemma_with_name_prefix(s, n, k + 1);
    } else {
        assert(s.take(k) =~= s);
    }
}

/// Whether `n` is one of the names of `v`.
pub fn contains_name(v: &Vec<Name>, n: &Name) -> (r: bool)
    ensures
        r == names_view(v@).contains(n@),
{
    let mut i: usize = 0;
    while i < v.len()
        invariant
            i <= v.len(),
            forall|j: int| 0 <= j < i ==> v@[j]@ != n@,
        decreases v.len() - i,
    {
        if v[i].same(n) {
            assert(names_view(v@)[i as int] == n@);
            return true;
        }
        i += 1;
    }
    proof {
        if names_view(v@).contains(n@) {
            let j = choose|j: int| 0 <= j < names_view(v@).len() && names_view(v@)[j] == n@;
            assert(v@[j]@ == n@);
        }
    }
    false
}

} // verus!
