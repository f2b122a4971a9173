use vstd::prelude::*;
use crate::name::Name;

verus! {

/// Longest label that the wire format can carry.
pub const MAX_LABEL: usize = 63;

/// Record type codes.
pub const TYPE_A: u16 = 1;
pub const TYPE_PTR: u16 = 12;
pub const TYPE_TXT: u16 = 16;
pub const TYPE_AAAA: u16 = 28;
pub const TYPE_SRV: u16 = 33;

/// Class code of the Internet class.
pub const CLASS_IN: u16 = 1;

/// The data of one resource record.
pub enum RData {
    A([u8; 4]),
    Aaaa([u8; 16]),
    Ptr(Name),
    Srv { port: u16, target: Name },
    Txt(Vec<u8>),
}

pub enum RDataV {
    A(Seq<u8>),
    Aaaa(Seq<u8>),
    Ptr(Seq<Seq<u8>>),
    Srv { port: u16, target: Seq<Seq<u8>> },
    Txt(Seq<u8>),
}

impl View for RData {
    type V = RDataV;

    open spec fn view(&self) -> RDataV {
        match self {
            RData::A(a) => RDataV::A(a@),
            RData::Aaaa(a) => RDataV::Aaaa(a@),
            RData::Ptr(n) => RDataV::Ptr(n@),
            RData::Srv { port, target } => RDataV::Srv { port: *port, target: target@ },
            RData::Txt(t) => RDataV::Txt(t@),
        }
    }
}

/// One resource record of the answer section, of class IN.
pub struct Answer {
    pub name: Name,
    pub ttl: u32,
    pub data: RData,
}

pub struct AnswerV {
    pub name: Seq<Seq<u8>>,
    pub ttl: u32,
    pub data: RDataV,
}

impl View for Answer {
    type V = AnswerV;

    open spec fn view(&self) -> AnswerV {
        AnswerV { name: self.name@, ttl: self.ttl, data: self.data@ }
    }
}

pub open spec fn answers_view(v: Seq<Answer>) -> Seq<AnswerV> {
    v.map_values(|a: Answer| a@)
}

/// A response under construction: a transaction id and the answers so far.
pub struct Response {
    pub id: u16,
    pub answers: Vec<Answer>,
}

impl Response {
    pub open spec fn answers_v(&self) -> Seq<AnswerV> {
        answers_view(self.answers@)
    }

    /// An empty response with the given transaction id.
    pub fn new(id: u16) -> (r: Response)
        ensures
            r.id == id,
            r.answers_v() == Seq::<AnswerV>::empty(),
    {
        let r = Response { id, answers: Vec::new() };
        assert(r.answers_v() =~= Seq::<AnswerV>::empty());
        r
    }

    /// Appends one answer.
    pub fn add_answer(&mut self, a: Answer)
        ensures
            final(self).id == old(self).id,
            final(self).answers_v() == old(self).answers_v().push(a@),
    {
        self.answers.push(a);
        assert(self.answers_v() =~= old(self).answers_v().push(a@));
    }

    /// Whether the response holds no answer.
    pub fn is_empty(&self) -> (r: bool)
        ensures
            r == (self.answers_v().len() == 0),
    {
        self.answers.len() == 0
    }

    /// The response in wire format. Where not every answer fits the
    /// format (more than `MAX_COUNT` answers, or one whose data is longer
    /// than `MAX_RDATA` bytes), the longest prefix of answers that fits is
    /// written and the rest left out.
    pub fn build(&self) -> (r: Vec<u8>)
        ensures
            r@ == response_wire(self.id, self.answers_v()),
    {
        let ghost av = self.answers_v();
        let mut body: Vec<u8> = Vec::new();
        let mut i: usize = 0;
        let mut blocked = false;
        while !blocked && i < self.answers.len() && i < MAX_COUNT
            invariant
                i <= self.answers.len(),
                i <= MAX_COUNT,
                blocked ==> fit_from(av, i as int) == i as int,
                av == self.answers_v(),
                fit_from(av, i as int) == fit_count(av),
                body@ == answers_wire(av.take(i as int)),
            decreases self.answers.len() - i + if blocked { 0int } else { 1int },
        {
            let rd = rdata_bytes(&self.answers[i].data);
            assert(av[i as int] == self.answers@[i as int]@);
            if rd.len() > MAX_RDATA {
                blocked = true;
            } else {
                put_answer_with(&mut body, &self.answers[i], &rd);
                proof {
                    assert(av.take(i + 1).drop_last() =~= av.take(i as int));
                    assert(av.take(i + 1).last() == av[i as int]);
                }
                i += 1;
            }
        }
        assert(fit_from(av, i as int) == i as int);
        let mut out: Vec<u8> = Vec::new();
        put_u16(&mut out, self.id);
        out.push(0x84);
        out.push(0);
        put_u16(&mut out, 0);
        put_u16(&mut out, i as u16);
        put_u16(&mut out, 0);
        put_u16(&mut out, 0);
        assert(out@ =~= header_wire(self.id, i as nat));
        put_bytes(&mut out, body.as_slice());
        out
    }
}

/// Most answers that the count field of the header can carry.
pub const MAX_COUNT: usize = 65535;

/// Most bytes of record data that the length field can carry.
pub const MAX_RDATA: usize = 65535;

/// Whether the data of answer `a` fits its length field.
pub open spec fn fits(a: AnswerV) -> bool {
    rdata_wire(a.data).len() <= MAX_RDATA
}

/// The end of the run of fitting answers that starts at `i`, capped at
/// `MAX_COUNT`.
pub open spec fn fit_from(s: Seq<AnswerV>, i: int) -> int
    decreases s.len() - i,
{
    if i < 0 || i >= s.len() || i >= MAX_COUNT || !fits(s[i]) {
        i
    } else {
        fit_from(s, i + 1)
    }
}

/// How many answers of `s` are written: the longest prefix, of at most
/// `MAX_COUNT` answers, whose data all fit.
pub open spec fn fit_count(s: Seq<AnswerV>) -> int {
    fit_from(s, 0)
}

pub open spec fn u16_wire(x: u16) -> Seq<u8> {
    seq![(x / 256) as u8, (x % 256) as u8]
}

pub open spec fn u32_wire(x: u32) -> Seq<u8> {
    seq![(x / 0x1000000) as u8, ((x / 0x10000) % 256) as u8, ((x / 256) % 256) as u8, (x % 256) as u8]
}

/// A label on the wire: its length, then its bytes; one longer than the
/// format allows is cut to the longest length that it carries.
pub open spec fn label_wire(l: Seq<u8>) -> Seq<u8> {
    let n = if l.len() <= MAX_LABEL { l.len() } else { MAX_LABEL as nat };
    seq![n as u8] + l.take(n as int)
}

pub open spec fn labels_wire(ls: Seq<Seq<u8>>) -> Seq<u8>
    decreases ls.len(),
{
    if ls.len() == 0 {
        seq![]
    } else {
        labels_wire(ls.drop_last()) + label_wire(ls.last())
    }
}

/// A name on the wire, uncompressed: its labels, then the root label.
pub open spec fn name_wire(ls: Seq<Seq<u8>>) -> Seq<u8> {
    labels_wire(ls) + seq![0u8]
}

pub open spec fn rtype(d: RDataV) -> u16 {
    match d {
        RDataV::A(_) => TYPE_A,
        RDataV::Aaaa(_) => TYPE_AAAA,
        RDataV::Ptr(_) => TYPE_PTR,
        RDataV::Srv { .. } => TYPE_SRV,
        RDataV::Txt(_) => TYPE_TXT,
    }
}

/// Record data on the wire; a service record has priority and weight 0.
pub open spec fn rdata_wire(d: RDataV) -> Seq<u8> {
    match d {
        RDataV::A(a) => a,
        RDataV::Aaaa(a) => a,
        RDataV::Ptr(n) => name_wire(n),
        RDataV::Srv { port, target } => u16_wire(0) + u16_wire(0) + u16_wire(port) + name_wire(
            target,
        ),
        RDataV::Txt(t) => t,
    }
}

pub open spec fn answer_wire(a: AnswerV) -> Seq<u8> {
    let rd = rdata_wire(a.data);
    name_wire(a.name) + u16_wire(rtype(a.data)) + u16_wire(CLASS_IN) + u32_wire(a.ttl) + u16_wire(
        rd.len() as u16,
    ) + rd
}

pub open spec fn answers_wire(s: Seq<AnswerV>) -> Seq<u8>
    decreases s.len(),
{
    if s.len() == 0 {
        seq![]
    } else {
        answers_wire(s.drop_last()) + answer_wire(s.last())
    }
}

/// Header of an authoritative response with `n` answers and nothing else.
pub open spec fn header_wire(id: u16, n: nat) -> Seq<u8> {
    u16_wire(id) + seq![0x84u8, 0u8] + u16_wire(0) + u16_wire(n as u16) + u16_wire(0) + u16_wire(
        0,
    )
}

/// A response in wire format: the header, then the answers that fit.
pub open spec fn response_wire(id: u16, s: Seq<AnswerV>) -> Seq<u8> {
    let k = fit_count(s);
    header_wire(id, k as nat) + answers_wire(s.take(k))
}

fn put_u16(out: &mut Vec<u8>, x: u16)
    ensures
        final(out)@ == old(out)@ + u16_wire(x),
{
    out.push((x / 256) as u8);
    out.push((x % 256) as u8);
    assert(final(out)@ =~= old(out)@ + u16_wire(x));
}

fn put_u32(out: &mut Vec<u8>, x: u32)
    ensures
        final(out)@ == old(out)@ + u32_wire(x),
{
    out.push((x / 0x1000000) as u8);
    out.push(((x / 0x10000) % 256) as u8);
    out.push(((x / 256) % 256) as u8);
    out.push((x % 256) as u8);
    assert(final(out)@ =~= old(out)@ + u32_wire(x));
}

fn put_bytes(out: &mut Vec<u8>, b: &[u8])
    ensures
        final(out)@ == old(out)@ + b@,
{
    let mut i: usize = 0;
    while i < b.len()
        invariant
            i <= b.len(),
            out@ == old(out)@ + b@.take(i as int),
        decreases b.len() - i,
    {
        out.push(b[i]);
        assert(b@.take(i + 1) =~= b@.take(i as int).push(b@[i as int]));
        i += 1;
    }
    assert(b@.take(i as int) =~= b@);
}

fn put_label(out: &mut Vec<u8>, l: &Vec<u8>)
    ensures
        final(out)@ == old(out)@ + label_wire(l@),
{
    let n: usize = if l.len() <= MAX_LABEL { l.len() } else { MAX_LABEL };
    out.push(n as u8);
    let mut i: usize = 0;
    while i < n
        invariant
            i <= n <= l.len(),
            n <= MAX_LABEL,
            out@ == old(out)@ + seq![n as u8] + l@.take(i as int),
        decreases n - i,
    {
        out.push(l[i]);
        assert(l@.take(i + 1) =~= l@.take(i as int).push(l@[i as int]));
        i += 1;
    }
    assert(final(out)@ =~= old(out)@ + label_wire(l@));
}

fn put_name(out: &mut Vec<u8>, n: &Name)
    ensures
        final(out)@ == old(out)@ + name_wire(n@),
{
    let mut i: usize = 0;
    while i < n.labels.len()
        invariant
            i <= n.labels.len(),
            out@ == old(out)@ + labels_wire(n@.take(i as int)),
        decreases n.labels.len() - i,
    {
        let ghost before = out@;
        put_label(out, &n.labels[i]);
        proof {
            assert(n@.take(i + 1).drop_last() =~= n@.take(i as int));
            assert(n@.take(i + 1).last() == n.labels@[i as int]@);
            assert(out@ =~= old(out)@ + labels_wire(n@.take(i + 1)));
        }
        i += 1;
    }
    assert(n@.take(i as int) =~= n@);
    out.push(0);
    assert(final(out)@ =~= old(out)@ + name_wire(n@));
}

fn rdata_bytes(d: &RData) -> (r: Vec<u8>)
    ensures
        r@ == rdata_wire(d@),
{
    let mut out: Vec<u8> = Vec::new();
    match d {
        RData::A(a) => put_bytes(&mut out, a),
        RData::Aaaa(a) => put_bytes(&mut out, a),
        RData::Ptr(n) => put_name(&mut out, n),
        RData::Srv { port, target } => {
            put_u16(&mut out, 0);
            put_u16(&mut out, 0);
            put_u16(&mut out, *port);
            put_name(&mut out, target);
        },
        RData::Txt(t) => put_bytes(&mut out, t.as_slice()),
    }
    assert(out@ =~= rdata_wire(d@));
    out
}

fn rdata_type(d: &RData) -> (r: u16)
    ensures
        r == rtype(d@),
{
    match d {
        RData::A(_) => TYPE_A,
        RData::Aaaa(_) => TYPE_AAAA,
        RData::Ptr(_) => TYPE_PTR,
        RData::Srv { .. } => TYPE_SRV,
        RData::Txt(_) => TYPE_TXT,
    }
}

fn put_answer_with(out: &mut Vec<u8>, a: &Answer, rd: &Vec<u8>)
    requires
        rd@ == rdata_wire(a.data@),
        rd.len() <= MAX_RDATA,
    ensures
        final(out)@ == old(out)@ + answer_wire(a@),
{
    put_name(out, &a.name);
    put_u16(out, rdata_type(&a.data));
    put_u16(out, CLASS_IN);
    put_u32(out, a.ttl);
    put_u16(out, rd.len() as u16);
    put_bytes(out, rd.as_slice());
    assert(final(out)@ =~= old(out)@ + answer_wire(a@));
}

} // verus!
