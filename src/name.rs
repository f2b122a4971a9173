use vstd::prelude::*;

verus! {

/// Byte value of the label separator in the dotted form of a name.
pub const DOT: u8 = 46;

/// Copies a byte vector; the copy has the same contents.
pub fn copy_bytes(v: &Vec<u8>) -> (r: Vec<u8>)
    ensures
        r@ == v@,
{
    let mut r: Vec<u8> = Vec::new();
    let mut i: usize = 0;
    while i < v.len()
        invariant
            i <= v.len(),
            r@ == v@.take(i as int),
        decreases v.len() - i,
    {
        r.push(v[i]);
        i += 1;
        proof {
            assert(r@ =~= v@.take(i as int));
        }
    }
    assert(r@ =~= v@);
    r
}

/// Whether two byte vectors hold the same bytes.
pub fn bytes_equal(a: &Vec<u8>, b: &Vec<u8>) -> (r: bool)
    ensures
        r == (a@ == b@),
{
    if a.len() != b.len() {
        return false;
    }
    let mut i: usize = 0;
    while i < a.len()
        invariant
            i <= a.len(),
            a.len() == b.len(),
            a@.take(i as int) == b@.take(i as int),
        decreases a.len() - i,
    {
        if a[i] != b[i] {
            assert(a@[i as int] != b@[i as int]);
            return false;
        }
        assert(a@.take(i + 1) =~= a@.take(i as int).push(a@[i as int]));
        assert(b@.take(i + 1) =~= b@.take(i as int).push(b@[i as int]));
        i += 1;
    }
    assert(a@ =~= a@.take(i as int));
    assert(b@ =~= b@.take(i as int));
    true
}

/// Labels finished so far and the label being read, after reading the dotted
/// form `s` from left to right.
pub open spec fn dotted_scan(s: Seq<u8>) -> (Seq<Seq<u8>>, Seq<u8>)
    decreases s.len(),
{
    if s.len() == 0 {
        (seq![], seq![])
    } else {
        let (done, cur) = dotted_scan(s.drop_last());
        if s.last() == DOT {
            if cur.len() > 0 {
                (done.push(cur), seq![])
            } else {
                (done, seq![])
            }
        } else {
            (done, cur.push(s.last()))
        }
    }
}

/// The labels of a dotted name: the pieces between dots, empty ones left out.
pub open spec fn dotted_labels(s: Seq<u8>) -> Seq<Seq<u8>> {
    let (done, cur) = dotted_scan(s);
    if cur.len() > 0 {
        done.push(cur)
    } else {
        done
    }
}

/// A domain name, held as its sequence of labels.
pub struct Name {
    pub labels: Vec<Vec<u8>>,
}

impl View for Name {
    type V = Seq<Seq<u8>>;

    open spec fn view(&self) -> Seq<Seq<u8>> {
        self.labels@.map_values(|l: Vec<u8>| l@)
    }
}

impl Name {
    /// The name with the labels of the dotted form `s` (`"host.local"`).
    pub fn from_dotted(s: &Vec<u8>) -> (r: Name)
        ensures
            r@ == dotted_labels(s@),
    {
        let mut labels: Vec<Vec<u8>> = Vec::new();
        let mut cur: Vec<u8> = Vec::new();
        let mut i: usize = 0;
        while i < s.len()
            invariant
                i <= s.len(),
                labels@.map_values(|l: Vec<u8>| l@) == dotted_scan(s@.take(i as int)).0,
                cur@ == dotted_scan(s@.take(i as int)).1,
            decreases s.len() - i,
        {
            let b = s[i];
            proof {
                assert(s@.take(i + 1).drop_last() =~= s@.take(i as int));
                assert(s@.take(i + 1).last() == b);
            }
            if b == DOT {
                if cur.len() > 0 {
                    let ghost before = labels@;
                    labels.push(cur);
                    proof {
                        assert(labels@.map_values(|l: Vec<u8>| l@) =~= before.map_values(
                            |l: Vec<u8>| l@,
                        ).push(cur@));
                    }
                }
                cur = Vec::new();
                proof {
                    assert(cur@ =~= seq![]);
                }
            } else {
                cur.push(b);
            }
            i += 1;
        }
        assert(s@.take(i as int) =~= s@);
        if cur.len() > 0 {
            let ghost before = labels@;
            let ghost c = cur@;
            labels.push(cur);
            proof {
                assert(labels@.map_values(|l: Vec<u8>| l@) =~= before.map_values(
                    |l: Vec<u8>| l@,
                ).push(c));
            }
        }
        Name { labels }
    }

    /// A copy of the name.
    pub fn duplicate(&self) -> (r: Name)
        ensures
            r@ == self@,
    {
        let mut labels: Vec<Vec<u8>> = Vec::new();
        let mut i: usize = 0;
        while i < self.labels.len()
            invariant
                i <= self.labels.len(),
                labels@.map_values(|l: Vec<u8>| l@) == self@.take(i as int),
            decreases self.labels.len() - i,
        {
            let ghost before = labels@;
            labels.push(copy_bytes(&self.labels[i]));
            proof {
                assert(labels@.map_values(|l: Vec<u8>| l@) =~= before.map_values(
                    |l: Vec<u8>| l@,
                ).push(self@[i as int]));
                assert(self@.take(i + 1) =~= self@.take(i as int).push(self@[i as int]));
            }
            i += 1;
        }
        assert(self@.take(i as int) =~= self@);
        Name { labels }
    }

    /// Whether two names have the same labels.
    pub fn same(&self, other: &Name) -> (r: bool)
        ensures
            r == (self@ == other@),
    {
        if self.labels.len() != other.labels.len() {
            assert(self@.len() != other@.len());
            return false;
        }
        let mut i: usize = 0;
        while i < self.labels.len()
            invariant
                i <= self.labels.len(),
                self.labels.len() == other.labels.len(),
                self@.take(i as int) == other@.take(i as int),
            decreases self.labels.len() - i,
        {
            if !bytes_equal(&self.labels[i], &other.labels[i]) {
                assert(self@[i as int] != other@[i as int]);
                return false;
            }
            assert(self@.take(i + 1) =~= self@.take(i as int).push(self@[i as int]));
            assert(other@.take(i + 1) =~= other@.take(i as int).push(other@[i as int]));
            i += 1;
        }
        assert(self@ =~= self@.take(i as int));
        assert(other@ =~= other@.take(i as int));
        true
    }
}

} // verus!
