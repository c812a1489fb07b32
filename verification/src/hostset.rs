//! A set of host names, hashed by a polynomial hash of their characters so
//! that a lookup only compares against the few entries that share it.
use vstd::prelude::*;
use std::collections::HashMap;
use crate::text::{chars_eq, chars_of, string_of};

verus! {

broadcast use vstd::std_specs::hash::group_hash_axioms;

/// The modulus of the polynomial hash (a prime below 2^30).
pub const HASH_MODULUS: u64 = 1_000_000_007;

/// The hash of a host name: its characters read as the digits of a number
/// in base 31, modulo `HASH_MODULUS`.
pub open spec fn host_hash(s: Seq<char>) -> u64
    decreases s.len(),
{
    if s.len() == 0 {
        0
    } else {
        ((host_hash(s.drop_last()) as int * 31 + (s.last() as u32) as int)
            % HASH_MODULUS as int) as u64
    }
}

proof fn lemma_host_hash_bound(s: Seq<char>)
    ensures
        host_hash(s) < HASH_MODULUS,
    decreases s.len(),
{
    if s.len() > 0 {
        lemma_host_hash_bound(s.drop_last());
    }
}

/// Computes `host_hash`.
pub fn hash_chars(cs: &[char]) -> (h: u64)
    ensures
        h == host_hash(cs@),
        h < HASH_MODULUS,
{
    let mut h: u64 = 0;
    let mut i: usize = 0;
    while i < cs.len()
        invariant
            i <= cs@.len(),
            h == host_hash(cs@.take(i as int)),
            h < HASH_MODULUS,
        decreases cs@.len() - i,
    {
        let c = cs[i] as u32;
        proof {
            assert(cs@.take(i + 1).drop_last() == cs@.take(i as int));
            assert(cs@.take(i + 1).last() == cs@[i as int]);
        }
        h = (h * 31 + c as u64) % HASH_MODULUS;
        i = i + 1;
    }
    assert(cs@.take(cs@.len() as int) == cs@);
    h
}

/// A set of host names. `items` holds each member once; `buckets` maps a
/// hash to the positions in `items` of the members with that hash.
pub struct HostSet {
    items: Vec<Vec<char>>,
    buckets: HashMap<u64, Vec<usize>>,
}

impl View for HostSet {
    type V = Set<Seq<char>>;

    /// The set of host names held.
    closed spec fn view(&self) -> Set<Seq<char>> {
        self.members().to_set()
    }
}

impl HostSet {
    /// The members, in the order they were first inserted.
    pub closed spec fn members(&self) -> Seq<Seq<char>> {
        self.items@.map_values(|v: Vec<char>| v@)
    }

    /// The internal invariant: no member twice, and the buckets index
    /// exactly the members by their hash.
    pub closed spec fn wf(&self) -> bool {
        &&& self.members().no_duplicates()
        &&& forall|i: int|
            0 <= i < self.items@.len() ==> {
                let k = host_hash(#[trigger] self.members()[i]);
                &&& self.buckets@.contains_key(k)
                &&& self.buckets@[k]@.contains(i as usize)
            }
        &&& forall|k: u64, j: int|
            #![trigger self.buckets@[k]@[j]]
            self.buckets@.contains_key(k) && 0 <= j < self.buckets@[k]@.len() ==> {
                &&& self.buckets@[k]@[j] < self.items@.len()
                &&& host_hash(self.members()[self.buckets@[k]@[j] as int]) == k
            }
    }

    /// The number of members is the size of the set.
    proof fn lemma_len(&self)
        requires
            self.wf(),
        ensures
            self@.finite(),
            self@.len() == self.items@.len(),
    {
        broadcast use vstd::seq_lib::seq_to_set_is_finite;

        self.members().unique_seq_to_set();
    }

    /// An empty set.
    pub fn new() -> (s: Self)
        ensures
            s.wf(),
            s@ == Set::<Seq<char>>::empty(),
    {
        let s = HostSet { items: Vec::new(), buckets: HashMap::new() };
        assert(s.members() == Seq::<Seq<char>>::empty());
        assert(s@ =~= Set::<Seq<char>>::empty());
        s
    }

    /// The number of host names held.
    pub fn len(&self) -> (n: usize)
        requires
            self.wf(),
        ensures
            n == self@.len(),
    {
        proof {
            self.lemma_len();
        }
        self.items.len()
    }

    /// Whether the host name `q` is a member.
    pub fn contains_chars(&self, q: &[char]) -> (r: bool)
        requires
            self.wf(),
        ensures
            r == self@.contains(q@),
    {
        let h = hash_chars(q);
        let ghost n = self.items.len();
        match self.buckets.get(&h) {
            Some(bucket) => {
                let mut j: usize = 0;
                while j < bucket.len()
                    invariant
                        self.wf(),
                        self.buckets@.contains_key(h),
                        *bucket == self.buckets@[h],
                        h == host_hash(q@),
                        j <= bucket@.len(),
                        forall|m: int| 0 <= m < j ==> self.members()[bucket@[m] as int] != q@,
                    decreases bucket@.len() - j,
                {
                    let idx = bucket[j];
                    assert(self.buckets@[h]@[j as int] == idx);
                    if chars_eq(self.items[idx].as_slice(), q) {
                        assert(self.members()[idx as int] == q@);
                        assert(self@.contains(q@));
                        return true;
                    }
                    j = j + 1;
                }
                proof {
                    if self@.contains(q@) {
                        assert(self.members().contains(q@));
                        let i = choose|i: int| 0 <= i < self.members().len() && self.members()[i] == q@;
                        assert(host_hash(self.members()[i]) == h);
                        assert(self.members().len() == self.items@.len());
                        assert(self.buckets@[h]@.contains(i as usize));
                        let m = choose|m: int| 0 <= m < bucket@.len() && bucket@[m] == i as usize;
                        assert(self.members()[bucket@[m] as int] != q@);
                    }
                }
                false
            },
            None => {
                proof {
                    if self@.contains(q@) {
                        let i = choose|i: int| 0 <= i < self.members().len() && self.members()[i] == q@;
                        assert(self.buckets@.contains_key(host_hash(self.members()[i])));
                    }
                }
                false
            },
        }
    }

    /// Whether the host name `q` is a member.
    pub fn contains(&self, q: &str) -> (r: bool)
        requires
            self.wf(),
        ensures
            r == self@.contains(q@),
    {
        let cs = chars_of(q);
        self.contains_chars(cs.as_slice())
    }

    /// Adds `v`; returns whether it was not already a member.
    pub fn insert_chars(&mut self, v: Vec<char>) -> (added: bool)
        requires
            old(self).wf(),
        ensures
            final(self).wf(),
            final(self)@ == old(self)@.insert(v@),
            added == !old(self)@.contains(v@),
    {
        if self.contains_chars(v.as_slice()) {
            assert(self@.insert(v@) =~= self@);
            return false;
        }
        let h = hash_chars(v.as_slice());
        let n = self.items.len();
        let ghost old_items = self.items@;
        let ghost old_members = self.members();
        let ghost old_buckets = self.buckets@;
        let mut bucket = match self.buckets.remove(&h) {
            Some(b) => b,
            None => Vec::new(),
        };
        let ghost old_bucket = bucket@;
        assert(old_buckets.contains_key(h) ==> old_bucket == old_buckets[h]@);
        assert(!old_buckets.contains_key(h) ==> old_bucket.len() == 0);
        bucket.push(n);
        self.buckets.insert(h, bucket);
        self.items.push(v);
        proof {
            assert(self.members() =~= old_members.push(v@));
            assert(!old_members.contains(v@));
            assert forall|i: int| 0 <= i < self.items@.len() implies {
                let k = host_hash(#[trigger] self.members()[i]);
                &&& self.buckets@.contains_key(k)
                &&& self.buckets@[k]@.contains(i as usize)
            } by {
                if i < n {
                    assert(self.members()[i] == old_members[i]);
                    let k = host_hash(old_members[i]);
                    if k == h {
                        let m = choose|m: int|
                            0 <= m < old_buckets[k]@.len() && old_buckets[k]@[m] == i as usize;
                        assert(self.buckets@[k]@[m] == i as usize);
                    } else {
                        assert(self.buckets@[k] == old_buckets[k]);
                    }
                } else {
                    assert(self.buckets@[h]@[old_bucket.len() as int] == n);
                }
            }
            assert forall|k: u64, j: int|
                self.buckets@.contains_key(k) && 0 <= j < self.buckets@[k]@.len() implies {
                &&& #[trigger] self.buckets@[k]@[j] < self.items@.len()
                &&& host_hash(self.members()[self.buckets@[k]@[j] as int]) == k
            } by {
                if k == h {
                    if j < old_bucket.len() {
                        assert(self.buckets@[k]@[j] == old_buckets[k]@[j]);
                        let idx = old_buckets[k]@[j];
                        assert(self.members()[idx as int] == old_members[idx as int]);
                    }
                } else {
                    assert(self.buckets@[k] == old_buckets[k]);
                    let idx = old_buckets[k]@[j];
                    assert(self.members()[idx as int] == old_members[idx as int]);
                }
            }
            assert(self@ =~= old_members.to_set().insert(v@)) by {
                assert forall|x: Seq<char>| self@.contains(x) <==> old_members.to_set().insert(
                    v@,
                ).contains(x) by {
                    if self@.contains(x) {
                        let i = choose|i: int| 0 <= i < self.members().len() && self.members()[i] == x;
                        if i < n {
                            assert(old_members[i] == x);
                        }
                    }
                    if old_members.to_set().contains(x) {
                        let i = choose|i: int| 0 <= i < old_members.len() && old_members[i] == x;
                        assert(self.members()[i] == x);
                    }
                    if x == v@ {
                        assert(self.members()[n as int] == x);
                    }
                }
            }
        }
        true
    }

    /// Adds the host name `s`; returns whether it was not already a member.
    pub fn insert(&mut self, s: &str) -> (added: bool)
        requires
            old(self).wf(),
        ensures
            final(self).wf(),
            final(self)@ == old(self)@.insert(s@),
            added == !old(self)@.contains(s@),
    {
        let v = chars_of(s);
        self.insert_chars(v)
    }

    /// The members as strings, in the order they were first inserted.
    pub fn to_strings(&self) -> (r: Vec<String>)
        requires
            self.wf(),
        ensures
            r@.len() == self@.len(),
            forall|i: int| 0 <= i < r@.len() ==> self@.contains((#[trigger] r@[i])@),
            forall|x: Seq<char>| #[trigger]
                self@.contains(x) ==> exists|i: int| 0 <= i < r@.len() && r@[i]@ == x,
            forall|i: int, j: int| 0 <= i < j < r@.len() ==> r@[i]@ != r@[j]@,
    {
        proof {
            self.lemma_len();
        }
        let mut r: Vec<String> = Vec::new();
        let mut i: usize = 0;
        while i < self.items.len()
            invariant
                self.wf(),
                i <= self.items@.len(),
                r@.len() == i,
                forall|m: int| 0 <= m < i ==> (#[trigger] r@[m])@ == self.members()[m],
            decreases self.items@.len() - i,
        {
            r.push(string_of(self.items[i].as_slice()));
            i = i + 1;
        }
        proof {
            assert forall|m: int| 0 <= m < r@.len() implies self@.contains(
                (#[trigger] r@[m])@,
            ) by {
                assert(self.members()[m] == r@[m]@);
            }
            assert forall|x: Seq<char>| #[trigger]
                self@.contains(x) implies exists|m: int| 0 <= m < r@.len() && r@[m]@ == x by {
                let m = choose|m: int| 0 <= m < self.members().len() && self.members()[m] == x;
                assert(r@[m]@ == x);
            }
            assert forall|a: int, b: int| 0 <= a < b < r@.len() implies r@[a]@ != r@[b]@ by {
                assert(self.members()[a] != self.members()[b]);
            }
        }
        r
    }
}

} // verus!
