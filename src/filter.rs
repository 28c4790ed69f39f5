use vstd::prelude::*;

verus! {

/// A prime just below 2^32; every hash value is reduced modulo it.
pub const HASH_MODULUS: u64 = 4294967291;

/// Number of bit positions probed for each id.
pub const PROBES: u64 = 7;

/// Bits allotted per expected id.
pub const BITS_PER_ID: u64 = 10;

/// Fewest bits a filter is ever given.
pub const MIN_BITS: u64 = 64;

/// Largest expected cardinality a filter is sized for; larger requests are clamped.
pub const MAX_CAPACITY: u64 = 0x1_0000_0000;

/// Polynomial rolling hash of a byte string, reduced modulo `HASH_MODULUS`.
pub open spec fn poly_hash(s: Seq<u8>, mult: nat, seed: nat) -> nat
    decreases s.len(),
{
    if s.len() == 0 {
        seed % (HASH_MODULUS as nat)
    } else {
        ((poly_hash(s.drop_last(), mult, seed) * mult + s.last() as nat) % (HASH_MODULUS as nat)) as nat
    }
}

/// First hash of an id.
pub open spec fn hash_a(s: Seq<u8>) -> nat {
    poly_hash(s, 31, 17)
}

/// Second hash of an id, never zero, used as the probe stride.
pub open spec fn hash_b(s: Seq<u8>) -> nat {
    poly_hash(s, 257, 5381) + 1
}

/// The bit position of the `i`-th probe of `s` in a filter of `m` bits.
pub open spec fn probe(s: Seq<u8>, i: nat, m: nat) -> nat
    recommends
        m > 0,
{
    ((hash_a(s) + i * hash_b(s)) % m) as nat
}

/// Number of bits of a filter sized for `capacity` ids.
pub open spec fn bits_for(capacity: nat) -> nat {
    let c = if capacity > MAX_CAPACITY { MAX_CAPACITY as nat } else { capacity };
    if c * BITS_PER_ID < MIN_BITS {
        MIN_BITS as nat
    } else {
        (c * BITS_PER_ID) as nat
    }
}

fn hash_bytes(s: &[u8], mult: u64, seed: u64) -> (r: u64)
    requires
        mult <= 1024,
    ensures
        r as nat == poly_hash(s@, mult as nat, seed as nat),
        r < HASH_MODULUS,
{
    let mut h: u64 = seed % HASH_MODULUS;
    let mut i: usize = 0;
    assert(s@.subrange(0, 0).len() == 0);
    while i < s.len()
        invariant
            0 <= i <= s@.len(),
            mult <= 1024,
            h < HASH_MODULUS,
            h as nat == poly_hash(s@.subrange(0, i as int), mult as nat, seed as nat),
        decreases s@.len() - i,
    {
        let prefix = Ghost(s@.subrange(0, i as int));
        assert(h * mult <= 4294967291 * 1024) by (nonlinear_arith)
            requires
                h < 4294967291,
                mult <= 1024,
        ;
        h = (h * mult + s[i] as u64) % HASH_MODULUS;
        i = i + 1;
        assert(s@.subrange(0, i as int).drop_last() =~= prefix@);
    }
    assert(s@.subrange(0, s@.len() as int) =~= s@);
    h
}

/// Space-bounded membership structure with one-sided error: an id that was
/// inserted is always reported as possibly present; an id that was not may be
/// reported either way.
pub struct ProbabilisticFilter {
    bits: Vec<bool>,
    count: u64,
    inserted: Ghost<Set<Seq<u8>>>,
}

impl ProbabilisticFilter {
    /// The ids inserted so far.
    pub closed spec fn inserted(&self) -> Set<Seq<u8>> {
        self.inserted@
    }

    /// Number of bits of the filter.
    pub closed spec fn num_bits(&self) -> nat {
        self.bits@.len()
    }

    /// Number of insertions made (saturating).
    pub closed spec fn insert_count(&self) -> nat {
        self.count as nat
    }

    /// Whether every probe position of `s` is set.
    pub closed spec fn may_hold(&self, s: Seq<u8>) -> bool {
        forall|i: nat| i < PROBES ==> #[trigger] self.bits@[probe(s, i, self.bits@.len()) as int]
    }

    pub closed spec fn wf(&self) -> bool {
        &&& self.bits@.len() > 0
        &&& self.bits@.len() <= MAX_CAPACITY * BITS_PER_ID
        &&& forall|x: Seq<u8>| self.inserted@.contains(x) ==> #[trigger] self.may_hold(x)
    }

    /// No false negatives: an id that was inserted is always reported as
    /// possibly present, however full the filter is.
    pub proof fn lemma_no_false_negative(&self, id: Seq<u8>)
        requires
            self.wf(),
            self.inserted().contains(id),
        ensures
            self.may_hold(id),
    {
    }

    /// Creates an empty filter sized for `capacity` ids.
    pub fn new(capacity: usize) -> (r: Self)
        ensures
            r.wf(),
            r.inserted() == Set::<Seq<u8>>::empty(),
            r.num_bits() == bits_for(capacity as nat),
            r.insert_count() == 0,
    {
        let c: u64 = if capacity as u64 > MAX_CAPACITY { MAX_CAPACITY } else { capacity as u64 };
        let m: u64 = if c * BITS_PER_ID < MIN_BITS { MIN_BITS } else { c * BITS_PER_ID };
        let mut bits: Vec<bool> = Vec::new();
        let mut i: u64 = 0;
        while i < m
            invariant
                0 <= i <= m,
                bits@.len() == i,
            decreases m - i,
        {
            bits.push(false);
            i = i + 1;
        }
        ProbabilisticFilter { bits, count: 0, inserted: Ghost(Set::empty()) }
    }

    fn probe_at(&self, a: u64, b: u64, i: u64) -> (r: usize)
        requires
            self.bits@.len() > 0,
            self.bits@.len() <= MAX_CAPACITY * BITS_PER_ID,
            a < HASH_MODULUS,
            b <= HASH_MODULUS,
            i < PROBES,
        ensures
            r as nat == ((a + i * b) % (self.bits@.len() as int)) as nat,
            r < self.bits@.len(),
    {
        assert(i * b <= 7 * 4294967291) by (nonlinear_arith)
            requires
                i < 7,
                b <= 4294967291,
        ;
        let m = self.bits.len() as u64;
        ((a + i * b) % m) as usize
    }

    /// Reports whether `id` may have been inserted. `false` means it certainly was not.
    pub fn may_contain(&self, id: &[u8]) -> (r: bool)
        requires
            self.wf(),
        ensures
            r == self.may_hold(id@),
            self.inserted().contains(id@) ==> r,
    {
        let a = hash_bytes(id, 31, 17);
        let b = hash_bytes(id, 257, 5381) + 1;
        let mut i: u64 = 0;
        while i < PROBES
            invariant
                self.wf(),
                a as nat == hash_a(id@),
                b as nat == hash_b(id@),
                a < HASH_MODULUS,
                b <= HASH_MODULUS,
                0 <= i <= PROBES,
                forall|j: nat| j < i ==> #[trigger] self.bits@[probe(id@, j, self.bits@.len()) as int],
            decreases PROBES - i,
        {
            let p = self.probe_at(a, b, i);
            if !self.bits[p] {
                assert(!self.bits@[probe(id@, i as nat, self.bits@.len()) as int]);
                return false;
            }
            i = i + 1;
        }
        true
    }

    /// Records `id`; afterwards it is always reported as possibly present.
    pub fn insert(&mut self, id: &[u8])
        requires
            old(self).wf(),
        ensures
            final(self).wf(),
            final(self).inserted() == old(self).inserted().insert(id@),
            final(self).num_bits() == old(self).num_bits(),
            final(self).insert_count() == crate::dedup::saturating_inc(old(self).insert_count()),
            final(self).may_hold(id@),
    {
        let a = hash_bytes(id, 31, 17);
        let b = hash_bytes(id, 257, 5381) + 1;
        let ghost old_bits = self.bits@;
        let mut i: u64 = 0;
        while i < PROBES
            invariant
                self.bits@.len() == old_bits.len(),
                self.bits@.len() > 0,
                self.bits@.len() <= MAX_CAPACITY * BITS_PER_ID,
                a as nat == hash_a(id@),
                b as nat == hash_b(id@),
                a < HASH_MODULUS,
                b <= HASH_MODULUS,
                0 <= i <= PROBES,
                forall|k: int| 0 <= k < old_bits.len() && old_bits[k] ==> self.bits@[k],
                forall|j: nat| j < i ==> #[trigger] self.bits@[probe(id@, j, self.bits@.len()) as int],
                self.inserted == old(self).inserted,
                self.count == old(self).count,
            decreases PROBES - i,
        {
            let p = self.probe_at(a, b, i);
            self.bits.set(p, true);
            i = i + 1;
        }
        let ghost old_set = self.inserted@;
        self.inserted = Ghost(old_set.insert(id@));
        proof {
            let new_bits = self.bits@;
            assert(self.may_hold(id@));
            assert forall|x: Seq<u8>| #[trigger] self.inserted@.contains(x) implies self.may_hold(x) by {
                if x != id@ {
                    assert(old_set.contains(x));
                    assert(old(self).may_hold(x));
                    assert forall|j: nat| j < PROBES implies #[trigger] new_bits[probe(x, j, new_bits.len()) as int] by {
                        assert(old_bits[probe(x, j, old_bits.len()) as int]);
                    }
                }
            }
        }
        if self.count < u64::MAX {
            self.count = self.count + 1;
        }
    }

    /// Number of insertions made, saturating at `u64::MAX`.
    pub fn len(&self) -> (r: u64)
        ensures
            r as nat == self.insert_count(),
    {
        self.count
    }
}

} // verus!
