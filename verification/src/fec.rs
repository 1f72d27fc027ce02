//! Forward error correction by XOR parity over groups of consecutive audio
//! payloads: after every `group_size` payloads the encoder hands out one
//! parity payload, the XOR of the group's payloads, each zero-extended to
//! the longest, together with the XOR of the payloads' lengths. With
//! exactly one payload of a group lost, XOR-ing the parity with the others
//! gives its bytes back, and XOR-ing the length XOR with the others'
//! lengths gives its exact length, so no padding enters the stream.

use vstd::prelude::*;

verus! {

/// The byte at `i`, or zero past the end.
pub open spec fn byte_or_zero(s: Seq<u8>, i: int) -> u8 {
    if 0 <= i < s.len() {
        s[i]
    } else {
        0
    }
}

/// XOR of two payloads, the shorter zero-extended to the longer.
pub open spec fn xor_padded(a: Seq<u8>, b: Seq<u8>) -> Seq<u8> {
    let n = if a.len() >= b.len() {
        a.len()
    } else {
        b.len()
    };
    Seq::new(n, |i: int| byte_or_zero(a, i) ^ byte_or_zero(b, i))
}

/// The parity of a group of payloads.
pub open spec fn spec_parity(group: Seq<Seq<u8>>) -> Seq<u8>
    decreases group.len(),
{
    if group.len() == 0 {
        Seq::empty()
    } else {
        xor_padded(spec_parity(group.drop_last()), group.last())
    }
}

/// The XOR of the bytes at `i` of every payload of a group (zero past a
/// payload's end).
pub open spec fn xor_at(group: Seq<Seq<u8>>, i: int) -> u8
    decreases group.len(),
{
    if group.len() == 0 {
        0
    } else {
        xor_at(group.drop_last(), i) ^ byte_or_zero(group.last(), i)
    }
}

/// Byte `i` of a group's parity is the XOR of the payloads' bytes at `i`.
pub proof fn lemma_parity_bytes(group: Seq<Seq<u8>>, i: int)
    requires
        i >= 0,
    ensures
        byte_or_zero(spec_parity(group), i) == xor_at(group, i),
    decreases group.len(),
{
    if group.len() > 0 {
        lemma_parity_bytes(group.drop_last(), i);
        let a = spec_parity(group.drop_last());
        let b = group.last();
        if i >= a.len() && i >= b.len() {
            let z: u8 = 0;
            assert(z ^ z == 0) by (bit_vector);
        }
    }
}

/// Taking one payload out of a group takes its bytes out of the XOR.
proof fn lemma_xor_at_remove(group: Seq<Seq<u8>>, k: int, i: int)
    requires
        0 <= k < group.len(),
    ensures
        xor_at(group, i) == xor_at(group.remove(k), i) ^ byte_or_zero(group[k], i),
    decreases group.len(),
{
    if k == group.len() - 1 {
        assert(group.remove(k) =~= group.drop_last());
    } else {
        let d = group.drop_last();
        lemma_xor_at_remove(d, k, i);
        assert(d.remove(k) =~= group.remove(k).drop_last());
        assert(group.remove(k).last() == group.last());
        let x = xor_at(d.remove(k), i);
        let bk = byte_or_zero(group[k], i);
        let bl = byte_or_zero(group.last(), i);
        assert((x ^ bk) ^ bl == (x ^ bl) ^ bk) by (bit_vector);
    }
}

/// Recovery: with exactly one payload of a group lost, XOR-ing the group's
/// parity with the parity of the payloads that arrived gives the lost
/// payload back, byte for byte.
pub proof fn lemma_parity_recovers(group: Seq<Seq<u8>>, k: int, i: int)
    requires
        0 <= k < group.len(),
        0 <= i < group[k].len(),
    ensures
        group[k][i] == byte_or_zero(spec_parity(group), i) ^ byte_or_zero(
            spec_parity(group.remove(k)),
            i,
        ),
{
    lemma_parity_bytes(group, i);
    lemma_parity_bytes(group.remove(k), i);
    lemma_xor_at_remove(group, k, i);
    let y = xor_at(group.remove(k), i);
    let b = group[k][i];
    assert((y ^ b) ^ y == b) by (bit_vector);
}

/// A payload's length as the 16-bit `payload_len` of its header.
pub open spec fn wire_len(p: Seq<u8>) -> u16 {
    (p.len() % 0x1_0000) as u16
}

/// The XOR of the 16-bit lengths of a group's payloads.
pub open spec fn spec_len_xor(group: Seq<Seq<u8>>) -> u16
    decreases group.len(),
{
    if group.len() == 0 {
        0
    } else {
        spec_len_xor(group.drop_last()) ^ wire_len(group.last())
    }
}

/// Taking one payload out of a group takes its length out of the XOR.
proof fn lemma_len_xor_remove(group: Seq<Seq<u8>>, k: int)
    requires
        0 <= k < group.len(),
    ensures
        spec_len_xor(group) == spec_len_xor(group.remove(k)) ^ wire_len(group[k]),
    decreases group.len(),
{
    if k == group.len() - 1 {
        assert(group.remove(k) =~= group.drop_last());
    } else {
        let d = group.drop_last();
        lemma_len_xor_remove(d, k);
        assert(d.remove(k) =~= group.remove(k).drop_last());
        assert(group.remove(k).last() == group.last());
        let x = spec_len_xor(d.remove(k));
        let lk = wire_len(group[k]);
        let ll = wire_len(group.last());
        assert((x ^ lk) ^ ll == (x ^ ll) ^ lk) by (bit_vector);
    }
}

/// A group's parity is as long as its longest payload, so at least as long
/// as each.
proof fn lemma_parity_covers(group: Seq<Seq<u8>>, j: int)
    requires
        0 <= j < group.len(),
    ensures
        spec_parity(group).len() >= group[j].len(),
    decreases group.len(),
{
    if j < group.len() - 1 {
        lemma_parity_covers(group.drop_last(), j);
    }
}

/// Exact recovery: with exactly one payload of a group lost (one shorter
/// than 2^16 bytes, as every payload a header can describe), its length is
/// the group's length XOR combined with the lengths that arrived, and its
/// bytes are the first that many bytes of the group's parity XOR the
/// parity of the payloads that arrived.
pub proof fn lemma_exact_recovery(group: Seq<Seq<u8>>, k: int)
    requires
        0 <= k < group.len(),
        group[k].len() < 0x1_0000,
    ensures
        group[k].len() == (spec_len_xor(group) ^ spec_len_xor(group.remove(k))),
        group[k] == xor_padded(spec_parity(group), spec_parity(group.remove(k))).take(
            group[k].len() as int,
        ),
{
    lemma_len_xor_remove(group, k);
    let y = spec_len_xor(group.remove(k));
    let l = wire_len(group[k]);
    assert((y ^ l) ^ y == l) by (bit_vector);
    lemma_parity_covers(group, k);
    let r = xor_padded(spec_parity(group), spec_parity(group.remove(k)));
    assert forall|i: int| 0 <= i < group[k].len() implies r[i] == group[k][i] by {
        lemma_parity_recovers(group, k, i);
    }
    assert(group[k] =~= r.take(group[k].len() as int));
}

/// The parity of a completed group: its payload and the XOR of its
/// payloads' lengths.
pub struct FecParity {
    pub payload: Vec<u8>,
    pub len_xor: u16,
}

/// Accumulates the parity of the group in progress.
pub struct FecEncoder {
    group_size: u8,
    parity: Vec<u8>,
    len_xor: u16,
    count: u8,
    pending: Ghost<Seq<Seq<u8>>>,
}

impl FecEncoder {
    pub closed spec fn wf(&self) -> bool {
        &&& self.group_size >= 1
        &&& self.count as int == self.pending@.len()
        &&& self.count < self.group_size
        &&& self.parity@ == spec_parity(self.pending@)
        &&& self.len_xor == spec_len_xor(self.pending@)
    }

    /// Data payloads per parity payload.
    pub closed spec fn spec_group_size(&self) -> u8 {
        self.group_size
    }

    /// The payloads of the group in progress, in order.
    pub closed spec fn pending(&self) -> Seq<Seq<u8>> {
        self.pending@
    }

    /// A well-formed encoder's group in progress is shorter than a group.
    pub proof fn lemma_pending_short(&self)
        requires
            self.wf(),
        ensures
            self.pending().len() < self.spec_group_size(),
            self.spec_group_size() >= 1,
    {
    }

    pub fn new(group_size: u8) -> (e: Self)
        requires
            group_size >= 1,
        ensures
            e.wf(),
            e.spec_group_size() == group_size,
            e.pending() == Seq::<Seq<u8>>::empty(),
    {
        FecEncoder {
            group_size,
            parity: Vec::new(),
            len_xor: 0,
            count: 0,
            pending: Ghost(Seq::empty()),
        }
    }

    /// The XOR of the lengths of the group in progress.
    pub fn len_xor(&self) -> (x: u16)
        requires
            self.wf(),
        ensures
            x == spec_len_xor(self.pending()),
    {
        self.len_xor
    }

    pub fn group_size(&self) -> (g: u8)
        ensures
            g == self.spec_group_size(),
    {
        self.group_size
    }

    /// Adds one data payload to the group. When that completes the group,
    /// returns the group's parity and length XOR and starts a new group.
    pub fn feed(&mut self, payload: &[u8]) -> (r: Option<FecParity>)
        requires
            old(self).wf(),
        ensures
            final(self).wf(),
            final(self).spec_group_size() == old(self).spec_group_size(),
            old(self).pending().len() + 1 == old(self).spec_group_size() ==> {
                &&& r matches Some(p)
                &&& p.payload@ == spec_parity(old(self).pending().push(payload@))
                &&& p.len_xor == spec_len_xor(old(self).pending().push(payload@))
                &&& final(self).pending() == Seq::<Seq<u8>>::empty()
            },
            old(self).pending().len() + 1 < old(self).spec_group_size() ==> {
                &&& r is None
                &&& final(self).pending() == old(self).pending().push(payload@)
            },
    {
        let ghost g = self.pending@.push(payload@);
        assert(g.drop_last() =~= self.pending@);
        let next = xor_into(&self.parity, payload);
        let next_len = self.len_xor ^ ((payload.len() % 0x1_0000) as u16);
        if self.count + 1 == self.group_size {
            self.parity = Vec::new();
            self.len_xor = 0;
            self.count = 0;
            self.pending = Ghost(Seq::empty());
            Some(FecParity { payload: next, len_xor: next_len })
        } else {
            self.parity = next;
            self.len_xor = next_len;
            self.count = self.count + 1;
            self.pending = Ghost(g);
            None
        }
    }
}

/// `a` XOR `b`, the shorter zero-extended.
fn xor_into(a: &Vec<u8>, b: &[u8]) -> (r: Vec<u8>)
    ensures
        r@ == xor_padded(a@, b@),
{
    let n = if a.len() >= b.len() {
        a.len()
    } else {
        b.len()
    };
    let mut r: Vec<u8> = Vec::new();
    let mut i: usize = 0;
    while i < n
        invariant
            i <= n,
            n == (if a@.len() >= b@.len() {
                a@.len()
            } else {
                b@.len()
            }),
            r@.len() == i,
            forall|j: int| 0 <= j < i ==> r@[j] == byte_or_zero(a@, j) ^ byte_or_zero(b@, j),
        decreases n - i,
    {
        let x: u8 = if i < a.len() {
            a[i]
        } else {
            0
        };
        let y: u8 = if i < b.len() {
            b[i]
        } else {
            0
        };
        r.push(x ^ y);
        i = i + 1;
    }
    assert(r@ =~= xor_padded(a@, b@));
    r
}

} // verus!
