//! Big-endian longwords and the Amiga block checksum.

use vstd::prelude::*;

verus! {

/// The four bytes of `v`, most significant first.
pub open spec fn be_bytes(v: u32) -> Seq<u8> {
    seq![(v >> 24) as u8, (v >> 16) as u8, (v >> 8) as u8, v as u8]
}

/// The big-endian longword stored at byte offset `off` of `s`.
pub open spec fn be32_at(s: Seq<u8>, off: int) -> u32 {
    ((s[off] as u32) << 24u32) | ((s[off + 1] as u32) << 16u32) | ((s[off + 2] as u32) << 8u32)
        | (s[off + 3] as u32)
}

/// `s` with the big-endian bytes of `v` stored at byte offset `off`.
pub open spec fn with_be32(s: Seq<u8>, off: int, v: u32) -> Seq<u8> {
    let b = be_bytes(v);
    s.update(off, b[0]).update(off + 1, b[1]).update(off + 2, b[2]).update(off + 3, b[3])
}

/// A block of `n` zero bytes.
pub open spec fn zeros(n: nat) -> Seq<u8> {
    Seq::new(n, |i: int| 0u8)
}

/// `dst` with the bytes of `src` placed starting at offset `off` (bytes
/// of `src` that would fall beyond the end of `dst` are dropped).
pub open spec fn overwrite(dst: Seq<u8>, off: int, src: Seq<u8>) -> Seq<u8> {
    Seq::new(
        dst.len(),
        |i: int|
            if off <= i < off + src.len() {
                src[i - off]
            } else {
                dst[i]
            },
    )
}

/// Sum (as an unbounded integer) of the first `n` big-endian longwords of `s`.
pub open spec fn longword_sum(s: Seq<u8>, n: nat) -> int
    decreases n,
{
    if n == 0 {
        0
    } else {
        longword_sum(s, (n - 1) as nat) + be32_at(s, 4 * (n - 1))
    }
}

/// An Amiga block checksum holds: the block is a whole number of
/// longwords and they add up to zero modulo 2^32.
pub open spec fn checksum_ok(s: Seq<u8>) -> bool {
    &&& s.len() % 4 == 0
    &&& longword_sum(s, s.len() / 4) % 0x1_0000_0000 == 0
}

/// `block` is `fields` with its checksum longword (bytes 8..12) filled in
/// so that the checksum holds.
pub open spec fn checksummed_form_of(block: Seq<u8>, fields: Seq<u8>) -> bool {
    &&& block.len() == fields.len()
    &&& forall|i: int| 0 <= i < block.len() && !(8 <= i < 12) ==> block[i] == fields[i]
    &&& checksum_ok(block)
}

/// The four big-endian bytes of a longword read back as that longword.
pub proof fn lemma_be_bytes_roundtrip(v: u32)
    ensures
        be32_at(be_bytes(v), 0) == v,
{
    let b0 = (v >> 24) as u8;
    let b1 = (v >> 16) as u8;
    let b2 = (v >> 8) as u8;
    let b3 = v as u8;
    assert(((b0 as u32) << 24u32) | ((b1 as u32) << 16u32) | ((b2 as u32) << 8u32) | (b3 as u32)
        == v) by (bit_vector)
        requires
            b0 == (v >> 24) as u8,
            b1 == (v >> 16) as u8,
            b2 == (v >> 8) as u8,
            b3 == v as u8,
    ;
}

/// Reading back a longword that was just stored gives the stored value,
/// and every byte outside the four written ones is left as it was.
pub proof fn lemma_with_be32_read_back(s: Seq<u8>, off: int, v: u32)
    requires
        0 <= off,
        off + 4 <= s.len(),
    ensures
        with_be32(s, off, v).len() == s.len(),
        be32_at(with_be32(s, off, v), off) == v,
        forall|i: int|
            0 <= i < s.len() && !(off <= i < off + 4) ==> #[trigger] with_be32(s, off, v)[i]
                == s[i],
{
    lemma_be_bytes_roundtrip(v);
    let t = with_be32(s, off, v);
    assert(t[off] == be_bytes(v)[0]);
    assert(t[off + 1] == be_bytes(v)[1]);
    assert(t[off + 2] == be_bytes(v)[2]);
    assert(t[off + 3] == be_bytes(v)[3]);
}

/// Stores `val` big-endian at byte offset `off` of `buf`.
pub fn put_be(buf: &mut [u8], off: usize, val: u32)
    requires
        off + 4 <= old(buf)@.len(),
    ensures
        final(buf)@ == with_be32(old(buf)@, off as int, val),
{
    buf[off] = (val >> 24u32) as u8;
    buf[off + 1] = (val >> 16u32) as u8;
    buf[off + 2] = (val >> 8u32) as u8;
    buf[off + 3] = val as u8;
}


/// Changing only the longword at index `k` changes the sum of the first
/// `n` longwords by the difference of the old and new values of that
/// longword (and not at all when `k` lies beyond the first `n`).
pub proof fn lemma_longword_sum_frame(s: Seq<u8>, t: Seq<u8>, n: nat, k: int)
    requires
        s.len() == t.len(),
        4 * n <= s.len(),
        0 <= k,
        forall|i: int| 0 <= i < s.len() && !(4 * k <= i < 4 * k + 4) ==> s[i] == t[i],
    ensures
        k < n ==> longword_sum(t, n) == longword_sum(s, n) - be32_at(s, 4 * k) + be32_at(t, 4 * k),
        k >= n ==> longword_sum(t, n) == longword_sum(s, n),
    decreases n,
{
    if n > 0 {
        let j = n - 1;
        lemma_longword_sum_frame(s, t, j as nat, k);
        if j != k {
            assert(s[4 * j] == t[4 * j]);
            assert(s[4 * j + 1] == t[4 * j + 1]);
            assert(s[4 * j + 2] == t[4 * j + 2]);
            assert(s[4 * j + 3] == t[4 * j + 3]);
        }
    }
}

/// The checksummed form of a block is unique: two blocks that both are
/// `fields` with a valid checksum filled in are equal. Hence filling in
/// the checksum of a block whose checksum already holds changes nothing.
pub proof fn lemma_checksummed_form_unique(b1: Seq<u8>, b2: Seq<u8>, fields: Seq<u8>)
    requires
        checksummed_form_of(b1, fields),
        checksummed_form_of(b2, fields),
    ensures
        b1 == b2,
{
    if b1.len() < 12 {
        assert(b1 =~= b2);
    } else {
        let n = (b1.len() / 4) as nat;
        assert forall|i: int| 0 <= i < b1.len() && !(4 * 2 <= i < 4 * 2 + 4) implies b1[i] == b2[i] by {
            assert(b1[i] == fields[i]);
            assert(b2[i] == fields[i]);
        }
        lemma_longword_sum_frame(b1, b2, n, 2);
        let w1 = be32_at(b1, 8);
        let w2 = be32_at(b2, 8);
        let s1 = longword_sum(b1, n);
        assert(longword_sum(b2, n) == s1 - w1 + w2);
        vstd::arithmetic::div_mod::lemma_sub_mod_noop(s1 + w2, s1, 0x1_0000_0000);
        vstd::arithmetic::div_mod::lemma_sub_mod_noop(s1 + w1, s1, 0x1_0000_0000);
        vstd::arithmetic::div_mod::lemma_add_mod_noop(s1, w2 as int, 0x1_0000_0000);
        vstd::arithmetic::div_mod::lemma_add_mod_noop(s1, w1 as int, 0x1_0000_0000);
        vstd::arithmetic::div_mod::lemma_add_mod_noop(s1 - w1 + w2, w1 as int, 0x1_0000_0000);
        vstd::arithmetic::div_mod::lemma_small_mod(w1 as nat, 0x1_0000_0000);
        vstd::arithmetic::div_mod::lemma_small_mod(w2 as nat, 0x1_0000_0000);
        assert((s1 + w2) % 0x1_0000_0000 == (s1 + w1) % 0x1_0000_0000);
        vstd::arithmetic::div_mod::lemma_sub_mod_noop(s1 + w2, s1 + w1, 0x1_0000_0000);
        assert((w2 - w1) % 0x1_0000_0000 == 0);
        assert(w1 == w2);
        lemma_be32_bytes_determined(b1, b2, 8);
        assert(b1 =~= b2);
    }
}

/// Two byte sequences holding the same big-endian longword at `off` hold
/// the same four bytes there.
pub proof fn lemma_be32_bytes_determined(s: Seq<u8>, t: Seq<u8>, off: int)
    requires
        0 <= off,
        off + 4 <= s.len(),
        off + 4 <= t.len(),
        be32_at(s, off) == be32_at(t, off),
    ensures
        s[off] == t[off],
        s[off + 1] == t[off + 1],
        s[off + 2] == t[off + 2],
        s[off + 3] == t[off + 3],
{
    let (a0, a1, a2, a3) = (s[off], s[off + 1], s[off + 2], s[off + 3]);
    let (c0, c1, c2, c3) = (t[off], t[off + 1], t[off + 2], t[off + 3]);
    assert(a0 == c0 && a1 == c1 && a2 == c2 && a3 == c3) by (bit_vector)
        requires
            ((a0 as u32) << 24u32) | ((a1 as u32) << 16u32) | ((a2 as u32) << 8u32) | (a3 as u32)
                == ((c0 as u32) << 24u32) | ((c1 as u32) << 16u32) | ((c2 as u32) << 8u32) | (
            c3 as u32),
    ;
}

/// Reads the big-endian longword at byte offset `off` of `buf`.
fn read_be32(buf: &[u8], off: usize) -> (r: u32)
    requires
        off + 4 <= buf@.len(),
    ensures
        r == be32_at(buf@, off as int),
{
    ((buf[off] as u32) << 24u32) | ((buf[off + 1] as u32) << 16u32) | ((buf[off + 2] as u32)
        << 8u32) | (buf[off + 3] as u32)
}

/// Fixing the checksum of a block whose checksum was just fixed changes
/// nothing.
pub proof fn lemma_fix_checksum_idempotent(once: Seq<u8>, twice: Seq<u8>, orig: Seq<u8>)
    requires
        checksummed_form_of(once, orig),
        checksummed_form_of(twice, once),
    ensures
        twice == once,
{
    assert(checksummed_form_of(once, once));
    lemma_checksummed_form_unique(twice, once, once);
}

/// Fills in the checksum longword (bytes 8..12) of an Amiga block so that
/// all its longwords add up to zero modulo 2^32; no other byte changes.
pub fn fix_checksum(block: &mut [u8])
    requires
        old(block)@.len() >= 12,
        old(block)@.len() % 4 == 0,
    ensures
        checksummed_form_of(final(block)@, old(block)@),
{
    let ghost s0 = block@;
    put_be(block, 8, 0);
    proof {
        lemma_with_be32_read_back(s0, 8, 0);
    }
    let ghost s1 = block@;
    let len = block.len();
    let mut total: u32 = 0;
    let mut i: usize = 0;
    while i < len
        invariant
            len == block@.len(),
            len % 4 == 0,
            block@ == s1,
            i % 4 == 0,
            i <= len,
            total as int == longword_sum(s1, (i / 4) as nat) % 0x1_0000_0000,
        decreases len - i,
    {
        let w = read_be32(block, i);
        let ghost prev = longword_sum(s1, (i / 4) as nat);
        proof {
            assert(((i + 4) / 4) as nat == (i / 4) as nat + 1);
            assert(longword_sum(s1, ((i + 4) / 4) as nat) == prev + w);
            vstd::arithmetic::div_mod::lemma_add_mod_noop(prev, w as int, 0x1_0000_0000);
            vstd::arithmetic::div_mod::lemma_small_mod(w as nat, 0x1_0000_0000);
            vstd::arithmetic::div_mod::lemma_mod_bound(prev, 0x1_0000_0000);
            if total as int + w as int >= 0x1_0000_0000 {
                vstd::arithmetic::div_mod::lemma_mod_sub_multiples_vanish(
                    total as int + w as int,
                    0x1_0000_0000,
                );
                vstd::arithmetic::div_mod::lemma_small_mod(
                    (total as int + w as int - 0x1_0000_0000) as nat,
                    0x1_0000_0000,
                );
            } else {
                vstd::arithmetic::div_mod::lemma_small_mod(
                    (total as int + w as int) as nat,
                    0x1_0000_0000,
                );
            }
        }
        total = total.wrapping_add(w);
        i = i + 4;
    }
    let c = 0u32.wrapping_sub(total);
    put_be(block, 8, c);
    proof {
        let s2 = block@;
        lemma_with_be32_read_back(s1, 8, c);
        assert(i / 4 == len / 4);
        lemma_longword_sum_frame(s1, s2, (len / 4) as nat, 2);
        let sum1 = longword_sum(s1, (len / 4) as nat);
        assert(longword_sum(s2, (len / 4) as nat) == sum1 + c);
        vstd::arithmetic::div_mod::lemma_add_mod_noop(sum1, c as int, 0x1_0000_0000);
        vstd::arithmetic::div_mod::lemma_small_mod(c as nat, 0x1_0000_0000);
        if total == 0 {
            assert((total as int + c as int) % 0x1_0000_0000 == 0);
        } else {
            vstd::arithmetic::div_mod::lemma_mod_self_0(0x1_0000_0000);
            assert(total as int + c as int == 0x1_0000_0000);
        }
    }
}

/// Copies `src` into `dst` starting at byte `off`.
pub fn copy_into(dst: &mut [u8], off: usize, src: &[u8])
    requires
        off + src@.len() <= old(dst)@.len(),
    ensures
        final(dst)@ == overwrite(old(dst)@, off as int, src@),
{
    let ghost d0 = dst@;
    let n = src.len();
    let dl = dst.len();
    let mut k: usize = 0;
    while k < n
        invariant
            n == src@.len(),
            dl == dst@.len(),
            off + n <= d0.len(),
            dst@.len() == d0.len(),
            k <= n,
            forall|i: int|
                0 <= i < d0.len() ==> #[trigger] dst@[i] == if off <= i < off + k {
                    src@[i - off]
                } else {
                    d0[i]
                },
        decreases n - k,
    {
        dst[off + k] = src[k];
        k = k + 1;
    }
    assert(dst@ =~= overwrite(d0, off as int, src@));
}

} // verus!
