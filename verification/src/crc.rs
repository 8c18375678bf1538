//! CRC-16/Modbus: reflected polynomial 0xA001, initial value 0xFFFF, no
//! final xor. The checksum guards every RTU frame on the wire.

use vstd::prelude::*;

verus! {

/// One bit step of the CRC register: shift right, and fold the
/// polynomial in when the bit shifted out was set.
pub open spec fn crc16_step(crc: u16) -> u16 {
    if crc & 1 == 1 {
        (crc >> 1) ^ 0xA001
    } else {
        crc >> 1
    }
}

/// `k` bit steps applied to `crc`.
pub open spec fn crc16_steps(crc: u16, k: nat) -> u16
    decreases k,
{
    if k == 0 {
        crc
    } else {
        crc16_step(crc16_steps(crc, (k - 1) as nat))
    }
}

/// Folding one byte into the running CRC: xor into the low byte, then
/// eight bit steps.
pub open spec fn crc16_byte(crc: u16, b: u8) -> u16 {
    crc16_steps(crc ^ (b as u16), 8)
}

/// Folding a whole byte sequence into the running CRC, left to right.
pub open spec fn crc16_from(crc: u16, s: Seq<u8>) -> u16
    decreases s.len(),
{
    if s.len() == 0 {
        crc
    } else {
        crc16_from(crc16_byte(crc, s[0]), s.skip(1))
    }
}

/// CRC-16/Modbus of a byte sequence.
pub open spec fn crc16_of(s: Seq<u8>) -> u16 {
    crc16_from(0xFFFF, s)
}

/// Computes CRC-16/Modbus over `data`.
pub fn crc16(data: &Vec<u8>) -> (r: u16)
    ensures
        r == crc16_of(data@),
{
    let mut crc: u16 = 0xFFFF;
    let mut i: usize = 0;
    proof {
        assert(data@.skip(0) =~= data@);
    }
    while i < data.len()
        invariant
            i <= data.len(),
            crc16_from(crc, data@.skip(i as int)) == crc16_of(data@),
        decreases data.len() - i,
    {
        proof {
            assert(data@.skip(i as int)[0] == data@[i as int]);
            assert(data@.skip(i as int).skip(1) =~= data@.skip(i as int + 1));
        }
        crc = crc ^ (data[i] as u16);
        let ghost c0: u16 = crc;
        let mut j: usize = 0;
        while j < 8
            invariant
                j <= 8,
                crc == crc16_steps(c0, j as nat),
            decreases 8 - j,
        {
            if crc & 1 == 1 {
                crc = (crc >> 1) ^ 0xA001;
            } else {
                crc = crc >> 1;
            }
            j = j + 1;
        }
        i = i + 1;
    }
    proof {
        assert(data@.skip(data.len() as int) =~= Seq::<u8>::empty());
    }
    crc
}

/// One bit step loses no information: the bit shifted out reappears as
/// the top bit of the polynomial xor.
proof fn lemma_crc16_step_injective(c1: u16, c2: u16)
    requires
        crc16_step(c1) == crc16_step(c2),
    ensures
        c1 == c2,
{
    assert(c1 == c2) by (bit_vector)
        requires
            (if c1 & 1 == 1 {
                (c1 >> 1) ^ 0xA001u16
            } else {
                c1 >> 1
            }) == (if c2 & 1 == 1 {
                (c2 >> 1) ^ 0xA001u16
            } else {
                c2 >> 1
            }),
    ;
}

/// Any number of bit steps is injective in the starting register.
proof fn lemma_crc16_steps_injective(c1: u16, c2: u16, k: nat)
    requires
        crc16_steps(c1, k) == crc16_steps(c2, k),
    ensures
        c1 == c2,
    decreases k,
{
    if k > 0 {
        lemma_crc16_step_injective(crc16_steps(c1, (k - 1) as nat), crc16_steps(c2, (k - 1) as nat));
        lemma_crc16_steps_injective(c1, c2, (k - 1) as nat);
    }
}

/// Folding one byte is injective in the pair of register and byte.
proof fn lemma_crc16_byte_injective(c1: u16, c2: u16, b1: u8, b2: u8)
    requires
        crc16_byte(c1, b1) == crc16_byte(c2, b2),
    ensures
        c1 ^ (b1 as u16) == c2 ^ (b2 as u16),
        b1 == b2 ==> c1 == c2,
        c1 == c2 ==> b1 == b2,
{
    lemma_crc16_steps_injective(c1 ^ (b1 as u16), c2 ^ (b2 as u16), 8);
    assert((b1 == b2 ==> c1 == c2) && (c1 == c2 ==> b1 == b2)) by (bit_vector)
        requires
            c1 ^ (b1 as u16) == c2 ^ (b2 as u16),
    ;
}

/// Folding a byte sequence is injective in the starting register.
proof fn lemma_crc16_from_injective(c1: u16, c2: u16, s: Seq<u8>)
    requires
        crc16_from(c1, s) == crc16_from(c2, s),
    ensures
        c1 == c2,
    decreases s.len(),
{
    if s.len() > 0 {
        lemma_crc16_from_injective(crc16_byte(c1, s[0]), crc16_byte(c2, s[0]), s.skip(1));
        lemma_crc16_byte_injective(c1, c2, s[0], s[0]);
    }
}

/// The CRC of a concatenation is the CRC of the tail started from the
/// CRC of the head.
proof fn lemma_crc16_from_append(c: u16, a: Seq<u8>, b: Seq<u8>)
    ensures
        crc16_from(c, a + b) == crc16_from(crc16_from(c, a), b),
    decreases a.len(),
{
    if a.len() == 0 {
        assert(a + b =~= b);
    } else {
        assert((a + b)[0] == a[0]);
        assert((a + b).skip(1) =~= a.skip(1) + b);
        lemma_crc16_from_append(crc16_byte(c, a[0]), a.skip(1), b);
    }
}

/// CRC-16/Modbus detects every error confined to a single byte: two
/// sequences of the same length that differ in exactly one byte — a
/// single flipped bit included — never share a CRC.
pub proof fn lemma_crc16_detects_byte_change(s1: Seq<u8>, s2: Seq<u8>, i: int)
    requires
        s1.len() == s2.len(),
        0 <= i < s1.len(),
        s1[i] != s2[i],
        forall|j: int| 0 <= j < s1.len() && j != i ==> s1[j] == s2[j],
    ensures
        crc16_of(s1) != crc16_of(s2),
{
    let head1 = s1.take(i);
    let head2 = s2.take(i);
    assert(head1 =~= head2);
    let c = crc16_from(0xFFFF, head1);
    assert(s1 =~= head1 + s1.skip(i));
    assert(s2 =~= head2 + s2.skip(i));
    lemma_crc16_from_append(0xFFFF, head1, s1.skip(i));
    lemma_crc16_from_append(0xFFFF, head2, s2.skip(i));
    assert(s1.skip(i)[0] == s1[i]);
    assert(s2.skip(i)[0] == s2[i]);
    assert(s1.skip(i).skip(1) =~= s1.skip(i + 1));
    assert(s2.skip(i).skip(1) =~= s2.skip(i + 1));
    assert(s1.skip(i + 1) =~= s2.skip(i + 1));
    let d1 = crc16_byte(c, s1[i]);
    let d2 = crc16_byte(c, s2[i]);
    assert(crc16_of(s1) == crc16_from(d1, s1.skip(i + 1)));
    assert(crc16_of(s2) == crc16_from(d2, s1.skip(i + 1)));
    if crc16_of(s1) == crc16_of(s2) {
        lemma_crc16_from_injective(d1, d2, s1.skip(i + 1));
        lemma_crc16_byte_injective(c, c, s1[i], s2[i]);
        assert(false);
    }
}

} // verus!
