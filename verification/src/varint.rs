//! SQLite's variable-length integer encoding ("varint"): 1 to 9 bytes,
//! most-significant byte first. For each of the first 8 bytes the high bit
//! is a continuation flag and the low 7 bits contribute to the value; a 9th
//! byte, when reached, contributes all 8 of its bits, so a full 64-bit value
//! is representable.

use vstd::prelude::*;

use crate::cell::DecodeError;

verus! {

/// Position one past the last byte a decode starting at `i` consumes.
/// Meaningful when `varint_complete_from(s, i)` holds.
pub open spec fn varint_len_from(s: Seq<u8>, i: int) -> int
    decreases 9 - i,
{
    if i >= 8 {
        9
    } else if i >= s.len() {
        i
    } else if s[i] < 128 {
        i + 1
    } else {
        varint_len_from(s, i + 1)
    }
}

/// Number of bytes one decode of `s` consumes.
pub open spec fn varint_len_of(s: Seq<u8>) -> int {
    varint_len_from(s, 0)
}

/// Whether a whole varint lies within `s`, the decode having reached byte
/// `i` with every earlier byte a continuation: either one of the first 8
/// bytes has its high bit clear, or 9 bytes are available.
pub open spec fn varint_complete_from(s: Seq<u8>, i: int) -> bool
    decreases 9 - i,
{
    if i >= 8 {
        s.len() >= 9
    } else if i >= s.len() {
        false
    } else if s[i] < 128 {
        true
    } else {
        varint_complete_from(s, i + 1)
    }
}

/// Whether a whole varint lies at the start of `s`.
pub open spec fn varint_complete(s: Seq<u8>) -> bool {
    varint_complete_from(s, 0)
}

/// The decoded value, continued from byte `i` with `acc` the value of the
/// bytes before `i`: 7 bits per byte, all 8 of the 9th.
pub open spec fn varint_value_from(s: Seq<u8>, i: int, acc: nat) -> nat
    decreases 9 - i,
{
    if i >= 8 {
        acc * 256 + (if s.len() >= 9 {
            s[8] as nat
        } else {
            0
        })
    } else if i >= s.len() {
        acc
    } else if s[i] < 128 {
        acc * 128 + s[i] as nat
    } else {
        varint_value_from(s, i + 1, acc * 128 + (s[i] - 128) as nat)
    }
}

/// The value encoded at the start of `s`.
pub open spec fn varint_value_of(s: Seq<u8>) -> nat {
    varint_value_from(s, 0, 0)
}

/// Number of bytes the encoding of `v` takes: 7 bits per byte up to 8
/// bytes, 9 bytes when 57 or more bits are needed.
pub open spec fn encoded_len_spec(v: u64) -> int {
    if v < 0x80 {
        1
    } else if v < 0x4000 {
        2
    } else if v < 0x20_0000 {
        3
    } else if v < 0x1000_0000 {
        4
    } else if v < 0x8_0000_0000 {
        5
    } else if v < 0x400_0000_0000 {
        6
    } else if v < 0x2_0000_0000_0000 {
        7
    } else if v < 0x100_0000_0000_0000 {
        8
    } else {
        9
    }
}

/// Value of the low 7 bits of each of the first `i` bytes of `s`,
/// most-significant byte first.
spec fn accum7(s: Seq<u8>, i: int) -> nat
    decreases i,
{
    if i <= 0 {
        0
    } else {
        accum7(s, i - 1) * 128 + (s[i - 1] % 128) as nat
    }
}

proof fn lemma_accum7_prefix(s1: Seq<u8>, s2: Seq<u8>, i: int)
    requires
        0 <= i <= s1.len(),
        i <= s2.len(),
        forall|j: int| 0 <= j < i ==> s1[j] == s2[j],
    ensures
        accum7(s1, i) == accum7(s2, i),
    decreases i,
{
    if i > 0 {
        lemma_accum7_prefix(s1, s2, i - 1);
    }
}

/// Decoding a byte sequence whose continuation bits follow the encoder's
/// pattern recovers the accumulated 7-bit groups (with the 9th byte, when
/// present, contributing all 8 bits).
proof fn lemma_decode_pattern(s: Seq<u8>, i: int)
    requires
        1 <= s.len() <= 9,
        0 <= i < s.len(),
        i <= 8,
        s.len() <= 8 ==> s[s.len() - 1] < 128,
        forall|j: int| 0 <= j < s.len() - 1 && j < 8 ==> s[j] >= 128,
    ensures
        varint_complete_from(s, i),
        varint_len_from(s, i) == s.len(),
        varint_value_from(s, i, accum7(s, i)) == (if s.len() <= 8 {
            accum7(s, s.len() as int)
        } else {
            (accum7(s, 8) * 256 + s[8]) as nat
        }),
    decreases s.len() - i,
{
    let n = s.len() as int;
    if i == 8 {
        assert(varint_value_from(s, 8, accum7(s, 8)) == accum7(s, 8) * 256 + s[8]);
    } else if i == n - 1 && n <= 8 {
        assert(accum7(s, i + 1) == accum7(s, i) * 128 + (s[i] % 128) as nat);
        assert(s[i] % 128 == s[i]);
    } else {
        assert(s[i] >= 128);
        lemma_decode_pattern(s, i + 1);
        assert(accum7(s, i + 1) == accum7(s, i) * 128 + (s[i] % 128) as nat);
        assert((s[i] % 128) as nat == (s[i] - 128) as nat);
        assert(varint_value_from(s, i, accum7(s, i)) == varint_value_from(
            s,
            i + 1,
            accum7(s, i) * 128 + (s[i] - 128) as nat,
        ));
    }
}

proof fn lemma_top_zero(w: u64, c: u64)
    by (bit_vector)
    requires
        (c == 7 && w < 0x80) || (c == 14 && w < 0x4000) || (c == 21 && w < 0x20_0000) || (c == 28
            && w < 0x1000_0000) || (c == 35 && w < 0x8_0000_0000) || (c == 42 && w
            < 0x400_0000_0000) || (c == 49 && w < 0x2_0000_0000_0000) || (c == 56 && w
            < 0x100_0000_0000_0000),
    ensures
        w >> c == 0,
{
}

proof fn lemma_group_step(w: u64, sh: u64, sh7: u64)
    by (bit_vector)
    requires
        sh7 == sh + 7,
        sh <= 56,
    ensures
        (w >> sh7) * 128 + ((w >> sh) & 0x7f) == w >> sh,
        (w >> sh) & 0x7f < 128,
{
}

proof fn lemma_cont_byte(g: u8)
    by (bit_vector)
    requires
        g < 128,
    ensures
        (g | 0x80) >= 128,
        (g | 0x80) % 128 == g,
{
}

/// Encodes `v` as a varint: the shortest encoding, 1 byte for values under
/// 128 and up to 9 bytes for a full 64-bit value. Decoding the result
/// yields `v` back and consumes the whole buffer.
pub fn encode_be(v: u64) -> (r: Vec<u8>)
    ensures
        varint_complete(r@),
        r@.len() == encoded_len_spec(v),
        varint_len_of(r@) == r@.len(),
        varint_value_of(r@) == v as nat,
{
    let nine = v >= 0x100_0000_0000_0000;
    let w: u64 = if nine {
        v >> 8
    } else {
        v
    };
    let count: usize = if nine {
        8
    } else if v < 0x80 {
        1
    } else if v < 0x4000 {
        2
    } else if v < 0x20_0000 {
        3
    } else if v < 0x1000_0000 {
        4
    } else if v < 0x8_0000_0000 {
        5
    } else if v < 0x400_0000_0000 {
        6
    } else if v < 0x2_0000_0000_0000 {
        7
    } else {
        8
    };
    proof {
        if nine {
            assert(v >> 8 < 0x100_0000_0000_0000u64) by (bit_vector);
        }
        lemma_top_zero(w, (7 * count) as u64);
    }
    let mut out: Vec<u8> = Vec::new();
    let mut j: usize = 0;
    while j < count
        invariant
            0 <= j <= count,
            1 <= count <= 8,
            out@.len() == j,
            w >> ((7 * count) as u64) == 0,
            accum7(out@, j as int) == (w >> ((7 * (count - j)) as u64)) as nat,
            forall|t: int| 0 <= t < j && (t < count - 1 || nine) ==> out@[t] >= 128,
            forall|t: int| 0 <= t < j && t == count - 1 && !nine ==> out@[t] < 128,
        decreases count - j,
    {
        let sh: u64 = (7 * (count - 1 - j)) as u64;
        let group: u8 = ((w >> sh) & 0x7f) as u8;
        let byte: u8 = if j < count - 1 || nine {
            group | 0x80
        } else {
            group
        };
        proof {
            lemma_group_step(w, sh, (sh + 7) as u64);
            lemma_cont_byte(group);
            lemma_accum7_prefix(out@, out@.push(byte), j as int);
        }
        out.push(byte);
        proof {
            assert(accum7(out@, j + 1) == accum7(out@, j as int) * 128 + (out@[j as int]
                % 128) as nat);
        }
        j = j + 1;
    }
    proof {
        assert(w >> 0u64 == w) by (bit_vector);
        assert(accum7(out@, count as int) == w as nat);
    }
    if nine {
        let last: u8 = (v & 0xff) as u8;
        proof {
            lemma_accum7_prefix(out@, out@.push(last), 8);
        }
        out.push(last);
        proof {
            assert((v >> 8) * 256 + ((v & 0xff) as u8) == v) by (bit_vector);
            lemma_decode_pattern(out@, 0);
        }
    } else {
        proof {
            lemma_decode_pattern(out@, 0);
        }
    }
    out
}

proof fn lemma_acc_grow(acc: u64, b: u64, sh: u64, sh7: u64)
    by (bit_vector)
    requires
        acc < (1u64 << sh),
        sh <= 49,
        sh7 == sh + 7,
        b < 128,
    ensures
        acc * 128 + b < (1u64 << sh7),
        acc * 128 + b < 0x100_0000_0000_0000u64,
{
}

proof fn lemma_ninth_fits(acc: u64, b: u64)
    by (bit_vector)
    requires
        acc < (1u64 << 56),
        b < 256,
    ensures
        acc * 256 + b <= 0xFFFF_FFFF_FFFF_FFFFu64,
{
}

/// Decodes one varint from the front of `buf`: the value and the number of
/// bytes consumed. Fails when the varint runs past the end of `buf` (in
/// particular, when `buf` is empty); never reads past the 9th byte.
pub fn decode_be(buf: &[u8]) -> (r: Result<(u64, usize), DecodeError>)
    ensures
        r is Ok <==> varint_complete(buf@),
        r matches Ok(v) ==> {
            &&& v.0 as nat == varint_value_of(buf@)
            &&& v.1 as int == varint_len_of(buf@)
            &&& 1 <= v.1 <= 9
            &&& v.1 <= buf@.len()
        },
        r matches Err(e) ==> e == DecodeError::TruncatedVarint,
{
    let ghost s = buf@;
    let n = buf.len();
    let mut i: usize = 0;
    let mut acc: u64 = 0;
    proof {
        assert((1u64 << 0u64) == 1u64) by (bit_vector);
    }
    loop
        invariant
            0 <= i <= 8,
            i <= n,
            n == s.len(),
            buf@ == s,
            acc < (1u64 << ((7 * i) as u64)),
            varint_value_from(s, 0, 0) == varint_value_from(s, i as int, acc as nat),
            varint_len_from(s, 0) == varint_len_from(s, i as int),
            varint_complete_from(s, 0) == varint_complete_from(s, i as int),
        decreases 9 - i,
    {
        if i >= n {
            return Err(DecodeError::TruncatedVarint);
        }
        let b = buf[i];
        if i == 8 {
            proof {
                lemma_ninth_fits(acc, b as u64);
            }
            return Ok((acc * 256 + b as u64, 9));
        }
        if b < 128 {
            proof {
                lemma_acc_grow(acc, b as u64, (7 * i) as u64, (7 * i + 7) as u64);
            }
            return Ok((acc * 128 + b as u64, i + 1));
        }
        proof {
            lemma_acc_grow(acc, (b - 128) as u64, (7 * i) as u64, (7 * i + 7) as u64);
        }
        acc = acc * 128 + (b - 128) as u64;
        i = i + 1;
    }
}

} // verus!
