use vstd::prelude::*;

verus! {

use vstd::string::{StringSliceAdditionalSpecFns, StrSliceExecFns, StringExecFns};

/// Offset basis of the 64-bit FNV-1a hash.
pub const FNV_OFFSET_BASIS: u64 = 0xcbf2_9ce4_8422_2325;

/// Multiplier of the 64-bit FNV-1a hash.
pub const FNV_PRIME: u64 = 0x0000_0100_0000_01b3;

/// One FNV-1a step: xor the byte in, multiply by the prime modulo 2^64.
pub open spec fn fnv_step(h: u64, b: u8) -> u64 {
    (((h ^ (b as u64)) as int * (FNV_PRIME as int)) % 0x1_0000_0000_0000_0000) as u64
}

/// Fold a byte sequence into a running FNV-1a state, first byte first.
pub open spec fn fnv_fold(bytes: Seq<u8>, h: u64) -> u64
    decreases bytes.len(),
{
    if bytes.len() == 0 {
        h
    } else {
        fnv_fold(bytes.drop_first(), fnv_step(h, bytes[0]))
    }
}

/// The fingerprint of a byte sequence: FNV-1a from the offset basis.
pub open spec fn spec_hash64(bytes: Seq<u8>) -> u64 {
    fnv_fold(bytes, FNV_OFFSET_BASIS)
}

/// Feeding a concatenation equals feeding both parts in order: the running
/// state after `a` is the seed for `b`.
pub proof fn lemma_fnv_fold_concat(a: Seq<u8>, b: Seq<u8>, h: u64)
    ensures
        fnv_fold(a + b, h) == fnv_fold(b, fnv_fold(a, h)),
    decreases a.len(),
{
    if a.len() == 0 {
        assert(a + b =~= b);
    } else {
        assert((a + b).drop_first() =~= a.drop_first() + b);
        assert((a + b)[0] == a[0]);
        lemma_fnv_fold_concat(a.drop_first(), b, fnv_step(h, a[0]));
    }
}

/// Fold every byte of `bytes` into the running state `h0`.
pub fn fnv_hash_bytes(h0: u64, bytes: &Vec<u8>) -> (r: u64)
    ensures
        r == fnv_fold(bytes@, h0),
{
    let mut h: u64 = h0;
    let mut i: usize = 0;
    proof {
        assert(bytes@.skip(0) =~= bytes@);
    }
    while i < bytes.len()
        invariant
            i <= bytes.len(),
            fnv_fold(bytes@.skip(i as int), h) == fnv_fold(bytes@, h0),
        decreases bytes.len() - i,
    {
        let b: u8 = bytes[i];
        proof {
            assert(bytes@.skip(i as int)[0] == bytes@[i as int]);
            assert(bytes@.skip(i as int).drop_first() =~= bytes@.skip(i as int + 1));
        }
        let x: u64 = h ^ (b as u64);
        let p: u128 = (x as u128) * (FNV_PRIME as u128);
        let h2: u64 = (p % 0x1_0000_0000_0000_0000u128) as u64;
        proof {
            assert(h2 == fnv_step(h, b));
        }
        h = h2;
        i = i + 1;
    }
    proof {
        assert(bytes@.skip(bytes@.len() as int) =~= Seq::<u8>::empty());
    }
    h
}

/// The little-endian byte encoding of a 64-bit word.
pub open spec fn le_bytes_u64(x: u64) -> Seq<u8> {
    seq![
        (x % 256) as u8,
        ((x / 256) % 256) as u8,
        ((x / 0x1_0000) % 256) as u8,
        ((x / 0x100_0000) % 256) as u8,
        ((x / 0x1_0000_0000) % 256) as u8,
        ((x / 0x100_0000_0000) % 256) as u8,
        ((x / 0x1_0000_0000_0000) % 256) as u8,
        ((x / 0x100_0000_0000_0000) % 256) as u8,
    ]
}

/// The two's-complement image of a signed 64-bit value in an unsigned word.
pub open spec fn spec_wrap_u64(v: i64) -> u64 {
    if v >= 0 {
        v as u64
    } else {
        (v + 0x1_0000_0000_0000_0000) as u64
    }
}

/// Fixed-width byte encoding of a signed value: the little-endian bytes of
/// its two's-complement image.
pub open spec fn le_bytes_i64(v: i64) -> Seq<u8> {
    le_bytes_u64(spec_wrap_u64(v))
}

/// Compute the two's-complement image of a signed value.
pub fn wrap_u64(v: i64) -> (r: u64)
    ensures
        r == spec_wrap_u64(v),
{
    if v >= 0 {
        v as u64
    } else {
        ((v as i128) + 0x1_0000_0000_0000_0000i128) as u64
    }
}

/// Produce the little-endian bytes of a 64-bit word.
pub fn le_bytes_of_u64(x: u64) -> (r: Vec<u8>)
    ensures
        r@ == le_bytes_u64(x),
{
    let mut v: Vec<u8> = Vec::new();
    v.push((x % 256) as u8);
    v.push(((x / 256) % 256) as u8);
    v.push(((x / 0x1_0000) % 256) as u8);
    v.push(((x / 0x100_0000) % 256) as u8);
    v.push(((x / 0x1_0000_0000) % 256) as u8);
    v.push(((x / 0x100_0000_0000) % 256) as u8);
    v.push(((x / 0x1_0000_0000_0000) % 256) as u8);
    v.push(((x / 0x100_0000_0000_0000) % 256) as u8);
    proof {
        assert(v@ =~= le_bytes_u64(x));
    }
    v
}

/// Fold the fixed-width encoding of a signed value into the running state.
pub fn fnv_hash_i64(h0: u64, v: i64) -> (r: u64)
    ensures
        r == fnv_fold(le_bytes_i64(v), h0),
{
    let w: u64 = wrap_u64(v);
    let bytes: Vec<u8> = le_bytes_of_u64(w);
    fnv_hash_bytes(h0, &bytes)
}

/// Fold the UTF-8 bytes of a string into the running state.
pub fn fnv_hash_str(h0: u64, s: &str) -> (r: u64)
    ensures
        r == fnv_fold(s.spec_bytes(), h0),
{
    let bytes: Vec<u8> = s.as_bytes_vec();
    fnv_hash_bytes(h0, &bytes)
}

/// The character for one decimal digit.
pub open spec fn dec_digit_char(d: int) -> char {
    if d == 0 {
        '0'
    } else if d == 1 {
        '1'
    } else if d == 2 {
        '2'
    } else if d == 3 {
        '3'
    } else if d == 4 {
        '4'
    } else if d == 5 {
        '5'
    } else if d == 6 {
        '6'
    } else if d == 7 {
        '7'
    } else if d == 8 {
        '8'
    } else {
        '9'
    }
}

/// The decimal digit string of a number, most significant digit first,
/// without leading zeros (a single zero for the number zero).
pub open spec fn spec_dec_str(n: nat) -> Seq<char>
    decreases n,
{
    if n < 10 {
        seq![dec_digit_char(n as int)]
    } else {
        spec_dec_str(n / 10).push(dec_digit_char((n % 10) as int))
    }
}

/// Append one decimal digit character to a string.
fn append_dec_digit(s: &mut String, d: u64)
    requires
        d < 10,
    ensures
        final(s)@ == old(s)@.push(dec_digit_char(d as int)),
{
    proof {
        reveal_strlit("0");
        reveal_strlit("1");
        reveal_strlit("2");
        reveal_strlit("3");
        reveal_strlit("4");
        reveal_strlit("5");
        reveal_strlit("6");
        reveal_strlit("7");
        reveal_strlit("8");
        reveal_strlit("9");
    }
    if d == 0 {
        s.append("0");
        proof {
            assert(s@ =~= old(s)@.push('0'));
        }
    } else if d == 1 {
        s.append("1");
        proof {
            assert(s@ =~= old(s)@.push('1'));
        }
    } else if d == 2 {
        s.append("2");
        proof {
            assert(s@ =~= old(s)@.push('2'));
        }
    } else if d == 3 {
        s.append("3");
        proof {
            assert(s@ =~= old(s)@.push('3'));
        }
    } else if d == 4 {
        s.append("4");
        proof {
            assert(s@ =~= old(s)@.push('4'));
        }
    } else if d == 5 {
        s.append("5");
        proof {
            assert(s@ =~= old(s)@.push('5'));
        }
    } else if d == 6 {
        s.append("6");
        proof {
            assert(s@ =~= old(s)@.push('6'));
        }
    } else if d == 7 {
        s.append("7");
        proof {
            assert(s@ =~= old(s)@.push('7'));
        }
    } else if d == 8 {
        s.append("8");
        proof {
            assert(s@ =~= old(s)@.push('8'));
        }
    } else {
        s.append("9");
        proof {
            assert(s@ =~= old(s)@.push('9'));
        }
    }
}

/// Render a 64-bit number as its decimal digit string.
pub fn u64_to_string(n: u64) -> (r: String)
    ensures
        r@ == spec_dec_str(n as nat),
    decreases n,
{
    if n < 10 {
        let mut s: String = String::new();
        append_dec_digit(&mut s, n);
        proof {
            assert(s@ =~= spec_dec_str(n as nat));
        }
        s
    } else {
        let mut s: String = u64_to_string(n / 10);
        append_dec_digit(&mut s, n % 10);
        proof {
            assert(s@ =~= spec_dec_str(n as nat));
        }
        s
    }
}

} // verus!
