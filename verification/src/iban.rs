use vstd::prelude::*;

verus! {

use vstd::string::StrSliceExecFns;

/// An ASCII decimal digit.
pub open spec fn is_ascii_digit_char(c: char) -> bool {
    48 <= (c as u32) && (c as u32) <= 57
}

/// An ASCII upper-case letter.
pub open spec fn is_upper_alpha(c: char) -> bool {
    65 <= (c as u32) && (c as u32) <= 90
}

/// An ASCII lower-case letter.
pub open spec fn is_lower_alpha(c: char) -> bool {
    97 <= (c as u32) && (c as u32) <= 122
}

/// A character with a value as a base-36 digit: a digit or a letter.
pub open spec fn is_base36_char(c: char) -> bool {
    is_ascii_digit_char(c) || is_upper_alpha(c) || is_lower_alpha(c)
}

/// The base-36 value of a character: digits count as written, letters as
/// 10 through 35 whatever their case.
pub open spec fn base36_value(c: char) -> int {
    if is_ascii_digit_char(c) {
        (c as u32) - 48
    } else if is_upper_alpha(c) {
        (c as u32) - 65 + 10
    } else {
        (c as u32) - 97 + 10
    }
}

/// The address with its first four characters moved to the back.
pub open spec fn rotate_four(s: Seq<char>) -> Seq<char> {
    if s.len() == 0 {
        s
    } else {
        let k = 4int % (s.len() as int);
        s.subrange(k, s.len() as int) + s.subrange(0, k)
    }
}

/// One checksum fold step per character: two-digit values shift the
/// accumulator by 100, one-digit values by 10, reduced modulo 97.
pub open spec fn checksum_step(acc: int, c: char) -> int {
    let d = base36_value(c);
    let m: int = if d > 9 {
        100
    } else {
        10
    };
    (acc * m + d) % 97
}

/// Fold the checksum over a character sequence, first character first.
pub open spec fn checksum_fold(s: Seq<char>, acc: int) -> int
    decreases s.len(),
{
    if s.len() == 0 {
        acc
    } else {
        checksum_fold(s.drop_first(), checksum_step(acc, s[0]))
    }
}

/// The mod-97 checksum of an address: fold over the rearranged string.
pub open spec fn spec_checksum(s: Seq<char>) -> int {
    checksum_fold(rotate_four(s), 0)
}

/// The structural IBAN pattern: two upper-case letters, two digits, then
/// one to thirty upper-case letters or digits.
pub open spec fn iban_shape(s: Seq<char>) -> bool {
    &&& 5 <= s.len() <= 34
    &&& is_upper_alpha(s[0])
    &&& is_upper_alpha(s[1])
    &&& is_ascii_digit_char(s[2])
    &&& is_ascii_digit_char(s[3])
    &&& forall|i: int| 4 <= i < s.len() ==> is_upper_alpha(#[trigger] s[i]) || is_ascii_digit_char(s[i])
}

/// A valid IBAN: the structural pattern holds and the checksum equals one.
pub open spec fn spec_valid_iban(s: Seq<char>) -> bool {
    iban_shape(s) && spec_checksum(s) == 1
}

/// Checks whether the address matches the structural IBAN pattern: two
/// upper-case letters, two digits, then up to thirty letters or digits.
pub fn validate_characters(address: &str) -> (r: bool)
    ensures
        r == iban_shape(address@),
{
    let n: usize = address.unicode_len();
    if n < 5 || n > 34 {
        return false;
    }
    let c0: char = address.get_char(0);
    let c1: char = address.get_char(1);
    if !(c0 as u32 >= 65 && c0 as u32 <= 90 && c1 as u32 >= 65 && c1 as u32 <= 90) {
        return false;
    }
    let c2: char = address.get_char(2);
    let c3: char = address.get_char(3);
    if !(c2 as u32 >= 48 && c2 as u32 <= 57 && c3 as u32 >= 48 && c3 as u32 <= 57) {
        return false;
    }
    let mut i: usize = 4;
    while i < n
        invariant
            4 <= i <= n,
            n == address@.len(),
            forall|j: int|
                4 <= j < i ==> is_upper_alpha(#[trigger] address@[j]) || is_ascii_digit_char(
                    address@[j],
                ),
        decreases n - i,
    {
        let c: char = address.get_char(i);
        let u: u32 = c as u32;
        if !((u >= 65 && u <= 90) || (u >= 48 && u <= 57)) {
            return false;
        }
        i = i + 1;
    }
    true
}

/// The mod-97 checksum of the address, folded over the string with its
/// first four characters moved to the back.
pub fn compute_checksum(address: &str) -> (r: u8)
    requires
        forall|i: int| 0 <= i < address@.len() ==> is_base36_char(#[trigger] address@[i]),
    ensures
        r as int == spec_checksum(address@),
{
    let n: usize = address.unicode_len();
    if n == 0 {
        return 0;
    }
    let k: usize = 4 % n;
    let ghost rot: Seq<char> = rotate_four(address@);
    proof {
        assert(rot.len() == n);
        assert forall|i: int| 0 <= i < n implies rot[i] == address@[(i + k) % (n as int)] by {
            if i + k < n {
                assert(rot[i] == address@[i + k]);
                vstd::arithmetic::div_mod::lemma_small_mod((i + k) as nat, n as nat);
            } else {
                assert(rot[i] == address@[i + k - n]);
                vstd::arithmetic::div_mod::lemma_fundamental_div_mod_converse(
                    i + k,
                    n as int,
                    1,
                    i + k - n,
                );
            }
        }
        assert(rot.skip(0) =~= rot);
    }
    let mut acc: u32 = 0;
    let mut i: usize = 0;
    while i < n
        invariant
            i <= n,
            n == address@.len(),
            0 < n,
            k == 4int % (n as int),
            acc < 97 || (acc == 0 && i == 0),
            rot == rotate_four(address@),
            rot.len() == n,
            forall|j: int| 0 <= j < n ==> is_base36_char(#[trigger] address@[j]),
            forall|j: int| 0 <= j < n ==> rot[j] == address@[(j + k) % (n as int)],
            checksum_fold(rot.skip(i as int), acc as int) == spec_checksum(address@),
        decreases n - i,
    {
        let idx: usize = if i < n - k {
            i + k
        } else {
            i - (n - k)
        };
        proof {
            if i < n - k {
                vstd::arithmetic::div_mod::lemma_small_mod((i + k) as nat, n as nat);
            } else {
                vstd::arithmetic::div_mod::lemma_fundamental_div_mod_converse(
                    i + k,
                    n as int,
                    1,
                    i + k - n,
                );
            }
            assert(idx == (i + k) % (n as int));
            assert(rot[i as int] == address@[idx as int]);
        }
        let c: char = address.get_char(idx);
        let u: u32 = c as u32;
        let d: u32 = if u >= 97 {
            u - 97 + 10
        } else if u >= 65 {
            u - 65 + 10
        } else {
            u - 48
        };
        proof {
            assert(d as int == base36_value(c));
        }
        let m: u32 = if d > 9 {
            100
        } else {
            10
        };
        let next: u32 = (acc * m + d) % 97;
        proof {
            assert(rot.skip(i as int)[0] == rot[i as int]);
            assert(rot.skip(i as int).drop_first() =~= rot.skip(i as int + 1));
            assert(next as int == checksum_step(acc as int, c));
        }
        acc = next;
        i = i + 1;
    }
    proof {
        assert(rot.skip(n as int) =~= Seq::<char>::empty());
    }
    acc as u8
}

/// Checks whether the address is a valid IBAN: the structural pattern
/// holds and the mod-97 checksum over the rearranged string equals one.
pub fn validate_iban(address: &str) -> (r: bool)
    ensures
        r == spec_valid_iban(address@),
{
    if !validate_characters(address) {
        return false;
    }
    let checksum: u8 = compute_checksum(address);
    checksum == 1
}

} // verus!
