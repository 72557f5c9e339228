use vstd::prelude::*;

verus! {

use vstd::string::StrSliceExecFns;
use crate::iban::{is_ascii_digit_char, is_upper_alpha, is_lower_alpha, spec_valid_iban,
    validate_iban};

/// An ASCII letter of either case.
pub open spec fn is_alpha_char(c: char) -> bool {
    is_upper_alpha(c) || is_lower_alpha(c)
}

/// A character allowed in the local part of an email address, before the
/// at sign: letters, digits, underscore, dot, plus, minus.
pub open spec fn is_local_char(c: char) -> bool {
    is_alpha_char(c) || is_ascii_digit_char(c) || c == '_' || c == '.' || c == '+' || c == '-'
}

/// A character allowed in the domain label between the at sign and the
/// first dot: letters, digits, minus.
pub open spec fn is_label_char(c: char) -> bool {
    is_alpha_char(c) || is_ascii_digit_char(c) || c == '-'
}

/// A character allowed after the first dot of the domain: letters,
/// digits, minus, dot.
pub open spec fn is_tail_char(c: char) -> bool {
    is_alpha_char(c) || is_ascii_digit_char(c) || c == '-' || c == '.'
}

/// The string splits as an email address at positions `a` (the at sign)
/// and `d` (the first domain dot): a non-empty local part of local
/// characters, an at sign, a non-empty label of label characters, a dot,
/// and a non-empty tail of tail characters.
pub open spec fn email_split_at(s: Seq<char>, a: int, d: int) -> bool {
    &&& 1 <= a
    &&& a + 2 <= d
    &&& d + 1 < s.len()
    &&& s[a] == '@'
    &&& s[d] == '.'
    &&& forall|i: int| 0 <= i < a ==> is_local_char(#[trigger] s[i])
    &&& forall|i: int| a < i < d ==> is_label_char(#[trigger] s[i])
    &&& forall|i: int| d < i < s.len() ==> is_tail_char(#[trigger] s[i])
}

/// The string matches the email address pattern: some split into local
/// part, domain label, dot and domain tail exists.
pub open spec fn is_email(s: Seq<char>) -> bool {
    exists|a: int, d: int| email_split_at(s, a, d)
}

/// In any email split the at sign stands at the first at sign of the
/// string, so the split position is forced.
proof fn lemma_at_forced(s: Seq<char>, a: int, a2: int, d2: int)
    requires
        0 <= a < s.len(),
        s[a] == '@',
        forall|i: int| 0 <= i < a ==> is_local_char(#[trigger] s[i]),
        email_split_at(s, a2, d2),
    ensures
        a2 == a,
{
    if a2 < a {
        assert(is_local_char(s[a2]));
    } else if a2 > a {
        assert(is_local_char(s[a]));
    }
}

/// In any email split whose at sign stands at `a`, the dot stands at the
/// first dot after `a`, so that position is forced as well.
proof fn lemma_dot_forced(s: Seq<char>, a: int, d: int, a2: int, d2: int)
    requires
        0 <= a,
        a < d < s.len(),
        s[a] == '@',
        s[d] == '.',
        forall|i: int| 0 <= i < a ==> is_local_char(#[trigger] s[i]),
        forall|i: int| a < i < d ==> is_label_char(#[trigger] s[i]),
        email_split_at(s, a2, d2),
    ensures
        a2 == a,
        d2 == d,
{
    lemma_at_forced(s, a, a2, d2);
    if d2 < d {
        assert(is_label_char(s[d2]));
    } else if d2 > d {
        assert(is_label_char(s[d]));
    }
}

/// Is the character allowed in an email local part?
fn local_char(c: char) -> (r: bool)
    ensures
        r == is_local_char(c),
{
    let u: u32 = c as u32;
    (u >= 65 && u <= 90) || (u >= 97 && u <= 122) || (u >= 48 && u <= 57) || c == '_' || c == '.'
        || c == '+' || c == '-'
}

/// Is the character allowed in an email domain label?
fn label_char(c: char) -> (r: bool)
    ensures
        r == is_label_char(c),
{
    let u: u32 = c as u32;
    (u >= 65 && u <= 90) || (u >= 97 && u <= 122) || (u >= 48 && u <= 57) || c == '-'
}

/// Is the character allowed in an email domain tail?
fn tail_char(c: char) -> (r: bool)
    ensures
        r == is_tail_char(c),
{
    let u: u32 = c as u32;
    (u >= 65 && u <= 90) || (u >= 97 && u <= 122) || (u >= 48 && u <= 57) || c == '-' || c == '.'
}

/// Checks whether the string matches the email address pattern: a
/// non-empty run of local characters, an at sign, a non-empty run of
/// label characters, a dot, and a non-empty run of tail characters.
pub fn email_matches(s: &str) -> (r: bool)
    ensures
        r == is_email(s@),
{
    let n: usize = s.unicode_len();
    // find the first at sign; everything before it must be local
    let mut i: usize = 0;
    let mut at: usize = 0;
    let mut found_at: bool = false;
    while i < n && !found_at
        invariant
            i <= n,
            n == s@.len(),
            !found_at ==> at == 0,
            !found_at ==> forall|j: int| 0 <= j < i ==> is_local_char(#[trigger] s@[j]),
            found_at ==> at < i && s@[at as int] == '@' && forall|j: int|
                0 <= j < at ==> is_local_char(#[trigger] s@[j]),
        decreases n - i,
    {
        let c: char = s.get_char(i);
        if c == '@' {
            at = i;
            found_at = true;
        } else if !local_char(c) {
            proof {
                assert forall|a2: int, d2: int| !email_split_at(s@, a2, d2) by {
                    if email_split_at(s@, a2, d2) {
                        if a2 < i {
                            assert(is_local_char(s@[a2]));
                        } else if a2 > i {
                            assert(is_local_char(s@[i as int]));
                        }
                    }
                }
            }
            return false;
        }
        i = i + 1;
    }
    if !found_at || at == 0 {
        proof {
            assert forall|a2: int, d2: int| !email_split_at(s@, a2, d2) by {
                if email_split_at(s@, a2, d2) {
                    if !found_at {
                        assert(is_local_char(s@[a2]));
                    } else {
                        lemma_at_forced(s@, at as int, a2, d2);
                    }
                }
            }
        }
        return false;
    }
    // find the first dot after the at sign; everything between must be a label
    let mut j: usize = at + 1;
    let mut dot: usize = 0;
    let mut found_dot: bool = false;
    while j < n && !found_dot
        invariant
            at < j <= n,
            n == s@.len(),
            at < n,
            s@[at as int] == '@',
            forall|k: int| 0 <= k < at ==> is_local_char(#[trigger] s@[k]),
            !found_dot ==> dot == 0,
            !found_dot ==> forall|k: int| at < k < j ==> is_label_char(#[trigger] s@[k]),
            found_dot ==> at < dot < j && s@[dot as int] == '.' && forall|k: int|
                at < k < dot ==> is_label_char(#[trigger] s@[k]),
        decreases n - j,
    {
        let c: char = s.get_char(j);
        if c == '.' {
            dot = j;
            found_dot = true;
        } else if !label_char(c) {
            proof {
                assert forall|a2: int, d2: int| !email_split_at(s@, a2, d2) by {
                    if email_split_at(s@, a2, d2) {
                        lemma_at_forced(s@, at as int, a2, d2);
                        if d2 < j {
                            assert(is_label_char(s@[d2]));
                        } else if d2 > j {
                            assert(is_label_char(s@[j as int]));
                        }
                    }
                }
            }
            return false;
        }
        j = j + 1;
    }
    if !found_dot || dot == at + 1 {
        proof {
            assert forall|a2: int, d2: int| !email_split_at(s@, a2, d2) by {
                if email_split_at(s@, a2, d2) {
                    lemma_at_forced(s@, at as int, a2, d2);
                    if !found_dot {
                        assert(is_label_char(s@[d2]));
                    } else {
                        lemma_dot_forced(s@, at as int, dot as int, a2, d2);
                    }
                }
            }
        }
        return false;
    }
    // everything after the dot must be a non-empty tail
    if dot + 1 >= n {
        proof {
            assert forall|a2: int, d2: int| !email_split_at(s@, a2, d2) by {
                if email_split_at(s@, a2, d2) {
                    lemma_dot_forced(s@, at as int, dot as int, a2, d2);
                }
            }
        }
        return false;
    }
    let mut k: usize = dot + 1;
    while k < n
        invariant
            dot < k <= n,
            n == s@.len(),
            at < dot < n,
            s@[at as int] == '@',
            s@[dot as int] == '.',
            forall|m: int| 0 <= m < at ==> is_local_char(#[trigger] s@[m]),
            forall|m: int| at < m < dot ==> is_label_char(#[trigger] s@[m]),
            forall|m: int| dot < m < k ==> is_tail_char(#[trigger] s@[m]),
        decreases n - k,
    {
        let c: char = s.get_char(k);
        if !tail_char(c) {
            proof {
                assert forall|a2: int, d2: int| !email_split_at(s@, a2, d2) by {
                    if email_split_at(s@, a2, d2) {
                        lemma_dot_forced(s@, at as int, dot as int, a2, d2);
                        assert(is_tail_char(s@[k as int]));
                    }
                }
            }
            return false;
        }
        k = k + 1;
    }
    proof {
        assert(email_split_at(s@, at as int, dot as int));
    }
    true
}

/// The semantic kinds a value can be classified as, beside the storage
/// kinds a column can declare.
#[derive(Debug, Clone, Copy, PartialEq, Eq, Structural, Hash)]
pub enum ColumnType {
    Str,
    Float,
    Int,
    Email,
    Iban,
    Currency,
    Address,
    Location,
    PersonName,
    Nan,
    Unknown,
}

/// The semantic kind of one string value: email patterns take precedence
/// over IBANs, and everything else is unknown.
pub open spec fn spec_classify(s: Seq<char>) -> ColumnType {
    if is_email(s) {
        ColumnType::Email
    } else if spec_valid_iban(s) {
        ColumnType::Iban
    } else {
        ColumnType::Unknown
    }
}

/// Classify one string value: email first, then IBAN, else unknown.
pub fn classify_value(s: &str) -> (t: ColumnType)
    ensures
        t == spec_classify(s@),
{
    if email_matches(s) {
        ColumnType::Email
    } else if validate_iban(s) {
        ColumnType::Iban
    } else {
        ColumnType::Unknown
    }
}

/// How many of the values are classified as the given kind.
pub open spec fn count_kind(vs: Seq<Seq<char>>, t: ColumnType) -> nat
    decreases vs.len(),
{
    if vs.len() == 0 {
        0
    } else {
        count_kind(vs.drop_last(), t) + if spec_classify(vs.last()) == t {
            1nat
        } else {
            0nat
        }
    }
}

/// Occurrence counts of each semantic kind the classifier can produce.
/// A kind that never occurred has count zero; each classified value
/// increments exactly one of the three counters.
#[derive(Debug, Clone, Copy, PartialEq, Eq, Structural)]
pub struct SemanticCounts {
    pub email: usize,
    pub iban: usize,
    pub unknown: usize,
}

impl SemanticCounts {
    /// Counts with every counter zero, as for a column with no string
    /// values.
    pub fn new() -> (c: SemanticCounts)
        ensures
            c.email == 0 && c.iban == 0 && c.unknown == 0,
    {
        SemanticCounts { email: 0, iban: 0, unknown: 0 }
    }
}

/// Classify every value of a string column and count the occurrences of
/// each semantic kind.
pub fn classify_column(values: &Vec<String>) -> (c: SemanticCounts)
    ensures
        c.email == count_kind(values.deep_view(), ColumnType::Email),
        c.iban == count_kind(values.deep_view(), ColumnType::Iban),
        c.unknown == count_kind(values.deep_view(), ColumnType::Unknown),
{
    let ghost vs: Seq<Seq<char>> = values.deep_view();
    let mut c: SemanticCounts = SemanticCounts::new();
    let mut i: usize = 0;
    proof {
        assert(vs.take(0) =~= Seq::<Seq<char>>::empty());
    }
    while i < values.len()
        invariant
            i <= values.len(),
            vs == values.deep_view(),
            vs.len() == values.len(),
            c.email == count_kind(vs.take(i as int), ColumnType::Email),
            c.iban == count_kind(vs.take(i as int), ColumnType::Iban),
            c.unknown == count_kind(vs.take(i as int), ColumnType::Unknown),
            c.email + c.iban + c.unknown == i,
        decreases values.len() - i,
    {
        proof {
            assert(vs.take(i as int + 1).drop_last() =~= vs.take(i as int));
            assert(vs.take(i as int + 1).last() == vs[i as int]);
            assert(values[i as int]@ == vs[i as int]);
        }
        let t: ColumnType = classify_value(values[i].as_str());
        match t {
            ColumnType::Email => {
                c.email = c.email + 1;
            },
            ColumnType::Iban => {
                c.iban = c.iban + 1;
            },
            _ => {
                c.unknown = c.unknown + 1;
            },
        }
        i = i + 1;
    }
    proof {
        assert(vs.take(values.len() as int) =~= vs);
    }
    c
}

} // verus!
