use xtract::iban::{compute_checksum, validate_characters, validate_iban};

#[test]
fn valid_iban_reference() {
    assert!(validate_iban("GB82WEST12345698765432"));
}

#[test]
fn checksum_of_reference_is_one() {
    assert_eq!(compute_checksum("GB82WEST12345698765432"), 1);
}

#[test]
fn mutating_any_single_character_invalidates() {
    let iban = "GB82WEST12345698765432";
    let chars: Vec<char> = iban.chars().collect();
    for i in 0..chars.len() {
        let replacement = if chars[i] == 'X' { 'Y' } else { 'X' };
        let mut mutated = chars.clone();
        mutated[i] = replacement;
        let s: String = mutated.into_iter().collect();
        assert!(!validate_iban(&s), "mutation at {} should invalidate", i);
    }
}

#[test]
fn mutating_each_digit_invalidates() {
    let iban = "GB82WEST12345698765432";
    let chars: Vec<char> = iban.chars().collect();
    for i in 0..chars.len() {
        if chars[i].is_ascii_digit() {
            let replacement = if chars[i] == '7' { '8' } else { '7' };
            let mut mutated = chars.clone();
            mutated[i] = replacement;
            let s: String = mutated.into_iter().collect();
            assert!(!validate_iban(&s), "digit mutation at {} should invalidate", i);
        }
    }
}

#[test]
fn structural_pattern() {
    assert!(validate_characters("GB82WEST12345698765432"));
    // too short: fewer than five characters
    assert!(!validate_characters("GB82"));
    // lower-case letters are not part of the pattern
    assert!(!validate_characters("gb82WEST12345698765432"));
    // digits where letters must stand
    assert!(!validate_characters("1B82WEST12345698765432"));
    // letters where digits must stand
    assert!(!validate_characters("GBAAWEST12345698765432"));
    // more than thirty-four characters
    assert!(!validate_characters("GB82WEST123456987654321234567890123"));
}

#[test]
fn checksum_small_cases() {
    // fewer than four characters still fold, rotated through the cycle
    assert_eq!(compute_checksum(""), 0);
    // one character: rotation leaves it in place; '1' folds to 1 mod 97
    assert_eq!(compute_checksum("1"), 1);
}
