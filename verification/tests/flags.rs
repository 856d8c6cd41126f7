use deinflect::text::{chars_of, string_of_reversed};
use deinflect::{Reasons, Rules};

#[test]
fn class_bits() {
    assert_eq!(Rules::V1, 1);
    assert_eq!(Rules::V5, 1 << 1);
    assert_eq!(Rules::VS, 1 << 2);
    assert_eq!(Rules::VK, 1 << 3);
    assert_eq!(Rules::VZ, 1 << 4);
    assert_eq!(Rules::ADJ_I, 1 << 5);
    assert_eq!(Rules::IRU, 1 << 6);
}

#[test]
fn reason_bits() {
    let all = [
        Reasons::BA,
        Reasons::CHAU,
        Reasons::CHIMAU,
        Reasons::SHIMAU,
        Reasons::NASAI,
        Reasons::SOU,
        Reasons::SUGIRU,
        Reasons::TAI,
        Reasons::TARA,
        Reasons::TARI,
        Reasons::TE,
        Reasons::ZU,
        Reasons::NU,
        Reasons::ADV,
        Reasons::CAUSATIVE,
        Reasons::IMPERATIVE,
        Reasons::IMPERATIVE_NEGATIVE,
        Reasons::MASU_STEM,
        Reasons::NEGATIVE,
        Reasons::NOUN,
        Reasons::PASSIVE,
        Reasons::PAST,
        Reasons::POLITE,
        Reasons::POLITE_NEGATIVE,
        Reasons::POLITE_PAST,
        Reasons::POLITE_PAST_NEGATIVE,
        Reasons::POLITE_VOLITIONAL,
        Reasons::POTENTIAL,
        Reasons::POTENTIAL_OR_PASSIVE,
        Reasons::VOLITIONAL,
        Reasons::CAUSATIVE_PASSIVE,
        Reasons::TOKU,
        Reasons::PROGRESSIVE_OR_PERFECT,
        Reasons::KI,
        Reasons::GE,
        Reasons::E,
    ];
    for (i, bit) in all.iter().enumerate() {
        assert_eq!(*bit, 1u64 << i);
    }
}

#[test]
fn set_operations() {
    let none = Rules::empty();
    let v1 = Rules::from_bits_retain(Rules::V1);
    let v5 = Rules::from_bits_retain(Rules::V5);
    let both = v1.union(v5);
    assert_eq!(both.bits(), 3);
    assert!(none.is_empty());
    assert!(!v1.is_empty());
    assert!(both.intersects(v1));
    assert!(!v1.intersects(v5));
    assert!(!none.intersects(none));
    assert!(both.contains(v1));
    assert!(!v1.contains(both));
    assert!(v1.contains(none));
    assert_eq!(both, Rules::from_bits_retain(3));
    assert_ne!(both, v1);
    assert_eq!(Rules::from_bits_retain(0x80).bits(), 0x80);

    let past = Reasons::from_bits_retain(Reasons::PAST);
    let polite = Reasons::from_bits_retain(Reasons::POLITE);
    let two = past.union(polite);
    assert_eq!(two.bits(), (1 << 21) | (1 << 22));
    assert!(Reasons::empty().is_empty());
    assert!(!two.is_empty());
    assert!(two.intersects(past));
    assert!(!past.intersects(polite));
    assert!(two.contains(polite));
    assert!(!polite.contains(two));
    assert_eq!(past.union(past), past);
    assert_eq!(Reasons::from_bits_retain(1 << 63).bits(), 1 << 63);
}

#[test]
fn strings_and_characters() {
    assert_eq!(chars_of("食べる"), vec!['食', 'べ', 'る']);
    assert_eq!(chars_of(""), Vec::<char>::new());
    assert_eq!(string_of_reversed(&vec!['c', 'b', 'a']), "abc");
    assert_eq!(string_of_reversed(&vec!['る', 'べ', '食']), "食べる");
    assert_eq!(string_of_reversed(&Vec::new()), "");
}
