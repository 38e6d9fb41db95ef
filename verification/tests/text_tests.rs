use xhtml_highlighter::text::{
    decimal, decode, digit, encode, letter, operator_char, same_chars, same_text, separator,
    word_char,
};

#[test]
fn separators() {
    for c in [' ', '\t', '\n', '(', ')', '{', '}', ';'] {
        assert!(separator(c));
    }
    for c in [',', '.', 'a', '0', '=', '\r', '[', ']', ':'] {
        assert!(!separator(c));
    }
}

#[test]
fn operator_characters() {
    for c in ['=', '+', '-', '*', '/', '<', '>', '!'] {
        assert!(operator_char(c));
    }
    for c in ['%', '&', '|', '^', '~', 'a', '1', ' ', ','] {
        assert!(!operator_char(c));
    }
}

#[test]
fn digits_and_letters() {
    for c in ['0', '5', '9'] {
        assert!(digit(c));
        assert!(!letter(c));
        assert!(word_char(c));
    }
    for c in ['a', 'm', 'z', 'A', 'M', 'Z'] {
        assert!(letter(c));
        assert!(!digit(c));
        assert!(word_char(c));
    }
    for c in ['_', '/', ':', '@', '[', '`', '{', 'é', '٣', ' '] {
        assert!(!letter(c));
        assert!(!digit(c));
        assert!(!word_char(c));
    }
}

#[test]
fn decode_and_encode_are_inverse() {
    assert_eq!(decode("aé→"), vec!['a', 'é', '→']);
    assert_eq!(decode(""), Vec::<char>::new());
    assert_eq!(encode(&vec!['a', 'é', '→']), "aé→");
    assert_eq!(encode(&vec![]), "");
}

#[test]
fn same_text_compares_characters() {
    assert!(same_text("", ""));
    assert!(same_text("void", "void"));
    assert!(!same_text("void", "voi"));
    assert!(!same_text("voi", "void"));
    assert!(!same_text("void", "voiD"));
    assert!(same_chars(&vec!['a', 'b'], &vec!['a', 'b']));
    assert!(!same_chars(&vec!['a', 'b'], &vec!['b', 'a']));
    assert!(!same_chars(&vec![], &vec!['a']));
}

#[test]
fn decimal_writes_numbers() {
    assert_eq!(decimal(0), "0");
    assert_eq!(decimal(7), "7");
    assert_eq!(decimal(10), "10");
    assert_eq!(decimal(1234567890), "1234567890");
    assert_eq!(decimal(usize::MAX), usize::MAX.to_string());
}
