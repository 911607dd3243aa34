use fat_lto::bytes::{bytes_eq, bytes_le, clone_bytes, concat_bytes, join_path};

fn b(s: &str) -> Vec<u8> {
    s.as_bytes().to_vec()
}

#[test]
fn lexicographic_order_on_names() {
    assert!(bytes_le(&b("a"), &b("b")));
    assert!(!bytes_le(&b("b"), &b("a")));
    assert!(bytes_le(&b("a"), &b("ab")));
    assert!(!bytes_le(&b("ab"), &b("a")));
    assert!(bytes_le(&b(""), &b("a")));
    assert!(bytes_le(&b("same"), &b("same")));
}

#[test]
fn byte_string_equality() {
    assert!(bytes_eq(&b("x"), &b("x")));
    assert!(!bytes_eq(&b("x"), &b("y")));
    assert!(!bytes_eq(&b("x"), &b("xx")));
    assert!(bytes_eq(&b(""), &b("")));
}

#[test]
fn copies_and_concatenation() {
    assert_eq!(clone_bytes(&b("abc")), b("abc"));
    assert_eq!(concat_bytes(&b("ab"), &b("cd")), b("abcd"));
    assert_eq!(join_path(&b("/tmp/t"), &b("unit.o")), b("/tmp/t/unit.o"));
}
