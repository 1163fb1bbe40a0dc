use pinterest_payload::hashing::hash_value;
use sha2::Digest;

fn reference_hex(input: &str) -> String {
    let digest = sha2::Sha256::digest(input.as_bytes());
    let mut out = String::new();
    for b in digest.iter() {
        out.push_str(&format!("{:02x}", b));
    }
    out
}

#[test]
fn hash_known_answer_abc() {
    assert_eq!(
        hash_value("abc"),
        "ba7816bf8f01cfea414140de5dae2223b00361a396177a9cb410ff61f20015ad"
    );
}

#[test]
fn hash_known_answer_empty() {
    assert_eq!(
        hash_value(""),
        "e3b0c44298fc1c149afbf4c8996fb92427ae41e4649b934ca495991b7852b855"
    );
}

#[test]
fn hash_matches_reference_digest() {
    for s in ["a@b.com", "Paris", "u1", "Ann", "phone", "zip"] {
        assert_eq!(hash_value(s), reference_hex(s), "input {:?}", s);
    }
}

#[test]
fn hash_is_deterministic() {
    assert_eq!(hash_value("a@b.com"), hash_value("a@b.com"));
}

#[test]
fn hash_distinct_inputs_give_distinct_digests() {
    let corpus = ["a@b.com", "A@b.com", "a@b.com ", "", "abc", "abd", "Paris", "paris"];
    for (i, x) in corpus.iter().enumerate() {
        for (j, y) in corpus.iter().enumerate() {
            if i != j {
                assert_ne!(hash_value(x), hash_value(y), "inputs {:?} {:?}", x, y);
            }
        }
    }
}

#[test]
fn hash_is_64_lowercase_hex() {
    for s in ["", "abc", "a@b.com", "some longer input with spaces"] {
        let h = hash_value(s);
        assert_eq!(h.len(), 64);
        assert!(h.chars().all(|c| c.is_ascii_hexdigit() && !c.is_ascii_uppercase()));
    }
}

#[test]
fn hash_does_not_echo_input() {
    let h = hash_value("0123456789012345678901234567890101234567890123456789012345678901");
    assert_ne!(h, "0123456789012345678901234567890101234567890123456789012345678901");
}
