use detour::encode::percent_encode;

#[test]
fn unreserved_passes_through() {
    assert_eq!(
        percent_encode("ABCXYZabcxyz0189-_.~"),
        "ABCXYZabcxyz0189-_.~"
    );
}

#[test]
fn empty_stays_empty() {
    assert_eq!(percent_encode(""), "");
}

#[test]
fn reserved_bytes_become_hex() {
    assert_eq!(percent_encode("language:korean"), "language%3Akorean");
    assert_eq!(percent_encode("a b"), "a%20b");
    assert_eq!(percent_encode("f_search=male:x"), "f_search%3Dmale%3Ax");
}

#[test]
fn multibyte_characters_encode_each_byte() {
    // U+00FC is 0xC3 0xBC in UTF-8.
    assert_eq!(percent_encode("\u{fc}"), "%C3%BC");
}
