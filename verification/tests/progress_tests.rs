use ic_asset::progress::{
    already_installed_line, chunk_line, content_encoding_descriptive_suffix, decimal,
};

#[test]
fn suffix_of_the_identity_encoding_is_empty() {
    assert_eq!(content_encoding_descriptive_suffix("identity"), "");
}

#[test]
fn suffix_of_another_encoding_is_its_label_in_brackets() {
    assert_eq!(content_encoding_descriptive_suffix("gzip"), " (gzip)");
    assert_eq!(content_encoding_descriptive_suffix("br"), " (br)");
    assert_eq!(content_encoding_descriptive_suffix(""), " ()");
    assert_eq!(content_encoding_descriptive_suffix("Identity"), " (Identity)");
}

#[test]
fn decimal_has_no_leading_zeros() {
    assert_eq!(decimal(0), "0");
    assert_eq!(decimal(7), "7");
    assert_eq!(decimal(10), "10");
    assert_eq!(decimal(1_900_000), "1900000");
    assert_eq!(decimal(u128::MAX), u128::MAX.to_string());
}

#[test]
fn line_of_an_encoding_in_place() {
    assert_eq!(
        already_installed_line("/index.html", "identity", 1234, &[0xab, 0xcd]),
        "  /index.html (1234 bytes) sha abcd is already installed"
    );
    assert_eq!(
        already_installed_line("/index.html", "gzip", 0, &[0x01]),
        "  /index.html (gzip) (0 bytes) sha 01 is already installed"
    );
}

#[test]
fn line_of_a_created_chunk() {
    assert_eq!(
        chunk_line("/app.js", "identity", 0, 2, 1_900_000, &[0xff, 0x00], Some("cfg")),
        "  /app.js 1/2 (1900000 bytes) sha ff00 cfg"
    );
    assert_eq!(
        chunk_line("/app.js", "gzip", 1, 2, 17, &[0x0a], Some("")),
        "  /app.js (gzip) 2/2 (17 bytes) sha 0a "
    );
}

#[test]
fn line_of_the_one_chunk_of_an_empty_payload() {
    assert_eq!(
        chunk_line("/empty.txt", "identity", 0, 1, 0, &[0xe3, 0xb0], None),
        "  /empty.txt 1/1 (0 bytes) sha e3b0"
    );
}

#[test]
fn line_counts_from_one_even_at_the_largest_index() {
    let line = chunk_line("k", "identity", usize::MAX, usize::MAX, 1, &[], None);
    let number = (usize::MAX as u128 + 1).to_string();
    assert_eq!(
        line,
        format!("  k {}/{} (1 bytes) sha ", number, usize::MAX)
    );
}
