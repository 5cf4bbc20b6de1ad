use ic_asset::content::{Content, MediaType};
use ic_asset::digest::{digest_text, DIGEST_LEN};

fn media_type(text: &str, type_: &str, subtype: &str) -> MediaType {
    MediaType {
        text: text.to_string(),
        type_: type_.to_string(),
        subtype: subtype.to_string(),
    }
}

fn text_content(data: &[u8]) -> Content {
    Content {
        data: data.to_vec(),
        media_type: media_type("text/plain", "text", "plain"),
    }
}

#[test]
fn digest_of_no_bytes_is_the_known_value() {
    let digest = text_content(b"").sha256();
    assert_eq!(digest.len(), DIGEST_LEN);
    assert_eq!(
        digest_text(&digest),
        "e3b0c44298fc1c149afbf4c8996fb92427ae41e4649b934ca495991b7852b855"
    );
}

#[test]
fn digest_of_abc_is_the_known_value() {
    let digest = text_content(b"abc").sha256();
    assert_eq!(
        digest_text(&digest),
        "ba7816bf8f01cfea414140de5dae2223b00361a396177a9cb410ff61f20015ad"
    );
}

#[test]
fn digest_is_the_same_for_the_same_bytes() {
    let first = text_content(b"the same bytes").sha256();
    let second = text_content(b"the same bytes").sha256();
    assert_eq!(first, second);
}

#[test]
fn digest_does_not_depend_on_the_media_type() {
    let text = text_content(b"bytes").sha256();
    let image = Content {
        data: b"bytes".to_vec(),
        media_type: media_type("image/png", "image", "png"),
    }
    .sha256();
    assert_eq!(text, image);
}

#[test]
fn digest_differs_for_other_bytes() {
    let first = text_content(b"one").sha256();
    let second = text_content(b"two").sha256();
    assert_ne!(first, second);
}

#[test]
fn digest_text_is_lower_case_hexadecimal() {
    assert_eq!(digest_text(&[1, 2, 3, 15, 16]), "0102030f10");
    assert_eq!(digest_text(&[0xab, 0xcd, 0xef, 0x00, 0xff]), "abcdef00ff");
    assert_eq!(digest_text(&[]), "");
}
