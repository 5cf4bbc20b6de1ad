use ic_asset::content::{
    applicable_encoders, Content, ContentEncoder, Encoding, MediaType, CONTENT_ENCODING_IDENTITY,
};
use ic_asset::plumbing::{candidate_encodings, make_encoding, make_encodings, EncodingStep};
use ic_asset::snapshot::RemoteSnapshot;
use std::io::Read;

fn media_type(type_: &str, subtype: &str) -> MediaType {
    MediaType {
        text: format!("{}/{}", type_, subtype),
        type_: type_.to_string(),
        subtype: subtype.to_string(),
    }
}

fn content(data: Vec<u8>, type_: &str, subtype: &str) -> Content {
    Content {
        data,
        media_type: media_type(type_, subtype),
    }
}

fn gunzip(stream: &[u8]) -> Vec<u8> {
    let mut decoder = flate2::read::GzDecoder::new(stream);
    let mut data = Vec::new();
    decoder.read_to_end(&mut data).unwrap();
    data
}

#[test]
fn identity_label_is_identity() {
    assert_eq!(CONTENT_ENCODING_IDENTITY, "identity");
    assert_eq!(Encoding::Identity.label(), "identity");
}

#[test]
fn gzip_label_is_gzip() {
    assert_eq!(ContentEncoder::Gzip.label(), "gzip");
    assert_eq!(Encoding::Named(ContentEncoder::Gzip).label(), "gzip");
}

#[test]
fn gzip_applies_to_text_scripts_and_html() {
    assert_eq!(
        applicable_encoders(&media_type("text", "plain")),
        vec![ContentEncoder::Gzip]
    );
    assert_eq!(
        applicable_encoders(&media_type("text", "css")),
        vec![ContentEncoder::Gzip]
    );
    assert_eq!(
        applicable_encoders(&media_type("text", "html")),
        vec![ContentEncoder::Gzip]
    );
    assert_eq!(
        applicable_encoders(&media_type("application", "javascript")),
        vec![ContentEncoder::Gzip]
    );
    assert_eq!(
        applicable_encoders(&media_type("application", "html")),
        vec![ContentEncoder::Gzip]
    );
}

#[test]
fn no_encoder_applies_to_other_media_types() {
    assert_eq!(applicable_encoders(&media_type("image", "png")), vec![]);
    assert_eq!(applicable_encoders(&media_type("application", "json")), vec![]);
    assert_eq!(
        applicable_encoders(&media_type("application", "octet-stream")),
        vec![]
    );
    assert_eq!(applicable_encoders(&media_type("image", "text")), vec![]);
    assert_eq!(applicable_encoders(&media_type("javascript", "x")), vec![]);
}

#[test]
fn encode_makes_a_gzip_stream_of_the_bytes() {
    let plain = content(b"hello hello hello hello hello".to_vec(), "text", "plain");
    let encoded = plain.encode(&ContentEncoder::Gzip).ok().unwrap();
    assert_ne!(encoded.data, plain.data);
    assert_eq!(&encoded.data[0..2], &[0x1f, 0x8b]);
    assert_eq!(gunzip(&encoded.data), plain.data);
    assert_eq!(encoded.media_type.text, "text/plain");
    assert_eq!(encoded.media_type.type_, "text");
    assert_eq!(encoded.media_type.subtype, "plain");
}

#[test]
fn encode_gives_the_same_stream_for_the_same_bytes() {
    let plain = content(vec![b'x'; 5000], "text", "plain");
    let first = plain.encode(&ContentEncoder::Gzip).ok().unwrap();
    let second = plain.encode(&ContentEncoder::Gzip).ok().unwrap();
    assert_eq!(first.data, second.data);
}

#[test]
fn shorter_representation_is_kept() {
    let plain = content(vec![0; 100], "text", "plain");
    let shorter = content(vec![1; 99], "text", "plain");
    let kept = plain.accept_encoded(shorter).unwrap();
    assert_eq!(kept.data, vec![1; 99]);
}

#[test]
fn representation_of_the_same_length_is_dropped() {
    let plain = content(vec![0; 100], "text", "plain");
    let same = content(vec![1; 100], "text", "plain");
    assert!(plain.accept_encoded(same).is_none());
}

#[test]
fn longer_representation_is_dropped() {
    let plain = content(vec![0; 100], "text", "plain");
    let longer = content(vec![1; 101], "text", "plain");
    assert!(plain.accept_encoded(longer).is_none());
    let empty = content(vec![], "text", "plain");
    let nothing = content(vec![], "text", "plain");
    assert!(empty.accept_encoded(nothing).is_none());
}

#[test]
fn make_encoding_keeps_a_compressed_variant_that_shrinks() {
    let plain = content(vec![b'a'; 10_000], "text", "plain");
    let snapshot = RemoteSnapshot::new();
    let made = make_encoding(
        true,
        "/a.txt",
        &snapshot,
        &plain,
        &Encoding::Named(ContentEncoder::Gzip),
    )
        .ok()
        .unwrap();
    let job = made.unwrap();
    assert_eq!(job.encoding, Encoding::Named(ContentEncoder::Gzip));
    assert_eq!(job.encoding.label(), "gzip");
    assert_eq!(job.len, plain.encode(&ContentEncoder::Gzip).ok().unwrap().data.len());
    match job.step {
        EncodingStep::Upload(upload) => {
            assert!(upload.payload().len() < 10_000);
            assert_eq!(gunzip(upload.payload()), plain.data);
            let encoded = plain.encode(&ContentEncoder::Gzip).ok().unwrap();
            assert_eq!(upload.sha256(), &encoded.sha256()[..]);
        }
        EncodingStep::Done(_) => panic!("an encoding that is not in place is uploaded"),
    }
}

#[test]
fn make_encoding_drops_a_compressed_variant_that_grows() {
    let plain = content(b"a".to_vec(), "text", "plain");
    let encoded = plain.encode(&ContentEncoder::Gzip).ok().unwrap();
    assert!(encoded.data.len() > plain.data.len());
    let snapshot = RemoteSnapshot::new();
    let made = make_encoding(
        true,
        "/a.txt",
        &snapshot,
        &plain,
        &Encoding::Named(ContentEncoder::Gzip),
    )
        .ok()
        .unwrap();
    assert!(made.is_none());
}

#[test]
fn make_encodings_of_an_image_is_the_identity_only() {
    let image = content(vec![b'a'; 10_000], "image", "png");
    let snapshot = RemoteSnapshot::new();
    let steps = make_encodings(true, "/a.png", &snapshot, &image).ok().unwrap();
    assert_eq!(steps.len(), 1);
    assert_eq!(steps[0].encoding, Encoding::Identity);
}

#[test]
fn make_encodings_of_text_that_shrinks_is_identity_and_gzip() {
    let text = content(vec![b'a'; 10_000], "text", "plain");
    let snapshot = RemoteSnapshot::new();
    let steps = make_encodings(true, "/a.txt", &snapshot, &text).ok().unwrap();
    assert_eq!(steps.len(), 2);
    assert_eq!(steps[0].encoding, Encoding::Identity);
    assert_eq!(steps[1].encoding, Encoding::Named(ContentEncoder::Gzip));
    assert_eq!(steps[0].len, 10_000);
    match &steps[0].step {
        EncodingStep::Upload(upload) => assert_eq!(upload.payload(), &vec![b'a'; 10_000][..]),
        EncodingStep::Done(_) => panic!("an encoding that is not in place is uploaded"),
    }
}

#[test]
fn make_encodings_of_text_that_does_not_shrink_is_the_identity_only() {
    let text = content(b"tiny".to_vec(), "text", "html");
    let snapshot = RemoteSnapshot::new();
    let steps = make_encodings(true, "/a.html", &snapshot, &text).ok().unwrap();
    assert_eq!(steps.len(), 1);
    assert_eq!(steps[0].encoding, Encoding::Identity);
}

#[test]
fn make_encodings_without_upload_asks_for_no_call() {
    let text = content(vec![b'a'; 10_000], "text", "plain");
    let snapshot = RemoteSnapshot::new();
    let steps = make_encodings(false, "/a.txt", &snapshot, &text).ok().unwrap();
    assert_eq!(steps.len(), 2);
    for job in steps {
        match job.step {
            EncodingStep::Done(encoding) => {
                assert!(encoding.chunk_ids.is_empty());
                assert!(!encoding.already_in_place);
                assert_eq!(encoding.sha256.len(), 32);
            }
            EncodingStep::Upload(_) => panic!("nothing is uploaded in a run without a target"),
        }
    }
}

#[test]
fn make_encoding_of_the_identity_keeps_the_bytes() {
    let plain = content(b"a".to_vec(), "image", "png");
    let snapshot = RemoteSnapshot::new();
    let job = make_encoding(true, "/a.png", &snapshot, &plain, &Encoding::Identity)
        .ok()
        .unwrap()
        .unwrap();
    assert_eq!(job.encoding, Encoding::Identity);
    assert_eq!(job.len, 1);
    match job.step {
        EncodingStep::Upload(upload) => {
            assert_eq!(upload.payload(), b"a");
            assert_eq!(upload.sha256(), &plain.sha256()[..]);
        }
        EncodingStep::Done(_) => panic!("an encoding that is not in place is uploaded"),
    }
}

#[test]
fn candidates_are_the_identity_and_the_applicable_encoders() {
    assert_eq!(
        candidate_encodings(&media_type("text", "css")),
        vec![Encoding::Identity, Encoding::Named(ContentEncoder::Gzip)]
    );
    assert_eq!(
        candidate_encodings(&media_type("image", "png")),
        vec![Encoding::Identity]
    );
}
