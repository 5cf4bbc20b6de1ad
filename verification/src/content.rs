//! Loaded content, its media type, and the encodings in which it can be
//! published.

use crate::digest::{sha256, sha256_digest, DIGEST_LEN};
use crate::text::str_equal;
use std::io::Write;
use vstd::prelude::*;

verus! {

/// The label of the encoding that leaves content as it is.
pub const CONTENT_ENCODING_IDENTITY: &'static str = "identity";

/// A media type, as far as the pipeline reads it.
pub struct MediaType {
    /// The whole media type as text, such as `text/html; charset=utf-8`. It
    /// is what the content type of the remote store is held against.
    pub text: String,
    /// The top-level type in lower case, such as `text`.
    pub type_: String,
    /// The subtype in lower case and without a suffix, such as `html`, or
    /// `svg` for `image/svg+xml`.
    pub subtype: String,
}

impl Clone for MediaType {
    fn clone(&self) -> (copy: MediaType)
        ensures
            copy == *self,
    {
        MediaType {
            text: self.text.clone(),
            type_: self.type_.clone(),
            subtype: self.subtype.clone(),
        }
    }
}

/// A transform that makes another representation of the same content.
#[derive(Clone, Copy, Debug, PartialEq, Eq, Structural)]
pub enum ContentEncoder {
    /// Compression to a gzip stream.
    Gzip,
}

impl ContentEncoder {
    /// The label under which content in this encoding is published.
    pub open spec fn spec_label(self) -> Seq<char> {
        match self {
            ContentEncoder::Gzip => "gzip"@,
        }
    }

    /// The label under which content in this encoding is published.
    pub fn label(&self) -> (label: String)
        ensures
            label@ == self.spec_label(),
    {
        match self {
            ContentEncoder::Gzip => "gzip".to_owned(),
        }
    }
}

/// How content is represented: as it is, or transformed by a named encoder.
#[derive(Clone, Copy, Debug, PartialEq, Eq, Structural)]
pub enum Encoding {
    /// No transform.
    Identity,
    /// The transform of the encoder.
    Named(ContentEncoder),
}

impl Encoding {
    /// The label under which content in this encoding is published.
    pub open spec fn spec_label(self) -> Seq<char> {
        match self {
            Encoding::Identity => CONTENT_ENCODING_IDENTITY@,
            Encoding::Named(encoder) => encoder.spec_label(),
        }
    }

    /// The label under which content in this encoding is published.
    pub fn label(&self) -> (label: String)
        ensures
            label@ == self.spec_label(),
    {
        match self {
            Encoding::Identity => CONTENT_ENCODING_IDENTITY.to_owned(),
            Encoding::Named(encoder) => encoder.label(),
        }
    }
}

/// No named encoder publishes under the label of the identity encoding.
pub proof fn lemma_named_label_is_not_identity(encoder: ContentEncoder)
    ensures
        encoder.spec_label() != CONTENT_ENCODING_IDENTITY@,
{
    reveal_strlit("gzip");
    reveal_strlit("identity");
    assert("gzip"@.len() != "identity"@.len());
}

/// The encoders that are tried on content of the given type and subtype:
/// gzip for text of any kind, for scripts and for HTML, and none otherwise.
pub open spec fn spec_applicable_encoders(type_: Seq<char>, subtype: Seq<char>) -> Seq<
    ContentEncoder,
> {
    if type_ == "text"@ || subtype == "javascript"@ || subtype == "html"@ {
        seq![ContentEncoder::Gzip]
    } else {
        Seq::empty()
    }
}

/// The encoders that are tried on content of `media_type`, besides leaving it
/// as it is.
pub fn applicable_encoders(media_type: &MediaType) -> (encoders: Vec<ContentEncoder>)
    ensures
        encoders@ == spec_applicable_encoders(media_type.type_@, media_type.subtype@),
{
    if str_equal(media_type.type_.as_str(), "text") || str_equal(
        media_type.subtype.as_str(),
        "javascript",
    ) || str_equal(media_type.subtype.as_str(), "html") {
        vec![ContentEncoder::Gzip]
    } else {
        Vec::new()
    }
}

/// Why content could not be encoded.
pub struct EncodeError {
    /// What the encoder reported.
    pub message: String,
}

/// What the gzip encoder makes of `data` at the default level, under a
/// header that names no file, no time and no system: the stream, or nothing
/// where the encoder fails on these bytes.
pub uninterp spec fn gzip_outcome(data: Seq<u8>) -> Option<Seq<u8>>;

/// Writes `data` through `flate2::write::GzEncoder` at the default
/// compression level and collects the stream. The encoder is made with
/// `GzEncoder::new`, whose header holds nothing of the machine or the time,
/// and it writes into memory, so what comes back, the stream or the
/// failure, is a function of the bytes written and of nothing else. Which
/// bytes the stream holds is not stated, nor that the encoder succeeds.
#[verifier::external_body]
pub(crate) fn gzip(data: &[u8]) -> (stream: Result<Vec<u8>, EncodeError>)
    ensures
        stream matches Ok(bytes) ==> gzip_outcome(data@) == Some(bytes@),
        stream is Err ==> gzip_outcome(data@) is None,
{
    let mut encoder = flate2::write::GzEncoder::new(Vec::new(), flate2::Compression::default());
    if let Err(error) = encoder.write_all(data) {
        return Err(EncodeError { message: error.to_string() });
    }
    match encoder.finish() {
        Ok(bytes) => Ok(bytes),
        Err(error) => Err(EncodeError { message: error.to_string() }),
    }
}

/// The bytes that `encoder` makes of `data`, or nothing where it fails on
/// them.
pub open spec fn spec_encoded(data: Seq<u8>, encoder: ContentEncoder) -> Option<Seq<u8>> {
    match encoder {
        ContentEncoder::Gzip => gzip_outcome(data),
    }
}

/// Whether a transformed representation is worth publishing beside the
/// bytes it was made from: only when it is strictly shorter.
pub open spec fn spec_encoding_accepted(encoded_len: nat, plain_len: nat) -> bool {
    encoded_len < plain_len
}

/// The bytes of one representation of an asset, with its media type.
pub struct Content {
    /// The bytes.
    pub data: Vec<u8>,
    /// The media type of the asset; it is the same in every encoding.
    pub media_type: MediaType,
}

impl Content {
    /// The content digest of the bytes.
    pub fn sha256(&self) -> (digest: Vec<u8>)
        ensures
            digest@ == sha256_digest(self.data@),
            digest@.len() == DIGEST_LEN,
    {
        sha256(self.data.as_slice())
    }

    /// Transforms the bytes with `encoder`. The media type is kept. The
    /// transform fails exactly where the encoder fails on these bytes.
    pub fn encode(&self, encoder: &ContentEncoder) -> (encoded: Result<Content, EncodeError>)
        ensures
            match encoded {
                Ok(content) => spec_encoded(self.data@, *encoder) == Some(content.data@)
                    && content.media_type == self.media_type,
                Err(_) => spec_encoded(self.data@, *encoder) is None,
            },
    {
        match encoder {
            ContentEncoder::Gzip => {
                match gzip(self.data.as_slice()) {
                    Ok(data) => Ok(Content { data, media_type: self.media_type.clone() }),
                    Err(error) => Err(error),
                }
            },
        }
    }

    /// Keeps a transformed representation of this content if it is strictly
    /// shorter than this content, and drops it otherwise.
    pub fn accept_encoded(&self, encoded: Content) -> (kept: Option<Content>)
        ensures
            kept == if spec_encoding_accepted(encoded.data@.len(), self.data@.len()) {
                Some(encoded)
            } else {
                None
            },
    {
        if encoded.data.len() < self.data.len() {
            Some(encoded)
        } else {
            None
        }
    }
}

} // verus!
