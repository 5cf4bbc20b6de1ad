//! The picture of what the remote store publishes, and the comparison that
//! decides whether an encoding is there already.

use crate::content::MediaType;
use crate::text::{bytes_equal, str_equal};
use vstd::hash_map::StringHashMap;
use vstd::prelude::*;

verus! {

/// One encoding of an asset as the remote store publishes it.
pub struct AssetEncodingDetails {
    /// The label of the encoding.
    pub content_encoding: String,
    /// The content digest that the store recorded, if it recorded one.
    pub sha256: Option<Vec<u8>>,
}

/// One asset as the remote store publishes it.
pub struct AssetDetails {
    /// The key under which the asset is published.
    pub key: String,
    /// The media type that the store serves the asset with.
    pub content_type: String,
    /// The encodings that the store holds of the asset.
    pub encodings: Vec<AssetEncodingDetails>,
}

/// The digest that `encodings` record for the encoding `label`: that of the
/// first entry with this label, if that entry records a digest.
pub open spec fn spec_remote_digest(
    encodings: Seq<AssetEncodingDetails>,
    label: Seq<char>,
) -> Option<Seq<u8>>
    decreases encodings.len(),
{
    if encodings.len() == 0 {
        None
    } else if encodings[0].content_encoding@ == label {
        match encodings[0].sha256 {
            Some(digest) => Some(digest@),
            None => None,
        }
    } else {
        spec_remote_digest(encodings.drop_first(), label)
    }
}

/// Whether content needs no upload because the remote store holds it
/// already: the store knows the asset, serves it with the same media type,
/// and records for this very encoding the digest of the local bytes.
pub open spec fn spec_already_in_place(
    remote: Option<AssetDetails>,
    content_type: Seq<char>,
    label: Seq<char>,
    digest: Seq<u8>,
) -> bool {
    match remote {
        None => false,
        Some(details) => details.content_type@ == content_type && spec_remote_digest(
            details.encodings@,
            label,
        ) == Some(digest),
    }
}

/// Whether no two entries of `encodings` carry the same label.
pub open spec fn spec_labels_unique(encodings: Seq<AssetEncodingDetails>) -> bool {
    forall|first: int, second: int|
        0 <= first < second < encodings.len() ==> encodings[first].content_encoding@
            != encodings[second].content_encoding@
}

/// Where the labels of the remote encodings are unique, the digest recorded
/// for a label is that of the one entry with this label.
pub proof fn lemma_remote_digest_of_unique_labels(
    encodings: Seq<AssetEncodingDetails>,
    label: Seq<char>,
    at: int,
)
    requires
        spec_labels_unique(encodings),
        0 <= at < encodings.len(),
        encodings[at].content_encoding@ == label,
    ensures
        spec_remote_digest(encodings, label) == match encodings[at].sha256 {
            Some(digest) => Some(digest@),
            None => None,
        },
    decreases encodings.len(),
{
    if at > 0 {
        let rest = encodings.drop_first();
        assert(encodings[0].content_encoding@ != encodings[at].content_encoding@);
        assert(spec_labels_unique(rest)) by {
            assert forall|first: int, second: int| 0 <= first < second < rest.len() implies rest[first].content_encoding@
                != rest[second].content_encoding@ by {
                assert(rest[first] == encodings[first + 1]);
                assert(rest[second] == encodings[second + 1]);
            }
        }
        lemma_remote_digest_of_unique_labels(rest, label, at - 1);
    }
}

/// No digest is recorded for a label that no entry carries.
pub proof fn lemma_remote_digest_of_unknown_label(
    encodings: Seq<AssetEncodingDetails>,
    label: Seq<char>,
)
    requires
        forall|at: int| 0 <= at < encodings.len() ==> encodings[at].content_encoding@ != label,
    ensures
        spec_remote_digest(encodings, label) is None,
    decreases encodings.len(),
{
    if encodings.len() > 0 {
        let rest = encodings.drop_first();
        assert forall|at: int| 0 <= at < rest.len() implies rest[at].content_encoding@
            != label by {
            assert(rest[at] == encodings[at + 1]);
        }
        lemma_remote_digest_of_unknown_label(rest, label);
    }
}

/// An encoding is in place if and only if the media types agree and the
/// remote digest for this exact label is the local digest. A mismatch of the
/// type, of the label or of the digest each makes it not in place, and so
/// does an asset that the remote store does not know.
pub proof fn lemma_already_in_place_iff(
    remote: Option<AssetDetails>,
    content_type: Seq<char>,
    label: Seq<char>,
    digest: Seq<u8>,
)
    ensures
        spec_already_in_place(remote, content_type, label, digest) <==> (remote is Some
            && remote->0.content_type@ == content_type && spec_remote_digest(
            remote->0.encodings@,
            label,
        ) == Some(digest)),
        remote is None ==> !spec_already_in_place(remote, content_type, label, digest),
        remote is Some && remote->0.content_type@ != content_type ==> !spec_already_in_place(
            remote,
            content_type,
            label,
            digest,
        ),
        remote is Some && spec_remote_digest(remote->0.encodings@, label) != Some(digest)
            ==> !spec_already_in_place(remote, content_type, label, digest),
{
}

/// Looks up the digest that the remote store records for the encoding
/// `label` of an asset.
pub fn remote_digest<'a>(details: &'a AssetDetails, label: &str) -> (digest: Option<&'a Vec<u8>>)
    ensures
        match digest {
            Some(bytes) => spec_remote_digest(details.encodings@, label@) == Some(bytes@),
            None => spec_remote_digest(details.encodings@, label@) is None,
        },
{
    let mut index: usize = 0;
    assert(details.encodings@.skip(0) =~= details.encodings@);
    while index < details.encodings.len()
        invariant
            index <= details.encodings@.len(),
            spec_remote_digest(details.encodings@, label@) == spec_remote_digest(
                details.encodings@.skip(index as int),
                label@,
            ),
        decreases details.encodings@.len() - index,
    {
        let entry = &details.encodings[index];
        proof {
            let rest = details.encodings@.skip(index as int);
            assert(rest[0] == details.encodings@[index as int]);
            assert(rest.drop_first() =~= details.encodings@.skip(index + 1));
        }
        if str_equal(entry.content_encoding.as_str(), label) {
            return match &entry.sha256 {
                Some(bytes) => Some(bytes),
                None => None,
            };
        }
        index = index + 1;
    }
    assert(details.encodings@.skip(index as int).len() == 0);
    None
}

/// Decides whether an encoding with digest `sha256` of an asset with
/// `media_type` is already held by the remote store, given what the store
/// publishes under the asset's key.
pub fn already_in_place(
    remote: Option<&AssetDetails>,
    media_type: &MediaType,
    content_encoding: &str,
    sha256: &[u8],
) -> (in_place: bool)
    ensures
        in_place == spec_already_in_place(
            match remote {
                Some(details) => Some(*details),
                None => None,
            },
            media_type.text@,
            content_encoding@,
            sha256@,
        ),
{
    match remote {
        None => false,
        Some(details) => {
            if !str_equal(details.content_type.as_str(), media_type.text.as_str()) {
                false
            } else {
                match remote_digest(details, content_encoding) {
                    Some(bytes) => bytes_equal(bytes.as_slice(), sha256),
                    None => false,
                }
            }
        },
    }
}

/// What the remote store publishes, by asset key. It is read and never
/// changed while assets are uploaded.
pub struct RemoteSnapshot {
    assets: StringHashMap<AssetDetails>,
}

impl View for RemoteSnapshot {
    type V = Map<Seq<char>, AssetDetails>;

    closed spec fn view(&self) -> Map<Seq<char>, AssetDetails> {
        self.assets@
    }
}

impl RemoteSnapshot {
    /// The details published under `key`, if there are any.
    pub open spec fn spec_get(&self, key: Seq<char>) -> Option<AssetDetails> {
        if self@.contains_key(key) {
            Some(self@[key])
        } else {
            None
        }
    }

    /// A snapshot of a remote store that publishes nothing.
    pub fn new() -> (snapshot: RemoteSnapshot)
        ensures
            snapshot@ == Map::<Seq<char>, AssetDetails>::empty(),
    {
        RemoteSnapshot { assets: StringHashMap::new() }
    }

    /// Records what the remote store publishes under `key`, in place of what
    /// was recorded under this key before.
    pub fn insert(&mut self, key: String, details: AssetDetails)
        ensures
            final(self)@ == old(self)@.insert(key@, details),
    {
        self.assets.insert(key, details);
    }

    /// The number of assets that the remote store publishes.
    pub fn len(&self) -> (len: usize)
        ensures
            len == self@.len(),
    {
        self.assets.len()
    }

    /// Looks up what the remote store publishes under `key`.
    pub fn get<'a>(&'a self, key: &str) -> (details: Option<&'a AssetDetails>)
        ensures
            match details {
                Some(found) => self.spec_get(key@) == Some(*found),
                None => self.spec_get(key@) is None,
            },
    {
        self.assets.get(key)
    }
}

} // verus!
