//! What an upload run gives back: for each asset, its encodings with the
//! chunks that were created for them.

use crate::content::MediaType;
use crate::keyed::KeyedMap;
use candid::Nat;
use vstd::prelude::*;

verus! {

/// One asset to publish. It is made by whoever scans the project and is not
/// changed afterwards.
pub struct AssetDescriptor<C> {
    /// The path of the file that holds the asset.
    pub source: String,
    /// The key under which the asset is published.
    pub key: String,
    /// The configuration of the asset. It is carried along for whoever
    /// commits the upload; nothing here reads it.
    pub config: C,
}

/// One encoding of an asset, as contracts speak of it.
pub struct ProjectAssetEncodingView {
    /// The identifiers of the chunks created for the encoding, by ascending
    /// offset of their bytes.
    pub chunk_ids: Seq<Nat>,
    /// The content digest of the encoded bytes.
    pub sha256: Seq<u8>,
    /// Whether the remote store held the encoding already.
    pub already_in_place: bool,
}

/// One encoding of an asset after its upload.
pub struct ProjectAssetEncoding {
    /// The identifiers of the chunks created for the encoding, by ascending
    /// offset of their bytes. There are none where nothing was uploaded.
    pub chunk_ids: Vec<Nat>,
    /// The content digest of the encoded bytes.
    pub sha256: Vec<u8>,
    /// Whether the remote store held the encoding already.
    pub already_in_place: bool,
}

impl View for ProjectAssetEncoding {
    type V = ProjectAssetEncodingView;

    open spec fn view(&self) -> ProjectAssetEncodingView {
        ProjectAssetEncodingView {
            chunk_ids: self.chunk_ids@,
            sha256: self.sha256@,
            already_in_place: self.already_in_place,
        }
    }
}

impl ProjectAssetEncodingView {
    /// Nothing is uploaded for an encoding that is in place already.
    pub open spec fn wf(self) -> bool {
        self.already_in_place ==> self.chunk_ids.len() == 0
    }
}

/// One asset after its upload.
pub struct ProjectAsset<C> {
    /// The asset as it was handed in.
    pub asset_descriptor: AssetDescriptor<C>,
    /// The media type that was found for the asset.
    pub media_type: MediaType,
    /// The encodings of the asset, by their label.
    pub encodings: KeyedMap<ProjectAssetEncoding>,
}

} // verus!
