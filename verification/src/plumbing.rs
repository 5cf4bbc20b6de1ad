//! The decisions of an upload run, asset by asset: which encodings to
//! publish, which of them the remote store holds already, what to upload
//! for the others, and how the results add up.
//!
//! Nothing here performs a remote call. An encoding that needs one becomes a
//! [`ChunkUpload`], which the caller drives to its end; the finished steps
//! are then put together into a [`ProjectAsset`].

use crate::chunks::spec_chunk_count;
use crate::content::{
    applicable_encoders, lemma_named_label_is_not_identity, spec_applicable_encoders,
    spec_encoded, spec_encoding_accepted, Content, ContentEncoder, EncodeError, Encoding,
    MediaType, CONTENT_ENCODING_IDENTITY,
};
use crate::digest::sha256_digest;
use crate::keyed::{
    collect_keyed, lemma_collected, reversed, spec_has_key, spec_is_last_of_key, KeyedMap,
};
use crate::project::{
    AssetDescriptor, ProjectAsset, ProjectAssetEncoding, ProjectAssetEncodingView,
};
use crate::snapshot::{already_in_place, spec_already_in_place, AssetDetails, RemoteSnapshot};
use crate::upload::{spec_all_created, spec_chunk_ids, ChunkUpload};
use candid::Nat;
use vstd::pervasive::unreached;
use vstd::prelude::*;
use vstd::slice::slice_to_vec;

verus! {

/// What is left to do for one encoding of an asset.
pub enum EncodingStep {
    /// Nothing: the encoding is in place already, or nothing is uploaded in
    /// this run.
    Done(ProjectAssetEncoding),
    /// The bytes are to be uploaded in chunks.
    Upload(ChunkUpload),
}

impl EncodingStep {
    /// Whether the step is in a state that its operations keep.
    pub open spec fn wf(self) -> bool {
        match self {
            EncodingStep::Done(encoding) => encoding@.wf(),
            EncodingStep::Upload(upload) => upload.wf(),
        }
    }

    /// Whether nothing is left to do.
    pub open spec fn spec_is_finished(self) -> bool {
        match self {
            EncodingStep::Done(_) => true,
            EncodingStep::Upload(upload) => spec_all_created(upload@.slots),
        }
    }

    /// The encoding that the step ends in.
    pub open spec fn spec_finished(self) -> ProjectAssetEncodingView
        recommends
            self.spec_is_finished(),
    {
        match self {
            EncodingStep::Done(encoding) => encoding@,
            EncodingStep::Upload(upload) => ProjectAssetEncodingView {
                chunk_ids: spec_chunk_ids(upload@.slots),
                sha256: upload@.sha256,
                already_in_place: false,
            },
        }
    }

    /// The number of remote calls that the step asks for, all told.
    pub open spec fn spec_planned_calls(self) -> nat {
        match self {
            EncodingStep::Done(_) => 0,
            EncodingStep::Upload(upload) => upload@.slots.len(),
        }
    }

    /// Whether nothing is left to do.
    pub fn is_finished(&self) -> (finished: bool)
        ensures
            finished == self.spec_is_finished(),
    {
        match self {
            EncodingStep::Done(_) => true,
            EncodingStep::Upload(upload) => upload.is_complete(),
        }
    }

    /// Ends the step. A finished step gives its encoding; a step with
    /// chunks still to create is handed back as it is.
    pub fn finish(self) -> (outcome: Result<ProjectAssetEncoding, EncodingStep>)
        requires
            self.wf(),
        ensures
            outcome is Ok <==> self.spec_is_finished(),
            outcome matches Ok(encoding) ==> encoding@ == self.spec_finished(),
            outcome matches Err(step) ==> step == self,
    {
        match self {
            EncodingStep::Done(encoding) => Ok(encoding),
            EncodingStep::Upload(upload) => {
                match upload.finish() {
                    Ok(done) => Ok(
                        ProjectAssetEncoding {
                            chunk_ids: done.0,
                            sha256: done.1,
                            already_in_place: false,
                        },
                    ),
                    Err(upload) => Err(EncodingStep::Upload(upload)),
                }
            },
        }
    }
}

/// Whether `step` is what is to be done for the encoding `label` of an asset
/// whose encoded bytes are `payload`: nothing where the remote store holds
/// these bytes already or where nothing is uploaded, and otherwise an upload
/// of exactly these bytes with no call started.
pub open spec fn spec_encoding_step(
    step: EncodingStep,
    uploading: bool,
    remote: Option<AssetDetails>,
    content_type: Seq<char>,
    label: Seq<char>,
    payload: Seq<u8>,
) -> bool {
    let digest = sha256_digest(payload);
    let in_place = spec_already_in_place(remote, content_type, label, digest);
    match step {
        EncodingStep::Done(encoding) => {
            &&& in_place || !uploading
            &&& encoding@.chunk_ids.len() == 0
            &&& encoding@.sha256 == digest
            &&& encoding@.already_in_place == in_place
        },
        EncodingStep::Upload(upload) => {
            &&& !in_place
            &&& uploading
            &&& upload.wf()
            &&& upload@.payload == payload
            &&& upload@.sha256 == digest
            &&& upload.spec_started() == 0
            &&& upload@.slots.len() == spec_chunk_count(payload.len())
            &&& forall|index: int|
                0 <= index < upload@.slots.len() ==> upload@.slots[index] is Waiting
        },
    }
}

/// One encoding of an asset with what is left to do for it.
pub struct EncodingJob {
    /// The encoding.
    pub encoding: Encoding,
    /// The number of bytes of the asset in this encoding.
    pub len: usize,
    /// What is left to do.
    pub step: EncodingStep,
}

/// Whether `job` is what is to be done for `encoding` of an asset whose
/// bytes in this encoding are `payload`.
pub open spec fn spec_encoding_job(
    job: EncodingJob,
    uploading: bool,
    remote: Option<AssetDetails>,
    content_type: Seq<char>,
    encoding: Encoding,
    payload: Seq<u8>,
) -> bool {
    &&& job.encoding == encoding
    &&& job.len == payload.len()
    &&& spec_encoding_step(
        job.step,
        uploading,
        remote,
        content_type,
        encoding.spec_label(),
        payload,
    )
}

/// Whether some job of `jobs` is for the encoding with the label `label`.
pub open spec fn spec_has_label(jobs: Seq<EncodingJob>, label: Seq<char>) -> bool {
    exists|at: int| 0 <= at < jobs.len() && #[trigger] jobs[at].encoding.spec_label() == label
}

/// Whether no job of `jobs` after the one at `at` is for the same encoding.
pub open spec fn spec_is_last_of_label(jobs: Seq<EncodingJob>, at: int) -> bool {
    forall|later: int|
        at < later < jobs.len() ==> #[trigger] jobs[later].encoding.spec_label()
            != jobs[at].encoding.spec_label()
}

/// An encoding that is in place never asks for a remote call, and neither
/// does any encoding in a run that uploads nothing. An encoding that is
/// uploaded asks for one call for each of its chunks, at least one even for
/// no bytes.
pub proof fn lemma_planned_calls(
    step: EncodingStep,
    uploading: bool,
    remote: Option<AssetDetails>,
    content_type: Seq<char>,
    label: Seq<char>,
    payload: Seq<u8>,
)
    requires
        spec_encoding_step(step, uploading, remote, content_type, label, payload),
    ensures
        step.wf(),
        spec_already_in_place(remote, content_type, label, sha256_digest(payload)) ==> {
            &&& step.spec_planned_calls() == 0
            &&& step.spec_is_finished()
            &&& step.spec_finished().already_in_place
            &&& step.spec_finished().chunk_ids.len() == 0
        },
        !uploading ==> step.spec_planned_calls() == 0 && step.spec_is_finished()
            && step.spec_finished().chunk_ids.len() == 0,
        uploading && !spec_already_in_place(remote, content_type, label, sha256_digest(payload))
            ==> {
            &&& step.spec_planned_calls() == spec_chunk_count(payload.len())
            &&& step.spec_planned_calls() >= 1
            &&& !step.spec_finished().already_in_place
            &&& step.spec_finished().chunk_ids.len() == spec_chunk_count(payload.len())
        },
{
}

/// Decides what is to be done for the encoding `content_encoding` of the
/// asset `key`, whose bytes in this encoding are `content`: the digest of
/// the bytes is held against what `canister_assets` records, and the bytes
/// become an upload only where they are not in place and `uploading` is set.
pub fn make_project_asset_encoding(
    uploading: bool,
    key: &str,
    canister_assets: &RemoteSnapshot,
    content: &Content,
    content_encoding: &str,
) -> (step: EncodingStep)
    ensures
        spec_encoding_step(
            step,
            uploading,
            canister_assets.spec_get(key@),
            content.media_type.text@,
            content_encoding@,
            content.data@,
        ),
{
    let sha256 = content.sha256();
    let in_place = already_in_place(
        canister_assets.get(key),
        &content.media_type,
        content_encoding,
        sha256.as_slice(),
    );
    if in_place || !uploading {
        EncodingStep::Done(
            ProjectAssetEncoding { chunk_ids: Vec::new(), sha256, already_in_place: in_place },
        )
    } else {
        EncodingStep::Upload(ChunkUpload::new(slice_to_vec(content.data.as_slice()), sha256))
    }
}

/// Whether `data` cannot be brought into `encoding`: never for the identity
/// encoding, and for a named encoder where it fails on these bytes.
pub open spec fn spec_encoding_fails(data: Seq<u8>, encoding: Encoding) -> bool {
    match encoding {
        Encoding::Identity => false,
        Encoding::Named(encoder) => spec_encoded(data, encoder) is None,
    }
}

/// The bytes under which `data` is published in `encoding`, if it is: the
/// bytes themselves in the identity encoding, and what a named encoder makes
/// of them where that is strictly shorter.
pub open spec fn spec_representation(data: Seq<u8>, encoding: Encoding) -> Option<Seq<u8>> {
    match encoding {
        Encoding::Identity => Some(data),
        Encoding::Named(encoder) => match spec_encoded(data, encoder) {
            Some(encoded) => if spec_encoding_accepted(encoded.len(), data.len()) {
                Some(encoded)
            } else {
                None
            },
            None => None,
        },
    }
}

/// Makes the representation of `content` in the encoding `encoder` and
/// decides what is to be done for it. The identity encoding is always made
/// and cannot fail; a named encoding fails exactly where its encoder fails
/// on the bytes. What a named encoder gives is dropped unless it is strictly
/// shorter than `content`: it is then not published and nothing is uploaded
/// for it.
pub fn make_encoding(
    uploading: bool,
    key: &str,
    canister_assets: &RemoteSnapshot,
    content: &Content,
    encoder: &Encoding,
) -> (outcome: Result<Option<EncodingJob>, EncodeError>)
    ensures
        outcome is Ok <==> !spec_encoding_fails(content.data@, *encoder),
        outcome matches Ok(made) ==> match spec_representation(content.data@, *encoder) {
            Some(payload) => made matches Some(job) && spec_encoding_job(
                job,
                uploading,
                canister_assets.spec_get(key@),
                content.media_type.text@,
                *encoder,
                payload,
            ),
            None => made is None,
        },
{
    match encoder {
        Encoding::Identity => {
            let step = make_project_asset_encoding(
                uploading,
                key,
                canister_assets,
                content,
                CONTENT_ENCODING_IDENTITY,
            );
            Ok(Some(EncodingJob { encoding: Encoding::Identity, len: content.data.len(), step }))
        },
        Encoding::Named(named) => {
            let encoded = match content.encode(named) {
                Ok(encoded) => encoded,
                Err(error) => {
                    return Err(error);
                },
            };
            match content.accept_encoded(encoded) {
                Some(encoded) => {
                    let content_encoding = named.label();
                    let step = make_project_asset_encoding(
                        uploading,
                        key,
                        canister_assets,
                        &encoded,
                        content_encoding.as_str(),
                    );
                    Ok(
                        Some(
                            EncodingJob {
                                encoding: Encoding::Named(*named),
                                len: encoded.data.len(),
                                step,
                            },
                        ),
                    )
                },
                None => Ok(None),
            }
        },
    }
}

/// The encodings that are tried on content of the given type and subtype:
/// the identity encoding, always and first, and then the encoders that
/// apply.
pub open spec fn spec_candidate_encodings(type_: Seq<char>, subtype: Seq<char>) -> Seq<Encoding> {
    seq![Encoding::Identity] + spec_applicable_encoders(type_, subtype).map_values(
        |encoder: ContentEncoder| Encoding::Named(encoder),
    )
}

/// The encodings that are tried on content of `media_type`.
pub fn candidate_encodings(media_type: &MediaType) -> (encodings: Vec<Encoding>)
    ensures
        encodings@ == spec_candidate_encodings(media_type.type_@, media_type.subtype@),
{
    let encoders = applicable_encoders(media_type);
    let mut encodings: Vec<Encoding> = Vec::new();
    encodings.push(Encoding::Identity);
    let mut index: usize = 0;
    while index < encoders.len()
        invariant
            index <= encoders@.len(),
            encodings@ == seq![Encoding::Identity] + encoders@.take(index as int).map_values(
                |encoder: ContentEncoder| Encoding::Named(encoder),
            ),
        decreases encoders@.len() - index,
    {
        encodings.push(Encoding::Named(encoders[index]));
        assert(encoders@.take(index + 1) =~= encoders@.take(index as int).push(
            encoders@[index as int],
        ));
        index = index + 1;
    }
    assert(encoders@.take(index as int) =~= encoders@);
    encodings
}

/// The representations that are published of `data`, of those that
/// `encodings` give: each encoding with its bytes, in the order of the
/// encodings, without those that are dropped.
pub open spec fn spec_selected_encodings(data: Seq<u8>, encodings: Seq<Encoding>) -> Seq<
    (Encoding, Seq<u8>),
>
    decreases encodings.len(),
{
    if encodings.len() == 0 {
        Seq::empty()
    } else {
        let before = spec_selected_encodings(data, encodings.drop_last());
        match spec_representation(data, encodings.last()) {
            Some(payload) => before.push((encodings.last(), payload)),
            None => before,
        }
    }
}

/// Every representation of an asset that is published.
pub open spec fn spec_encodings(content: Content) -> Seq<(Encoding, Seq<u8>)> {
    spec_selected_encodings(
        content.data@,
        spec_candidate_encodings(content.media_type.type_@, content.media_type.subtype@),
    )
}

/// An encoding that is tried is published if and only if it has a
/// representation: the identity encoding always, and a named encoder's if
/// and only if it is strictly shorter than the bytes themselves; on a tie or
/// an increase it is absent. What is published of an encoding is its
/// representation.
pub proof fn lemma_selected_iff_represented(
    data: Seq<u8>,
    encodings: Seq<Encoding>,
    encoding: Encoding,
)
    requires
        encodings.contains(encoding),
    ensures
        (exists|at: int|
            0 <= at < spec_selected_encodings(data, encodings).len() && (
            #[trigger] spec_selected_encodings(data, encodings)[at]).0 == encoding)
            <==> spec_representation(data, encoding) is Some,
        encoding is Identity ==> spec_representation(data, encoding) == Some(data),
        encoding matches Encoding::Named(encoder) ==> (spec_representation(data, encoding)
            is Some <==> (spec_encoded(data, encoder) matches Some(encoded) && encoded.len()
            < data.len())),
    decreases encodings.len(),
{
    let selected = spec_selected_encodings(data, encodings);
    let before = spec_selected_encodings(data, encodings.drop_last());
    if spec_representation(data, encoding) is Some {
        if encodings.last() == encoding {
            assert(selected[selected.len() - 1].0 == encoding);
        } else {
            let at = choose|at: int| 0 <= at < encodings.len() && encodings[at] == encoding;
            assert(encodings.drop_last()[at] == encoding);
            lemma_selected_iff_represented(data, encodings.drop_last(), encoding);
            let found = choose|found: int|
                0 <= found < before.len() && (#[trigger] before[found]).0 == encoding;
            assert(selected[found].0 == encoding);
        }
    } else {
        assert forall|at: int| 0 <= at < selected.len() implies (#[trigger] selected[at]).0
            != encoding by {
            lemma_selected_are_represented(data, encodings, at);
        }
    }
}

/// What is published of an encoding is its representation, and the
/// encoding is one of those that were tried.
pub proof fn lemma_selected_are_represented(data: Seq<u8>, encodings: Seq<Encoding>, at: int)
    requires
        0 <= at < spec_selected_encodings(data, encodings).len(),
    ensures
        spec_representation(data, spec_selected_encodings(data, encodings)[at].0) == Some(
            spec_selected_encodings(data, encodings)[at].1,
        ),
        encodings.contains(spec_selected_encodings(data, encodings)[at].0),
        spec_selected_encodings(data, encodings).len() <= encodings.len(),
    decreases encodings.len(),
{
    let before = spec_selected_encodings(data, encodings.drop_last());
    lemma_selected_len(data, encodings);
    if at < before.len() {
        lemma_selected_are_represented(data, encodings.drop_last(), at);
        let found = choose|found: int|
            0 <= found < encodings.drop_last().len() && encodings.drop_last()[found]
                == before[at].0;
        assert(encodings[found] == before[at].0);
    } else {
        assert(encodings[encodings.len() - 1] == encodings.last());
    }
}

proof fn lemma_selected_len(data: Seq<u8>, encodings: Seq<Encoding>)
    ensures
        spec_selected_encodings(data, encodings).len() <= encodings.len(),
    decreases encodings.len(),
{
    if encodings.len() > 0 {
        lemma_selected_len(data, encodings.drop_last());
    }
}

/// The bytes themselves are always published, first and under the label of the
/// identity encoding, and no two published encodings of an asset have the
/// same label.
pub proof fn lemma_encodings_of_an_asset(content: Content)
    ensures
        spec_encodings(content).len() >= 1,
        spec_encodings(content)[0] == (Encoding::Identity, content.data@),
        spec_encodings(content).len() <= 1 + spec_applicable_encoders(
            content.media_type.type_@,
            content.media_type.subtype@,
        ).len(),
        forall|first: int, second: int|
            0 <= first < second < spec_encodings(content).len() ==> (#[trigger] spec_encodings(
                content,
            )[first]).0.spec_label() != (#[trigger] spec_encodings(content)[second]).0.spec_label(),
{
    let data = content.data@;
    let encoders = spec_applicable_encoders(
        content.media_type.type_@,
        content.media_type.subtype@,
    );
    let candidates = spec_candidate_encodings(
        content.media_type.type_@,
        content.media_type.subtype@,
    );
    let first = seq![Encoding::Identity];
    assert(first.drop_last() =~= Seq::<Encoding>::empty());
    assert(spec_selected_encodings(data, first.drop_last()).len() == 0);
    assert(spec_selected_encodings(data, first) =~= seq![(Encoding::Identity, data)]);
    lemma_named_label_is_not_identity(ContentEncoder::Gzip);
    if encoders.len() == 0 {
        assert(candidates =~= first);
    } else {
        assert(candidates =~= seq![Encoding::Identity, Encoding::Named(ContentEncoder::Gzip)]);
        assert(candidates.drop_last() =~= first);
    }
}

/// Whether some encoding that is tried on `content` cannot be made.
pub open spec fn spec_some_encoding_fails(content: Content) -> bool {
    exists|at: int|
        0 <= at < spec_candidate_encodings(
            content.media_type.type_@,
            content.media_type.subtype@,
        ).len() && spec_encoding_fails(
            content.data@,
            #[trigger] spec_candidate_encodings(
                content.media_type.type_@,
                content.media_type.subtype@,
            )[at],
        )
}

/// Where no encoder applies to the media type of an asset, no encoding of
/// it can fail.
pub proof fn lemma_nothing_fails_without_encoders(content: Content)
    requires
        spec_applicable_encoders(content.media_type.type_@, content.media_type.subtype@).len()
            == 0,
    ensures
        !spec_some_encoding_fails(content),
{
    let candidates = spec_candidate_encodings(
        content.media_type.type_@,
        content.media_type.subtype@,
    );
    assert(candidates =~= seq![Encoding::Identity]);
}

/// Decides which encodings of the asset `key` are published and what is to
/// be done for each: the bytes themselves always, and what each applicable
/// encoder makes of them where it is strictly shorter. A failing encoder
/// fails the whole asset, and nothing else does; where no encoder applies,
/// nothing can fail.
pub fn make_encodings(
    uploading: bool,
    key: &str,
    canister_assets: &RemoteSnapshot,
    content: &Content,
) -> (outcome: Result<Vec<EncodingJob>, EncodeError>)
    ensures
        outcome is Ok <==> !spec_some_encoding_fails(*content),
        spec_applicable_encoders(content.media_type.type_@, content.media_type.subtype@).len() == 0
            ==> outcome is Ok,
        outcome matches Ok(jobs) ==> {
            &&& jobs@.len() == spec_encodings(*content).len()
            &&& forall|at: int|
                0 <= at < jobs@.len() ==> spec_encoding_job(
                    #[trigger] jobs@[at],
                    uploading,
                    canister_assets.spec_get(key@),
                    content.media_type.text@,
                    spec_encodings(*content)[at].0,
                    spec_encodings(*content)[at].1,
                )
        },
{
    let encodings = candidate_encodings(&content.media_type);
    let ghost remote = canister_assets.spec_get(key@);
    let ghost content_type = content.media_type.text@;
    let mut jobs: Vec<EncodingJob> = Vec::new();
    let mut index: usize = 0;
    assert(encodings@.take(0) =~= Seq::<Encoding>::empty());
    while index < encodings.len()
        invariant
            index <= encodings@.len(),
            encodings@ == spec_candidate_encodings(
                content.media_type.type_@,
                content.media_type.subtype@,
            ),
            remote == canister_assets.spec_get(key@),
            content_type == content.media_type.text@,
            forall|at: int|
                0 <= at < index ==> !spec_encoding_fails(content.data@, #[trigger] encodings@[at]),
            jobs@.len() == spec_selected_encodings(
                content.data@,
                encodings@.take(index as int),
            ).len(),
            forall|at: int|
                0 <= at < jobs@.len() ==> spec_encoding_job(
                    #[trigger] jobs@[at],
                    uploading,
                    remote,
                    content_type,
                    spec_selected_encodings(content.data@, encodings@.take(index as int))[at].0,
                    spec_selected_encodings(content.data@, encodings@.take(index as int))[at].1,
                ),
        decreases encodings@.len() - index,
    {
        proof {
            assert(encodings@.take(index + 1).drop_last() =~= encodings@.take(index as int));
            assert(encodings@.take(index + 1).last() == encodings@[index as int]);
            if spec_applicable_encoders(
                content.media_type.type_@,
                content.media_type.subtype@,
            ).len() == 0 {
                lemma_nothing_fails_without_encoders(*content);
            }
        }
        match make_encoding(uploading, key, canister_assets, content, &encodings[index]) {
            Ok(Some(job)) => {
                jobs.push(job);
            },
            Ok(None) => {},
            Err(error) => {
                assert(spec_encoding_fails(content.data@, encodings@[index as int]));
                return Err(error);
            },
        }
        index = index + 1;
    }
    assert(encodings@.take(index as int) =~= encodings@);
    proof {
        if spec_applicable_encoders(
            content.media_type.type_@,
            content.media_type.subtype@,
        ).len() == 0 {
            lemma_nothing_fails_without_encoders(*content);
        }
    }
    Ok(jobs)
}

/// An upload that was not driven to its end.
pub struct IncompleteUpload {
    /// The label of the encoding whose chunks were not all created.
    pub label: String,
}

/// Puts the finished encodings of an asset together. Every job has to be
/// finished: the first one that is not is named and nothing is made. Of two
/// jobs for the same encoding, the later one stays.
pub fn make_project_asset<C>(
    asset_descriptor: AssetDescriptor<C>,
    media_type: MediaType,
    jobs: Vec<EncodingJob>,
) -> (outcome: Result<ProjectAsset<C>, IncompleteUpload>)
    requires
        forall|at: int| 0 <= at < jobs@.len() ==> (#[trigger] jobs@[at]).step.wf(),
    ensures
        outcome is Ok <==> forall|at: int|
            0 <= at < jobs@.len() ==> (#[trigger] jobs@[at]).step.spec_is_finished(),
        outcome matches Ok(asset) ==> {
            &&& asset.asset_descriptor == asset_descriptor
            &&& asset.media_type == media_type
            &&& asset.encodings.wf()
            &&& forall|label: Seq<char>| #[trigger]
                asset.encodings@.contains_key(label) <==> spec_has_label(jobs@, label)
            &&& forall|at: int|
                0 <= at < jobs@.len() && #[trigger] spec_is_last_of_label(jobs@, at)
                    ==> asset.encodings@.contains_key(jobs@[at].encoding.spec_label())
                    && asset.encodings@[jobs@[at].encoding.spec_label()]@
                    == jobs@[at].step.spec_finished()
            &&& forall|label: Seq<char>| #[trigger]
                asset.encodings@.contains_key(label) ==> asset.encodings@[label]@.wf()
        },
        outcome matches Err(incomplete) ==> exists|at: int|
            {
                &&& 0 <= at < jobs@.len()
                &&& !(#[trigger] jobs@[at]).step.spec_is_finished()
                &&& incomplete.label@ == jobs@[at].encoding.spec_label()
                &&& forall|before: int|
                    0 <= before < at ==> (#[trigger] jobs@[before]).step.spec_is_finished()
            },
{
    let ghost all = jobs@;
    let mut rest = reversed(jobs);
    let mut entries: Vec<(String, ProjectAssetEncoding)> = Vec::new();
    while rest.len() > 0
        invariant
            all == jobs@,
            rest@.len() + entries@.len() == all.len(),
            rest@ == all.reverse().take(rest@.len() as int),
            forall|at: int| 0 <= at < all.len() ==> (#[trigger] all[at]).step.wf(),
            forall|at: int|
                0 <= at < entries@.len() ==> {
                    &&& (#[trigger] all[at]).step.spec_is_finished()
                    &&& entries@[at].0@ == all[at].encoding.spec_label()
                    &&& entries@[at].1@ == all[at].step.spec_finished()
                },
        decreases rest@.len(),
    {
        let ghost at = entries@.len() as int;
        let ghost last = rest@.len() - 1;
        let job = rest.pop();
        assert(rest@ =~= all.reverse().take(last));
        assert(all.reverse()[last] == all[at]);
        match job {
            Some(job) => {
                assert(job == all[at]);
                let label = job.encoding.label();
                match job.step.finish() {
                    Ok(encoding) => {
                        entries.push((label, encoding));
                    },
                    Err(_) => {
                        proof {
                            assert(!all[at].step.spec_is_finished());
                            assert(label@ == all[at].encoding.spec_label());
                            assert forall|before: int| 0 <= before < at implies (
                            #[trigger] all[before]).step.spec_is_finished() by {}
                        }
                        return Err(IncompleteUpload { label });
                    },
                }
            },
            None => {
                assert(false);
            },
        }
    }
    let ghost finished = entries@;
    let encodings = collect_keyed(entries);
    proof {
        lemma_collected(finished);
        assert forall|label: Seq<char>| #[trigger]
            encodings@.contains_key(label) <==> spec_has_label(all, label) by {
            if spec_has_key(finished, label) {
                let at = choose|at: int|
                    0 <= at < finished.len() && #[trigger] finished[at].0@ == label;
                assert(all[at].encoding.spec_label() == label);
            }
            if spec_has_label(all, label) {
                let at = choose|at: int|
                    0 <= at < all.len() && #[trigger] all[at].encoding.spec_label() == label;
                assert(finished[at].0@ == label);
            }
        }
        assert forall|at: int|
            0 <= at < all.len() && #[trigger] spec_is_last_of_label(
                all,
                at,
            ) implies encodings@.contains_key(all[at].encoding.spec_label())
            && encodings@[all[at].encoding.spec_label()]@ == all[at].step.spec_finished() by {
            assert(spec_is_last_of_key(finished, at)) by {
                assert forall|later: int| at < later < finished.len() implies #[trigger] finished[later].0@
                    != finished[at].0@ by {
                    assert(all[later].encoding.spec_label() != all[at].encoding.spec_label());
                }
            }
            assert(finished[at].0@ == all[at].encoding.spec_label());
        }
        assert forall|label: Seq<char>| #[trigger]
            encodings@.contains_key(label) implies encodings@[label]@.wf() by {
            let at = choose|at: int|
                0 <= at < finished.len() && #[trigger] finished[at].0@ == label
                    && encodings@[label] == finished[at].1;
            assert(all[at].step.wf());
            assert(finished[at].1@ == all[at].step.spec_finished());
        }
    }
    Ok(ProjectAsset { asset_descriptor, media_type, encodings })
}

/// Puts the assets of a run together, by their key. Of two assets with the
/// same key, the later one stays; the keys of a project are all different.
pub fn make_project_assets<C>(project_assets: Vec<ProjectAsset<C>>) -> (assets: KeyedMap<
    ProjectAsset<C>,
>)
    ensures
        assets.wf(),
        forall|key: Seq<char>| #[trigger]
            assets@.contains_key(key) <==> exists|at: int|
                0 <= at < project_assets@.len() && (
                #[trigger] project_assets@[at]).asset_descriptor.key@ == key,
        forall|at: int|
            0 <= at < project_assets@.len() && (forall|later: int|
                at < later < project_assets@.len() ==> (
                #[trigger] project_assets@[later]).asset_descriptor.key@
                    != project_assets@[at].asset_descriptor.key@) ==> assets@.contains_key(
                (#[trigger] project_assets@[at]).asset_descriptor.key@,
            ) && assets@[project_assets@[at].asset_descriptor.key@] == project_assets@[at],
{
    let ghost all = project_assets@;
    let mut rest = reversed(project_assets);
    let mut entries: Vec<(String, ProjectAsset<C>)> = Vec::new();
    while rest.len() > 0
        invariant
            rest@.len() + entries@.len() == all.len(),
            rest@ == all.reverse().take(rest@.len() as int),
            forall|at: int|
                0 <= at < entries@.len() ==> (#[trigger] entries@[at]).0@
                    == all[at].asset_descriptor.key@ && entries@[at].1 == all[at],
        decreases rest@.len(),
    {
        let ghost at = entries@.len() as int;
        let ghost last = rest@.len() - 1;
        let asset = rest.pop();
        assert(rest@ =~= all.reverse().take(last));
        assert(all.reverse()[last] == all[at]);
        match asset {
            Some(asset) => {
                let key = asset.asset_descriptor.key.clone();
                entries.push((key, asset));
            },
            None => {
                assert(false);
            },
        }
    }
    let ghost keyed = entries@;
    let assets = collect_keyed(entries);
    proof {
        lemma_collected(keyed);
        assert forall|key: Seq<char>| #[trigger]
            assets@.contains_key(key) <==> exists|at: int|
                0 <= at < all.len() && (#[trigger] all[at]).asset_descriptor.key@ == key by {
            if spec_has_key(keyed, key) {
                let at = choose|at: int| 0 <= at < keyed.len() && #[trigger] keyed[at].0@ == key;
                assert(all[at].asset_descriptor.key@ == key);
            }
            if exists|at: int| 0 <= at < all.len() && (#[trigger] all[at]).asset_descriptor.key@ == key {
                let at = choose|at: int|
                    0 <= at < all.len() && (#[trigger] all[at]).asset_descriptor.key@ == key;
                assert(keyed[at].0@ == key);
            }
        }
        assert forall|at: int|
            0 <= at < all.len() && (forall|later: int|
                at < later < all.len() ==> (#[trigger] all[later]).asset_descriptor.key@
                    != all[at].asset_descriptor.key@) implies assets@.contains_key(
            (#[trigger] all[at]).asset_descriptor.key@,
        ) && assets@[all[at].asset_descriptor.key@] == all[at] by {
            assert(spec_is_last_of_key(keyed, at)) by {
                assert forall|later: int| at < later < keyed.len() implies #[trigger] keyed[later].0@
                    != keyed[at].0@ by {
                    assert(all[later].asset_descriptor.key@ != all[at].asset_descriptor.key@);
                }
            }
            assert(keyed[at].0@ == all[at].asset_descriptor.key@);
        }
    }
    assets
}

} // verus!

verus! {

/// Compares an asset with what the remote store holds, without uploading
/// anything: every published encoding of `content` is told with its digest
/// and with whether it is in place, and none has chunks. A failing encoder
/// fails the comparison, and nothing else does; where no encoder applies,
/// nothing can fail.
pub fn diff_project_asset<C>(
    asset_descriptor: AssetDescriptor<C>,
    canister_assets: &RemoteSnapshot,
    content: &Content,
) -> (outcome: Result<ProjectAsset<C>, EncodeError>)
    ensures
        outcome is Ok <==> !spec_some_encoding_fails(*content),
        spec_applicable_encoders(content.media_type.type_@, content.media_type.subtype@).len() == 0
            ==> outcome is Ok,
        outcome matches Ok(asset) ==> {
            &&& asset.asset_descriptor == asset_descriptor
            &&& asset.media_type == content.media_type
            &&& asset.encodings.wf()
            &&& forall|label: Seq<char>| #[trigger]
                asset.encodings@.contains_key(label) <==> exists|at: int|
                    0 <= at < spec_encodings(*content).len() && (#[trigger] spec_encodings(
                        *content,
                    )[at]).0.spec_label() == label
            &&& forall|at: int|
                0 <= at < spec_encodings(*content).len() ==> {
                    let label = (#[trigger] spec_encodings(*content)[at]).0.spec_label();
                    let digest = sha256_digest(spec_encodings(*content)[at].1);
                    &&& asset.encodings@.contains_key(label)
                    &&& asset.encodings@[label]@ == (ProjectAssetEncodingView {
                        chunk_ids: Seq::empty(),
                        sha256: digest,
                        already_in_place: spec_already_in_place(
                            canister_assets.spec_get(asset_descriptor.key@),
                            content.media_type.text@,
                            label,
                            digest,
                        ),
                    })
                }
        },
{
    let jobs = match make_encodings(false, asset_descriptor.key.as_str(), canister_assets, content) {
        Ok(jobs) => jobs,
        Err(error) => {
            return Err(error);
        },
    };
    let ghost remote = canister_assets.spec_get(asset_descriptor.key@);
    let ghost published = spec_encodings(*content);
    let ghost planned = jobs@;
    proof {
        lemma_encodings_of_an_asset(*content);
        assert forall|at: int| 0 <= at < planned.len() implies (#[trigger] planned[at]).step.wf()
            && planned[at].step.spec_is_finished() by {
            lemma_planned_calls(
                planned[at].step,
                false,
                remote,
                content.media_type.text@,
                published[at].0.spec_label(),
                published[at].1,
            );
        }
    }
    match make_project_asset(asset_descriptor, content.media_type.clone(), jobs) {
        Ok(asset) => {
            proof {
                assert forall|label: Seq<char>| #[trigger]
                    asset.encodings@.contains_key(label) <==> exists|at: int|
                        0 <= at < published.len() && (#[trigger] published[at]).0.spec_label()
                            == label by {
                    if spec_has_label(planned, label) {
                        let at = choose|at: int|
                            0 <= at < planned.len() && #[trigger] planned[at].encoding.spec_label()
                                == label;
                        assert(published[at].0.spec_label() == label);
                    }
                    if exists|at: int|
                        0 <= at < published.len() && (#[trigger] published[at]).0.spec_label()
                            == label {
                        let at = choose|at: int|
                            0 <= at < published.len() && (#[trigger] published[at]).0.spec_label()
                                == label;
                        assert(planned[at].encoding.spec_label() == label);
                    }
                }
                assert forall|at: int| 0 <= at < published.len() implies {
                    let label = (#[trigger] published[at]).0.spec_label();
                    let digest = sha256_digest(published[at].1);
                    &&& asset.encodings@.contains_key(label)
                    &&& asset.encodings@[label]@ == (ProjectAssetEncodingView {
                        chunk_ids: Seq::empty(),
                        sha256: digest,
                        already_in_place: spec_already_in_place(
                            remote,
                            content.media_type.text@,
                            label,
                            digest,
                        ),
                    })
                } by {
                    assert(spec_is_last_of_label(planned, at)) by {
                        assert forall|later: int| at < later < planned.len() implies #[trigger] planned[later].encoding.spec_label()
                            != planned[at].encoding.spec_label() by {
                            assert(published[at].0.spec_label() != published[later].0.spec_label());
                        }
                    }
                    assert(planned[at].step is Done);
                    assert(planned[at].step.spec_finished().chunk_ids =~= Seq::<Nat>::empty());
                }
            }
            Ok(asset)
        },
        Err(_) => unreached(),
    }
}

} // verus!
