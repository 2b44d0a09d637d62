//! JSON and base64 as the services speak them. Reading and writing both is
//! left to `serde_json` and `base64`; this module states what the rest of the
//! library relies on.

use base64::Engine;
use vstd::prelude::*;

verus! {

/// What an answer to a grouping request holds, read as JSON.
#[derive(Debug)]
pub enum GroupingReply {
    /// The text is no JSON value.
    Malformed,
    /// The value has no array under the key that was asked for.
    NoGroups,
    /// The entries of the array under that key, in order. An entry that is
    /// no array is `None`; of one that is, each item is `None` unless it is
    /// an integer that a `u64` holds.
    Groups(Vec<Option<Vec<Option<u64>>>>),
}

/// A `GroupingReply` as mathematical values.
pub enum GroupingReplyView {
    Malformed,
    NoGroups,
    Groups(Seq<Option<Seq<Option<u64>>>>),
}

/// The entries of a grouping answer as mathematical values.
pub open spec fn entry_views(entries: Seq<Option<Vec<Option<u64>>>>) -> Seq<
    Option<Seq<Option<u64>>>,
> {
    Seq::new(
        entries.len(),
        |i: int|
            match entries[i] {
                Some(items) => Some(items@),
                None => None,
            },
    )
}

impl View for GroupingReply {
    type V = GroupingReplyView;

    open spec fn view(&self) -> GroupingReplyView {
        match self {
            GroupingReply::Malformed => GroupingReplyView::Malformed,
            GroupingReply::NoGroups => GroupingReplyView::NoGroups,
            GroupingReply::Groups(entries) => GroupingReplyView::Groups(entry_views(entries@)),
        }
    }
}

/// What the body of a speech answer holds, read as JSON.
#[derive(Debug)]
pub enum AudioEnvelope {
    /// The bytes are no JSON value.
    Malformed,
    /// The value has no string under the key that was asked for.
    NoAudio,
    /// The string under that key.
    Audio(String),
}

/// An `AudioEnvelope` as mathematical values.
pub enum AudioEnvelopeView {
    Malformed,
    NoAudio,
    Audio(Seq<char>),
}

impl View for AudioEnvelope {
    type V = AudioEnvelopeView;

    open spec fn view(&self) -> AudioEnvelopeView {
        match self {
            AudioEnvelope::Malformed => AudioEnvelopeView::Malformed,
            AudioEnvelope::NoAudio => AudioEnvelopeView::NoAudio,
            AudioEnvelope::Audio(text) => AudioEnvelopeView::Audio(text@),
        }
    }
}

/// The error of `base64`'s decoders.
#[verifier::external_type_specification]
#[verifier::external_body]
pub struct ExDecodeError(base64::DecodeError);

/// What `serde_json` reads from `text` as a grouping answer whose groups
/// stand under the key `key`.
pub uninterp spec fn grouping_reply_json(text: Seq<char>, key: Seq<char>) -> GroupingReplyView;

/// What `serde_json` reads from `text` as an array of unsigned integers:
/// `None` where it is none.
pub uninterp spec fn index_list_json(text: Seq<char>) -> Option<Seq<u64>>;

/// What `serde_json` reads from `body` as the envelope of a speech answer
/// whose audio stands under the key `key`.
pub uninterp spec fn audio_envelope_json(body: Seq<u8>, key: Seq<char>) -> AudioEnvelopeView;

/// `text` as `serde_json` writes a JSON string: in double quotes, escaped.
pub uninterp spec fn json_string_literal(text: Seq<char>) -> Seq<char>;

/// The bytes that `text` stands for in standard base64 with padding: `None`
/// where it is no such encoding.
pub uninterp spec fn base64_decoded(text: Seq<char>) -> Option<Seq<u8>>;

/// Reads `text` with `serde_json::from_str` and hands out what a grouping
/// answer is read for: the arrays under the key `key` and their unsigned
/// items. The result is `serde_json`'s reading of `text` at `key`, which
/// depends on nothing else.
#[verifier::external_body]
pub(crate) fn parse_grouping_reply(text: &str, key: &str) -> (reply: GroupingReply)
    ensures
        reply@ == grouping_reply_json(text@, key@),
{
    match serde_json::from_str::<serde_json::Value>(text) {
        Err(_) => GroupingReply::Malformed,
        Ok(value) => match value[key].as_array() {
            None => GroupingReply::NoGroups,
            Some(entries) => GroupingReply::Groups(
                entries.iter().map(|e| e.as_array().map(|a| a.iter().map(|n| n.as_u64()).collect())).collect(),
            ),
        },
    }
}

/// Reads `text` with `serde_json::from_str` as an array of `u64`. It is
/// `Some` exactly where `serde_json` accepts `text` as such an array.
#[verifier::external_body]
pub(crate) fn parse_index_list(text: &str) -> (list: Option<Vec<u64>>)
    ensures
        match list {
            Some(items) => index_list_json(text@) == Some(items@),
            None => index_list_json(text@) is None,
        },
{
    serde_json::from_str::<Vec<u64>>(text).ok()
}

/// Reads `body` with `serde_json::from_slice` and hands out the string under
/// the key `key`.
#[verifier::external_body]
pub(crate) fn parse_audio_envelope(body: &Vec<u8>, key: &str) -> (envelope: AudioEnvelope)
    ensures
        envelope@ == audio_envelope_json(body@, key@),
{
    match serde_json::from_slice::<serde_json::Value>(body.as_slice()) {
        Err(_) => AudioEnvelope::Malformed,
        Ok(value) => match value[key].as_str() {
            None => AudioEnvelope::NoAudio,
            Some(text) => AudioEnvelope::Audio(text.to_owned()),
        },
    }
}

/// Writes `text` as a JSON string, as `serde_json` displays the value
/// `Value::String`.
#[verifier::external_body]
pub(crate) fn quote_json(text: &str) -> (literal: String)
    ensures
        literal@ == json_string_literal(text@),
{
    serde_json::Value::String(text.to_owned()).to_string()
}

/// Decodes `text` with `base64`'s `STANDARD` engine. It succeeds exactly on
/// the texts that are standard base64 with padding, and then gives the bytes
/// they stand for.
#[verifier::external_body]
pub(crate) fn decode_base64(text: &str) -> (decoded: Result<Vec<u8>, base64::DecodeError>)
    ensures
        match decoded {
            Ok(bytes) => base64_decoded(text@) == Some(bytes@),
            Err(_) => base64_decoded(text@) is None,
        },
{
    base64::engine::general_purpose::STANDARD.decode(text)
}

} // verus!
