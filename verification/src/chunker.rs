//! The chunks of one file: its diff is split into hunks, the hunks are
//! grouped, and each group becomes a chunk with the narration that the
//! language model gave for it.

use crate::grouping::{
    group_views, llm_group_hunks, single_group, spec_llm_group_hunks, spec_single_group,
};
use crate::hunks::{hunk_views, parse_hunks, spec_hunks};
use crate::narration::{narrated_chunk, spec_narrated_chunk, ModelReply, ModelReplyView};
use crate::text::spec_lines;
use crate::types::{chunk_views, DiffChunk, DiffChunkView, VoiceoverConfig};
use vstd::prelude::*;

verus! {

/// Why a file has no chunks.
#[derive(Debug, Clone, Copy, PartialEq, Eq, Structural)]
pub enum ChunkingError {
    /// There is no key for the language model.
    MissingApiKey,
    /// The request for the groups failed, or was answered without text.
    GroupingFailed,
}

/// What each of `replies` is, as mathematical values.
pub open spec fn reply_views(replies: Seq<ModelReply>) -> Seq<ModelReplyView> {
    Seq::new(replies.len(), |i: int| replies[i]@)
}

/// The groups of a file with `hunk_count` hunks. A file with at most one
/// hunk is one group, whatever `grouping` is: the language model is not
/// asked. Else `grouping` tells how the request for the groups ended.
pub open spec fn spec_file_groups(hunk_count: nat, grouping: ModelReplyView) -> Result<
    Seq<Seq<usize>>,
    ChunkingError,
> {
    match spec_single_group(hunk_count) {
        Some(groups) => Ok(groups),
        None => match grouping {
            ModelReplyView::Text(content) => Ok(
                spec_llm_group_hunks(content, hunk_count),
            ),
            _ => Err(ChunkingError::GroupingFailed),
        },
    }
}

/// The chunks of the first `count` of `groups`. The narration of the group
/// of number `i` is `narrations[i]`; a group whose narration failed or is
/// missing has no chunk. A chunk's number is that of its group.
pub open spec fn spec_narrated_chunks(
    filename: Seq<char>,
    groups: Seq<Seq<usize>>,
    narrations: Seq<ModelReplyView>,
    count: nat,
) -> Seq<DiffChunkView>
    decreases count,
{
    if count == 0 {
        Seq::empty()
    } else {
        let before = spec_narrated_chunks(filename, groups, narrations, (count - 1) as nat);
        let i = count - 1;
        if i < groups.len() && i < narrations.len() {
            match narrations[i] {
                ModelReplyView::Text(content) => before.push(
                    spec_narrated_chunk(i as usize, filename, groups[i], content),
                ),
                _ => before,
            }
        } else {
            before
        }
    }
}

/// The chunks of the file `filename` with the diff `diff`, given how the
/// requests to the language model ended.
pub open spec fn spec_split_diff(
    has_key: bool,
    filename: Seq<char>,
    diff: Seq<char>,
    grouping: ModelReplyView,
    narrations: Seq<ModelReplyView>,
) -> Result<Seq<DiffChunkView>, ChunkingError> {
    if !has_key {
        Err(ChunkingError::MissingApiKey)
    } else {
        match spec_file_groups(spec_hunks(spec_lines(diff)).len(), grouping) {
            Err(error) => Err(error),
            Ok(groups) => Ok(spec_narrated_chunks(filename, groups, narrations, groups.len())),
        }
    }
}

/// The groups of a file with `hunk_count` hunks, given how the request for
/// them ended. For a file with at most one hunk no request is made, and
/// `grouping` is not looked at.
pub fn file_groups(hunk_count: usize, grouping: &ModelReply) -> (groups: Result<
    Vec<Vec<usize>>,
    ChunkingError,
>)
    ensures
        match groups {
            Ok(made) => spec_file_groups(hunk_count as nat, grouping@) == Ok::<
                Seq<Seq<usize>>,
                ChunkingError,
            >(group_views(made@)),
            Err(error) => spec_file_groups(hunk_count as nat, grouping@) == Err::<
                Seq<Seq<usize>>,
                ChunkingError,
            >(error),
        },
        hunk_count == 1 ==> groups is Ok && group_views(groups->Ok_0@) == seq![seq![0usize]],
{
    match single_group(hunk_count) {
        Some(groups) => Ok(groups),
        None => match grouping {
            ModelReply::Text(content) => Ok(llm_group_hunks(content.as_str(), hunk_count)),
            _ => Err(ChunkingError::GroupingFailed),
        },
    }
}

/// The chunks of the file `filename` with the diff `diff`. `grouping` tells
/// how the request for the groups of its hunks ended, and `narrations` how
/// the request for the narration of each group ended, in the order of the
/// groups. A group without narration has no chunk; the others are numbered
/// as their groups are.
pub fn split_diff_into_chunks(
    config: &VoiceoverConfig,
    filename: &str,
    diff: &str,
    grouping: &ModelReply,
    narrations: &Vec<ModelReply>,
) -> (chunks: Result<Vec<DiffChunk>, ChunkingError>)
    ensures
        match chunks {
            Ok(made) => spec_split_diff(
                config.openai_api_key is Some,
                filename@,
                diff@,
                grouping@,
                reply_views(narrations@),
            ) == Ok::<Seq<DiffChunkView>, ChunkingError>(chunk_views(made@)),
            Err(error) => spec_split_diff(
                config.openai_api_key is Some,
                filename@,
                diff@,
                grouping@,
                reply_views(narrations@),
            ) == Err::<Seq<DiffChunkView>, ChunkingError>(error),
        },
{
    if config.openai_api_key.is_none() {
        return Err(ChunkingError::MissingApiKey);
    }
    let parsed = parse_hunks(diff);
    assert(hunk_views(parsed.0@).len() == parsed.0.len());
    let groups = match file_groups(parsed.0.len(), grouping) {
        Ok(groups) => groups,
        Err(error) => {
            return Err(error);
        },
    };
    let ghost target = group_views(groups@);
    let ghost told = reply_views(narrations@);
    let mut chunks: Vec<DiffChunk> = Vec::new();
    let mut i: usize = 0;
    while i < groups.len()
        invariant
            i <= groups.len(),
            target == group_views(groups@),
            told == reply_views(narrations@),
            chunk_views(chunks@) == spec_narrated_chunks(filename@, target, told, i as nat),
        decreases groups.len() - i,
    {
        if i < narrations.len() {
            match &narrations[i] {
                ModelReply::Text(content) => {
                    let chunk = narrated_chunk(i, filename, &groups[i], content.as_str());
                    proof {
                        assert(told[i as int] == ModelReplyView::Text(content@));
                        assert(chunk_views(chunks@.push(chunk)) == chunk_views(chunks@).push(
                            chunk@,
                        ));
                    }
                    chunks.push(chunk);
                },
                _ => {
                    assert(!(told[i as int] is Text));
                },
            }
        }
        i += 1;
    }
    assert(target.len() == groups.len());
    Ok(chunks)
}

} // verus!
