//! The order in which the files of a commit are narrated: the order that the
//! language model proposes, as far as it names files that exist, and after
//! it the files that it left out.

use crate::grouping::{
    accept_items, accepted, all_hunks, below, is_claimed, leftover, lemma_accepted,
    lemma_below_len, lemma_push_claims, lemma_unclaimed, unclaimed,
};
use crate::narration::{chat_request, ChatRequest, ChatRequestView, ModelReply, ModelReplyView};
use crate::text::{
    from_chars, join, lines, prefix, push_chars, push_decimal, push_str_chars, spec_decimal,
    spec_join, spec_lines, spec_prefix, spec_trim, to_chars, trim, views,
};
use crate::types::{
    file_views, FileChange, FileChangeView, FileStatus, ProjectContext, ProjectContextView,
    VoiceoverConfig,
};
use crate::wire::{index_list_json, parse_index_list};
use std::collections::HashSet;
use vstd::prelude::*;

verus! {

/// The temperature of an ordering request, in hundredths.
pub const ORDERING_TEMPERATURE_PERCENT: u32 = 20;

/// The most tokens that an ordering answer may have.
pub const ORDERING_TOKENS: u32 = 128;

/// How much of the project's description an ordering request quotes, in
/// characters.
pub const ORDERING_DESCRIPTION_CHARS: usize = 200;

/// Each of `indices` as an item that may or may not be a number.
pub open spec fn as_items(indices: Seq<u64>) -> Seq<Option<u64>> {
    Seq::new(indices.len(), |i: int| Some(indices[i]))
}

/// The files that `indices` name among `count` files, in the order in which
/// they are first named. A number that names no file is passed over, and so
/// is one that was named before.
pub open spec fn named_files(indices: Seq<u64>, count: nat) -> Seq<usize> {
    accepted(as_items(indices), count, Seq::empty())
}

/// The order that `indices` stand for among `count` files: the files they
/// name, and after them the files they leave out, in their own order.
pub open spec fn spec_file_order(indices: Seq<u64>, count: nat) -> Seq<usize> {
    let named = named_files(indices, count);
    named + unclaimed(seq![named], count)
}

/// `files` in the order `order`.
pub open spec fn arranged(files: Seq<FileChangeView>, order: Seq<usize>) -> Seq<FileChangeView> {
    Seq::new(order.len(), |k: int| files[order[k] as int])
}

/// The files in the order that the model's answer asks for. Where the
/// request failed, the answer has no text, or the text, trimmed, is no JSON
/// array of unsigned integers, the files stay as they are.
pub open spec fn spec_ordered(files: Seq<FileChangeView>, reply: ModelReplyView) -> Seq<
    FileChangeView,
> {
    match reply {
        ModelReplyView::Text(content) => match index_list_json(spec_trim(content)) {
            Some(indices) => arranged(files, spec_file_order(indices, files.len())),
            None => files,
        },
        _ => files,
    }
}

/// A sequence without repetition that holds exactly the numbers below
/// `count` has `count` items.
pub proof fn lemma_exact_cover_len(items: Seq<usize>, count: nat)
    requires
        count <= usize::MAX,
        items.no_duplicates(),
        forall|x: usize| #[trigger] items.contains(x) <==> x < count,
    ensures
        items.len() == count,
{
    lemma_below_len(count);
    items.unique_seq_to_set();
    assert(items.to_set() =~= below(count));
}

/// Whatever the model answers, the order made of it is a rearrangement of
/// the files: it names each of the `count` files exactly once.
pub proof fn lemma_file_order_is_rearrangement(indices: Seq<u64>, count: nat)
    requires
        count <= usize::MAX,
    ensures
        spec_file_order(indices, count).len() == count,
        spec_file_order(indices, count).no_duplicates(),
        forall|k: int|
            0 <= k < count ==> (#[trigger] spec_file_order(indices, count)[k]) < count,
        forall|x: usize| x < count ==> #[trigger] spec_file_order(indices, count).contains(x),
{
    let named = named_files(indices, count);
    let rest = unclaimed(seq![named], count);
    let order = named + rest;
    lemma_accepted(as_items(indices), count, Seq::empty());
    lemma_unclaimed(seq![named], count);
    lemma_push_claims(Seq::empty(), named);
    assert(Seq::<Seq<usize>>::empty().push(named) == seq![named]);
    assert forall|x: usize| #[trigger] is_claimed(seq![named], x) <==> named.contains(x) by {
        assert(!is_claimed(Seq::empty(), x));
    }
    assert forall|x: usize| #[trigger] order.contains(x) <==> x < count by {
        if named.contains(x) {
            let k = choose|k: int| 0 <= k < named.len() && named[k] == x;
            assert(order[k] == x);
        }
        if rest.contains(x) {
            let k = choose|k: int| 0 <= k < rest.len() && rest[k] == x;
            assert(order[named.len() + k] == x);
        }
        if order.contains(x) {
            let k = choose|k: int| 0 <= k < order.len() && order[k] == x;
            if k < named.len() {
                assert(named[k] == x);
            } else {
                assert(rest[k - named.len()] == x);
                assert(rest.contains(x));
            }
        }
        if x < count && !named.contains(x) {
            assert(rest.contains(x));
        }
    }
    assert forall|i: int, j: int|
        0 <= i < named.len() && 0 <= j < rest.len() implies named[i] != rest[j] by {
        assert(named.contains(named[i]));
        assert(rest.contains(rest[j]));
    }
    vstd::seq_lib::lemma_no_dup_in_concat(named, rest);
    lemma_exact_cover_len(order, count);
    assert forall|k: int| 0 <= k < count implies (#[trigger] order[k]) < count by {
        assert(order.contains(order[k]));
    }
}

/// The order that `indices` stand for among `count` files.
pub fn file_order(indices: &Vec<u64>, count: usize) -> (order: Vec<usize>)
    ensures
        order@ == spec_file_order(indices@, count as nat),
        order.len() == count,
        forall|k: int| 0 <= k < order.len() ==> (#[trigger] order@[k]) < count,
{
    let mut items: Vec<Option<u64>> = Vec::new();
    let mut i: usize = 0;
    while i < indices.len()
        invariant
            i <= indices.len(),
            items@ == as_items(indices@.take(i as int)),
        decreases indices.len() - i,
    {
        items.push(Some(indices[i]));
        assert(items@ == as_items(indices@.take(i + 1)));
        i += 1;
    }
    assert(indices@.take(indices.len() as int) == indices@);
    let mut used: HashSet<usize> = HashSet::new();
    assert forall|hunk: usize| hunk < count implies #[trigger] used@.contains(hunk) == is_claimed(
        Seq::empty(),
        hunk,
    ) by {}
    let ghost none = Seq::<Seq<usize>>::empty();
    let mut order = accept_items(&items, &mut used, count, Ghost(none));
    let ghost named = order@;
    proof {
        lemma_push_claims(Seq::empty(), named);
        assert(Seq::<Seq<usize>>::empty().push(named) == seq![named]);
        assert forall|hunk: usize| hunk < count implies #[trigger] used@.contains(hunk)
            == is_claimed(seq![named], hunk) by {
            assert(!is_claimed(Seq::empty(), hunk));
        }
    }
    let ghost one = seq![named];
    let mut rest = leftover(&used, count, Ghost(one));
    order.append(&mut rest);
    proof {
        lemma_file_order_is_rearrangement(indices@, count as nat);
    }
    order
}

/// `files` in the order `order`.
fn arrange(files: &Vec<FileChange>, order: &Vec<usize>) -> (ordered: Vec<FileChange>)
    requires
        forall|j: int| 0 <= j < order.len() ==> (#[trigger] order@[j]) < files.len(),
    ensures
        file_views(ordered@) == arranged(file_views(files@), order@),
        ordered.len() == order.len(),
{
    let ghost target = arranged(file_views(files@), order@);
    let mut ordered: Vec<FileChange> = Vec::new();
    let mut k: usize = 0;
    while k < order.len()
        invariant
            k <= order.len(),
            ordered.len() == k,
            target == arranged(file_views(files@), order@),
            forall|j: int| 0 <= j < order.len() ==> (#[trigger] order@[j]) < files.len(),
            file_views(ordered@) == target.take(k as int),
        decreases order.len() - k,
    {
        let file = files[order[k]].duplicate();
        proof {
            assert(file_views(ordered@.push(file)) == file_views(ordered@).push(file@));
            assert(target.take(k + 1) == target.take(k as int).push(file@));
        }
        ordered.push(file);
        k += 1;
    }
    assert(target.take(order.len() as int) == target);
    ordered
}

/// Files arranged in their own order stay as they are.
proof fn lemma_arranged_in_own_order(files: Seq<FileChangeView>)
    requires
        files.len() <= usize::MAX,
    ensures
        arranged(files, all_hunks(files.len())) == files,
{
}

/// The files in the order that the model's answer asks for: in their own
/// order unless the answer is a JSON array of numbers.
pub fn order_files_by_development_flow(files: &Vec<FileChange>, reply: &ModelReply) -> (ordered:
    Vec<FileChange>)
    ensures
        file_views(ordered@) == spec_ordered(file_views(files@), reply@),
        ordered.len() == files.len(),
        !(reply is Text) ==> file_views(ordered@) == file_views(files@),
{
    proof {
        assert(file_views(files@).len() == files.len());
        lemma_arranged_in_own_order(file_views(files@));
    }
    match reply {
        ModelReply::Text(content) => {
            let trimmed = from_chars(&trim(&to_chars(content.as_str())));
            match parse_index_list(trimmed.as_str()) {
                Some(indices) => {
                    let order = file_order(&indices, files.len());
                    arrange(files, &order)
                },
                None => arrange(files, &identity_order(files.len())),
            }
        },
        _ => arrange(files, &identity_order(files.len())),
    }
}

/// The numbers below `count`, in order.
fn identity_order(count: usize) -> (order: Vec<usize>)
    ensures
        order@ == all_hunks(count as nat),
        order.len() == count,
        forall|k: int| 0 <= k < order.len() ==> (#[trigger] order@[k]) < count,
{
    crate::grouping::hunk_range(count)
}

/// Whether `order` names each of `count` files exactly once.
pub open spec fn is_rearrangement(order: Seq<usize>, count: nat) -> bool {
    &&& order.len() == count
    &&& order.no_duplicates()
    &&& forall|k: int| 0 <= k < order.len() ==> (#[trigger] order[k]) < count
}

/// Whatever the model answers, the ordered files are the files that were
/// given, each once, in some order; and where the request failed they are
/// the files in the order given.
pub proof fn lemma_ordered_is_rearrangement(files: Seq<FileChangeView>, reply: ModelReplyView)
    requires
        files.len() <= usize::MAX,
    ensures
        spec_ordered(files, reply).len() == files.len(),
        exists|order: Seq<usize>| #[trigger]
            is_rearrangement(order, files.len()) && spec_ordered(files, reply) == arranged(
                files,
                order,
            ),
        reply is Failed ==> spec_ordered(files, reply) == files,
{
    let own = all_hunks(files.len());
    lemma_arranged_in_own_order(files);
    assert(is_rearrangement(own, files.len()));
    match reply {
        ModelReplyView::Text(content) => match index_list_json(spec_trim(content)) {
            Some(indices) => {
                lemma_file_order_is_rearrangement(indices, files.len());
                assert(is_rearrangement(spec_file_order(indices, files.len()), files.len()));
            },
            None => {},
        },
        _ => {},
    }
}

/// How a change of the kind `status` is called in an ordering request.
pub open spec fn spec_status_word(status: FileStatus) -> Seq<char> {
    match status {
        FileStatus::Added => "new file"@,
        FileStatus::Deleted => "deleted"@,
        FileStatus::Modified => "modified"@,
        FileStatus::Renamed => "renamed"@,
        FileStatus::Copied => "copied"@,
        FileStatus::Unmodified => "unchanged"@,
    }
}

/// The line of an ordering request for the file of number `index`.
pub open spec fn spec_file_entry(index: nat, file: FileChangeView) -> Seq<char> {
    spec_decimal(index) + ": "@ + file.path + " ("@ + spec_status_word(file.status) + ", "@
        + spec_decimal(spec_lines(file.diff).len()) + " diff lines)"@
}

/// The lines of an ordering request for `files`, one for each.
pub open spec fn spec_file_list(files: Seq<FileChangeView>) -> Seq<Seq<char>> {
    Seq::new(files.len(), |i: int| spec_file_entry(i as nat, files[i]))
}

/// What the language model is asked for the order of `files`.
pub open spec fn spec_ordering_prompt(
    context: ProjectContextView,
    commit_message: Seq<char>,
    files: Seq<FileChangeView>,
) -> Seq<char> {
    "You are ordering files for a code walkthrough narration.\n\nPROJECT: "@ + context.repo_name
        + " - "@ + spec_prefix(context.description, ORDERING_DESCRIPTION_CHARS as nat)
        + "\nCOMMIT: \""@ + commit_message + "\"\n\nFILES:\n"@ + spec_join(
        spec_file_list(files),
        "\n"@,
    )
        + "\n\nOrder these files by how a developer would logically write them:\n- Config/setup files first\n- Type definitions and data models next\n- Core logic and business rules\n- Integration points (API calls, database)\n- UI/presentation last\n- New files before modifications\n- Dependencies before dependents\n\nRespond with ONLY a JSON array of the file indices. Example: [2, 0, 3, 1]"@
}

/// The request for the order of `files`: none where there is at most one
/// file, or no key for the language model.
pub open spec fn spec_ordering_request(
    has_key: bool,
    context: ProjectContextView,
    commit_message: Seq<char>,
    files: Seq<FileChangeView>,
) -> Option<ChatRequestView> {
    if files.len() <= 1 || !has_key {
        None
    } else {
        Some(
            ChatRequestView {
                model: crate::narration::spec_model_name(),
                prompt: spec_ordering_prompt(context, commit_message, files),
                temperature_percent: ORDERING_TEMPERATURE_PERCENT,
                max_completion_tokens: ORDERING_TOKENS,
            },
        )
    }
}

/// The line of an ordering request for the file of number `index`.
fn file_entry(index: usize, file: &FileChange) -> (entry: String)
    ensures
        entry@ == spec_file_entry(index as nat, file@),
{
    let mut out: Vec<char> = Vec::new();
    push_decimal(&mut out, index as u128);
    push_str_chars(&mut out, ": ");
    push_str_chars(&mut out, file.path.as_str());
    push_str_chars(&mut out, " (");
    match file.status {
        FileStatus::Added => push_str_chars(&mut out, "new file"),
        FileStatus::Deleted => push_str_chars(&mut out, "deleted"),
        FileStatus::Modified => push_str_chars(&mut out, "modified"),
        FileStatus::Renamed => push_str_chars(&mut out, "renamed"),
        FileStatus::Copied => push_str_chars(&mut out, "copied"),
        FileStatus::Unmodified => push_str_chars(&mut out, "unchanged"),
    }
    push_str_chars(&mut out, ", ");
    let split = lines(file.diff.as_str());
    let count: usize = split.len();
    assert(count == spec_lines(file@.diff).len()) by {
        assert(views(split@).len() == count);
    }
    push_decimal(&mut out, count as u128);
    push_str_chars(&mut out, " diff lines)");
    assert(out@ =~= spec_file_entry(index as nat, file@));
    from_chars(&out)
}

/// The request for the order of `files`: none where there is at most one
/// file, or `config` holds no key for the language model.
pub fn ordering_request(
    config: &VoiceoverConfig,
    context: &ProjectContext,
    commit_message: &str,
    files: &Vec<FileChange>,
) -> (request: Option<ChatRequest>)
    ensures
        match request {
            Some(made) => spec_ordering_request(
                config.openai_api_key is Some,
                context@,
                commit_message@,
                file_views(files@),
            ) == Some(made@),
            None => files.len() <= 1 || config.openai_api_key is None,
        },
        request is None <==> files.len() <= 1 || config.openai_api_key is None,
{
    if files.len() <= 1 || config.openai_api_key.is_none() {
        return None;
    }
    let ghost all = file_views(files@);
    let mut entries: Vec<String> = Vec::new();
    let mut i: usize = 0;
    while i < files.len()
        invariant
            i <= files.len(),
            all == file_views(files@),
            views(entries@) == spec_file_list(all).take(i as int),
        decreases files.len() - i,
    {
        let entry = file_entry(i, &files[i]);
        proof {
            assert(views(entries@.push(entry)) == views(entries@).push(entry@));
            assert(spec_file_list(all).take(i + 1) == spec_file_list(all).take(i as int).push(
                entry@,
            ));
        }
        entries.push(entry);
        i += 1;
    }
    assert(spec_file_list(all).take(files.len() as int) == spec_file_list(all));
    let mut out: Vec<char> = Vec::new();
    push_str_chars(
        &mut out,
        "You are ordering files for a code walkthrough narration.\n\nPROJECT: ",
    );
    push_str_chars(&mut out, context.repo_name.as_str());
    push_str_chars(&mut out, " - ");
    let quoted = prefix(&to_chars(context.description.as_str()), ORDERING_DESCRIPTION_CHARS);
    push_chars(&mut out, &quoted);
    push_str_chars(&mut out, "\nCOMMIT: \"");
    push_str_chars(&mut out, commit_message);
    push_str_chars(&mut out, "\"\n\nFILES:\n");
    let listed = join(&entries, "\n");
    push_chars(&mut out, &listed);
    push_str_chars(
        &mut out,
        "\n\nOrder these files by how a developer would logically write them:\n- Config/setup files first\n- Type definitions and data models next\n- Core logic and business rules\n- Integration points (API calls, database)\n- UI/presentation last\n- New files before modifications\n- Dependencies before dependents\n\nRespond with ONLY a JSON array of the file indices. Example: [2, 0, 3, 1]",
    );
    assert(out@ =~= spec_ordering_prompt(context@, commit_message@, all));
    Some(chat_request(from_chars(&out), ORDERING_TEMPERATURE_PERCENT, ORDERING_TOKENS))
}

} // verus!
