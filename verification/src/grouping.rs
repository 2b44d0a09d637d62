//! Grouping the hunks of a file into chunks of narration: the groups are read
//! from the language model's answer, held to the hunks that exist, and made
//! to cover every hunk exactly once.

use crate::narration::{chat_request, spec_model_name, ChatRequest, ChatRequestView};
use crate::text::{
    from_chars, join, prefix, push_chars, push_str_chars, spec_join, spec_prefix, spec_trim,
    to_chars, trim, views,
};
use crate::types::{ProjectContext, ProjectContextView};
use crate::wire::{
    entry_views, grouping_reply_json, parse_grouping_reply, GroupingReply, GroupingReplyView,
};
use std::collections::HashSet;
use vstd::prelude::*;

verus! {

/// What each of `groups` holds.
pub open spec fn group_views(groups: Seq<Vec<usize>>) -> Seq<Seq<usize>> {
    Seq::new(groups.len(), |i: int| groups[i]@)
}

/// Whether one of `groups` names `hunk`.
pub open spec fn is_claimed(groups: Seq<Seq<usize>>, hunk: usize) -> bool {
    exists|g: int| 0 <= g < groups.len() && (#[trigger] groups[g]).contains(hunk)
}

/// The hunks `0`, `1`, up to `hunk_count`, in order.
pub open spec fn all_hunks(hunk_count: nat) -> Seq<usize> {
    Seq::new(hunk_count, |i: int| i as usize)
}

/// Whether `item` may join a group: it names a hunk that exists, that no
/// group in `earlier` names and that is not yet in `group`.
pub open spec fn is_free(
    item: Option<u64>,
    hunk_count: nat,
    earlier: Seq<Seq<usize>>,
    group: Seq<usize>,
) -> bool {
    match item {
        Some(index) => index < hunk_count && !is_claimed(earlier, index as usize)
            && !group.contains(index as usize),
        None => false,
    }
}

/// What is kept of the `items` of one group of the answer, given the groups
/// made from the `earlier` ones: the items that name a hunk not named before,
/// in order.
pub open spec fn accepted(items: Seq<Option<u64>>, hunk_count: nat, earlier: Seq<Seq<usize>>) -> Seq<
    usize,
>
    decreases items.len(),
{
    if items.len() == 0 {
        Seq::empty()
    } else {
        let before = accepted(items.drop_last(), hunk_count, earlier);
        if is_free(items.last(), hunk_count, earlier, before) {
            before.push(items.last()->0 as usize)
        } else {
            before
        }
    }
}

/// The groups made from the `entries` of an answer: for each entry that is an
/// array, what is kept of it, unless nothing is.
pub open spec fn claimed_groups(entries: Seq<Option<Seq<Option<u64>>>>, hunk_count: nat) -> Seq<
    Seq<usize>,
>
    decreases entries.len(),
{
    if entries.len() == 0 {
        Seq::empty()
    } else {
        let before = claimed_groups(entries.drop_last(), hunk_count);
        match entries.last() {
            None => before,
            Some(items) => {
                let group = accepted(items, hunk_count, before);
                if group.len() == 0 {
                    before
                } else {
                    before.push(group)
                }
            },
        }
    }
}

/// The hunks that none of `groups` names, in order.
pub open spec fn unclaimed(groups: Seq<Seq<usize>>, hunk_count: nat) -> Seq<usize> {
    all_hunks(hunk_count).filter(|hunk: usize| !is_claimed(groups, hunk))
}

/// `groups`, and after them one group of the hunks that none of them names,
/// where there is such a hunk.
pub open spec fn with_unclaimed(groups: Seq<Seq<usize>>, hunk_count: nat) -> Seq<Seq<usize>> {
    let rest = unclaimed(groups, hunk_count);
    if rest.len() == 0 {
        groups
    } else {
        groups.push(rest)
    }
}

/// The groups that an answer stands for, among `hunk_count` hunks. Where the
/// answer is no JSON, or JSON without an array under `chunks`, it is no list
/// of groups, and all hunks form one group; else its groups are taken as far
/// as they name hunks not named before, and the hunks left over form a last
/// group.
pub open spec fn spec_group_hunks(reply: GroupingReplyView, hunk_count: nat) -> Seq<Seq<usize>> {
    match reply {
        GroupingReplyView::Malformed => seq![all_hunks(hunk_count)],
        GroupingReplyView::NoGroups => seq![all_hunks(hunk_count)],
        GroupingReplyView::Groups(entries) => with_unclaimed(
            claimed_groups(entries, hunk_count),
            hunk_count,
        ),
    }
}

/// The groups of a file with at most one hunk, for which the language model
/// is not asked: one group of all its hunks. `None` where there are more.
pub open spec fn spec_single_group(hunk_count: nat) -> Option<Seq<Seq<usize>>> {
    if hunk_count <= 1 {
        Some(seq![all_hunks(hunk_count)])
    } else {
        None
    }
}

/// The hunks `0`, `1`, up to `hunk_count`, in order.
pub fn hunk_range(hunk_count: usize) -> (hunks: Vec<usize>)
    ensures
        hunks@ == all_hunks(hunk_count as nat),
{
    let mut hunks: Vec<usize> = Vec::new();
    let mut i: usize = 0;
    while i < hunk_count
        invariant
            i <= hunk_count,
            hunks@ == all_hunks(i as nat),
        decreases hunk_count - i,
    {
        hunks.push(i);
        assert(hunks@ == all_hunks((i + 1) as nat));
        i += 1;
    }
    hunks
}

/// The groups of a file with at most one hunk: one group of all its hunks,
/// decided without asking the language model. `None` where the file has more
/// hunks, and the model is to be asked.
pub fn single_group(hunk_count: usize) -> (groups: Option<Vec<Vec<usize>>>)
    ensures
        match groups {
            Some(made) => spec_single_group(hunk_count as nat) == Some(group_views(made@)),
            None => spec_single_group(hunk_count as nat) is None,
        },
        hunk_count == 1 ==> groups is Some && group_views(groups->0@) == seq![seq![0usize]],
{
    if hunk_count <= 1 {
        let mut groups: Vec<Vec<usize>> = Vec::new();
        groups.push(hunk_range(hunk_count));
        assert(group_views(groups@) == seq![all_hunks(hunk_count as nat)]);
        assert(all_hunks(1) == seq![0usize]);
        Some(groups)
    } else {
        None
    }
}

/// A sequence with one more item holds what it held, and the item.
pub proof fn lemma_push_contains(items: Seq<usize>, item: usize)
    ensures
        forall|other: usize| #[trigger]
            items.push(item).contains(other) <==> items.contains(other) || other == item,
{
    assert forall|other: usize| #[trigger]
        items.push(item).contains(other) <==> items.contains(other) || other == item by {
        if items.contains(other) {
            let k = choose|k: int| 0 <= k < items.len() && items[k] == other;
            assert(items.push(item)[k] == other);
        }
        if other == item {
            assert(items.push(item)[items.len() as int] == other);
        }
        if items.push(item).contains(other) {
            let k = choose|k: int| 0 <= k < items.push(item).len() && items.push(item)[k] == other;
            if k < items.len() {
                assert(items[k] == other);
            }
        }
    }
}

/// What is kept of the `items` of one group of the answer, among
/// `hunk_count` hunks. `used` holds the hunks that a group names, before and
/// after.
pub(crate) fn accept_items(
    items: &Vec<Option<u64>>,
    used: &mut HashSet<usize>,
    hunk_count: usize,
    Ghost(earlier): Ghost<Seq<Seq<usize>>>,
) -> (group: Vec<usize>)
    requires
        forall|hunk: usize|
            hunk < hunk_count ==> #[trigger] old(used)@.contains(hunk) == is_claimed(earlier, hunk),
    ensures
        group@ == accepted(items@, hunk_count as nat, earlier),
        forall|hunk: usize|
            hunk < hunk_count ==> #[trigger] final(used)@.contains(hunk) == (is_claimed(
                earlier,
                hunk,
            ) || group@.contains(hunk)),
{
    broadcast use vstd::std_specs::hash::group_hash_axioms;

    let mut group: Vec<usize> = Vec::new();
    let mut i: usize = 0;
    while i < items.len()
        invariant
            i <= items.len(),
            group@ == accepted(items@.take(i as int), hunk_count as nat, earlier),
            forall|hunk: usize|
                hunk < hunk_count ==> #[trigger] used@.contains(hunk) == (is_claimed(earlier, hunk)
                    || group@.contains(hunk)),
        decreases items.len() - i,
    {
        proof {
            assert(items@.take(i + 1).drop_last() == items@.take(i as int));
            assert(items@.take(i + 1).last() == items@[i as int]);
        }
        let ghost before = group@;
        let ghost used_before = used@;
        let free: bool = match items[i] {
            Some(index) => {
                if index < hunk_count as u64 {
                    used.insert(index as usize)
                } else {
                    false
                }
            },
            None => false,
        };
        assert(free == is_free(items@[i as int], hunk_count as nat, earlier, before));
        if free {
            let hunk: usize = items[i].unwrap() as usize;
            group.push(hunk);
            proof {
                lemma_push_contains(before, hunk);
            }
        } else {
            assert(used@ =~= used_before);
        }
        i += 1;
    }
    assert(items@.take(items.len() as int) == items@);
    group
}

/// One more group claims what the groups before it claimed, and what it holds.
pub proof fn lemma_push_claims(groups: Seq<Seq<usize>>, group: Seq<usize>)
    ensures
        forall|hunk: usize| #[trigger]
            is_claimed(groups.push(group), hunk) <==> is_claimed(groups, hunk) || group.contains(
                hunk,
            ),
{
    let longer = groups.push(group);
    assert forall|hunk: usize| #[trigger]
        is_claimed(longer, hunk) <==> is_claimed(groups, hunk) || group.contains(hunk) by {
        if is_claimed(groups, hunk) {
            let g = choose|g: int| 0 <= g < groups.len() && (#[trigger] groups[g]).contains(hunk);
            assert(longer[g].contains(hunk));
        }
        if group.contains(hunk) {
            assert(longer[groups.len() as int].contains(hunk));
        }
        if is_claimed(longer, hunk) {
            let g = choose|g: int| 0 <= g < longer.len() && (#[trigger] longer[g]).contains(hunk);
            if g < groups.len() {
                assert(groups[g].contains(hunk));
            }
        }
    }
}

/// The hunks left over among one more hunk.
proof fn lemma_unclaimed_step(groups: Seq<Seq<usize>>, hunk: usize)
    requires
        hunk < usize::MAX,
    ensures
        unclaimed(groups, hunk as nat + 1) == if is_claimed(groups, hunk) {
            unclaimed(groups, hunk as nat)
        } else {
            unclaimed(groups, hunk as nat).push(hunk)
        },
        unclaimed(groups, 0).len() == 0,
{
    reveal(Seq::filter);
    assert(all_hunks(hunk as nat + 1).drop_last() == all_hunks(hunk as nat));
}

/// The hunks among `hunk_count` that `used` does not hold, in order: those
/// that none of `groups` names.
pub(crate) fn leftover(
    used: &HashSet<usize>,
    hunk_count: usize,
    Ghost(groups): Ghost<Seq<Seq<usize>>>,
) -> (rest: Vec<usize>)
    requires
        forall|hunk: usize|
            hunk < hunk_count ==> #[trigger] used@.contains(hunk) == is_claimed(groups, hunk),
    ensures
        rest@ == unclaimed(groups, hunk_count as nat),
{
    broadcast use vstd::std_specs::hash::group_hash_axioms;

    let mut rest: Vec<usize> = Vec::new();
    let mut h: usize = 0;
    proof {
        lemma_unclaimed_step(groups, 0);
    }
    while h < hunk_count
        invariant
            h <= hunk_count,
            rest@ == unclaimed(groups, h as nat),
            forall|hunk: usize|
                hunk < hunk_count ==> #[trigger] used@.contains(hunk) == is_claimed(groups, hunk),
        decreases hunk_count - h,
    {
        proof {
            lemma_unclaimed_step(groups, h);
        }
        if !used.contains(&h) {
            rest.push(h);
        }
        h += 1;
    }
    rest
}

/// The groups that `reply` stands for, among `hunk_count` hunks.
pub fn groups_from_reply(reply: &GroupingReply, hunk_count: usize) -> (groups: Vec<Vec<usize>>)
    ensures
        group_views(groups@) == spec_group_hunks(reply@, hunk_count as nat),
{
    let mut groups: Vec<Vec<usize>> = Vec::new();
    match reply {
        GroupingReply::Malformed => {
            groups.push(hunk_range(hunk_count));
            assert(group_views(groups@) == seq![all_hunks(hunk_count as nat)]);
        },
        GroupingReply::NoGroups => {
            groups.push(hunk_range(hunk_count));
            assert(group_views(groups@) == seq![all_hunks(hunk_count as nat)]);
        },
        GroupingReply::Groups(entries) => {
            let ghost all = entry_views(entries@);
            let mut used: HashSet<usize> = HashSet::new();
            assert forall|hunk: usize| hunk < hunk_count implies #[trigger] used@.contains(hunk)
                == is_claimed(group_views(groups@), hunk) by {}
            let mut e: usize = 0;
            assert(group_views(groups@) == claimed_groups(all.take(0), hunk_count as nat));
            while e < entries.len()
                invariant
                    e <= entries.len(),
                    all == entry_views(entries@),
                    group_views(groups@) == claimed_groups(all.take(e as int), hunk_count as nat),
                    forall|hunk: usize|
                        hunk < hunk_count ==> #[trigger] used@.contains(hunk) == is_claimed(
                            group_views(groups@),
                            hunk,
                        ),
                decreases entries.len() - e,
            {
                proof {
                    assert(all.take(e + 1).drop_last() == all.take(e as int));
                    assert(all.take(e + 1).last() == all[e as int]);
                }
                match &entries[e] {
                    Some(items) => {
                        let ghost earlier = group_views(groups@);
                        let group = accept_items(items, &mut used, hunk_count, Ghost(earlier));
                        if group.len() > 0 {
                            proof {
                                lemma_push_claims(earlier, group@);
                                assert(group_views(groups@.push(group)) == earlier.push(group@));
                            }
                            groups.push(group);
                        } else {
                            assert(forall|hunk: usize| !group@.contains(hunk));
                        }
                    },
                    None => {},
                }
                e += 1;
            }
            assert(all.take(entries.len() as int) == all);
            let ghost claimed = group_views(groups@);
            let rest = leftover(&used, hunk_count, Ghost(claimed));
            if rest.len() > 0 {
                assert(group_views(groups@.push(rest)) == claimed.push(rest@));
                groups.push(rest);
            }
        },
    }
    groups
}

/// The key under which a grouping answer holds its groups.
pub open spec fn spec_groups_key() -> Seq<char> {
    "chunks"@
}

/// The groups that the language model's answer `content` stands for, among
/// `hunk_count` hunks: `content` is trimmed, read as JSON with the groups
/// under `chunks`, and held to the hunks that exist.
pub open spec fn spec_llm_group_hunks(content: Seq<char>, hunk_count: nat) -> Seq<Seq<usize>> {
    spec_group_hunks(grouping_reply_json(spec_trim(content), spec_groups_key()), hunk_count)
}

/// The groups that the language model's answer `content` stands for, among
/// `hunk_count` hunks: `content` is trimmed, read as JSON and held to the
/// hunks that exist.
pub fn llm_group_hunks(content: &str, hunk_count: usize) -> (groups: Vec<Vec<usize>>)
    ensures
        group_views(groups@) == spec_llm_group_hunks(content@, hunk_count as nat),
{
    let trimmed = from_chars(&trim(&to_chars(content)));
    let reply = parse_grouping_reply(trimmed.as_str(), "chunks");
    groups_from_reply(&reply, hunk_count)
}

/// Whether `groups` name hunks that exist only, none of them twice.
pub open spec fn names_each_once(groups: Seq<Seq<usize>>, hunk_count: nat) -> bool {
    &&& forall|g: int, j: int|
        0 <= g < groups.len() && 0 <= j < groups[g].len() ==> (#[trigger] groups[g][j])
            < hunk_count
    &&& forall|g: int| 0 <= g < groups.len() ==> (#[trigger] groups[g]).no_duplicates()
    &&& forall|g1: int, g2: int, hunk: usize|
        0 <= g1 < g2 < groups.len() && #[trigger] groups[g1].contains(hunk) ==> !#[trigger] groups[g2].contains(
            hunk,
        )
}

/// Whether `groups` split the hunks among them: each group names hunks that
/// exist only, and every hunk is named exactly once.
pub open spec fn covers_each_once(groups: Seq<Seq<usize>>, hunk_count: nat) -> bool {
    &&& names_each_once(groups, hunk_count)
    &&& forall|hunk: usize| hunk < hunk_count ==> is_claimed(groups, hunk)
}

/// Whether none of `groups` is empty.
pub open spec fn none_empty(groups: Seq<Seq<usize>>) -> bool {
    forall|g: int| 0 <= g < groups.len() ==> (#[trigger] groups[g]).len() > 0
}

/// What is kept of a group names hunks that exist, none twice and none that
/// an earlier group names.
pub proof fn lemma_accepted(items: Seq<Option<u64>>, hunk_count: nat, earlier: Seq<Seq<usize>>)
    requires
        hunk_count <= usize::MAX,
    ensures
        accepted(items, hunk_count, earlier).no_duplicates(),
        forall|j: int|
            0 <= j < accepted(items, hunk_count, earlier).len() ==> (#[trigger] accepted(
                items,
                hunk_count,
                earlier,
            )[j]) < hunk_count,
        forall|hunk: usize| #[trigger]
            accepted(items, hunk_count, earlier).contains(hunk) ==> !is_claimed(earlier, hunk),
    decreases items.len(),
{
    if items.len() > 0 {
        lemma_accepted(items.drop_last(), hunk_count, earlier);
        let before = accepted(items.drop_last(), hunk_count, earlier);
        if is_free(items.last(), hunk_count, earlier, before) {
            lemma_push_contains(before, items.last()->0 as usize);
        }
    }
}

/// The groups made from an answer name hunks that exist only, none of them
/// twice, and none of the groups is empty.
proof fn lemma_claimed_groups(entries: Seq<Option<Seq<Option<u64>>>>, hunk_count: nat)
    requires
        hunk_count <= usize::MAX,
    ensures
        names_each_once(claimed_groups(entries, hunk_count), hunk_count),
        none_empty(claimed_groups(entries, hunk_count)),
    decreases entries.len(),
{
    if entries.len() > 0 {
        lemma_claimed_groups(entries.drop_last(), hunk_count);
        let before = claimed_groups(entries.drop_last(), hunk_count);
        match entries.last() {
            None => {},
            Some(items) => {
                let group = accepted(items, hunk_count, before);
                lemma_accepted(items, hunk_count, before);
                if group.len() > 0 {
                    let after = before.push(group);
                    assert forall|g1: int, g2: int, hunk: usize|
                        0 <= g1 < g2 < after.len() && #[trigger] after[g1].contains(
                            hunk,
                        ) implies !#[trigger] after[g2].contains(hunk) by {
                        if g2 == before.len() {
                            assert(before[g1].contains(hunk));
                            assert(is_claimed(before, hunk));
                        } else {
                            assert(before[g1].contains(hunk));
                        }
                    }
                    assert forall|g: int, j: int|
                        0 <= g < after.len() && 0 <= j < after[g].len() implies (
                    #[trigger] after[g][j]) < hunk_count by {
                        if g < before.len() {
                            assert(after[g][j] == before[g][j]);
                        }
                    }
                }
            },
        }
    }
}

/// The hunks left over are those that no group names, each once.
pub proof fn lemma_unclaimed(groups: Seq<Seq<usize>>, hunk_count: nat)
    requires
        hunk_count <= usize::MAX,
    ensures
        forall|hunk: usize| #[trigger]
            unclaimed(groups, hunk_count).contains(hunk) <==> hunk < hunk_count && !is_claimed(
                groups,
                hunk,
            ),
        unclaimed(groups, hunk_count).no_duplicates(),
    decreases hunk_count,
{
    if hunk_count == 0 {
        lemma_unclaimed_step(groups, 0);
    } else {
        let last = (hunk_count - 1) as usize;
        lemma_unclaimed(groups, (hunk_count - 1) as nat);
        lemma_unclaimed_step(groups, last);
        let before = unclaimed(groups, (hunk_count - 1) as nat);
        lemma_push_contains(before, last);
        if !is_claimed(groups, last) {
            let after = before.push(last);
            assert forall|i: int, j: int|
                0 <= i < after.len() && 0 <= j < after.len() && i != j implies after[i]
                != after[j] by {
                if i < before.len() {
                    assert(before.contains(before[i]));
                }
                if j < before.len() {
                    assert(before.contains(before[j]));
                }
            }
        }
    }
}

/// Whatever the language model answers, the groups made of it split the
/// hunks among them: every hunk is in exactly one group, and no group names
/// a hunk that does not exist. Where there is a hunk at all, no group is
/// empty.
pub proof fn lemma_groups_cover_each_hunk_once(reply: GroupingReplyView, hunk_count: nat)
    requires
        hunk_count <= usize::MAX,
    ensures
        covers_each_once(spec_group_hunks(reply, hunk_count), hunk_count),
        hunk_count > 0 ==> none_empty(spec_group_hunks(reply, hunk_count)),
        hunk_count > 0 ==> spec_group_hunks(reply, hunk_count).len() > 0,
{
    let groups = spec_group_hunks(reply, hunk_count);
    match reply {
        GroupingReplyView::Malformed => {
            assert forall|hunk: usize| hunk < hunk_count implies is_claimed(groups, hunk) by {
                assert(all_hunks(hunk_count)[hunk as int] == hunk);
                assert(groups[0].contains(hunk));
            }
        },
        GroupingReplyView::NoGroups => {
            assert forall|hunk: usize| hunk < hunk_count implies is_claimed(groups, hunk) by {
                assert(all_hunks(hunk_count)[hunk as int] == hunk);
                assert(groups[0].contains(hunk));
            }
        },
        GroupingReplyView::Groups(entries) => {
            let claimed = claimed_groups(entries, hunk_count);
            let rest = unclaimed(claimed, hunk_count);
            lemma_claimed_groups(entries, hunk_count);
            lemma_unclaimed(claimed, hunk_count);
            if rest.len() == 0 {
                assert forall|hunk: usize| hunk < hunk_count implies is_claimed(groups, hunk) by {
                    if !is_claimed(claimed, hunk) {
                        assert(rest.contains(hunk));
                    }
                }
                if hunk_count > 0 {
                    assert(is_claimed(groups, 0usize));
                }
            } else {
                lemma_push_claims(claimed, rest);
                assert forall|g1: int, g2: int, hunk: usize|
                    0 <= g1 < g2 < groups.len() && #[trigger] groups[g1].contains(
                        hunk,
                    ) implies !#[trigger] groups[g2].contains(hunk) by {
                    assert(claimed[g1].contains(hunk));
                    if g2 == claimed.len() {
                        assert(is_claimed(claimed, hunk));
                    }
                }
                assert forall|g: int, j: int|
                    0 <= g < groups.len() && 0 <= j < groups[g].len() implies (
                #[trigger] groups[g][j]) < hunk_count by {
                    if g < claimed.len() {
                        assert(groups[g][j] == claimed[g][j]);
                    } else {
                        assert(rest.contains(rest[j]));
                    }
                }
            }
        },
    }
}

/// The numbers below `count` as a set.
pub open spec fn below(count: nat) -> Set<usize> {
    Set::new(|x: usize| x < count)
}

/// There are `count` numbers below `count`.
pub proof fn lemma_below_len(count: nat)
    requires
        count <= usize::MAX,
    ensures
        below(count).finite(),
        below(count).len() == count,
    decreases count,
{
    if count == 0 {
        assert(below(0) =~= Set::<usize>::empty());
    } else {
        lemma_below_len((count - 1) as nat);
        assert(below(count) =~= below((count - 1) as nat).insert((count - 1) as usize));
    }
}

/// Groups that are not empty and name hunks that exist, none of them twice,
/// are no more than there are hunks.
pub proof fn lemma_no_more_groups_than_hunks(groups: Seq<Seq<usize>>, hunk_count: nat)
    requires
        hunk_count <= usize::MAX,
        names_each_once(groups, hunk_count),
        none_empty(groups),
    ensures
        groups.len() <= hunk_count,
{
    let firsts = Seq::new(groups.len(), |g: int| groups[g][0]);
    assert forall|i: int, j: int|
        0 <= i < firsts.len() && 0 <= j < firsts.len() && i != j implies firsts[i]
        != firsts[j] by {
        assert(groups[i].contains(groups[i][0]));
        assert(groups[j].contains(groups[j][0]));
        if i < j {
            assert(!groups[j].contains(groups[i][0]));
        } else {
            assert(!groups[i].contains(groups[j][0]));
        }
    }
    firsts.unique_seq_to_set();
    lemma_below_len(hunk_count);
    assert forall|x: usize| firsts.to_set().contains(x) implies below(hunk_count).contains(x) by {
        let g = choose|g: int| 0 <= g < firsts.len() && firsts[g] == x;
        assert(groups[g][0] < hunk_count);
    }
    vstd::set_lib::lemma_len_subset(firsts.to_set(), below(hunk_count));
}

/// A file with hunks is narrated in at least one chunk and in no more
/// chunks than it has hunks, whatever the language model answers.
pub proof fn lemma_group_count(reply: GroupingReplyView, hunk_count: nat)
    requires
        0 < hunk_count <= usize::MAX,
    ensures
        1 <= spec_group_hunks(reply, hunk_count).len() <= hunk_count,
{
    lemma_groups_cover_each_hunk_once(reply, hunk_count);
    lemma_no_more_groups_than_hunks(spec_group_hunks(reply, hunk_count), hunk_count);
}

/// The temperature of a grouping request, in hundredths.
pub const GROUPING_TEMPERATURE_PERCENT: u32 = 30;

/// The most tokens that a grouping answer may have.
pub const GROUPING_TOKENS: u32 = 256;

/// How much of the project's description a grouping request quotes, in
/// characters.
pub const GROUPING_DESCRIPTION_CHARS: usize = 300;

/// What the language model is asked for the groups of a file's hunks, given
/// the summary of each hunk.
pub open spec fn spec_grouping_prompt(
    context: ProjectContextView,
    commit_message: Seq<char>,
    filename: Seq<char>,
    summaries: Seq<Seq<char>>,
) -> Seq<char> {
    "You are grouping code changes for a narrated walkthrough.\n\nPROJECT: "@ + context.repo_name
        + " - "@ + spec_prefix(context.description, GROUPING_DESCRIPTION_CHARS as nat)
        + "\nCOMMIT: \""@ + commit_message + "\"\nFILE: "@ + filename + "\n\nHUNKS:\n"@
        + spec_join(summaries, "\n"@)
        + "\n\nGroup these hunks into 1-4 semantic chunks. Each chunk should cover a coherent change (e.g. imports, a new function, config updates). Keep related hunks together.\n\nRespond with ONLY JSON: {\"chunks\": [[0, 1], [2], [3, 4]]}"@
}

/// The request for the groups of a file's hunks.
pub open spec fn spec_grouping_request(
    context: ProjectContextView,
    commit_message: Seq<char>,
    filename: Seq<char>,
    summaries: Seq<Seq<char>>,
) -> ChatRequestView {
    ChatRequestView {
        model: spec_model_name(),
        prompt: spec_grouping_prompt(context, commit_message, filename, summaries),
        temperature_percent: GROUPING_TEMPERATURE_PERCENT,
        max_completion_tokens: GROUPING_TOKENS,
    }
}

/// The request for the groups of a file's hunks, given the summary of each
/// hunk.
pub fn grouping_request(
    context: &ProjectContext,
    commit_message: &str,
    filename: &str,
    summaries: &Vec<String>,
) -> (request: ChatRequest)
    ensures
        request@ == spec_grouping_request(
            context@,
            commit_message@,
            filename@,
            views(summaries@),
        ),
{
    let mut out: Vec<char> = Vec::new();
    push_str_chars(
        &mut out,
        "You are grouping code changes for a narrated walkthrough.\n\nPROJECT: ",
    );
    push_str_chars(&mut out, context.repo_name.as_str());
    push_str_chars(&mut out, " - ");
    let quoted = prefix(&to_chars(context.description.as_str()), GROUPING_DESCRIPTION_CHARS);
    push_chars(&mut out, &quoted);
    push_str_chars(&mut out, "\nCOMMIT: \"");
    push_str_chars(&mut out, commit_message);
    push_str_chars(&mut out, "\"\nFILE: ");
    push_str_chars(&mut out, filename);
    push_str_chars(&mut out, "\n\nHUNKS:\n");
    let listed = join(summaries, "\n");
    push_chars(&mut out, &listed);
    push_str_chars(
        &mut out,
        "\n\nGroup these hunks into 1-4 semantic chunks. Each chunk should cover a coherent change (e.g. imports, a new function, config updates). Keep related hunks together.\n\nRespond with ONLY JSON: {\"chunks\": [[0, 1], [2], [3, 4]]}",
    );
    assert(out@ =~= spec_grouping_prompt(
        context@,
        commit_message@,
        filename@,
        views(summaries@),
    ));
    chat_request(from_chars(&out), GROUPING_TEMPERATURE_PERCENT, GROUPING_TOKENS)
}

} // verus!
