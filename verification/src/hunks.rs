//! The hunks of a unified diff, and what the language model is told of each.

use crate::duration::{
    is_addition, is_deletion, is_hunk_header, line_is_addition, line_is_deletion,
    line_is_hunk_header,
};
use crate::text::{
    from_chars, join, lines, push_chars, push_decimal, push_str_chars, spec_decimal, spec_join,
    spec_lines, to_chars, views,
};
use vstd::prelude::*;

verus! {

/// What each of `hunks` holds, line by line.
pub open spec fn hunk_views(hunks: Seq<Vec<String>>) -> Seq<Seq<Seq<char>>> {
    Seq::new(hunks.len(), |i: int| views(hunks[i]@))
}

/// The hunks of a diff, given its lines. A hunk starts at a line that begins
/// with `@@` and runs up to the next such line or the end; what stands
/// before the first hunk belongs to none.
pub open spec fn spec_hunks(lines: Seq<Seq<char>>) -> Seq<Seq<Seq<char>>>
    decreases lines.len(),
{
    if lines.len() == 0 {
        Seq::empty()
    } else {
        let before = spec_hunks(lines.drop_last());
        let line = lines.last();
        if is_hunk_header(line) {
            before.push(seq![line])
        } else if before.len() == 0 {
            before
        } else {
            before.update(before.len() - 1, before.last().push(line))
        }
    }
}

/// Every hunk begins with its header.
pub proof fn lemma_hunks_start_with_header(lines: Seq<Seq<char>>)
    ensures
        forall|i: int|
            0 <= i < spec_hunks(lines).len() ==> (#[trigger] spec_hunks(lines)[i]).len() > 0
                && is_hunk_header(spec_hunks(lines)[i][0]),
    decreases lines.len(),
{
    if lines.len() > 0 {
        lemma_hunks_start_with_header(lines.drop_last());
        let before = spec_hunks(lines.drop_last());
        let after = spec_hunks(lines);
        assert forall|i: int| 0 <= i < after.len() implies (#[trigger] after[i]).len() > 0
            && is_hunk_header(after[i][0]) by {
            if i < before.len() - 1 || (i < before.len() && is_hunk_header(lines.last())) {
                assert(after[i] == before[i]);
            } else if is_hunk_header(lines.last()) {
                assert(after[i] == seq![lines.last()]);
            } else {
                assert(after[i] == before[i].push(lines.last()));
                assert(after[i][0] == before[i][0]);
            }
        }
    }
}

/// The added lines among `lines`.
pub open spec fn additions(lines: Seq<Seq<char>>) -> Seq<Seq<char>> {
    lines.filter(|line: Seq<char>| is_addition(line))
}

/// The deleted lines among `lines`.
pub open spec fn deletions(lines: Seq<Seq<char>>) -> Seq<Seq<char>> {
    lines.filter(|line: Seq<char>| is_deletion(line))
}

/// Whether `line` begins with `+` or `-`.
pub open spec fn is_change(line: Seq<char>) -> bool {
    line.len() >= 1 && (line[0] == '+' || line[0] == '-')
}

/// The lines among `lines` that begin with `+` or `-`.
pub open spec fn changes(lines: Seq<Seq<char>>) -> Seq<Seq<char>> {
    lines.filter(|line: Seq<char>| is_change(line))
}

/// One more line joins the filtered lines exactly where it passes.
proof fn lemma_filter_push(lines: Seq<Seq<char>>, line: Seq<char>)
    ensures
        additions(lines.push(line)) == if is_addition(line) {
            additions(lines).push(line)
        } else {
            additions(lines)
        },
        deletions(lines.push(line)) == if is_deletion(line) {
            deletions(lines).push(line)
        } else {
            deletions(lines)
        },
        changes(lines.push(line)) == if is_change(line) {
            changes(lines).push(line)
        } else {
            changes(lines)
        },
        additions(Seq::empty()).len() == 0,
        deletions(Seq::empty()).len() == 0,
        changes(Seq::empty()).len() == 0,
{
    reveal(Seq::filter);
    assert(lines.push(line).drop_last() == lines);
}

/// The first three of `items`: all of them where there are no more.
pub open spec fn first_three(items: Seq<Seq<char>>) -> Seq<Seq<char>> {
    if items.len() <= 3 {
        items
    } else {
        items.take(3)
    }
}

/// What follows the first line of `hunk`.
pub open spec fn body(hunk: Seq<Seq<char>>) -> Seq<Seq<char>> {
    if hunk.len() == 0 {
        hunk
    } else {
        hunk.drop_first()
    }
}

/// The lines shown of a hunk: the first three after its header that begin
/// with `+` or `-`.
pub open spec fn preview(hunk: Seq<Seq<char>>) -> Seq<Seq<char>> {
    first_three(changes(body(hunk)))
}

/// The first line of `hunk`: nothing where it has none.
pub open spec fn header(hunk: Seq<Seq<char>>) -> Seq<char> {
    if hunk.len() == 0 {
        Seq::empty()
    } else {
        hunk[0]
    }
}

/// What the language model is told of the hunk of number `index`.
pub open spec fn spec_summary(index: nat, hunk: Seq<Seq<char>>) -> Seq<char> {
    "Hunk "@ + spec_decimal(index) + ": "@ + header(hunk) + " — "@ + spec_decimal(
        additions(hunk).len(),
    ) + " additions, "@ + spec_decimal(deletions(hunk).len()) + " deletions\n  Preview: "@
        + spec_join(preview(hunk), " | "@)
}

/// The summaries of `hunks`, one for each.
pub open spec fn spec_summaries(hunks: Seq<Seq<Seq<char>>>) -> Seq<Seq<char>> {
    Seq::new(hunks.len(), |i: int| spec_summary(i as nat, hunks[i]))
}

/// The hunks that `lines` fall into.
pub fn split_hunks(lines: &Vec<String>) -> (hunks: Vec<Vec<String>>)
    ensures
        hunk_views(hunks@) == spec_hunks(views(lines@)),
{
    let ghost all = views(lines@);
    let mut hunks: Vec<Vec<String>> = Vec::new();
    let mut current: Vec<String> = Vec::new();
    let mut i: usize = 0;
    while i < lines.len()
        invariant
            i <= lines.len(),
            all == views(lines@),
            current@.len() == 0 ==> hunks@.len() == 0 && spec_hunks(all.take(i as int)).len() == 0,
            current@.len() > 0 ==> spec_hunks(all.take(i as int)) == hunk_views(hunks@).push(
                views(current@),
            ),
        decreases lines.len() - i,
    {
        let line: String = lines[i].clone();
        let ghost before = spec_hunks(all.take(i as int));
        proof {
            assert(all.take(i + 1).drop_last() == all.take(i as int));
            assert(all.take(i + 1).last() == line@);
        }
        if line_is_hunk_header(line.as_str()) {
            if current.len() > 0 {
                proof {
                    assert(hunk_views(hunks@.push(current)) == hunk_views(hunks@).push(
                        views(current@),
                    ));
                }
                hunks.push(current);
            } else {
                assert(before == hunk_views(hunks@));
            }
            current = Vec::new();
            current.push(line);
            assert(views(current@) == seq![line@]);
        } else if current.len() > 0 {
            proof {
                assert(views(current@.push(line)) == views(current@).push(line@));
                assert(before.update(before.len() - 1, before.last().push(line@)) == hunk_views(
                    hunks@,
                ).push(views(current@).push(line@)));
            }
            current.push(line);
        }
        i += 1;
    }
    assert(all.take(lines.len() as int) == all);
    if current.len() > 0 {
        proof {
            assert(hunk_views(hunks@.push(current)) == hunk_views(hunks@).push(views(current@)));
        }
        hunks.push(current);
    } else {
        assert(hunk_views(hunks@) == spec_hunks(all));
    }
    hunks
}

/// How many of `lines` add a line, and how many delete one.
fn count_changes(lines: &Vec<String>) -> (counts: (usize, usize))
    ensures
        counts.0 == additions(views(lines@)).len(),
        counts.1 == deletions(views(lines@)).len(),
{
    let ghost all = views(lines@);
    let mut added: usize = 0;
    let mut deleted: usize = 0;
    let mut i: usize = 0;
    proof {
        lemma_filter_push(Seq::empty(), Seq::empty());
        assert(all.take(0) == Seq::<Seq<char>>::empty());
    }
    while i < lines.len()
        invariant
            i <= lines.len(),
            all == views(lines@),
            added == additions(all.take(i as int)).len(),
            deleted == deletions(all.take(i as int)).len(),
            added <= i,
            deleted <= i,
        decreases lines.len() - i,
    {
        proof {
            lemma_filter_push(all.take(i as int), lines@[i as int]@);
            assert(all.take(i + 1) == all.take(i as int).push(lines@[i as int]@));
        }
        if line_is_addition(lines[i].as_str()) {
            added += 1;
        }
        if line_is_deletion(lines[i].as_str()) {
            deleted += 1;
        }
        i += 1;
    }
    assert(all.take(lines.len() as int) == all);
    (added, deleted)
}

/// Whether `line` begins with `+` or `-`.
fn line_is_change(line: &str) -> (b: bool)
    ensures
        b == is_change(line@),
{
    let chars = to_chars(line);
    chars.len() >= 1 && (chars[0] == '+' || chars[0] == '-')
}

/// The lines shown of `hunk`.
fn preview_lines(hunk: &Vec<String>) -> (shown: Vec<String>)
    ensures
        views(shown@) == preview(views(hunk@)),
{
    let ghost rest = body(views(hunk@));
    let mut shown: Vec<String> = Vec::new();
    proof {
        lemma_filter_push(Seq::empty(), Seq::empty());
    }
    if hunk.len() == 0 {
        assert(rest == Seq::<Seq<char>>::empty());
        assert(views(shown@) == preview(views(hunk@)));
        return shown;
    }
    let mut i: usize = 1;
    proof {
        assert(rest.take(0) == Seq::<Seq<char>>::empty());
        assert(views(shown@) == first_three(changes(rest.take(0))));
    }
    while i < hunk.len()
        invariant
            1 <= i <= hunk.len(),
            rest == views(hunk@).drop_first(),
            views(shown@) == first_three(changes(rest.take(i - 1))),
        decreases hunk.len() - i,
    {
        proof {
            lemma_filter_push(rest.take(i - 1), hunk@[i as int]@);
            assert(rest.take(i as int) == rest.take(i - 1).push(hunk@[i as int]@));
        }
        if line_is_change(hunk[i].as_str()) && shown.len() < 3 {
            let line: String = hunk[i].clone();
            proof {
                assert(views(shown@.push(line)) == views(shown@).push(line@));
            }
            shown.push(line);
        }
        i += 1;
    }
    assert(rest.take(hunk.len() - 1) == rest);
    shown
}

/// What the language model is told of the hunk of number `index`.
fn summarize(index: usize, hunk: &Vec<String>) -> (summary: String)
    ensures
        summary@ == spec_summary(index as nat, views(hunk@)),
{
    let (added, deleted) = count_changes(hunk);
    let shown = preview_lines(hunk);
    let mut out: Vec<char> = Vec::new();
    push_str_chars(&mut out, "Hunk ");
    push_decimal(&mut out, index as u128);
    push_str_chars(&mut out, ": ");
    if hunk.len() > 0 {
        push_str_chars(&mut out, hunk[0].as_str());
    }
    push_str_chars(&mut out, " — ");
    push_decimal(&mut out, added as u128);
    push_str_chars(&mut out, " additions, ");
    push_decimal(&mut out, deleted as u128);
    push_str_chars(&mut out, " deletions\n  Preview: ");
    let joined = join(&shown, " | ");
    push_chars(&mut out, &joined);
    assert(out@ =~= spec_summary(index as nat, views(hunk@)));
    from_chars(&out)
}

/// The hunks of `diff`, and what the language model is told of each.
pub fn parse_hunks(diff: &str) -> (parsed: (Vec<Vec<String>>, Vec<String>))
    ensures
        hunk_views(parsed.0@) == spec_hunks(spec_lines(diff@)),
        views(parsed.1@) == spec_summaries(hunk_views(parsed.0@)),
{
    let all = lines(diff);
    let hunks = split_hunks(&all);
    let mut summaries: Vec<String> = Vec::new();
    let mut i: usize = 0;
    while i < hunks.len()
        invariant
            i <= hunks.len(),
            views(summaries@) == spec_summaries(hunk_views(hunks@)).take(i as int),
        decreases hunks.len() - i,
    {
        let summary = summarize(i, &hunks[i]);
        proof {
            assert(views(summaries@.push(summary)) == views(summaries@).push(summary@));
            assert(spec_summaries(hunk_views(hunks@)).take(i + 1) == spec_summaries(
                hunk_views(hunks@),
            ).take(i as int).push(summary@));
        }
        summaries.push(summary);
        i += 1;
    }
    assert(spec_summaries(hunk_views(hunks@)).take(hunks.len() as int) == spec_summaries(
        hunk_views(hunks@),
    ));
    (hunks, summaries)
}

/// The lines of the hunks that `group` names, in the order in which it names
/// them. A number that names no hunk adds nothing.
pub open spec fn spec_chunk_lines(hunks: Seq<Seq<Seq<char>>>, group: Seq<usize>) -> Seq<Seq<char>>
    decreases group.len(),
{
    if group.len() == 0 {
        Seq::empty()
    } else {
        spec_chunk_lines(hunks, group.drop_last()) + if group.last() < hunks.len() {
            hunks[group.last() as int]
        } else {
            Seq::empty()
        }
    }
}

/// The lines of the hunks that `group` names, in the order in which it names
/// them.
pub fn chunk_lines(hunks: &Vec<Vec<String>>, group: &Vec<usize>) -> (out: Vec<String>)
    ensures
        views(out@) == spec_chunk_lines(hunk_views(hunks@), group@),
{
    let mut out: Vec<String> = Vec::new();
    let mut g: usize = 0;
    while g < group.len()
        invariant
            g <= group.len(),
            views(out@) == spec_chunk_lines(hunk_views(hunks@), group@.take(g as int)),
        decreases group.len() - g,
    {
        let index: usize = group[g];
        let ghost start = views(out@);
        proof {
            assert(group@.take(g + 1).drop_last() == group@.take(g as int));
            assert(group@.take(g + 1).last() == index);
        }
        if index < hunks.len() {
            let hunk = &hunks[index];
            let mut k: usize = 0;
            while k < hunk.len()
                invariant
                    k <= hunk.len(),
                    views(out@) == start + views(hunk@).take(k as int),
                decreases hunk.len() - k,
            {
                let line: String = hunk[k].clone();
                proof {
                    assert(views(out@.push(line)) == views(out@).push(line@));
                    assert(views(hunk@).take(k + 1) == views(hunk@).take(k as int).push(line@));
                }
                out.push(line);
                k += 1;
            }
            assert(views(hunk@).take(hunk.len() as int) == views(hunk@));
        } else {
            assert(start + Seq::<Seq<char>>::empty() == start);
        }
        g += 1;
    }
    assert(group@.take(group.len() as int) == group@);
    out
}

} // verus!
