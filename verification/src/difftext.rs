//! From the changes of a commit, hunk by hunk and line by line, to the
//! files that are narrated: the diff of each as unified diff text.

use crate::duration::is_hunk_header;
use crate::hunks::spec_hunks;
use crate::text::{
    digit_char, first_newline, from_chars, lemma_first_newline, push_decimal, push_str_chars,
    spec_decimal, spec_lines, without_cr,
};
use crate::types::{file_views, FileChange, FileChangeView, FileStatus};
use vstd::prelude::*;

verus! {

/// What a line of a hunk does.
#[derive(Debug, Clone, Copy, PartialEq, Eq, Structural)]
pub enum LineChangeType {
    Addition,
    Deletion,
    Context,
}

/// One line of a hunk.
#[derive(Debug, Clone)]
pub struct DiffLine {
    pub change_type: LineChangeType,
    /// The line without its line ending.
    pub content: String,
}

/// One hunk of a file's diff.
#[derive(Debug, Clone)]
pub struct DiffHunk {
    pub old_start: usize,
    pub old_lines: usize,
    pub new_start: usize,
    pub new_lines: usize,
    pub lines: Vec<DiffLine>,
}

/// One file that a commit changed, hunk by hunk.
#[derive(Debug, Clone)]
pub struct ChangedFile {
    pub path: String,
    pub status: FileStatus,
    /// Whether the file is left out of the replay.
    pub is_excluded: bool,
    pub hunks: Vec<DiffHunk>,
}

/// The character that a line of this kind begins with in a diff.
pub open spec fn spec_marker(change_type: LineChangeType) -> char {
    match change_type {
        LineChangeType::Addition => '+',
        LineChangeType::Deletion => '-',
        LineChangeType::Context => ' ',
    }
}

/// `line` as diff text: its marker, its content and a line feed.
pub open spec fn spec_line_text(line: DiffLine) -> Seq<char> {
    seq![spec_marker(line.change_type)] + line.content@ + seq!['\n']
}

/// The first `count` of `lines` as diff text.
pub open spec fn spec_lines_text(lines: Seq<DiffLine>, count: nat) -> Seq<char>
    decreases count,
{
    if count == 0 || count > lines.len() {
        Seq::empty()
    } else {
        spec_lines_text(lines, (count - 1) as nat) + spec_line_text(lines[count - 1])
    }
}

/// The header of `hunk` as diff text.
pub open spec fn spec_header_text(hunk: DiffHunk) -> Seq<char> {
    "@@ -"@ + spec_decimal(hunk.old_start as nat) + ","@ + spec_decimal(hunk.old_lines as nat)
        + " +"@ + spec_decimal(hunk.new_start as nat) + ","@ + spec_decimal(
        hunk.new_lines as nat,
    ) + " @@\n"@
}

/// `hunk` as diff text: its header and its lines.
pub open spec fn spec_hunk_text(hunk: DiffHunk) -> Seq<char> {
    spec_header_text(hunk) + spec_lines_text(hunk.lines@, hunk.lines@.len())
}

/// The first `count` of `hunks` as diff text, one after another.
pub open spec fn spec_diff_text(hunks: Seq<DiffHunk>, count: nat) -> Seq<char>
    decreases count,
{
    if count == 0 || count > hunks.len() {
        Seq::empty()
    } else {
        spec_diff_text(hunks, (count - 1) as nat) + spec_hunk_text(hunks[count - 1])
    }
}

/// `file` as a file to narrate.
pub open spec fn spec_file_change(file: ChangedFile) -> FileChangeView {
    FileChangeView {
        path: file.path@,
        diff: spec_diff_text(file.hunks@, file.hunks@.len()),
        status: file.status,
    }
}

/// The first `count` of `changes` as files to narrate: those that are not
/// left out of the replay, in order.
pub open spec fn spec_file_changes(changes: Seq<ChangedFile>, count: nat) -> Seq<FileChangeView>
    decreases count,
{
    if count == 0 || count > changes.len() {
        Seq::empty()
    } else {
        let before = spec_file_changes(changes, (count - 1) as nat);
        if changes[count - 1].is_excluded {
            before
        } else {
            before.push(spec_file_change(changes[count - 1]))
        }
    }
}

/// Appends `hunk` as diff text to `out`.
fn push_hunk(out: &mut Vec<char>, hunk: &DiffHunk)
    ensures
        final(out)@ == old(out)@ + spec_hunk_text(*hunk),
{
    let ghost start = out@;
    push_str_chars(out, "@@ -");
    push_decimal(out, hunk.old_start as u128);
    push_str_chars(out, ",");
    push_decimal(out, hunk.old_lines as u128);
    push_str_chars(out, " +");
    push_decimal(out, hunk.new_start as u128);
    push_str_chars(out, ",");
    push_decimal(out, hunk.new_lines as u128);
    push_str_chars(out, " @@\n");
    assert(out@ =~= start + spec_header_text(*hunk));
    let ghost headed = out@;
    let mut i: usize = 0;
    while i < hunk.lines.len()
        invariant
            i <= hunk.lines.len(),
            out@ == headed + spec_lines_text(hunk.lines@, i as nat),
        decreases hunk.lines.len() - i,
    {
        let line = &hunk.lines[i];
        let ghost before = out@;
        match line.change_type {
            LineChangeType::Addition => out.push('+'),
            LineChangeType::Deletion => out.push('-'),
            LineChangeType::Context => out.push(' '),
        }
        push_str_chars(out, line.content.as_str());
        out.push('\n');
        assert(out@ =~= before + spec_line_text(*line));
        assert(out@ =~= headed + (spec_lines_text(hunk.lines@, i as nat) + spec_line_text(*line)));
        i += 1;
    }
    assert(out@ =~= start + spec_hunk_text(*hunk));
}

/// The diff of a file as unified diff text, made of its hunks: every hunk
/// begins with its header.
pub fn build_diff_text(hunks: &Vec<DiffHunk>) -> (text: String)
    ensures
        text@ == spec_diff_text(hunks@, hunks@.len()),
{
    let mut out: Vec<char> = Vec::new();
    let mut i: usize = 0;
    while i < hunks.len()
        invariant
            i <= hunks.len(),
            out@ == spec_diff_text(hunks@, i as nat),
        decreases hunks.len() - i,
    {
        push_hunk(&mut out, &hunks[i]);
        i += 1;
    }
    from_chars(&out)
}

/// The files of a commit that are narrated, each with its diff as text:
/// those that are not left out of the replay, in order.
pub fn file_changes(changes: &Vec<ChangedFile>) -> (files: Vec<FileChange>)
    ensures
        file_views(files@) == spec_file_changes(changes@, changes@.len()),
{
    let mut files: Vec<FileChange> = Vec::new();
    let mut i: usize = 0;
    assert(file_views(files@) =~= spec_file_changes(changes@, 0));
    while i < changes.len()
        invariant
            i <= changes.len(),
            file_views(files@) == spec_file_changes(changes@, i as nat),
        decreases changes.len() - i,
    {
        let change = &changes[i];
        if !change.is_excluded {
            let file = FileChange {
                path: change.path.clone(),
                diff: build_diff_text(&change.hunks),
                status: change.status,
            };
            assert(file_views(files@.push(file)) == file_views(files@).push(file@));
            files.push(file);
        }
        i += 1;
    }
    files
}

/// Whether `text` holds no line feed and does not end with a carriage
/// return: whether it is one line that reads back as it is.
pub open spec fn is_one_line(text: Seq<char>) -> bool {
    &&& forall|i: int| 0 <= i < text.len() ==> text[i] != '\n'
    &&& text.len() > 0 ==> text.last() != '\r'
}

/// Whether the content of every line of `hunks` is one line.
pub open spec fn is_well_lined(hunks: Seq<DiffHunk>) -> bool {
    forall|h: int, l: int|
        0 <= h < hunks.len() && 0 <= l < hunks[h].lines@.len() ==> is_one_line(
            #[trigger] hunks[h].lines@[l].content@,
        )
}

/// The header of `hunk` as a line of a diff.
pub open spec fn spec_header_line(hunk: DiffHunk) -> Seq<char> {
    "@@ -"@ + spec_decimal(hunk.old_start as nat) + ","@ + spec_decimal(hunk.old_lines as nat)
        + " +"@ + spec_decimal(hunk.new_start as nat) + ","@ + spec_decimal(
        hunk.new_lines as nat,
    ) + " @@"@
}

/// `line` as a line of a diff: its marker and its content.
pub open spec fn spec_marked_line(line: DiffLine) -> Seq<char> {
    seq![spec_marker(line.change_type)] + line.content@
}

/// The first `count` of `lines` as lines of a diff.
pub open spec fn spec_marked_lines(lines: Seq<DiffLine>, count: nat) -> Seq<Seq<char>> {
    Seq::new(count, |i: int| spec_marked_line(lines[i]))
}

/// `hunk` as the lines of a diff: its header and its lines.
pub open spec fn spec_hunk_lines(hunk: DiffHunk) -> Seq<Seq<char>> {
    seq![spec_header_line(hunk)] + spec_marked_lines(hunk.lines@, hunk.lines@.len())
}

/// A number written in decimal holds digits only.
proof fn lemma_decimal_is_plain(n: nat)
    ensures
        forall|i: int|
            0 <= i < spec_decimal(n).len() ==> '0' <= #[trigger] spec_decimal(n)[i] <= '9',
    decreases n,
{
    assert forall|d: nat| d < 10 implies '0' <= #[trigger] digit_char(d) <= '9' by {}
    let digits = spec_decimal(n);
    if n >= 10 {
        lemma_decimal_is_plain(n / 10);
        let front = spec_decimal(n / 10);
        assert forall|i: int| 0 <= i < digits.len() implies '0' <= #[trigger] digits[i] <= '9' by {
            if i < front.len() {
                assert(digits[i] == front[i]);
            } else {
                assert(digits[i] == digit_char(n % 10));
            }
        }
    } else {
        assert forall|i: int| 0 <= i < digits.len() implies '0' <= #[trigger] digits[i] <= '9' by {
            assert(digits[i] == digit_char(n));
        }
    }
}

/// The header of a hunk is one line, and begins as a hunk header does.
proof fn lemma_header_line(hunk: DiffHunk)
    ensures
        is_one_line(spec_header_line(hunk)),
        is_hunk_header(spec_header_line(hunk)),
        spec_header_text(hunk) == spec_header_line(hunk) + seq!['\n'],
{
    reveal_strlit("@@ -");
    reveal_strlit(",");
    reveal_strlit(" +");
    reveal_strlit(" @@");
    reveal_strlit(" @@\n");
    lemma_decimal_is_plain(hunk.old_start as nat);
    lemma_decimal_is_plain(hunk.old_lines as nat);
    lemma_decimal_is_plain(hunk.new_start as nat);
    lemma_decimal_is_plain(hunk.new_lines as nat);
    let a = "@@ -"@ + spec_decimal(hunk.old_start as nat);
    let b = a + ","@ + spec_decimal(hunk.old_lines as nat);
    let c = b + " +"@ + spec_decimal(hunk.new_start as nat);
    let d = c + ","@ + spec_decimal(hunk.new_lines as nat);
    let line = d + " @@"@;
    assert(line == spec_header_line(hunk));
    assert(line[0] == '@' && line[1] == '@');
    assert(" @@\n"@ =~= " @@"@ + seq!['\n']);
    assert(spec_header_text(hunk) =~= line + seq!['\n']);
    assert(line.last() == '@');
}

/// One line and a line feed before a text read back as the line and the
/// lines of the text.
proof fn lemma_lines_after_line(line: Seq<char>, rest: Seq<char>)
    requires
        is_one_line(line),
    ensures
        spec_lines(line + seq!['\n'] + rest) == seq![line] + spec_lines(rest),
{
    let text = line + seq!['\n'] + rest;
    lemma_first_newline(text, line.len() as int);
    assert(text.subrange(0, line.len() as int) == line);
    assert(text.subrange(line.len() as int + 1, text.len() as int) == rest);
    assert(without_cr(line) == line);
}

/// The lines of a hunk, written as text, before a text read back as the
/// marked lines and the lines of the text.
proof fn lemma_lines_of_marked(lines: Seq<DiffLine>, count: nat)
    requires
        count <= lines.len(),
        forall|l: int| 0 <= l < lines.len() ==> is_one_line(#[trigger] lines[l].content@),
    ensures
        spec_lines(spec_lines_text(lines, count)) == spec_marked_lines(lines, count),
        count > 0 ==> spec_lines_text(lines, count).len() > 0 && spec_lines_text(
            lines,
            count,
        ).last() == '\n',
    decreases count,
{
    if count > 0 {
        lemma_lines_of_marked(lines, (count - 1) as nat);
        let before = spec_lines_text(lines, (count - 1) as nat);
        let marked = spec_marked_line(lines[count - 1]);
        assert(is_one_line(lines[count - 1].content@));
        assert(is_one_line(marked)) by {
            assert(marked.len() > 0);
            if lines[count - 1].content@.len() > 0 {
                assert(marked.last() == lines[count - 1].content@.last());
            }
        }
        assert(spec_line_text(lines[count - 1]) == marked + seq!['\n']);
        lemma_lines_after_line(marked, Seq::empty());
        assert(marked + seq!['\n'] + Seq::<char>::empty() == marked + seq!['\n']);
        lemma_lines_join(before, marked + seq!['\n']);
        assert(spec_marked_lines(lines, (count - 1) as nat) + seq![marked] == spec_marked_lines(
            lines,
            count,
        ));
    }
}

/// The number of characters before the first line feed of a text that holds
/// one does not change when more text follows.
proof fn lemma_first_newline_in_front(front: Seq<char>, back: Seq<char>)
    requires
        first_newline(front) < front.len(),
    ensures
        first_newline(front + back) == first_newline(front),
    decreases front.len(),
{
    if front[0] != '\n' {
        lemma_first_newline_in_front(front.drop_first(), back);
        assert((front + back).drop_first() == front.drop_first() + back);
    }
}

/// A text without a line feed has its whole length before the first one.
proof fn lemma_first_newline_bound(text: Seq<char>)
    ensures
        first_newline(text) <= text.len(),
        first_newline(text) < text.len() ==> text[first_newline(text) as int] == '\n',
    decreases text.len(),
{
    if text.len() > 0 && text[0] != '\n' {
        lemma_first_newline_bound(text.drop_first());
    }
}

/// Text that is empty or ends with a line feed, and text after it, read
/// back as the lines of the one and the lines of the other.
proof fn lemma_lines_join(front: Seq<char>, back: Seq<char>)
    requires
        front.len() > 0 ==> front.last() == '\n',
    ensures
        spec_lines(front + back) == spec_lines(front) + spec_lines(back),
    decreases front.len(),
{
    if front.len() == 0 {
        assert(front + back == back);
        assert(spec_lines(front) + spec_lines(back) == spec_lines(back));
    } else {
        lemma_first_newline_bound(front);
        let k = first_newline(front);
        assert(k < front.len()) by {
            if k == front.len() {
                lemma_first_newline_reaches(front, front.len() - 1);
            }
        }
        lemma_first_newline_in_front(front, back);
        let rest = front.subrange(k as int + 1, front.len() as int);
        assert((front + back).subrange(0, k as int) == front.subrange(0, k as int));
        assert((front + back).subrange(k as int + 1, (front + back).len() as int) == rest + back);
        lemma_lines_join(rest, back);
        assert(seq![without_cr(front.subrange(0, k as int))] + (spec_lines(rest) + spec_lines(back))
            == seq![without_cr(front.subrange(0, k as int))] + spec_lines(rest) + spec_lines(back));
    }
}

/// Where a text holds a line feed, there is a first one at or before it.
proof fn lemma_first_newline_reaches(text: Seq<char>, at: int)
    requires
        0 <= at < text.len(),
        text[at] == '\n',
    ensures
        first_newline(text) <= at,
    decreases text.len(),
{
    if text[0] != '\n' {
        lemma_first_newline_reaches(text.drop_first(), at - 1);
    }
}

/// A hunk written as text reads back as its lines.
proof fn lemma_lines_of_hunk(hunk: DiffHunk)
    requires
        forall|l: int| 0 <= l < hunk.lines@.len() ==> is_one_line(#[trigger] hunk.lines@[l].content@),
    ensures
        spec_lines(spec_hunk_text(hunk)) == spec_hunk_lines(hunk),
        spec_hunk_text(hunk).len() > 0,
        spec_hunk_text(hunk).last() == '\n',
{
    lemma_header_line(hunk);
    lemma_lines_of_marked(hunk.lines@, hunk.lines@.len());
    let body = spec_lines_text(hunk.lines@, hunk.lines@.len());
    lemma_lines_after_line(spec_header_line(hunk), body);
}

/// Lines of which the first opens a hunk and no other does fall into one
/// more hunk.
proof fn lemma_hunks_of_added_hunk(before: Seq<Seq<char>>, header: Seq<char>, body: Seq<Seq<char>>)
    requires
        is_hunk_header(header),
        forall|i: int| 0 <= i < body.len() ==> !is_hunk_header(#[trigger] body[i]),
    ensures
        spec_hunks(before + (seq![header] + body)) == spec_hunks(before).push(seq![header] + body),
    decreases body.len(),
{
    let all = before + (seq![header] + body);
    if body.len() == 0 {
        assert(all.drop_last() == before);
        assert(seq![header] + body == seq![header]);
    } else {
        let shorter = body.drop_last();
        lemma_hunks_of_added_hunk(before, header, shorter);
        assert(all.drop_last() == before + (seq![header] + shorter));
        assert(all.last() == body.last());
        assert(!is_hunk_header(body[body.len() - 1]));
        assert((seq![header] + shorter).push(body.last()) == seq![header] + body);
    }
}

/// The hunks of a commit, written as unified diff text and read again, are
/// found as they were: as many hunks, each with its header and its lines in
/// order. This holds where the content of every line is one line.
pub proof fn lemma_diff_text_reads_back(hunks: Seq<DiffHunk>, count: nat)
    requires
        count <= hunks.len(),
        is_well_lined(hunks),
    ensures
        spec_hunks(spec_lines(spec_diff_text(hunks, count))) == Seq::new(
            count,
            |h: int| spec_hunk_lines(hunks[h]),
        ),
        count > 0 ==> spec_diff_text(hunks, count).len() > 0 && spec_diff_text(
            hunks,
            count,
        ).last() == '\n',
    decreases count,
{
    let target = Seq::new(count, |h: int| spec_hunk_lines(hunks[h]));
    if count == 0 {
        assert(spec_hunks(spec_lines(spec_diff_text(hunks, count))) == target);
    } else {
        let hunk = hunks[count - 1];
        lemma_diff_text_reads_back(hunks, (count - 1) as nat);
        assert forall|l: int| 0 <= l < hunk.lines@.len() implies is_one_line(
            #[trigger] hunk.lines@[l].content@,
        ) by {
            assert(is_one_line(hunks[count - 1].lines@[l].content@));
        }
        lemma_lines_of_hunk(hunk);
        lemma_header_line(hunk);
        let front = spec_diff_text(hunks, (count - 1) as nat);
        lemma_lines_join(front, spec_hunk_text(hunk));
        let body = spec_marked_lines(hunk.lines@, hunk.lines@.len());
        assert forall|i: int| 0 <= i < body.len() implies !is_hunk_header(#[trigger] body[i]) by {
            assert(body[i][0] == spec_marker(hunk.lines@[i].change_type));
        }
        lemma_hunks_of_added_hunk(spec_lines(front), spec_header_line(hunk), body);
        assert(Seq::new((count - 1) as nat, |h: int| spec_hunk_lines(hunks[h])).push(
            spec_hunk_lines(hunk),
        ) == target);
    }
}

} // verus!
