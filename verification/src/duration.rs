//! The duration model: how long the typing animation of a diff lasts, and how
//! many words of narration fill that time.
//!
//! Times are whole microseconds. The typing speed is given in milliseconds per
//! character, and every cost of the animation is a fixed multiple of it; the
//! multiples below are microseconds per millisecond of typing speed.

use crate::text::{to_chars, views};
use vstd::prelude::*;

verus! {

/// Cost of typing one character.
pub const TYPE_CHAR_WEIGHT: u64 = 1_000;

/// Pause after a line has been inserted.
pub const INSERT_LINE_WEIGHT: u64 = 6_700;

/// Pause for a line that is deleted.
pub const DELETE_LINE_WEIGHT: u64 = 10_000;

/// Pause before every hunk but the first.
pub const HUNK_PAUSE_WEIGHT: u64 = 50_000;

/// Cost of moving the cursor to a hunk.
pub const CURSOR_MOVE_WEIGHT: u64 = 2_500;

/// The shortest animation that is ever reported, in microseconds.
pub const MIN_DURATION_MICROS: u64 = 5_000_000;

/// The fewest words a narration is asked to have.
pub const MIN_WORDS: usize = 40;

/// The most words a narration is asked to have.
pub const MAX_WORDS: usize = 400;

/// Microseconds that one spoken word lasts, at 150 words a minute.
pub const MICROS_PER_SPOKEN_WORD: u64 = 400_000;

/// How many times longer than the animation the narration is sized to be.
pub const NARRATION_BUFFER: u64 = 2;

/// Whether `line` opens a hunk: whether it begins with `@@`.
pub open spec fn is_hunk_header(line: Seq<char>) -> bool {
    line.len() >= 2 && line[0] == '@' && line[1] == '@'
}

/// Whether `line` begins with three times the character `mark`.
pub open spec fn is_file_marker(line: Seq<char>, mark: char) -> bool {
    line.len() >= 3 && line[0] == mark && line[1] == mark && line[2] == mark
}

/// Whether `line` adds a line: it begins with `+`, but not with `+++`.
pub open spec fn is_addition(line: Seq<char>) -> bool {
    line.len() >= 1 && line[0] == '+' && !is_file_marker(line, '+')
}

/// Whether `line` deletes a line: it begins with `-`, but not with `---`.
pub open spec fn is_deletion(line: Seq<char>) -> bool {
    line.len() >= 1 && line[0] == '-' && !is_file_marker(line, '-')
}

/// Whether one of `lines` opens a hunk.
pub open spec fn has_header(lines: Seq<Seq<char>>) -> bool {
    exists|i: int| 0 <= i < lines.len() && is_hunk_header(#[trigger] lines[i])
}

/// What `line` adds to the animation, given whether a hunk was opened before
/// it. A hunk header costs the cursor movement, and the hunk pause unless it
/// is the first. Before the first header nothing counts. An added line costs
/// its characters after the `+` and the insertion pause, a deleted line the
/// deletion pause, any other line nothing.
pub open spec fn line_weight(line: Seq<char>, in_hunk: bool) -> nat {
    if is_hunk_header(line) {
        if in_hunk {
            (HUNK_PAUSE_WEIGHT + CURSOR_MOVE_WEIGHT) as nat
        } else {
            CURSOR_MOVE_WEIGHT as nat
        }
    } else if !in_hunk {
        0
    } else if is_addition(line) {
        ((line.len() - 1) * TYPE_CHAR_WEIGHT + INSERT_LINE_WEIGHT) as nat
    } else if is_deletion(line) {
        DELETE_LINE_WEIGHT as nat
    } else {
        0
    }
}

/// What `lines` add up to: microseconds of animation for each millisecond of
/// typing speed.
pub open spec fn diff_weight(lines: Seq<Seq<char>>) -> nat
    decreases lines.len(),
{
    if lines.len() == 0 {
        0
    } else {
        diff_weight(lines.drop_last()) + line_weight(lines.last(), has_header(lines.drop_last()))
    }
}

/// The animation of `lines` at `speed_ms` milliseconds per character, in
/// microseconds: never under five seconds.
pub open spec fn spec_animation_micros(lines: Seq<Seq<char>>, speed_ms: nat) -> nat {
    let typed = diff_weight(lines) * speed_ms;
    if typed < MIN_DURATION_MICROS as nat {
        MIN_DURATION_MICROS as nat
    } else {
        typed
    }
}

/// `micros` as a `u64` holds it: the largest `u64` where it is larger.
pub open spec fn saturated(micros: nat) -> u64 {
    if micros > u64::MAX as nat {
        u64::MAX
    } else {
        micros as u64
    }
}

/// The narration length for an animation of `micros` microseconds, before it
/// is held to its bounds: the whole words spoken in that time, times the
/// buffer.
pub open spec fn unclamped_words(micros: nat) -> nat {
    ((micros * NARRATION_BUFFER) / (MICROS_PER_SPOKEN_WORD as int)) as nat
}

/// The narration length for an animation of `micros` microseconds.
pub open spec fn spec_words_for_duration(micros: nat) -> nat {
    let raw = unclamped_words(micros);
    if raw < MIN_WORDS as nat {
        MIN_WORDS as nat
    } else if raw > MAX_WORDS as nat {
        MAX_WORDS as nat
    } else {
        raw
    }
}

/// `micros` in whole seconds, rounded to the nearest, a half to the even one.
pub open spec fn spec_rounded_seconds(micros: nat) -> nat {
    let whole = micros / 1_000_000;
    let rest = micros % 1_000_000;
    if rest > 500_000 || (rest == 500_000 && whole % 2 == 1) {
        whole + 1
    } else {
        whole
    }
}

/// Whether `line` opens a hunk.
pub fn line_is_hunk_header(line: &str) -> (b: bool)
    ensures
        b == is_hunk_header(line@),
{
    let chars = to_chars(line);
    chars.len() >= 2 && chars[0] == '@' && chars[1] == '@'
}

/// Whether `line` adds a line.
pub fn line_is_addition(line: &str) -> (b: bool)
    ensures
        b == is_addition(line@),
{
    let chars = to_chars(line);
    let n: usize = chars.len();
    n >= 1 && chars[0] == '+' && !(n >= 3 && chars[1] == '+' && chars[2] == '+')
}

/// Whether `line` deletes a line.
pub fn line_is_deletion(line: &str) -> (b: bool)
    ensures
        b == is_deletion(line@),
{
    let chars = to_chars(line);
    let n: usize = chars.len();
    n >= 1 && chars[0] == '-' && !(n >= 3 && chars[1] == '-' && chars[2] == '-')
}

fn saturating_product(a: u64, b: u64) -> (p: u64)
    ensures
        p == saturated((a * b) as nat),
{
    match a.checked_mul(b) {
        Some(p) => p,
        None => u64::MAX,
    }
}

/// What one line adds, held to `u64`.
fn weigh_line(line: &str, in_hunk: bool) -> (r: (u64, bool))
    ensures
        r.0 == saturated(line_weight(line@, in_hunk)),
        r.1 == is_hunk_header(line@),
{
    let chars = to_chars(line);
    let n: usize = chars.len();
    if n >= 2 && chars[0] == '@' && chars[1] == '@' {
        if in_hunk {
            (HUNK_PAUSE_WEIGHT + CURSOR_MOVE_WEIGHT, true)
        } else {
            (CURSOR_MOVE_WEIGHT, true)
        }
    } else if !in_hunk || n == 0 {
        (0, false)
    } else {
        let marker: bool = n >= 3 && chars[1] == chars[0] && chars[2] == chars[0];
        if chars[0] == '+' && !marker {
            let typed: u64 = saturating_product((n - 1) as u64, TYPE_CHAR_WEIGHT);
            (typed.saturating_add(INSERT_LINE_WEIGHT), false)
        } else if chars[0] == '-' && !marker {
            (DELETE_LINE_WEIGHT, false)
        } else {
            (0, false)
        }
    }
}

/// A weight held to `u64` and then multiplied is the product held to `u64`.
proof fn lemma_saturated_product(weight: nat, speed: nat)
    requires
        speed <= u64::MAX,
    ensures
        saturated((saturated(weight) * speed) as nat) == saturated(weight * speed),
{
    if weight > u64::MAX as nat {
        if speed > 0 {
            assert(weight * speed >= weight) by (nonlinear_arith)
                requires
                    speed >= 1,
            ;
            assert(u64::MAX * speed >= u64::MAX) by (nonlinear_arith)
                requires
                    speed >= 1,
            ;
        } else {
            assert(weight * speed == 0) by (nonlinear_arith)
                requires
                    speed == 0,
            ;
            assert(u64::MAX * speed == 0) by (nonlinear_arith)
                requires
                    speed == 0,
            ;
        }
    }
}

/// How long the typing animation of `diff_lines` lasts at `speed_ms`
/// milliseconds per character, in microseconds. A result that a `u64` cannot
/// hold is reported as the largest `u64`.
pub fn calculate_animation_duration(diff_lines: &Vec<String>, speed_ms: u64) -> (micros: u64)
    ensures
        micros == saturated(spec_animation_micros(views(diff_lines@), speed_ms as nat)),
        micros >= MIN_DURATION_MICROS,
{
    let ghost all = views(diff_lines@);
    let mut weight: u64 = 0;
    let mut in_hunk: bool = false;
    let mut i: usize = 0;
    while i < diff_lines.len()
        invariant
            i <= diff_lines.len(),
            all == views(diff_lines@),
            weight == saturated(diff_weight(all.take(i as int))),
            in_hunk == has_header(all.take(i as int)),
        decreases diff_lines.len() - i,
    {
        let (cost, header) = weigh_line(diff_lines[i].as_str(), in_hunk);
        proof {
            let before = all.take(i as int);
            let next = all.take(i + 1);
            assert(next.drop_last() == before);
            assert(next.last() == diff_lines@[i as int]@);
            if header {
                assert(is_hunk_header(next[i as int]));
            }
            if has_header(next) && !header {
                let k = choose|k: int| 0 <= k < next.len() && is_hunk_header(#[trigger] next[k]);
                assert(is_hunk_header(before[k]));
            }
            if in_hunk {
                let k = choose|k: int| 0 <= k < before.len() && is_hunk_header(#[trigger] before[k]);
                assert(is_hunk_header(next[k]));
            }
        }
        weight = weight.saturating_add(cost);
        in_hunk = in_hunk || header;
        i += 1;
    }
    proof {
        assert(all.take(diff_lines.len() as int) == all);
        lemma_saturated_product(diff_weight(all), speed_ms as nat);
    }
    let typed: u64 = saturating_product(weight, speed_ms);
    if typed < MIN_DURATION_MICROS {
        MIN_DURATION_MICROS
    } else {
        typed
    }
}

/// Target word count for the narration of an animation that lasts
/// `animation_micros` microseconds: the words spoken in twice that time, but
/// no fewer than 40 and no more than 400.
pub fn words_for_duration(animation_micros: u64) -> (words: usize)
    ensures
        words == spec_words_for_duration(animation_micros as nat),
        MIN_WORDS <= words <= MAX_WORDS,
{
    let raw: u64 = animation_micros / (MICROS_PER_SPOKEN_WORD / NARRATION_BUFFER);
    assert(raw == unclamped_words(animation_micros as nat)) by {
        let m = animation_micros as int;
        assert((m * 2) / 400_000 == m / 200_000) by (nonlinear_arith);
    }
    if raw < MIN_WORDS as u64 {
        MIN_WORDS
    } else if raw > MAX_WORDS as u64 {
        MAX_WORDS
    } else {
        raw as usize
    }
}

/// `micros` in whole seconds, rounded to the nearest, a half to the even one.
pub fn rounded_seconds(micros: u64) -> (seconds: u64)
    ensures
        seconds == spec_rounded_seconds(micros as nat),
{
    let whole: u64 = micros / 1_000_000;
    let rest: u64 = micros % 1_000_000;
    if rest > 500_000 || (rest == 500_000 && whole % 2 == 1) {
        whole + 1
    } else {
        whole
    }
}

/// How long `words` spoken words last, in microseconds, held to `u64`.
pub fn spoken_micros(words: usize) -> (micros: u64)
    ensures
        micros == saturated((words * MICROS_PER_SPOKEN_WORD) as nat),
{
    saturating_product(words as u64, MICROS_PER_SPOKEN_WORD)
}

/// A line weighs no less after a hunk header than before the first.
proof fn lemma_line_weight_grows(line: Seq<char>)
    ensures
        line_weight(line, false) <= line_weight(line, true),
{
}

/// One more line, put anywhere, never lowers the weight of a diff.
pub proof fn lemma_weight_grows_with_lines(lines: Seq<Seq<char>>, at: int, line: Seq<char>)
    requires
        0 <= at <= lines.len(),
    ensures
        diff_weight(lines) <= diff_weight(lines.insert(at, line)),
    decreases lines.len(),
{
    let longer = lines.insert(at, line);
    if at == lines.len() {
        assert(longer.drop_last() == lines);
    } else {
        let shorter = lines.drop_last();
        lemma_weight_grows_with_lines(shorter, at, line);
        assert(longer.drop_last() == shorter.insert(at, line));
        assert(longer.last() == lines.last());
        if has_header(shorter) {
            let k = choose|k: int| 0 <= k < shorter.len() && is_hunk_header(#[trigger] shorter[k]);
            let moved = if k < at {
                k
            } else {
                k + 1
            };
            assert(is_hunk_header(longer.drop_last()[moved]));
        }
        lemma_line_weight_grows(lines.last());
    }
}

/// At a fixed typing speed, one more line, put anywhere into a diff, never
/// shortens its animation: neither the exact duration nor the one reported.
pub proof fn lemma_duration_grows_with_lines(
    lines: Seq<Seq<char>>,
    at: int,
    line: Seq<char>,
    speed_ms: nat,
)
    requires
        0 <= at <= lines.len(),
    ensures
        spec_animation_micros(lines, speed_ms) <= spec_animation_micros(
            lines.insert(at, line),
            speed_ms,
        ),
        saturated(spec_animation_micros(lines, speed_ms)) <= saturated(
            spec_animation_micros(lines.insert(at, line), speed_ms),
        ),
{
    lemma_weight_grows_with_lines(lines, at, line);
    let before = diff_weight(lines);
    let after = diff_weight(lines.insert(at, line));
    assert(before * speed_ms <= after * speed_ms) by (nonlinear_arith)
        requires
            before <= after,
    ;
}

/// No animation is reported shorter than five seconds, whatever the lines
/// and the speed: not that of no lines at all.
pub proof fn lemma_duration_floor(lines: Seq<Seq<char>>, speed_ms: nat)
    ensures
        spec_animation_micros(lines, speed_ms) >= MIN_DURATION_MICROS,
        saturated(spec_animation_micros(lines, speed_ms)) >= MIN_DURATION_MICROS,
        spec_animation_micros(Seq::empty(), speed_ms) == MIN_DURATION_MICROS,
{
    assert(0 * speed_ms == 0) by (nonlinear_arith);
}

/// The narration length lies between 40 and 400 words for every duration.
pub proof fn lemma_words_within_bounds(micros: nat)
    ensures
        MIN_WORDS <= spec_words_for_duration(micros) <= MAX_WORDS,
{
}

/// Where the narration length is held to neither of its bounds, speaking it
/// takes at least as long as the animation. That covers every animation for
/// which more than 40 words are asked and which lasts no longer than the 400
/// words of the upper bound take to speak.
pub proof fn lemma_narration_outlasts_animation(micros: nat)
    requires
        unclamped_words(micros) > MIN_WORDS,
        micros <= MAX_WORDS * MICROS_PER_SPOKEN_WORD,
    ensures
        spec_words_for_duration(micros) * MICROS_PER_SPOKEN_WORD >= micros,
{
}

} // verus!
