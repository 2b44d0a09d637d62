use torvax::duration::{calculate_animation_duration, rounded_seconds, words_for_duration};

fn diff(lines: &[&str]) -> Vec<String> {
    lines.iter().map(|l| l.to_string()).collect()
}

#[test]
fn empty_diff_lasts_five_seconds() {
    assert_eq!(calculate_animation_duration(&diff(&[]), 30), 5_000_000);
}

#[test]
fn lines_before_first_hunk_cost_nothing() {
    let lines = diff(&["--- a/x", "+++ b/x", "+added before any hunk", "-gone"]);
    assert_eq!(calculate_animation_duration(&lines, 1_000), 5_000_000);
}

#[test]
fn added_line_costs_characters_and_pause() {
    // header: 2.5 * 1000 ms; "+abcd": (4 + 6.7) * 1000 ms
    let lines = diff(&["@@ -1 +1 @@", "+abcd"]);
    assert_eq!(calculate_animation_duration(&lines, 1_000), 13_200_000);
}

#[test]
fn deleted_line_costs_pause_only() {
    let lines = diff(&["@@ -1 +1 @@", "-a very long line that is deleted at once"]);
    assert_eq!(calculate_animation_duration(&lines, 1_000), 12_500_000);
}

#[test]
fn second_hunk_adds_hunk_pause() {
    let lines = diff(&["@@ -1 +1 @@", " context", "@@ -9 +9 @@"]);
    assert_eq!(calculate_animation_duration(&lines, 1_000), 55_000_000);
}

#[test]
fn file_markers_inside_hunk_cost_nothing() {
    let lines = diff(&["@@ -1 +1 @@", "+++ b/x", "--- a/x"]);
    assert_eq!(calculate_animation_duration(&lines, 4_000), 10_000_000);
}

#[test]
fn huge_speed_saturates() {
    let lines = diff(&["@@ -1 +1 @@", "+abcd"]);
    assert_eq!(calculate_animation_duration(&lines, u64::MAX), u64::MAX);
}

#[test]
fn words_are_clamped() {
    assert_eq!(words_for_duration(0), 40);
    assert_eq!(words_for_duration(5_000_000), 40);
    assert_eq!(words_for_duration(8_200_000), 41);
    assert_eq!(words_for_duration(30_000_000), 150);
    assert_eq!(words_for_duration(80_000_000), 400);
    assert_eq!(words_for_duration(u64::MAX), 400);
}

#[test]
fn seconds_round_half_to_even() {
    assert_eq!(rounded_seconds(5_000_000), 5);
    assert_eq!(rounded_seconds(5_499_999), 5);
    assert_eq!(rounded_seconds(5_500_000), 6);
    assert_eq!(rounded_seconds(6_500_000), 6);
    assert_eq!(rounded_seconds(6_500_001), 7);
}
