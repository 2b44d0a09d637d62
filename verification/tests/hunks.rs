use torvax::grouping::{groups_from_reply, hunk_range, llm_group_hunks, single_group};
use torvax::hunks::{chunk_lines, parse_hunks, split_hunks};
use torvax::wire::GroupingReply;

fn strings(lines: &[&str]) -> Vec<String> {
    lines.iter().map(|l| l.to_string()).collect()
}

const THREE_HUNKS: &str = "--- a/f.rs\n+++ b/f.rs\n@@ -1,2 +1,3 @@\n use a;\n+use b;\n@@ -10,3 +11,2 @@\n-old();\n context\n@@ -20 +20 @@\n-x\n+y\n+z\n+w\n-v\n";

#[test]
fn diff_without_header_has_no_hunks() {
    let (hunks, summaries) = parse_hunks("--- a/f\n+++ b/f\n+added\n");
    assert!(hunks.is_empty());
    assert!(summaries.is_empty());
}

#[test]
fn hunks_run_from_header_to_header() {
    let (hunks, _) = parse_hunks(THREE_HUNKS);
    assert_eq!(
        hunks,
        vec![
            strings(&["@@ -1,2 +1,3 @@", " use a;", "+use b;"]),
            strings(&["@@ -10,3 +11,2 @@", "-old();", " context"]),
            strings(&["@@ -20 +20 @@", "-x", "+y", "+z", "+w", "-v"]),
        ]
    );
    assert_eq!(split_hunks(&strings(&["x", "@@", "@@ b"])), vec![strings(&["@@"]), strings(&["@@ b"])]);
}

#[test]
fn summaries_count_and_preview() {
    let (_, summaries) = parse_hunks(THREE_HUNKS);
    assert_eq!(
        summaries,
        vec![
            "Hunk 0: @@ -1,2 +1,3 @@ — 1 additions, 0 deletions\n  Preview: +use b;".to_string(),
            "Hunk 1: @@ -10,3 +11,2 @@ — 0 additions, 1 deletions\n  Preview: -old();".to_string(),
            "Hunk 2: @@ -20 +20 @@ — 3 additions, 2 deletions\n  Preview: -x | +y | +z".to_string(),
        ]
    );
}

#[test]
fn file_markers_are_previewed_but_not_counted() {
    let (_, summaries) = parse_hunks("@@ -1 +1 @@\n+++ b/x\n--- a/x\n context\n");
    assert_eq!(
        summaries,
        vec!["Hunk 0: @@ -1 +1 @@ — 0 additions, 0 deletions\n  Preview: +++ b/x | --- a/x".to_string()]
    );
}

#[test]
fn chunk_lines_follow_group_order() {
    let (hunks, _) = parse_hunks(THREE_HUNKS);
    assert_eq!(
        chunk_lines(&hunks, &vec![2, 0, 7]),
        strings(&["@@ -20 +20 @@", "-x", "+y", "+z", "+w", "-v", "@@ -1,2 +1,3 @@", " use a;", "+use b;"])
    );
    assert!(chunk_lines(&hunks, &vec![]).is_empty());
}

#[test]
fn single_hunk_is_one_group_without_asking() {
    assert_eq!(single_group(1), Some(vec![vec![0]]));
    assert_eq!(single_group(0), Some(vec![vec![]]));
    assert_eq!(single_group(2), None);
    assert_eq!(hunk_range(3), vec![0, 1, 2]);
}

#[test]
fn omitted_hunk_forms_last_group() {
    assert_eq!(llm_group_hunks("{\"chunks\": [[0, 1]]}", 3), vec![vec![0, 1], vec![2]]);
    assert_eq!(llm_group_hunks("  {\"chunks\": [[1], [0]]} \n", 3), vec![vec![1], vec![0], vec![2]]);
}

#[test]
fn groups_drop_what_names_no_hunk_or_was_named() {
    assert_eq!(
        llm_group_hunks("{\"chunks\": [[0, 0, 9], [0, 2, -1, 1.5, \"1\"], [9], 5, [1]]}", 3),
        vec![vec![0], vec![2], vec![1]]
    );
    let reply = GroupingReply::Groups(vec![Some(vec![Some(1), None, Some(1)]), None, Some(vec![Some(7)])]);
    assert_eq!(groups_from_reply(&reply, 2), vec![vec![1], vec![0]]);
}

#[test]
fn unusable_answers_fall_back() {
    assert_eq!(llm_group_hunks("not json", 3), vec![vec![0, 1, 2]]);
    assert_eq!(llm_group_hunks("", 2), vec![vec![0, 1]]);
    assert_eq!(llm_group_hunks("{\"groups\": [[0], [1, 2]]}", 3), vec![vec![0, 1, 2]]);
    assert_eq!(llm_group_hunks("[[0, 1]]", 2), vec![vec![0, 1]]);
    assert_eq!(llm_group_hunks("{\"chunks\": 3}", 2), vec![vec![0, 1]]);
    assert_eq!(llm_group_hunks("{\"chunks\": null}", 2), vec![vec![0, 1]]);
    assert_eq!(llm_group_hunks("{\"chunks\": []}", 2), vec![vec![0, 1]]);
    assert_eq!(groups_from_reply(&GroupingReply::Malformed, 2), vec![vec![0, 1]]);
    assert_eq!(groups_from_reply(&GroupingReply::NoGroups, 2), vec![vec![0, 1]]);
}

#[test]
fn groups_cover_each_hunk_once() {
    for answer in ["{\"chunks\": [[3, 1], [1, 2, 3], []]}", "{\"chunks\": [[4,4,4]]}", "x", "{}"] {
        let groups = llm_group_hunks(answer, 5);
        let mut seen: Vec<usize> = groups.iter().flatten().copied().collect();
        seen.sort();
        assert_eq!(seen, vec![0, 1, 2, 3, 4], "answer {:?}", answer);
        assert!(groups.iter().all(|g| !g.is_empty()));
    }
}
