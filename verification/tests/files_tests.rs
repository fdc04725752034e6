use ai_assistance::files::{
    category_for_extension, conflict_free_name, default_grouping_policy, file_access_logged,
    grouping_candidates, grouping_cutoff, grouping_preview, merge_grouping_policy, normalize_segment,
    relation_key, sorted_unique, DesktopEntry, FileGroupingPolicyInput, FileHistoryEntry,
    grouping_run_result, FileGroupingCandidate, GroupingTally, MoveOutcome,
};

#[test]
fn categories() {
    assert_eq!(category_for_extension("png"), "Images");
    assert_eq!(category_for_extension("flac"), "Audio");
    assert_eq!(category_for_extension("rs"), "Code");
    assert_eq!(category_for_extension("yml"), "Data");
    assert_eq!(category_for_extension("PNG"), "Other");
    assert_eq!(category_for_extension(""), "Other");
}

#[test]
fn segments_are_made_safe() {
    assert_eq!(normalize_segment("  My Folder!! "), "My_Folder");
    assert_eq!(normalize_segment("!!!"), "misc");
    assert_eq!(normalize_segment("a-b_c"), "a-b_c");
    let once = normalize_segment("x y.z");
    assert_eq!(normalize_segment(&once), once);
}

#[test]
fn relation_keys() {
    assert_eq!(relation_key("Invoice_2024_march.pdf"), Some("invoice".to_string()));
    assert_eq!(relation_key("a_b.txt"), None);
    assert_eq!(relation_key("ab-cd-efgh.txt"), Some("efgh".to_string()));
    assert_eq!(relation_key("notes"), Some("notes".to_string()));
}

fn entry(name: &str, ts: i64) -> DesktopEntry {
    DesktopEntry { path: format!("/desk/{}", name), file_name: name.to_string(), modified_ts: ts }
}

#[test]
fn grouping_plan_for_old_files() {
    let policy = default_grouping_policy();
    assert_eq!(policy.root_folder_name, "AI_AutoGroup");
    assert_eq!(policy.older_than_days, 90);
    let now = 1_000_000_000;
    assert_eq!(grouping_cutoff(now, 90), now - 90 * 86400);
    let entries = vec![
        entry(".hidden_invoice.pdf", 0),
        entry("invoice_jan.pdf", 0),
        entry("invoice_feb.pdf", 10),
        entry("photo.png", 0),
        entry("new.txt", now),
    ];
    let c = grouping_candidates(&entries, &policy, now);
    assert_eq!(c.len(), 3);
    assert_eq!(c[0].file_name, "invoice_jan.pdf");
    assert_eq!(c[0].from_path, "/desk/invoice_jan.pdf");
    assert_eq!(c[0].target_folder, "Related/invoice");
    assert_eq!(c[0].reason, "Related group by shared name key 'invoice'");
    assert_eq!(c[1].target_folder, "Related/invoice");
    assert_eq!(c[2].target_folder, "ByType/Images");
    assert_eq!(c[2].reason, "Type-based grouping for Images");
    let p = grouping_preview(policy, c);
    assert_eq!(p.candidate_count, 3);
}

#[test]
fn saturating_cutoff() {
    assert_eq!(grouping_cutoff(i64::MIN, 10), i64::MIN);
    assert_eq!(grouping_cutoff(0, i64::MAX), -i64::MAX);
}

#[test]
fn policy_updates_are_clamped() {
    let p = default_grouping_policy();
    let m = merge_grouping_policy(
        &p,
        FileGroupingPolicyInput { root_folder_name: Some(" My Stuff ".to_string()), older_than_days: Some(1) },
        5,
    );
    assert_eq!(m.root_folder_name, "My_Stuff");
    assert_eq!(m.older_than_days, 7);
    assert_eq!(m.updated_at, 5);
    let n = merge_grouping_policy(&m, FileGroupingPolicyInput { root_folder_name: None, older_than_days: Some(10_000) }, 6);
    assert_eq!(n.root_folder_name, "My_Stuff");
    assert_eq!(n.older_than_days, 3650);
}

#[test]
fn conflicting_targets_get_a_suffix() {
    assert_eq!(conflict_free_name("report.pdf", 17), "report_17.pdf");
    assert_eq!(conflict_free_name("Makefile", 3), "Makefile_3");
    assert_eq!(conflict_free_name("archive.tar.gz", -1), "archive.tar_-1.gz");
}

#[test]
fn folders_sorted_without_repetition() {
    let v = vec!["b".to_string(), "a".to_string(), "b".to_string(), "B".to_string()];
    assert_eq!(sorted_unique(&v), vec!["B".to_string(), "a".to_string(), "b".to_string()]);
    assert!(sorted_unique(&Vec::new()).is_empty());
}

#[test]
fn every_candidate_is_counted_once() {
    let mut t = GroupingTally::new();
    t.record("a.pdf", &MoveOutcome::Moved { created_folder: Some("/r/B".to_string()) });
    t.record("b.pdf", &MoveOutcome::SourceMissing);
    t.record("c.pdf", &MoveOutcome::MoveFailed { created_folder: Some("/r/A".to_string()), error: "denied".to_string() });
    t.record("d.pdf", &MoveOutcome::FolderFailed { error: "full".to_string() });
    t.record("e.pdf", &MoveOutcome::Moved { created_folder: Some("/r/A".to_string()) });
    assert_eq!(t.moved_count + t.skipped_count, 5);
    let r = t.finish(default_grouping_policy());
    assert_eq!(r.total_candidates, 5);
    assert_eq!(r.moved_count, 2);
    assert_eq!(r.skipped_count, 3);
    assert_eq!(r.created_folders, vec!["/r/A".to_string(), "/r/B".to_string()]);
    assert_eq!(r.errors, vec!["c.pdf: denied".to_string(), "d.pdf: full".to_string()]);
}

fn candidate(name: &str) -> FileGroupingCandidate {
    FileGroupingCandidate {
        file_name: name.to_string(),
        from_path: format!("/d/{}", name),
        target_folder: "X".to_string(),
        reason: "r".to_string(),
    }
}

#[test]
fn a_run_counts_each_candidate_once() {
    let candidates = vec![candidate("a.pdf"), candidate("b.pdf"), candidate("c.pdf")];
    let outcomes = vec![
        MoveOutcome::Moved { created_folder: Some("/r/X".to_string()) },
        MoveOutcome::FolderFailed { error: "full".to_string() },
        MoveOutcome::SourceMissing,
    ];
    let r = grouping_run_result(default_grouping_policy(), &candidates, &outcomes);
    assert_eq!(r.total_candidates, 3);
    assert_eq!(r.moved_count, 1);
    assert_eq!(r.skipped_count, 2);
    assert_eq!(r.errors, vec!["b.pdf: full".to_string()]);
    assert_eq!(r.created_folders, vec!["/r/X".to_string()]);
    let empty = grouping_run_result(default_grouping_policy(), &vec![], &vec![]);
    assert_eq!(empty.total_candidates, 0);
    assert_eq!(empty.moved_count + empty.skipped_count, 0);
}

#[test]
fn file_access_counts() {
    let first = file_access_logged(None, 7, "/x/a.txt", "a.txt", 100);
    assert_eq!(first.id, 7);
    assert_eq!(first.access_count, 1);
    let again = file_access_logged(Some(&first), 8, "/x/a.txt", "renamed.txt", 200);
    assert_eq!(again.id, 7);
    assert_eq!(again.access_count, 2);
    assert_eq!(again.name, "renamed.txt");
    assert_eq!(again.last_accessed, 200);
    let maxed = FileHistoryEntry { id: 1, path: "p".to_string(), name: "n".to_string(), last_accessed: 0, access_count: i64::MAX };
    assert_eq!(file_access_logged(Some(&maxed), 2, "p", "n", 1).access_count, i64::MAX);
}
