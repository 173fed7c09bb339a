use git_smash::candidates::{
    bound_entries, drop_fixups, entry_ids, file_history, format_for_source, is_fixup_subject,
    merge_candidates, parse_history_line, parse_history_lines, recent_bound, Candidate,
    HistoryEntry, Merger, SeenSet, Source, SourcedCommit,
};

fn ids(v: &[&str]) -> Vec<String> {
    v.iter().map(|s| s.to_string()).collect()
}

#[test]
fn merged_stream_has_no_duplicate_ids() {
    let recent = ids(&["c1", "c2"]);
    let blame = ids(&["c2", "c3", "c1"]);
    let file = ids(&["c3", "c4", "c2"]);
    let merged = merge_candidates(&recent, &blame, &file);
    let mut seen: Vec<String> = Vec::new();
    for e in &merged {
        assert!(!seen.contains(&e.commit));
        seen.push(e.commit.clone());
    }
    assert_eq!(seen, vec!["c1", "c2", "c3", "c4"]);
}

#[test]
fn commit_in_recent_and_blame_is_tagged_recent() {
    let recent = ids(&["aaa", "bbb"]);
    let blame = ids(&["bbb", "ccc"]);
    let file = ids(&[]);
    let merged = merge_candidates(&recent, &blame, &file);
    let hit = merged.iter().find(|e| e.commit == "bbb").unwrap();
    assert!(matches!(hit.source, Source::Recent));
    let other = merged.iter().find(|e| e.commit == "ccc").unwrap();
    assert!(matches!(other.source, Source::Blame));
}

#[test]
fn merge_keeps_priority_order() {
    let recent = ids(&["r1"]);
    let blame = ids(&["b1"]);
    let file = ids(&["f1"]);
    let merged = merge_candidates(&recent, &blame, &file);
    let commits: Vec<&str> = merged.iter().map(|e| e.commit.as_str()).collect();
    assert_eq!(commits, vec!["r1", "b1", "f1"]);
}

#[test]
fn disabled_sources_contribute_nothing() {
    let merged = merge_candidates(&ids(&[]), &ids(&[]), &ids(&["f1", "f1"]));
    assert_eq!(merged.len(), 1);
    assert_eq!(merged[0].commit, "f1");
    assert!(matches!(merged[0].source, Source::File));
}

#[test]
fn fixup_subjects_are_recognized() {
    assert!(is_fixup_subject("fixup! earlier change"));
    assert!(is_fixup_subject("squash! earlier change"));
    assert!(!is_fixup_subject("fix typo"));
    assert!(!is_fixup_subject(" fixup! leading space"));
    assert!(!is_fixup_subject("fixup!missing space"));
}

#[test]
fn history_line_splits_hash_and_subject() {
    let e = parse_history_line("abc123 subject words").unwrap();
    assert_eq!(e.hash, "abc123");
    assert_eq!(e.subject, "subject words");
    assert!(parse_history_line("").is_none());
    assert!(parse_history_line("   ").is_none());
}

#[test]
fn history_line_without_subject() {
    let e = parse_history_line("abc123").unwrap();
    assert_eq!(e.hash, "abc123");
    assert_eq!(e.subject, "");
}

#[test]
fn file_history_never_yields_fixup_commits() {
    let out = "c4 fixup! earlier\nc3 real work\nc2 squash! earlier\nc1 first\n";
    let entries = file_history(out, 0);
    let hashes: Vec<&str> = entries.iter().map(|e| e.hash.as_str()).collect();
    assert_eq!(hashes, vec!["c3", "c1"]);
    for e in &entries {
        assert!(!is_fixup_subject(&e.subject));
    }
}

#[test]
fn file_history_bound_takes_newest_two() {
    let out = "c3 newest\nc2 middle\nc1 oldest-matching\n";
    let entries = file_history(out, 2);
    let hashes: Vec<&str> = entries.iter().map(|e| e.hash.as_str()).collect();
    assert_eq!(hashes, vec!["c3", "c2"]);
}

#[test]
fn file_history_bound_zero_is_unbounded() {
    let out = "c3 a\nc2 b\nc1 c\n";
    assert_eq!(file_history(out, 0).len(), 3);
}

#[test]
fn drop_fixups_and_bound_compose() {
    let parsed = parse_history_lines("a fixup! x\nb keep\nc keep too\n");
    assert_eq!(parsed.len(), 3);
    let kept = drop_fixups(parsed);
    assert_eq!(kept.len(), 2);
    let bounded = bound_entries(kept, 1);
    assert_eq!(bounded.len(), 1);
    assert_eq!(bounded[0].hash, "b");
}

#[test]
fn entry_ids_extracts_hashes() {
    let entries = vec![
        HistoryEntry { hash: "a".to_string(), subject: "s".to_string() },
        HistoryEntry { hash: "b".to_string(), subject: "t".to_string() },
    ];
    assert_eq!(entry_ids(&entries), vec!["a".to_string(), "b".to_string()]);
}

#[test]
fn incremental_merge_matches_batch_merge() {
    let recent = ids(&["c1", "c2"]);
    let blame = ids(&["c2", "c3"]);
    let file = ids(&["c1", "c4"]);
    let mut merger = Merger::new();
    let mut all: Vec<SourcedCommit> = Vec::new();
    all.extend(merger.push_source(&recent, Source::Recent));
    all.extend(merger.push_source(&blame, Source::Blame));
    all.extend(merger.push_source(&file, Source::File));
    let batch = merge_candidates(&recent, &blame, &file);
    assert_eq!(all.len(), batch.len());
    for (a, b) in all.iter().zip(batch.iter()) {
        assert_eq!(a.commit, b.commit);
        assert_eq!(a.source, b.source);
    }
}

#[test]
fn later_batches_repeat_nothing() {
    let mut merger = Merger::new();
    let first = merger.push_source(&ids(&["x", "y"]), Source::Recent);
    let second = merger.push_source(&ids(&["y", "z", "x"]), Source::File);
    assert_eq!(first.len(), 2);
    assert_eq!(second.len(), 1);
    assert_eq!(second[0].commit, "z");
}

#[test]
fn recent_bound_prefers_the_configured_count() {
    assert_eq!(recent_bound(5), 5);
    assert_eq!(recent_bound(0), 10);
}

#[test]
fn seen_set_records_membership() {
    let mut seen = SeenSet::new();
    assert!(!seen.contains("abc"));
    seen.insert("abc".to_string());
    assert!(seen.contains("abc"));
    assert!(!seen.contains("abd"));
}

#[test]
fn candidate_pairs_commit_with_rendering() {
    let found = SourcedCommit { commit: "abc".to_string(), source: Source::Blame };
    let c: Candidate = Candidate::new(found, "abc [B] subject".to_string());
    assert_eq!(c.commit, "abc");
    assert!(matches!(c.source, Source::Blame));
    assert_eq!(c.rendered, "abc [B] subject");
}

#[test]
fn format_substitutes_source_label() {
    let f = format_for_source("%h [%(smash:source)] %s", "R");
    assert_eq!(f, "%h [R] %s");
    let twice = format_for_source("%(smash:source)%(smash:source)", "B");
    assert_eq!(twice, "BB");
    let none = format_for_source("%h %s", "F");
    assert_eq!(none, "%h %s");
}
