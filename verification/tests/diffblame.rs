use git_smash::blame::{blame_args, blame_commits};
use git_smash::diff::{extract_hunks, Hunk};
use git_smash::git::parse_staged_files;

const DIFF: &str = "diff --git src/lib.rs src/lib.rs\n\
index 111..222 100644\n\
--- src/lib.rs\n\
+++ src/lib.rs\n\
@@ -10,3 +10,4 @@ fn context()\n\
 line\n\
@@ -42 +43 @@\n\
 line\n\
diff --git new.rs new.rs\n\
new file mode 100644\n\
--- /dev/null\n\
+++ new.rs\n\
@@ -0,0 +1,5 @@\n\
+added\n\
diff --git other.rs other.rs\n\
--- other.rs\n\
+++ other.rs\n\
@@ -7,0 +8,2 @@\n\
+more\n";

#[test]
fn hunks_carry_file_start_and_length() {
    let hunks = extract_hunks(DIFF);
    let got: Vec<(&str, u32, u32)> =
        hunks.iter().map(|h| (h.file.as_str(), h.start, h.len)).collect();
    assert_eq!(
        got,
        vec![("src/lib.rs", 10, 3), ("src/lib.rs", 42, 1), ("other.rs", 7, 0)]
    );
}

#[test]
fn new_file_section_contributes_no_hunks() {
    let only_new = "--- /dev/null\n+++ new.rs\n@@ -0,0 +1,5 @@\n+x\n";
    assert_eq!(extract_hunks(only_new).len(), 0);
    for h in extract_hunks(DIFF) {
        assert_ne!(h.file, "/dev/null");
        assert_ne!(h.file, "new.rs");
    }
}

#[test]
fn missing_length_defaults_to_one_and_zero_is_kept() {
    let hunks = extract_hunks(DIFF);
    assert_eq!(hunks[1].len, 1);
    assert_eq!(hunks[2].len, 0);
}

#[test]
fn deleted_comment_lines_are_not_file_headers() {
    let diff = "diff --git queries.sql queries.sql\n\
index 111..222 100644\n\
--- queries.sql\n\
+++ queries.sql\n\
@@ -3,2 +3,1 @@\n\
 select 1;\n\
--- old comment\n\
@@ -10,1 +9,2 @@\n\
 select 2;\n\
+select 3;\n";
    let hunks = extract_hunks(diff);
    let got: Vec<(&str, u32, u32)> =
        hunks.iter().map(|h| (h.file.as_str(), h.start, h.len)).collect();
    assert_eq!(got, vec![("queries.sql", 3, 2), ("queries.sql", 10, 1)]);
}

#[test]
fn quoted_header_paths_are_unquoted() {
    let diff = "diff --git \"a\\tb.rs\" \"a\\tb.rs\"\n\
--- \"a\\tb.rs\"\n\
+++ \"a\\tb.rs\"\n\
@@ -1,2 +1,2 @@\n";
    let hunks = extract_hunks(diff);
    assert_eq!(hunks.len(), 1);
    assert_eq!(hunks[0].file, "a\tb.rs");
}

#[test]
fn quoted_header_octal_escapes_decode_as_utf8() {
    let diff = "diff --git \"na\\303\\257ve.txt\" \"na\\303\\257ve.txt\"\n\
--- \"na\\303\\257ve.txt\"\n\
+++ \"na\\303\\257ve.txt\"\n\
@@ -5 +5 @@\n";
    let hunks = extract_hunks(diff);
    assert_eq!(hunks.len(), 1);
    let expected = String::from_utf8(vec![0x6e, 0x61, 0xc3, 0xaf, 0x76, 0x65, 0x2e, 0x74, 0x78, 0x74]).unwrap();
    assert_eq!(hunks[0].file, expected);
}

#[test]
fn malformed_quoting_keeps_the_raw_header_text() {
    let diff = "diff --git x x\n--- \"unterminated\n@@ -1 +1 @@\n";
    let hunks = extract_hunks(diff);
    assert_eq!(hunks.len(), 1);
    assert_eq!(hunks[0].file, "\"unterminated");
}

#[test]
fn blame_args_hold_one_selector_per_hunk() {
    let hunks = vec![
        Hunk { file: "f.rs".to_string(), start: 10, len: 3 },
        Hunk { file: "f.rs".to_string(), start: 42, len: 1 },
    ];
    let args = blame_args("f.rs", &hunks, "HEAD");
    assert_eq!(
        args,
        vec![
            "--no-pager".to_string(),
            "blame".to_string(),
            "-l".to_string(),
            "-L".to_string(),
            "10,+3".to_string(),
            "-L".to_string(),
            "42,+1".to_string(),
            "HEAD".to_string(),
            "--".to_string(),
            "f.rs".to_string(),
        ]
    );
}

#[test]
fn zero_width_hunk_keeps_its_literal_selector() {
    let hunks = vec![Hunk { file: "f.rs".to_string(), start: 7, len: 0 }];
    let args = blame_args("f.rs", &hunks, "HEAD");
    assert!(args.contains(&"7,+0".to_string()));
}

#[test]
fn blame_commits_drop_boundary_lines() {
    let out = "aaa111 (Author 2024) line one\n\
^bbb222 (Author 2020) ancient line\n\
ccc333 (Author 2024) line two\n";
    let commits = blame_commits(out);
    assert_eq!(commits, vec!["aaa111".to_string(), "ccc333".to_string()]);
}

#[test]
fn blame_commits_of_empty_output() {
    assert_eq!(blame_commits("").len(), 0);
    assert_eq!(blame_commits("\n").len(), 0);
}

#[test]
fn staged_files_parse_lines() {
    let files = parse_staged_files("src/a.rs\nsrc/b.rs\n");
    assert_eq!(files, vec!["src/a.rs".to_string(), "src/b.rs".to_string()]);
}

#[test]
fn staged_files_of_empty_output_is_empty() {
    assert_eq!(parse_staged_files("").len(), 0);
    assert_eq!(parse_staged_files("  \n").len(), 0);
}
