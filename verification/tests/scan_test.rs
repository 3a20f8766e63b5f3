use scrut::scan::{
    bit_mask, file_to_scan, gitignore_patterns, globs_fit, MAX_GLOB_CHARS, is_excluded, is_glob_meta, known_item, relative_unix_path,
    scan_mask, scan_patterns, scan_summary, scan_text, str2enum, ItemType, ScanError,
};
use scrut::scan_utils::utils::{
    diagnostic_by_regex, format_msg, kind2str, scan_matched, MatchPos, Pattern, Rule,
};
use scrut::scan_utils::{evil, hardcoded, quality, secrets};
use scrut::text::{lines_of, trim_chars};

fn strings(v: &[&str]) -> Vec<String> {
    v.iter().map(|s| s.to_string()).collect()
}

#[test]
fn item_names() {
    assert_eq!(str2enum("*"), ItemType::All);
    assert_eq!(str2enum("all"), ItemType::All);
    assert_eq!(str2enum("evil"), ItemType::Evil);
    assert_eq!(str2enum("secrets"), ItemType::Secrets);
    assert_eq!(str2enum("hardcoded"), ItemType::Hardcoded);
    assert_eq!(str2enum("quality"), ItemType::Quality);
    for name in ["*", "all", "evil", "secrets", "hardcoded", "quality"] {
        assert!(known_item(name));
    }
    assert!(!known_item("Evil"));
    assert!(!known_item(""));
}

#[test]
fn masks_select_kinds() {
    assert!(bit_mask(0xF, ItemType::Secrets));
    assert!(bit_mask(0x2, ItemType::Evil));
    assert!(!bit_mask(0x2, ItemType::Secrets));
    assert!(bit_mask(0x2, ItemType::All));
    assert!(!bit_mask(0, ItemType::All));
    assert_eq!(ItemType::Quality.bits(), 0x8);
    assert_eq!(ItemType::All.bits(), 0xF);
}

#[test]
fn scan_mask_unions_items() {
    assert_eq!(scan_mask(&strings(&["evil", "quality"])), 0xA);
    assert_eq!(scan_mask(&strings(&["all"])), 0xF);
    assert_eq!(scan_mask(&strings(&["secrets", "*"])), 0xF);
    assert_eq!(scan_mask(&strings(&[])), 0);
    assert!(!known_item("nope"));
    let m = scan_mask(&strings(&["hardcoded", "secrets"]));
    assert!(bit_mask(m, ItemType::Hardcoded) && bit_mask(m, ItemType::Secrets));
    assert!(!bit_mask(m, ItemType::Evil) && !bit_mask(m, ItemType::Quality));
}

#[test]
fn glob_metacharacters() {
    assert!(is_glob_meta("*.rs"));
    assert!(is_glob_meta("a?b"));
    assert!(is_glob_meta("[ab]"));
    assert!(!is_glob_meta("target"));
    assert!(!is_glob_meta(""));
}

#[test]
fn gitignore_lines_become_patterns() {
    let mut ex: Vec<String> = strings(&["user"]);
    let mut keep: Vec<String> = Vec::new();
    let content = "# comment\n\n  target/  \r\n*.log\nbuild\n!build/keep.txt\n!docs/\nwin\\dir\n";
    gitignore_patterns(content, &mut ex, &mut keep);
    assert_eq!(
        ex,
        strings(&["user", "target/", "target/**", "*.log", "build", "build/**", "win/dir", "win/dir/**"])
    );
    assert_eq!(keep, strings(&["build/keep.txt", "build/keep.txt/**", "docs/", "docs/**"]));
}

#[test]
fn scan_patterns_normal_mode() {
    let (ex, keep) = scan_patterns(&strings(&["*.md"]), false, Some("dist\n!dist/a.js\n"));
    assert_eq!(
        ex,
        strings(&["*.md", "dist", "dist/**", ".git", "target/**", ".git/**", "Cargo.*", ".cargo/**"])
    );
    assert_eq!(keep, strings(&["dist/a.js", "dist/a.js/**"]));
    let (ex, keep) = scan_patterns(&strings(&[".git"]), false, None);
    assert_eq!(ex, strings(&[".git", "target/**", ".git/**", "Cargo.*", ".cargo/**"]));
    assert!(keep.is_empty());
}

#[test]
fn scan_patterns_scan_all_mode() {
    let (ex, keep) = scan_patterns(&strings(&[]), true, Some("ignored\n"));
    assert_eq!(
        ex,
        strings(&[".git", ".git/**", "target/**", ".git/**", "Cargo.*", ".cargo/**"])
    );
    assert!(keep.is_empty());
    let (ex, _) = scan_patterns(&strings(&[".git", "x"]), true, None);
    assert_eq!(ex, strings(&[".git", "x", "target/**", ".git/**", "Cargo.*", ".cargo/**"]));
}

#[test]
fn relative_paths() {
    assert_eq!(relative_unix_path("/home/u/p/src/a.rs", "/home/u/p"), Some("src/a.rs".to_string()));
    assert_eq!(relative_unix_path("C:\\p\\src\\a.rs", "C:\\p"), Some("src/a.rs".to_string()));
    assert_eq!(relative_unix_path("/other/a.rs", "/home/u/p"), None);
    assert_eq!(relative_unix_path("/a", "/a/b"), None);
    assert_eq!(relative_unix_path("/home/u/p", "/home/u/p"), Some(String::new()));
}

#[test]
fn exclusion_with_negation() {
    let ex = strings(&["dist", "dist/**", "*.log"]);
    let keep = strings(&["dist/a.js"]);
    assert!(is_excluded("dist/b.js", &ex, &keep));
    assert!(!is_excluded("dist/a.js", &ex, &keep));
    assert!(is_excluded("x.log", &ex, &keep));
    assert!(!is_excluded("src/main.rs", &ex, &keep));
    assert!(!is_excluded("a.rs", &strings(&["[invalid"]), &Vec::new()));
}

#[test]
fn files_to_scan() {
    let ex = strings(&["target/**"]);
    let keep: Vec<String> = Vec::new();
    assert_eq!(file_to_scan("/w/src/a.rs", "/w", &ex, &keep), Ok(Some("src/a.rs".to_string())));
    assert_eq!(file_to_scan("/w/target/x", "/w", &ex, &keep), Ok(None));
    assert_eq!(file_to_scan("/v/a.rs", "/w", &ex, &keep), Err(ScanError::OutsideWorkingDir));
    assert_eq!(ScanError::OutsideWorkingDir.message(), "file outside working directory");
}

#[test]
fn matches_per_line() {
    let p = Pattern::new(r"ab+");
    assert!(p.is_valid());
    assert_eq!(p.as_str(), "ab+");
    let ms = scan_matched("xabbb ab\nnone\r\nab", &p);
    assert_eq!(ms.len(), 3);
    assert_eq!((ms[0].line, ms[0].start, ms[0].end), (1, 1, 5));
    assert_eq!((ms[1].line, ms[1].start, ms[1].end), (1, 6, 8));
    assert_eq!((ms[2].line, ms[2].start, ms[2].end), (3, 0, 2));
    assert!(!Pattern::new("(").is_valid());
    assert!(scan_matched("(", &Pattern::new("(")).is_empty());
}

#[test]
fn diagnostic_message_layout() {
    let pos = MatchPos::new(12, 5, 11);
    let msg = format_msg("Found evil: Unconditionally delete files", "f.sh", &pos, "sudo rm -rf /");
    assert_eq!(
        msg,
        "Found evil: Unconditionally delete files: file f.sh, line 12:\n12 | sudo rm -rf /\n          ^^^^^^  \n"
    );
    assert_eq!(kind2str(ItemType::Hardcoded), "Found hard-coded: ");
    assert_eq!(kind2str(ItemType::All), "Found issue: ");
}

#[test]
fn rule_reports_each_match() {
    let r = Rule::new("Test", ItemType::Quality, vec![Pattern::new("a"), Pattern::new("b")]);
    let msgs = diagnostic_by_regex(&r, "ab\nb", "t.rs");
    assert_eq!(msgs.len(), 3);
    assert_eq!(msgs[0], "Found code quality: Test: file t.rs, line 1:\n1 | ab\n    ^ \n");
    assert_eq!(msgs[1], "Found code quality: Test: file t.rs, line 1:\n1 | ab\n     ^\n");
    assert_eq!(msgs[2], "Found code quality: Test: file t.rs, line 2:\n2 | b\n    ^\n");
}

#[test]
fn every_rule_pattern_compiles() {
    for rules in [evil::rules(), hardcoded::rules(), quality::rules(), secrets::rules()] {
        for rule in &rules {
            for p in &rule.regex {
                assert!(p.is_valid(), "{}", p.as_str());
            }
        }
    }
}

#[test]
fn scan_finds_each_kind() {
    let f = "f.rs".to_string();
    let evil_text = "ok\nsudo rm -rf /\n".to_string();
    let msgs = evil::scan_evil(&evil_text, &f);
    assert_eq!(msgs.len(), 1);
    assert_eq!(
        msgs[0],
        "Found evil: Unconditionally delete files: file f.rs, line 2:\n2 | sudo rm -rf /\n         ^^^^^^  \n"
    );
    let q = "fn main() { dbg!(1);; }\n".to_string();
    assert_eq!(quality::scan_quality(&q, &f).len(), 2);
    let s = "let password=\"hunter2\"\n".to_string();
    assert!(!secrets::scan_secrets(&s, &f).is_empty());
    let h = "let u = \"https://example.com/x\";\n".to_string();
    assert!(!hardcoded::scan_hardcoded(&h, &f).is_empty());
    let clean = "fn add(a: u8, b: u8) -> u8 { a + b }\n".to_string();
    assert!(scan_text(0xF, &clean, &f).is_empty());
}

#[test]
fn scan_text_follows_mask() {
    let f = "f.rs".to_string();
    let t = "rm -rf x;; \n".to_string();
    assert_eq!(scan_text(0x2, &t, &f).len(), 1);
    assert_eq!(scan_text(0x8, &t, &f).len(), 1);
    assert_eq!(scan_text(0xA, &t, &f).len(), 2);
    assert_eq!(scan_text(0x0, &t, &f).len(), 0);
    let all = scan_text(0xF, &t, &f);
    assert!(all[0].starts_with("Found evil: "));
    assert!(all[1].starts_with("Found code quality: "));
}

#[test]
fn summaries() {
    assert_eq!(scan_summary(0), "No issues found!\n");
    assert_eq!(scan_summary(3), "\nOh no!\n3 issues found.\n");
    assert_eq!(scan_summary(1024), "\nOh no!\n1024 issues found.\n");
}

#[test]
fn lines_and_trim() {
    let ls = lines_of(&"a\r\nb\n\nc\r".chars().collect::<Vec<char>>());
    assert_eq!(ls, strings(&["a", "b", "", "c\r"]));
    assert!(lines_of(&[]).is_empty());
    let t: String = trim_chars(&" \t x y \u{3000}\n".chars().collect::<Vec<char>>()).into_iter().collect();
    assert_eq!(t, "x y");
}

#[test]
fn gitignore_negation_and_exclusion_end_to_end() {
    let (ex, keep) = scan_patterns(&strings(&[]), false, Some("dist\n!dist/a.js\n"));
    assert!(!is_excluded("dist/a.js", &ex, &keep));
    assert!(is_excluded("dist/b.js", &ex, &keep));
    assert!(is_excluded("dist", &ex, &keep));
    assert!(!is_excluded("src/lib.rs", &ex, &keep));
}

#[test]
fn fixed_exclusions_always_apply() {
    for scan_all in [false, true] {
        let (ex, keep) = scan_patterns(&strings(&[]), scan_all, None);
        assert!(is_excluded("target/debug/app", &ex, &keep));
        assert!(is_excluded(".git/HEAD", &ex, &keep));
        assert!(is_excluded("Cargo.toml", &ex, &keep));
        assert!(is_excluded(".cargo/config.toml", &ex, &keep));
        assert!(!is_excluded("src/main.rs", &ex, &keep));
    }
}

#[test]
fn relative_path_round_trip() {
    for rel in ["a.rs", "src/deep/b.rs", ""] {
        let full = format!("/home/u/proj/{}", rel);
        assert_eq!(relative_unix_path(&full, "/home/u/proj"), Some(rel.to_string()));
    }
}

#[test]
fn every_match_of_a_line_is_reported() {
    let ms = scan_matched("a;; b;;", &Pattern::new(";;"));
    assert_eq!(ms, vec![MatchPos::new(1, 1, 3), MatchPos::new(1, 5, 7)]);
    let f = "f.rs".to_string();
    let q = "x;; y;;\n".to_string();
    let msgs = quality::scan_quality(&q, &f);
    assert_eq!(msgs.len(), 2);
    assert_eq!(msgs[0], "Found code quality: Double semicolons: file f.rs, line 1:\n1 | x;; y;;\n     ^^    \n");
    assert_eq!(msgs[1], "Found code quality: Double semicolons: file f.rs, line 1:\n1 | x;; y;;\n         ^^\n");
}

#[test]
fn issue_count_adds_up_over_texts() {
    let a = "rm -rf x;;\nunsafe { }\n".to_string();
    let b = "dbg!(1);; chmod 777 f\n".to_string();
    let ab = format!("{}{}", a, b);
    let f1 = "one.rs".to_string();
    let f2 = "two.rs".to_string();
    assert_eq!(
        scan_text(0xF, &ab, &f1).len(),
        scan_text(0xF, &a, &f1).len() + scan_text(0xF, &b, &f2).len()
    );
    assert_eq!(scan_text(0xF, &b, &f1).len(), scan_text(0xF, &b, &f2).len());
}

#[test]
fn tally_counts_every_scanned_file() {
    let mut tally = scrut::scan::ScanTally::new(0xF);
    assert_eq!(tally.issues(), 0);
    assert_eq!(tally.summary(), "No issues found!\n");
    let m1 = tally.record(&"rm -rf x;;\n".to_string(), &"a.sh".to_string());
    assert_eq!(m1.len(), 2);
    let m2 = tally.record(&"fn f() {}\n".to_string(), &"b.rs".to_string());
    assert!(m2.is_empty());
    let m3 = tally.record(&"dbg!(1);\n".to_string(), &"c.rs".to_string());
    assert_eq!(m3.len(), 1);
    assert_eq!(tally.issues(), 3);
    assert_eq!(tally.summary(), "\nOh no!\n3 issues found.\n");
    let mut evil_only = scrut::scan::ScanTally::new(0x2);
    evil_only.record(&"rm -rf x;;\n".to_string(), &"a.sh".to_string());
    assert_eq!(evil_only.issues(), 1);
}

#[test]
fn glob_too_deep_for_a_matcher_matches_nothing() {
    let deep = format!("{}a{}", "{".repeat(300), "}".repeat(300));
    assert!(!is_excluded("a", &vec![deep], &Vec::new()));
}

#[test]
fn glob_length_bound() {
    assert!(globs_fit(&strings(&["*.rs", "target/**"])));
    assert!(globs_fit(&Vec::new()));
    assert_eq!(MAX_GLOB_CHARS, 1 << 28);
}
