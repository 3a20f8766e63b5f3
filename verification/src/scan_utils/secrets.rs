//! Rules that find personal information and secrets.
use vstd::prelude::*;
use crate::scan::ItemType;
use crate::text::{lines, views};
use super::utils::{
    kind_label, lemma_table_covers, lemma_table_reports, reports_matches, reports_only, Pattern, Rule, RuleView,
    rule_views, rules_messages, scan_with_rules,
};

verus! {
/// The rules for personal information and secrets.
pub open spec fn secret_rules() -> Seq<RuleView> {
    seq![
        RuleView {
            prompt: "Personal access token"@,
            kind: ItemType::Secrets,
            patterns: seq![r"\w+_pat_[a-zA-Z0-9_\-]{30,85}"@, r"Bearer\s+(.+)"@, r#"let token\s*=\s*"\w+_pat_[a-zA-Z0-9_\-]{30,85}"\s*;"#@, r#"let token\s*=\s*"Bearer\s+(.+)"\s*;"#@],
        },
        RuleView {
            prompt: "Password"@,
            kind: ItemType::Secrets,
            patterns: seq![r#"let password\s*=".*""#@, r#"(password|passwd)\s*[:=]\s*["'][^"']+["']"#@],
        },
        RuleView {
            prompt: "JSON web token"@,
            kind: ItemType::Secrets,
            patterns: seq![r#"\beyJ[A-Za-z0-9_\-]+\.[A-Za-z0-9_\-]+\.[A-Za-z0-9_\-]+\b"#@],
        },
    ]
}

/// Builds the rules for personal information and secrets.
pub fn rules() -> (res: Vec<Rule>)
    ensures
        rule_views(res@) == secret_rules(),
{
    let mut res: Vec<Rule> = Vec::new();
    let mut p0: Vec<Pattern> = Vec::new();
    p0.push(Pattern::new(r"\w+_pat_[a-zA-Z0-9_\-]{30,85}"));
    p0.push(Pattern::new(r"Bearer\s+(.+)"));
    p0.push(Pattern::new(r#"let token\s*=\s*"\w+_pat_[a-zA-Z0-9_\-]{30,85}"\s*;"#));
    p0.push(Pattern::new(r#"let token\s*=\s*"Bearer\s+(.+)"\s*;"#));
    assert(p0@.map_values(|p: Pattern| p@) =~= secret_rules()[0].patterns);
    res.push(Rule::new("Personal access token", ItemType::Secrets, p0));
    let mut p1: Vec<Pattern> = Vec::new();
    p1.push(Pattern::new(r#"let password\s*=".*""#));
    p1.push(Pattern::new(r#"(password|passwd)\s*[:=]\s*["'][^"']+["']"#));
    assert(p1@.map_values(|p: Pattern| p@) =~= secret_rules()[1].patterns);
    res.push(Rule::new("Password", ItemType::Secrets, p1));
    let mut p2: Vec<Pattern> = Vec::new();
    p2.push(Pattern::new(r#"\beyJ[A-Za-z0-9_\-]+\.[A-Za-z0-9_\-]+\.[A-Za-z0-9_\-]+\b"#));
    assert(p2@.map_values(|p: Pattern| p@) =~= secret_rules()[2].patterns);
    res.push(Rule::new("JSON web token", ItemType::Secrets, p2));
    assert(rule_views(res@) =~= secret_rules());
    res
}

/// The diagnostic messages for personal information and secrets in the text `s` of the file `filename`.
pub fn scan_secrets(s: &String, filename: &String) -> (res: Vec<String>)
    ensures
        views(res@) == rules_messages(secret_rules(), filename@, lines(s@)),
{
    let rs = rules();
    scan_with_rules(&rs, s.as_str(), filename.as_str())
}


/// The secrets scan reports every match of each of its patterns, on every line, with the
/// label of its kind and that pattern's prompt, and reports nothing else: each message is
/// one of those.
pub proof fn law_secrets_scan_reports(t: Seq<char>, f: Seq<char>)
    requires
        lines(t).len() <= usize::MAX,
    ensures
        ({
            let ls = lines(t);
            let msgs = rules_messages(secret_rules(), f, ls);
            let table = seq![
                ("Found secrets: "@ + "Personal access token"@, r"\w+_pat_[a-zA-Z0-9_\-]{30,85}"@),
                ("Found secrets: "@ + "Personal access token"@, r"Bearer\s+(.+)"@),
                ("Found secrets: "@ + "Personal access token"@, r#"let token\s*=\s*"\w+_pat_[a-zA-Z0-9_\-]{30,85}"\s*;"#@),
                ("Found secrets: "@ + "Personal access token"@, r#"let token\s*=\s*"Bearer\s+(.+)"\s*;"#@),
                ("Found secrets: "@ + "Password"@, r#"let password\s*=".*""#@),
                ("Found secrets: "@ + "Password"@, r#"(password|passwd)\s*[:=]\s*["'][^"']+["']"#@),
                ("Found secrets: "@ + "JSON web token"@, r#"\beyJ[A-Za-z0-9_\-]+\.[A-Za-z0-9_\-]+\.[A-Za-z0-9_\-]+\b"#@),
            ];
            &&& forall|e: int|
                0 <= e < table.len() ==> reports_matches(msgs, #[trigger] table[e].0, table[e].1, f, ls)
            &&& reports_only(msgs, table, f, ls)
        }),
{
    let ls = lines(t);
    let rules = secret_rules();
    let table = seq![
        ("Found secrets: "@ + "Personal access token"@, r"\w+_pat_[a-zA-Z0-9_\-]{30,85}"@),
        ("Found secrets: "@ + "Personal access token"@, r"Bearer\s+(.+)"@),
        ("Found secrets: "@ + "Personal access token"@, r#"let token\s*=\s*"\w+_pat_[a-zA-Z0-9_\-]{30,85}"\s*;"#@),
        ("Found secrets: "@ + "Personal access token"@, r#"let token\s*=\s*"Bearer\s+(.+)"\s*;"#@),
        ("Found secrets: "@ + "Password"@, r#"let password\s*=".*""#@),
        ("Found secrets: "@ + "Password"@, r#"(password|passwd)\s*[:=]\s*["'][^"']+["']"#@),
        ("Found secrets: "@ + "JSON web token"@, r#"\beyJ[A-Za-z0-9_\-]+\.[A-Za-z0-9_\-]+\.[A-Za-z0-9_\-]+\b"#@),
    ];
    assert forall|e: int| 0 <= e < table.len() implies exists|j: int, p: int|
        0 <= j < rules.len() && 0 <= p < rules[j].patterns.len() && kind_label(rules[j].kind) + rules[j].prompt
            == table[e].0 && #[trigger] rules[j].patterns[p] == (#[trigger] table[e]).1 by {
        if e == 0 {
            assert(rules[0].patterns[0] == table[0].1);
        } else if e == 1 {
            assert(rules[0].patterns[1] == table[1].1);
        } else if e == 2 {
            assert(rules[0].patterns[2] == table[2].1);
        } else if e == 3 {
            assert(rules[0].patterns[3] == table[3].1);
        } else if e == 4 {
            assert(rules[1].patterns[0] == table[4].1);
        } else if e == 5 {
            assert(rules[1].patterns[1] == table[5].1);
        } else if e == 6 {
            assert(rules[2].patterns[0] == table[6].1);
        }
    }
    lemma_table_reports(rules, table, f, ls);
    assert forall|j: int, p: int|
        0 <= j < rules.len() && 0 <= p < rules[j].patterns.len() implies table.contains(
            (kind_label(rules[j].kind) + rules[j].prompt, #[trigger] rules[j].patterns[p]),
        ) by {
        if j == 0 && p == 0 {
            assert(table[0] == (kind_label(rules[0].kind) + rules[0].prompt, rules[0].patterns[0]));
        } else if j == 0 && p == 1 {
            assert(table[1] == (kind_label(rules[0].kind) + rules[0].prompt, rules[0].patterns[1]));
        } else if j == 0 && p == 2 {
            assert(table[2] == (kind_label(rules[0].kind) + rules[0].prompt, rules[0].patterns[2]));
        } else if j == 0 && p == 3 {
            assert(table[3] == (kind_label(rules[0].kind) + rules[0].prompt, rules[0].patterns[3]));
        } else if j == 1 && p == 0 {
            assert(table[4] == (kind_label(rules[1].kind) + rules[1].prompt, rules[1].patterns[0]));
        } else if j == 1 && p == 1 {
            assert(table[5] == (kind_label(rules[1].kind) + rules[1].prompt, rules[1].patterns[1]));
        } else if j == 2 && p == 0 {
            assert(table[6] == (kind_label(rules[2].kind) + rules[2].prompt, rules[2].patterns[0]));
        }
    }
    lemma_table_covers(rules, table, f, ls);
}

} // verus!
