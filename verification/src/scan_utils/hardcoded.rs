//! Rules that find hard-coded content.
use vstd::prelude::*;
use crate::scan::ItemType;
use crate::text::{lines, views};
use super::utils::{
    kind_label, lemma_table_covers, lemma_table_reports, reports_matches, reports_only, Pattern, Rule, RuleView,
    rule_views, rules_messages, scan_with_rules,
};

verus! {
/// The rules for hard-coded content.
pub open spec fn hardcoded_rules() -> Seq<RuleView> {
    seq![
        RuleView {
            prompt: "Hard-coded IP address"@,
            kind: ItemType::Hardcoded,
            patterns: seq![r#"\b[A-Za-z0-9._%+-]+@[A-Za-z0-9.-]+\.[A-Za-z]{2,}\b"#@, r#"localhost:"#@],
        },
        RuleView {
            prompt: "Hard-coded time zone"@,
            kind: ItemType::Hardcoded,
            patterns: seq![r#"\b(UTC|GMT)[+-]\d{1,2}(:\d{2})?\b"#@, r"^(?:Africa|America|Antarctica|Asia|Atlantic|Australia|Europe|Indian|Pacific)(?:/[A-Za-z0-9_-]+){1,2}$"@],
        },
        RuleView {
            prompt: "Hard-coded URI"@,
            kind: ItemType::Hardcoded,
            patterns: seq![r#"https?://([a-zA-Z0-9_-]+\.)+[a-zA-Z0-9_-]+(/[^\s"'<>]*)?"#@, r#"file:///[A-Za-z]:[/\\][^"'`\s]*"#@],
        },
        RuleView {
            prompt: "Hard-coded path"@,
            kind: ItemType::Hardcoded,
            patterns: seq![r#"["'`] [A-Za-z]:[\\/][^"'`]*["'`]"#@, r#"["'`]([A-Za-z]:[\\/][^"'`]*|/(?:[^"'`\\]+))["'`]"#@],
        },
    ]
}

/// Builds the rules for hard-coded content.
pub fn rules() -> (res: Vec<Rule>)
    ensures
        rule_views(res@) == hardcoded_rules(),
{
    let mut res: Vec<Rule> = Vec::new();
    let mut p0: Vec<Pattern> = Vec::new();
    p0.push(Pattern::new(r#"\b[A-Za-z0-9._%+-]+@[A-Za-z0-9.-]+\.[A-Za-z]{2,}\b"#));
    p0.push(Pattern::new(r#"localhost:"#));
    assert(p0@.map_values(|p: Pattern| p@) =~= hardcoded_rules()[0].patterns);
    res.push(Rule::new("Hard-coded IP address", ItemType::Hardcoded, p0));
    let mut p1: Vec<Pattern> = Vec::new();
    p1.push(Pattern::new(r#"\b(UTC|GMT)[+-]\d{1,2}(:\d{2})?\b"#));
    p1.push(Pattern::new(r"^(?:Africa|America|Antarctica|Asia|Atlantic|Australia|Europe|Indian|Pacific)(?:/[A-Za-z0-9_-]+){1,2}$"));
    assert(p1@.map_values(|p: Pattern| p@) =~= hardcoded_rules()[1].patterns);
    res.push(Rule::new("Hard-coded time zone", ItemType::Hardcoded, p1));
    let mut p2: Vec<Pattern> = Vec::new();
    p2.push(Pattern::new(r#"https?://([a-zA-Z0-9_-]+\.)+[a-zA-Z0-9_-]+(/[^\s"'<>]*)?"#));
    p2.push(Pattern::new(r#"file:///[A-Za-z]:[/\\][^"'`\s]*"#));
    assert(p2@.map_values(|p: Pattern| p@) =~= hardcoded_rules()[2].patterns);
    res.push(Rule::new("Hard-coded URI", ItemType::Hardcoded, p2));
    let mut p3: Vec<Pattern> = Vec::new();
    p3.push(Pattern::new(r#"["'`] [A-Za-z]:[\\/][^"'`]*["'`]"#));
    p3.push(Pattern::new(r#"["'`]([A-Za-z]:[\\/][^"'`]*|/(?:[^"'`\\]+))["'`]"#));
    assert(p3@.map_values(|p: Pattern| p@) =~= hardcoded_rules()[3].patterns);
    res.push(Rule::new("Hard-coded path", ItemType::Hardcoded, p3));
    assert(rule_views(res@) =~= hardcoded_rules());
    res
}

/// The diagnostic messages for hard-coded content in the text `s` of the file `filename`.
pub fn scan_hardcoded(s: &String, filename: &String) -> (res: Vec<String>)
    ensures
        views(res@) == rules_messages(hardcoded_rules(), filename@, lines(s@)),
{
    let rs = rules();
    scan_with_rules(&rs, s.as_str(), filename.as_str())
}


/// The hard-coded content scan reports every match of each of its patterns, on every line, with the
/// label of its kind and that pattern's prompt, and reports nothing else: each message is
/// one of those.
pub proof fn law_hardcoded_scan_reports(t: Seq<char>, f: Seq<char>)
    requires
        lines(t).len() <= usize::MAX,
    ensures
        ({
            let ls = lines(t);
            let msgs = rules_messages(hardcoded_rules(), f, ls);
            let table = seq![
                ("Found hard-coded: "@ + "Hard-coded IP address"@, r#"\b[A-Za-z0-9._%+-]+@[A-Za-z0-9.-]+\.[A-Za-z]{2,}\b"#@),
                ("Found hard-coded: "@ + "Hard-coded IP address"@, r#"localhost:"#@),
                ("Found hard-coded: "@ + "Hard-coded time zone"@, r#"\b(UTC|GMT)[+-]\d{1,2}(:\d{2})?\b"#@),
                ("Found hard-coded: "@ + "Hard-coded time zone"@, r"^(?:Africa|America|Antarctica|Asia|Atlantic|Australia|Europe|Indian|Pacific)(?:/[A-Za-z0-9_-]+){1,2}$"@),
                ("Found hard-coded: "@ + "Hard-coded URI"@, r#"https?://([a-zA-Z0-9_-]+\.)+[a-zA-Z0-9_-]+(/[^\s"'<>]*)?"#@),
                ("Found hard-coded: "@ + "Hard-coded URI"@, r#"file:///[A-Za-z]:[/\\][^"'`\s]*"#@),
                ("Found hard-coded: "@ + "Hard-coded path"@, r#"["'`] [A-Za-z]:[\\/][^"'`]*["'`]"#@),
                ("Found hard-coded: "@ + "Hard-coded path"@, r#"["'`]([A-Za-z]:[\\/][^"'`]*|/(?:[^"'`\\]+))["'`]"#@),
            ];
            &&& forall|e: int|
                0 <= e < table.len() ==> reports_matches(msgs, #[trigger] table[e].0, table[e].1, f, ls)
            &&& reports_only(msgs, table, f, ls)
        }),
{
    let ls = lines(t);
    let rules = hardcoded_rules();
    let table = seq![
        ("Found hard-coded: "@ + "Hard-coded IP address"@, r#"\b[A-Za-z0-9._%+-]+@[A-Za-z0-9.-]+\.[A-Za-z]{2,}\b"#@),
        ("Found hard-coded: "@ + "Hard-coded IP address"@, r#"localhost:"#@),
        ("Found hard-coded: "@ + "Hard-coded time zone"@, r#"\b(UTC|GMT)[+-]\d{1,2}(:\d{2})?\b"#@),
        ("Found hard-coded: "@ + "Hard-coded time zone"@, r"^(?:Africa|America|Antarctica|Asia|Atlantic|Australia|Europe|Indian|Pacific)(?:/[A-Za-z0-9_-]+){1,2}$"@),
        ("Found hard-coded: "@ + "Hard-coded URI"@, r#"https?://([a-zA-Z0-9_-]+\.)+[a-zA-Z0-9_-]+(/[^\s"'<>]*)?"#@),
        ("Found hard-coded: "@ + "Hard-coded URI"@, r#"file:///[A-Za-z]:[/\\][^"'`\s]*"#@),
        ("Found hard-coded: "@ + "Hard-coded path"@, r#"["'`] [A-Za-z]:[\\/][^"'`]*["'`]"#@),
        ("Found hard-coded: "@ + "Hard-coded path"@, r#"["'`]([A-Za-z]:[\\/][^"'`]*|/(?:[^"'`\\]+))["'`]"#@),
    ];
    assert forall|e: int| 0 <= e < table.len() implies exists|j: int, p: int|
        0 <= j < rules.len() && 0 <= p < rules[j].patterns.len() && kind_label(rules[j].kind) + rules[j].prompt
            == table[e].0 && #[trigger] rules[j].patterns[p] == (#[trigger] table[e]).1 by {
        if e == 0 {
            assert(rules[0].patterns[0] == table[0].1);
        } else if e == 1 {
            assert(rules[0].patterns[1] == table[1].1);
        } else if e == 2 {
            assert(rules[1].patterns[0] == table[2].1);
        } else if e == 3 {
            assert(rules[1].patterns[1] == table[3].1);
        } else if e == 4 {
            assert(rules[2].patterns[0] == table[4].1);
        } else if e == 5 {
            assert(rules[2].patterns[1] == table[5].1);
        } else if e == 6 {
            assert(rules[3].patterns[0] == table[6].1);
        } else if e == 7 {
            assert(rules[3].patterns[1] == table[7].1);
        }
    }
    lemma_table_reports(rules, table, f, ls);
    assert forall|j: int, p: int|
        0 <= j < rules.len() && 0 <= p < rules[j].patterns.len() implies table.contains(
            (kind_label(rules[j].kind) + rules[j].prompt, #[trigger] rules[j].patterns[p]),
        ) by {
        if j == 0 && p == 0 {
            assert(table[0] == (kind_label(rules[0].kind) + rules[0].prompt, rules[0].patterns[0]));
        } else if j == 0 && p == 1 {
            assert(table[1] == (kind_label(rules[0].kind) + rules[0].prompt, rules[0].patterns[1]));
        } else if j == 1 && p == 0 {
            assert(table[2] == (kind_label(rules[1].kind) + rules[1].prompt, rules[1].patterns[0]));
        } else if j == 1 && p == 1 {
            assert(table[3] == (kind_label(rules[1].kind) + rules[1].prompt, rules[1].patterns[1]));
        } else if j == 2 && p == 0 {
            assert(table[4] == (kind_label(rules[2].kind) + rules[2].prompt, rules[2].patterns[0]));
        } else if j == 2 && p == 1 {
            assert(table[5] == (kind_label(rules[2].kind) + rules[2].prompt, rules[2].patterns[1]));
        } else if j == 3 && p == 0 {
            assert(table[6] == (kind_label(rules[3].kind) + rules[3].prompt, rules[3].patterns[0]));
        } else if j == 3 && p == 1 {
            assert(table[7] == (kind_label(rules[3].kind) + rules[3].prompt, rules[3].patterns[1]));
        }
    }
    lemma_table_covers(rules, table, f, ls);
}

} // verus!
