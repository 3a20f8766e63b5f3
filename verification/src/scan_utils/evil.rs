//! Rules that find malicious content.
use vstd::prelude::*;
use crate::scan::ItemType;
use crate::text::{lines, views};
use super::utils::{
    kind_label, lemma_table_covers, lemma_table_reports, reports_matches, reports_only, Pattern, Rule, RuleView,
    rule_views, rules_messages, scan_with_rules,
};

verus! {
/// The rules for malicious content.
pub open spec fn evil_rules() -> Seq<RuleView> {
    seq![
        RuleView {
            prompt: "Unconditionally delete files"@,
            kind: ItemType::Evil,
            patterns: seq![r"\brm -rf\b"@, r"\bdel /f /s\b"@],
        },
        RuleView {
            prompt: "Unsafe raw pointet operations"@,
            kind: ItemType::Evil,
            patterns: seq![r"\bmem::transmute\b"@, r"\bptr::(write|copy|copy_nonoverlapping)\b"@],
        },
        RuleView {
            prompt: "Attempt to set file permissions to 0o777"@,
            kind: ItemType::Evil,
            patterns: seq![r"\bchmod 777\b"@],
        },
    ]
}

/// Builds the rules for malicious content.
pub fn rules() -> (res: Vec<Rule>)
    ensures
        rule_views(res@) == evil_rules(),
{
    let mut res: Vec<Rule> = Vec::new();
    let mut p0: Vec<Pattern> = Vec::new();
    p0.push(Pattern::new(r"\brm -rf\b"));
    p0.push(Pattern::new(r"\bdel /f /s\b"));
    assert(p0@.map_values(|p: Pattern| p@) =~= evil_rules()[0].patterns);
    res.push(Rule::new("Unconditionally delete files", ItemType::Evil, p0));
    let mut p1: Vec<Pattern> = Vec::new();
    p1.push(Pattern::new(r"\bmem::transmute\b"));
    p1.push(Pattern::new(r"\bptr::(write|copy|copy_nonoverlapping)\b"));
    assert(p1@.map_values(|p: Pattern| p@) =~= evil_rules()[1].patterns);
    res.push(Rule::new("Unsafe raw pointet operations", ItemType::Evil, p1));
    let mut p2: Vec<Pattern> = Vec::new();
    p2.push(Pattern::new(r"\bchmod 777\b"));
    assert(p2@.map_values(|p: Pattern| p@) =~= evil_rules()[2].patterns);
    res.push(Rule::new("Attempt to set file permissions to 0o777", ItemType::Evil, p2));
    assert(rule_views(res@) =~= evil_rules());
    res
}

/// The diagnostic messages for malicious content in the text `s` of the file `filename`.
pub fn scan_evil(s: &String, filename: &String) -> (res: Vec<String>)
    ensures
        views(res@) == rules_messages(evil_rules(), filename@, lines(s@)),
{
    let rs = rules();
    scan_with_rules(&rs, s.as_str(), filename.as_str())
}


/// The malicious content scan reports every match of each of its patterns, on every line, with the
/// label of its kind and that pattern's prompt, and reports nothing else: each message is
/// one of those.
pub proof fn law_evil_scan_reports(t: Seq<char>, f: Seq<char>)
    requires
        lines(t).len() <= usize::MAX,
    ensures
        ({
            let ls = lines(t);
            let msgs = rules_messages(evil_rules(), f, ls);
            let table = seq![
                ("Found evil: "@ + "Unconditionally delete files"@, r"\brm -rf\b"@),
                ("Found evil: "@ + "Unconditionally delete files"@, r"\bdel /f /s\b"@),
                ("Found evil: "@ + "Unsafe raw pointet operations"@, r"\bmem::transmute\b"@),
                ("Found evil: "@ + "Unsafe raw pointet operations"@, r"\bptr::(write|copy|copy_nonoverlapping)\b"@),
                ("Found evil: "@ + "Attempt to set file permissions to 0o777"@, r"\bchmod 777\b"@),
            ];
            &&& forall|e: int|
                0 <= e < table.len() ==> reports_matches(msgs, #[trigger] table[e].0, table[e].1, f, ls)
            &&& reports_only(msgs, table, f, ls)
        }),
{
    let ls = lines(t);
    let rules = evil_rules();
    let table = seq![
        ("Found evil: "@ + "Unconditionally delete files"@, r"\brm -rf\b"@),
        ("Found evil: "@ + "Unconditionally delete files"@, r"\bdel /f /s\b"@),
        ("Found evil: "@ + "Unsafe raw pointet operations"@, r"\bmem::transmute\b"@),
        ("Found evil: "@ + "Unsafe raw pointet operations"@, r"\bptr::(write|copy|copy_nonoverlapping)\b"@),
        ("Found evil: "@ + "Attempt to set file permissions to 0o777"@, r"\bchmod 777\b"@),
    ];
    assert forall|e: int| 0 <= e < table.len() implies exists|j: int, p: int|
        0 <= j < rules.len() && 0 <= p < rules[j].patterns.len() && kind_label(rules[j].kind) + rules[j].prompt
            == table[e].0 && #[trigger] rules[j].patterns[p] == (#[trigger] table[e]).1 by {
        if e == 0 {
            assert(rules[0].patterns[0] == table[0].1);
        } else if e == 1 {
            assert(rules[0].patterns[1] == table[1].1);
        } else if e == 2 {
            assert(rules[1].patterns[0] == table[2].1);
        } else if e == 3 {
            assert(rules[1].patterns[1] == table[3].1);
        } else if e == 4 {
            assert(rules[2].patterns[0] == table[4].1);
        }
    }
    lemma_table_reports(rules, table, f, ls);
    assert forall|j: int, p: int|
        0 <= j < rules.len() && 0 <= p < rules[j].patterns.len() implies table.contains(
            (kind_label(rules[j].kind) + rules[j].prompt, #[trigger] rules[j].patterns[p]),
        ) by {
        if j == 0 && p == 0 {
            assert(table[0] == (kind_label(rules[0].kind) + rules[0].prompt, rules[0].patterns[0]));
        } else if j == 0 && p == 1 {
            assert(table[1] == (kind_label(rules[0].kind) + rules[0].prompt, rules[0].patterns[1]));
        } else if j == 1 && p == 0 {
            assert(table[2] == (kind_label(rules[1].kind) + rules[1].prompt, rules[1].patterns[0]));
        } else if j == 1 && p == 1 {
            assert(table[3] == (kind_label(rules[1].kind) + rules[1].prompt, rules[1].patterns[1]));
        } else if j == 2 && p == 0 {
            assert(table[4] == (kind_label(rules[2].kind) + rules[2].prompt, rules[2].patterns[0]));
        }
    }
    lemma_table_covers(rules, table, f, ls);
}

} // verus!
