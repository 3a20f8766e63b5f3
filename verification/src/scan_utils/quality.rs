//! Rules that check code quality.
use vstd::prelude::*;
use crate::scan::ItemType;
use crate::text::{lines, views};
use super::utils::{
    kind_label, lemma_table_covers, lemma_table_reports, reports_matches, reports_only, Pattern, Rule, RuleView,
    rule_views, rules_messages, scan_with_rules,
};

verus! {
/// The rules for code quality.
pub open spec fn quality_rules() -> Seq<RuleView> {
    seq![
        RuleView {
            prompt: "Usage of `while true` instead of `loop`"@,
            kind: ItemType::Quality,
            patterns: seq![r#"\bwhile\s+true\s+\{"#@],
        },
        RuleView {
            prompt: "Usage of macro `dbg`"@,
            kind: ItemType::Quality,
            patterns: seq![r#"dbg!\("#@],
        },
        RuleView {
            prompt: "Empty loop"@,
            kind: ItemType::Quality,
            patterns: seq![r#"loop\{\s*\}"#@],
        },
        RuleView {
            prompt: "Unimplemented branch"@,
            kind: ItemType::Quality,
            patterns: seq![r#"unimplemented!\("#@],
        },
        RuleView {
            prompt: "Unreanchable branch"@,
            kind: ItemType::Quality,
            patterns: seq![r#"unreachable!\("#@, r#"unreachable_unchecked\("#@],
        },
        RuleView {
            prompt: "Usage of unsafe blocks"@,
            kind: ItemType::Quality,
            patterns: seq![r#"\bunsafe\s*\{"#@],
        },
        RuleView {
            prompt: "Bad memory management"@,
            kind: ItemType::Quality,
            patterns: seq![r#"mem::forget\("#@, r#"ptr::drop_in_place\("#@],
        },
        RuleView {
            prompt: "Comparison of boolean values"@,
            kind: ItemType::Quality,
            patterns: seq![r#"==\s*(true|false)\b"#@],
        },
        RuleView {
            prompt: "Double semicolons"@,
            kind: ItemType::Quality,
            patterns: seq![r#";;"#@],
        },
        RuleView {
            prompt: "Usage of macro `todo`"@,
            kind: ItemType::Quality,
            patterns: seq![r#"todo!\("#@],
        },
        RuleView {
            prompt: "Comment tags"@,
            kind: ItemType::Quality,
            patterns: seq![r"//\s*TODO\b"@, r"//\s*FIXME\b"@, r"//\s*HACK\b"@, r"//\s*BUG\b"@, r"//\s*XXX\b"@],
        },
    ]
}

/// Builds the rules for code quality.
pub fn rules() -> (res: Vec<Rule>)
    ensures
        rule_views(res@) == quality_rules(),
{
    let mut res: Vec<Rule> = Vec::new();
    let mut p0: Vec<Pattern> = Vec::new();
    p0.push(Pattern::new(r#"\bwhile\s+true\s+\{"#));
    assert(p0@.map_values(|p: Pattern| p@) =~= quality_rules()[0].patterns);
    res.push(Rule::new("Usage of `while true` instead of `loop`", ItemType::Quality, p0));
    let mut p1: Vec<Pattern> = Vec::new();
    p1.push(Pattern::new(r#"dbg!\("#));
    assert(p1@.map_values(|p: Pattern| p@) =~= quality_rules()[1].patterns);
    res.push(Rule::new("Usage of macro `dbg`", ItemType::Quality, p1));
    let mut p2: Vec<Pattern> = Vec::new();
    p2.push(Pattern::new(r#"loop\{\s*\}"#));
    assert(p2@.map_values(|p: Pattern| p@) =~= quality_rules()[2].patterns);
    res.push(Rule::new("Empty loop", ItemType::Quality, p2));
    let mut p3: Vec<Pattern> = Vec::new();
    p3.push(Pattern::new(r#"unimplemented!\("#));
    assert(p3@.map_values(|p: Pattern| p@) =~= quality_rules()[3].patterns);
    res.push(Rule::new("Unimplemented branch", ItemType::Quality, p3));
    let mut p4: Vec<Pattern> = Vec::new();
    p4.push(Pattern::new(r#"unreachable!\("#));
    p4.push(Pattern::new(r#"unreachable_unchecked\("#));
    assert(p4@.map_values(|p: Pattern| p@) =~= quality_rules()[4].patterns);
    res.push(Rule::new("Unreanchable branch", ItemType::Quality, p4));
    let mut p5: Vec<Pattern> = Vec::new();
    p5.push(Pattern::new(r#"\bunsafe\s*\{"#));
    assert(p5@.map_values(|p: Pattern| p@) =~= quality_rules()[5].patterns);
    res.push(Rule::new("Usage of unsafe blocks", ItemType::Quality, p5));
    let mut p6: Vec<Pattern> = Vec::new();
    p6.push(Pattern::new(r#"mem::forget\("#));
    p6.push(Pattern::new(r#"ptr::drop_in_place\("#));
    assert(p6@.map_values(|p: Pattern| p@) =~= quality_rules()[6].patterns);
    res.push(Rule::new("Bad memory management", ItemType::Quality, p6));
    let mut p7: Vec<Pattern> = Vec::new();
    p7.push(Pattern::new(r#"==\s*(true|false)\b"#));
    assert(p7@.map_values(|p: Pattern| p@) =~= quality_rules()[7].patterns);
    res.push(Rule::new("Comparison of boolean values", ItemType::Quality, p7));
    let mut p8: Vec<Pattern> = Vec::new();
    p8.push(Pattern::new(r#";;"#));
    assert(p8@.map_values(|p: Pattern| p@) =~= quality_rules()[8].patterns);
    res.push(Rule::new("Double semicolons", ItemType::Quality, p8));
    let mut p9: Vec<Pattern> = Vec::new();
    p9.push(Pattern::new(r#"todo!\("#));
    assert(p9@.map_values(|p: Pattern| p@) =~= quality_rules()[9].patterns);
    res.push(Rule::new("Usage of macro `todo`", ItemType::Quality, p9));
    let mut p10: Vec<Pattern> = Vec::new();
    p10.push(Pattern::new(r"//\s*TODO\b"));
    p10.push(Pattern::new(r"//\s*FIXME\b"));
    p10.push(Pattern::new(r"//\s*HACK\b"));
    p10.push(Pattern::new(r"//\s*BUG\b"));
    p10.push(Pattern::new(r"//\s*XXX\b"));
    assert(p10@.map_values(|p: Pattern| p@) =~= quality_rules()[10].patterns);
    res.push(Rule::new("Comment tags", ItemType::Quality, p10));
    assert(rule_views(res@) =~= quality_rules());
    res
}

/// The diagnostic messages for code quality in the text `s` of the file `filename`.
pub fn scan_quality(s: &String, filename: &String) -> (res: Vec<String>)
    ensures
        views(res@) == rules_messages(quality_rules(), filename@, lines(s@)),
{
    let rs = rules();
    scan_with_rules(&rs, s.as_str(), filename.as_str())
}


/// The code quality scan reports every match of each of its patterns, on every line, with the
/// label of its kind and that pattern's prompt, and reports nothing else: each message is
/// one of those.
pub proof fn law_quality_scan_reports(t: Seq<char>, f: Seq<char>)
    requires
        lines(t).len() <= usize::MAX,
    ensures
        ({
            let ls = lines(t);
            let msgs = rules_messages(quality_rules(), f, ls);
            let table = seq![
                ("Found code quality: "@ + "Usage of `while true` instead of `loop`"@, r#"\bwhile\s+true\s+\{"#@),
                ("Found code quality: "@ + "Usage of macro `dbg`"@, r#"dbg!\("#@),
                ("Found code quality: "@ + "Empty loop"@, r#"loop\{\s*\}"#@),
                ("Found code quality: "@ + "Unimplemented branch"@, r#"unimplemented!\("#@),
                ("Found code quality: "@ + "Unreanchable branch"@, r#"unreachable!\("#@),
                ("Found code quality: "@ + "Unreanchable branch"@, r#"unreachable_unchecked\("#@),
                ("Found code quality: "@ + "Usage of unsafe blocks"@, r#"\bunsafe\s*\{"#@),
                ("Found code quality: "@ + "Bad memory management"@, r#"mem::forget\("#@),
                ("Found code quality: "@ + "Bad memory management"@, r#"ptr::drop_in_place\("#@),
                ("Found code quality: "@ + "Comparison of boolean values"@, r#"==\s*(true|false)\b"#@),
                ("Found code quality: "@ + "Double semicolons"@, r#";;"#@),
                ("Found code quality: "@ + "Usage of macro `todo`"@, r#"todo!\("#@),
                ("Found code quality: "@ + "Comment tags"@, r"//\s*TODO\b"@),
                ("Found code quality: "@ + "Comment tags"@, r"//\s*FIXME\b"@),
                ("Found code quality: "@ + "Comment tags"@, r"//\s*HACK\b"@),
                ("Found code quality: "@ + "Comment tags"@, r"//\s*BUG\b"@),
                ("Found code quality: "@ + "Comment tags"@, r"//\s*XXX\b"@),
            ];
            &&& forall|e: int|
                0 <= e < table.len() ==> reports_matches(msgs, #[trigger] table[e].0, table[e].1, f, ls)
            &&& reports_only(msgs, table, f, ls)
        }),
{
    let ls = lines(t);
    let rules = quality_rules();
    let table = seq![
        ("Found code quality: "@ + "Usage of `while true` instead of `loop`"@, r#"\bwhile\s+true\s+\{"#@),
        ("Found code quality: "@ + "Usage of macro `dbg`"@, r#"dbg!\("#@),
        ("Found code quality: "@ + "Empty loop"@, r#"loop\{\s*\}"#@),
        ("Found code quality: "@ + "Unimplemented branch"@, r#"unimplemented!\("#@),
        ("Found code quality: "@ + "Unreanchable branch"@, r#"unreachable!\("#@),
        ("Found code quality: "@ + "Unreanchable branch"@, r#"unreachable_unchecked\("#@),
        ("Found code quality: "@ + "Usage of unsafe blocks"@, r#"\bunsafe\s*\{"#@),
        ("Found code quality: "@ + "Bad memory management"@, r#"mem::forget\("#@),
        ("Found code quality: "@ + "Bad memory management"@, r#"ptr::drop_in_place\("#@),
        ("Found code quality: "@ + "Comparison of boolean values"@, r#"==\s*(true|false)\b"#@),
        ("Found code quality: "@ + "Double semicolons"@, r#";;"#@),
        ("Found code quality: "@ + "Usage of macro `todo`"@, r#"todo!\("#@),
        ("Found code quality: "@ + "Comment tags"@, r"//\s*TODO\b"@),
        ("Found code quality: "@ + "Comment tags"@, r"//\s*FIXME\b"@),
        ("Found code quality: "@ + "Comment tags"@, r"//\s*HACK\b"@),
        ("Found code quality: "@ + "Comment tags"@, r"//\s*BUG\b"@),
        ("Found code quality: "@ + "Comment tags"@, r"//\s*XXX\b"@),
    ];
    assert forall|e: int| 0 <= e < table.len() implies exists|j: int, p: int|
        0 <= j < rules.len() && 0 <= p < rules[j].patterns.len() && kind_label(rules[j].kind) + rules[j].prompt
            == table[e].0 && #[trigger] rules[j].patterns[p] == (#[trigger] table[e]).1 by {
        if e == 0 {
            assert(rules[0].patterns[0] == table[0].1);
        } else if e == 1 {
            assert(rules[1].patterns[0] == table[1].1);
        } else if e == 2 {
            assert(rules[2].patterns[0] == table[2].1);
        } else if e == 3 {
            assert(rules[3].patterns[0] == table[3].1);
        } else if e == 4 {
            assert(rules[4].patterns[0] == table[4].1);
        } else if e == 5 {
            assert(rules[4].patterns[1] == table[5].1);
        } else if e == 6 {
            assert(rules[5].patterns[0] == table[6].1);
        } else if e == 7 {
            assert(rules[6].patterns[0] == table[7].1);
        } else if e == 8 {
            assert(rules[6].patterns[1] == table[8].1);
        } else if e == 9 {
            assert(rules[7].patterns[0] == table[9].1);
        } else if e == 10 {
            assert(rules[8].patterns[0] == table[10].1);
        } else if e == 11 {
            assert(rules[9].patterns[0] == table[11].1);
        } else if e == 12 {
            assert(rules[10].patterns[0] == table[12].1);
        } else if e == 13 {
            assert(rules[10].patterns[1] == table[13].1);
        } else if e == 14 {
            assert(rules[10].patterns[2] == table[14].1);
        } else if e == 15 {
            assert(rules[10].patterns[3] == table[15].1);
        } else if e == 16 {
            assert(rules[10].patterns[4] == table[16].1);
        }
    }
    lemma_table_reports(rules, table, f, ls);
    assert forall|j: int, p: int|
        0 <= j < rules.len() && 0 <= p < rules[j].patterns.len() implies table.contains(
            (kind_label(rules[j].kind) + rules[j].prompt, #[trigger] rules[j].patterns[p]),
        ) by {
        if j == 0 && p == 0 {
            assert(table[0] == (kind_label(rules[0].kind) + rules[0].prompt, rules[0].patterns[0]));
        } else if j == 1 && p == 0 {
            assert(table[1] == (kind_label(rules[1].kind) + rules[1].prompt, rules[1].patterns[0]));
        } else if j == 2 && p == 0 {
            assert(table[2] == (kind_label(rules[2].kind) + rules[2].prompt, rules[2].patterns[0]));
        } else if j == 3 && p == 0 {
            assert(table[3] == (kind_label(rules[3].kind) + rules[3].prompt, rules[3].patterns[0]));
        } else if j == 4 && p == 0 {
            assert(table[4] == (kind_label(rules[4].kind) + rules[4].prompt, rules[4].patterns[0]));
        } else if j == 4 && p == 1 {
            assert(table[5] == (kind_label(rules[4].kind) + rules[4].prompt, rules[4].patterns[1]));
        } else if j == 5 && p == 0 {
            assert(table[6] == (kind_label(rules[5].kind) + rules[5].prompt, rules[5].patterns[0]));
        } else if j == 6 && p == 0 {
            assert(table[7] == (kind_label(rules[6].kind) + rules[6].prompt, rules[6].patterns[0]));
        } else if j == 6 && p == 1 {
            assert(table[8] == (kind_label(rules[6].kind) + rules[6].prompt, rules[6].patterns[1]));
        } else if j == 7 && p == 0 {
            assert(table[9] == (kind_label(rules[7].kind) + rules[7].prompt, rules[7].patterns[0]));
        } else if j == 8 && p == 0 {
            assert(table[10] == (kind_label(rules[8].kind) + rules[8].prompt, rules[8].patterns[0]));
        } else if j == 9 && p == 0 {
            assert(table[11] == (kind_label(rules[9].kind) + rules[9].prompt, rules[9].patterns[0]));
        } else if j == 10 && p == 0 {
            assert(table[12] == (kind_label(rules[10].kind) + rules[10].prompt, rules[10].patterns[0]));
        } else if j == 10 && p == 1 {
            assert(table[13] == (kind_label(rules[10].kind) + rules[10].prompt, rules[10].patterns[1]));
        } else if j == 10 && p == 2 {
            assert(table[14] == (kind_label(rules[10].kind) + rules[10].prompt, rules[10].patterns[2]));
        } else if j == 10 && p == 3 {
            assert(table[15] == (kind_label(rules[10].kind) + rules[10].prompt, rules[10].patterns[3]));
        } else if j == 10 && p == 4 {
            assert(table[16] == (kind_label(rules[10].kind) + rules[10].prompt, rules[10].patterns[4]));
        }
    }
    lemma_table_covers(rules, table, f, ls);
}

} // verus!
