//! Patterns, rules, match positions and the diagnostic messages that a scan reports.
use vstd::prelude::*;
use vstd::utf8::encode_utf8;
use crate::scan::ItemType;
use crate::text::{chars_of, decimal, lines, lines_of, push_decimal, push_repeat, push_str, repeat, views};

verus! {

broadcast use vstd::string::group_string_axioms;

#[verifier::external_type_specification]
#[verifier::external_body]
pub struct ExRegex(regex::Regex);

/// A regular expression together with its source text.
pub struct Pattern {
    source: String,
    compiled: Option<regex::Regex>,
}

impl View for Pattern {
    type V = Seq<char>;

    closed spec fn view(&self) -> Seq<char> {
        self.source@
    }
}

/// Whether `source` is a regular expression that `regex::Regex::new` accepts.
pub uninterp spec fn regex_valid(source: Seq<char>) -> bool;

/// Compiles a regular expression (`regex::Regex::new`); `None` when the source is not a
/// valid expression. Claims that it succeeds exactly when `regex_valid` holds of the
/// source; nothing is promised of the compiled value itself.
#[verifier::external_body]
fn compile_regex(source: &str) -> (res: Option<regex::Regex>)
    ensures
        res.is_some() == regex_valid(source@),
{
    regex::Regex::new(source).ok()
}

/// The byte offsets `(start, end)` of the successive non-overlapping matches of the regular
/// expression `pattern` in `haystack`, in the order `regex::Regex::find_iter` yields them;
/// empty when there is no match or `pattern` is not a valid expression.
pub uninterp spec fn regex_matches(pattern: Seq<char>, haystack: Seq<char>) -> Seq<(usize, usize)>;

/// Finds every match of `p` in `haystack` with `regex::Regex::find_iter` and returns their
/// byte offsets. Claims that the result is `regex_matches` of the pattern's source and the
/// haystack (a `Pattern` only holds the expression compiled from its own source), and, as the
/// regex documentation states, that each match lies within the haystack's bytes and that
/// the matches do not overlap and come in order from the start of the haystack.
#[verifier::external_body]
fn find_all(p: &Pattern, haystack: &str) -> (res: Vec<(usize, usize)>)
    ensures
        res@ == regex_matches(p@, haystack@),
        forall|k: int| 0 <= k < res@.len() ==> (#[trigger] res@[k]).0 <= res@[k].1 <= encode_utf8(haystack@).len(),
        forall|k: int| 0 <= k < res@.len() - 1 ==> (#[trigger] res@[k]).1 <= res@[k + 1].0,
{
    let mut res = Vec::new();
    if let Some(re) = &p.compiled {
        for m in re.find_iter(haystack) {
            res.push((m.start(), m.end()));
        }
    }
    res
}

impl Pattern {
    /// A pattern holds a compiled expression exactly when its source is valid.
    #[verifier::type_invariant]
    spec fn compiled_iff_valid(self) -> bool {
        self.compiled.is_some() == regex_valid(self.source@)
    }

    /// Compiles the regular expression `source`.
    pub fn new(source: &str) -> (p: Pattern)
        ensures
            p@ == source@,
    {
        Pattern { source: String::from_str(source), compiled: compile_regex(source) }
    }

    /// The source text of the expression.
    pub fn as_str(&self) -> (res: &str)
        ensures
            res@ == self@,
    {
        self.source.as_str()
    }

    /// Whether the source is a valid regular expression.
    pub fn is_valid(&self) -> (res: bool)
        ensures
            res == regex_valid(self@),
    {
        proof {
            use_type_invariant(self);
        }
        self.compiled.is_some()
    }
}

/// A scan rule: the message prompt, the kind of issue, and the patterns that detect it.
pub struct Rule {
    pub prompt: &'static str,
    pub kind: ItemType,
    pub regex: Vec<Pattern>,
}

/// The plain contents of a rule.
pub struct RuleView {
    pub prompt: Seq<char>,
    pub kind: ItemType,
    pub patterns: Seq<Seq<char>>,
}

impl View for Rule {
    type V = RuleView;

    open spec fn view(&self) -> RuleView {
        RuleView {
            prompt: self.prompt@,
            kind: self.kind,
            patterns: self.regex@.map_values(|p: Pattern| p@),
        }
    }
}

impl Rule {
    /// Creates a new `Rule`.
    pub fn new(prompt: &'static str, kind: ItemType, regex: Vec<Pattern>) -> (r: Rule)
        ensures
            r.prompt == prompt,
            r.kind == kind,
            r.regex == regex,
    {
        Rule { prompt, kind, regex }
    }
}

/// A match: its 1-based line number and its start and end byte offsets within the line.
#[derive(Debug, Clone, Copy, PartialEq, Eq, Structural)]
pub struct MatchPos {
    pub line: usize,
    pub start: usize,
    pub end: usize,
}

impl View for MatchPos {
    type V = (usize, usize, usize);

    open spec fn view(&self) -> (usize, usize, usize) {
        (self.line, self.start, self.end)
    }
}

impl MatchPos {
    /// Creates a new `MatchPos`.
    pub fn new(line: usize, start: usize, end: usize) -> (m: MatchPos)
        ensures
            m.line == line,
            m.start == start,
            m.end == end,
    {
        MatchPos { line, start, end }
    }
}

/// The positions of the matches `ms` found in the line numbered `n`.
pub open spec fn line_positions(n: nat, ms: Seq<(usize, usize)>) -> Seq<(usize, usize, usize)> {
    ms.map_values(|m: (usize, usize)| (n as usize, m.0, m.1))
}

/// The matches of `pattern` in `ls`, line by line and, within a line, in the order the
/// regular expression finds them: each match's 1-based line number and byte offsets.
pub open spec fn match_positions(pattern: Seq<char>, ls: Seq<Seq<char>>) -> Seq<(usize, usize, usize)>
    decreases ls.len(),
{
    if ls.len() == 0 {
        seq![]
    } else {
        match_positions(pattern, ls.drop_last()) + line_positions(ls.len(), regex_matches(pattern, ls.last()))
    }
}

proof fn lemma_positions_placed(pattern: Seq<char>, ls: Seq<Seq<char>>)
    requires
        ls.len() <= usize::MAX,
    ensures
        ({
            let mp = match_positions(pattern, ls);
            forall|k: int|
                0 <= k < mp.len() ==> 1 <= (#[trigger] mp[k]).0 <= ls.len() && regex_matches(pattern, ls[mp[k].0 - 1]).contains(
                    (mp[k].1, mp[k].2),
                )
        }),
    decreases ls.len(),
{
    if ls.len() > 0 {
        let prev = ls.drop_last();
        lemma_positions_placed(pattern, prev);
        let pm = match_positions(pattern, prev);
        let rm = regex_matches(pattern, ls.last());
        let cur = line_positions(ls.len(), rm);
        let mp = match_positions(pattern, ls);
        assert(mp == pm + cur);
        assert forall|k: int| 0 <= k < mp.len() implies 1 <= (#[trigger] mp[k]).0 <= ls.len()
            && regex_matches(pattern, ls[mp[k].0 - 1]).contains((mp[k].1, mp[k].2)) by {
            if k < pm.len() {
                assert(mp[k] == pm[k]);
                assert(prev[pm[k].0 - 1] == ls[pm[k].0 - 1]);
            } else {
                let j = k - pm.len();
                assert(mp[k] == cur[j]);
                assert(mp[k].0 == ls.len());
                assert(rm[j] == (mp[k].1, mp[k].2));
                assert(rm.contains(rm[j]));
            }
        }
    }
}

proof fn lemma_positions_lines_ordered(pattern: Seq<char>, ls: Seq<Seq<char>>)
    requires
        ls.len() <= usize::MAX,
    ensures
        ({
            let mp = match_positions(pattern, ls);
            &&& forall|k: int| 0 <= k < mp.len() ==> (#[trigger] mp[k]).0 <= ls.len()
            &&& forall|a: int, b: int| 0 <= a < b < mp.len() ==> (#[trigger] mp[a]).0 <= (#[trigger] mp[b]).0
        }),
    decreases ls.len(),
{
    if ls.len() > 0 {
        let prev = ls.drop_last();
        lemma_positions_lines_ordered(pattern, prev);
        let pm = match_positions(pattern, prev);
        let cur = line_positions(ls.len(), regex_matches(pattern, ls.last()));
        let mp = match_positions(pattern, ls);
        assert(mp == pm + cur);
        assert forall|k: int| 0 <= k < mp.len() implies (#[trigger] mp[k]).0 <= ls.len() by {
            if k < pm.len() {
                assert(mp[k] == pm[k]);
            } else {
                assert(mp[k] == cur[k - pm.len()]);
            }
        }
        assert forall|a: int, b: int| 0 <= a < b < mp.len() implies (#[trigger] mp[a]).0 <= (#[trigger] mp[b]).0 by {
            if b < pm.len() {
                assert(mp[a] == pm[a] && mp[b] == pm[b]);
            } else if a < pm.len() {
                assert(mp[a] == pm[a]);
                assert(pm[a].0 <= prev.len());
                assert(mp[b] == cur[b - pm.len()]);
            } else {
                assert(mp[a] == cur[a - pm.len()]);
                assert(mp[b] == cur[b - pm.len()]);
            }
        }
    }
}

proof fn lemma_positions_complete(pattern: Seq<char>, ls: Seq<Seq<char>>, l: int, j: int)
    requires
        ls.len() <= usize::MAX,
        0 <= l < ls.len(),
        0 <= j < regex_matches(pattern, ls[l]).len(),
    ensures
        match_positions(pattern, ls).contains(
            ((l + 1) as usize, regex_matches(pattern, ls[l])[j].0, regex_matches(pattern, ls[l])[j].1),
        ),
    decreases ls.len(),
{
    let prev = ls.drop_last();
    let pm = match_positions(pattern, prev);
    let cur = line_positions(ls.len(), regex_matches(pattern, ls.last()));
    let mp = match_positions(pattern, ls);
    assert(mp == pm + cur);
    if l < prev.len() {
        assert(prev[l] == ls[l]);
        lemma_positions_complete(pattern, prev, l, j);
        let x = ((l + 1) as usize, regex_matches(pattern, ls[l])[j].0, regex_matches(pattern, ls[l])[j].1);
        let k = choose|k: int| 0 <= k < pm.len() && pm[k] == x;
        assert(mp[k] == pm[k]);
    } else {
        assert(mp[pm.len() + j] == cur[j]);
        assert(mp.contains(mp[pm.len() + j]));
    }
}

/// A scan reports every match of every line, in order: each reported position names a
/// line (1-based) and the offsets of one of that line's matches, line numbers never
/// decrease, and every match of every line is reported.
pub proof fn law_match_positions_by_line(pattern: Seq<char>, ls: Seq<Seq<char>>)
    requires
        ls.len() <= usize::MAX,
    ensures
        ({
            let mp = match_positions(pattern, ls);
            &&& forall|k: int|
                0 <= k < mp.len() ==> 1 <= (#[trigger] mp[k]).0 <= ls.len() && regex_matches(pattern, ls[mp[k].0 - 1]).contains(
                    (mp[k].1, mp[k].2),
                )
            &&& forall|a: int, b: int| 0 <= a < b < mp.len() ==> (#[trigger] mp[a]).0 <= (#[trigger] mp[b]).0
            &&& forall|l: int, j: int|
                0 <= l < ls.len() && 0 <= j < regex_matches(pattern, ls[l]).len() ==> mp.contains(
                    ((l + 1) as usize, (#[trigger] regex_matches(pattern, ls[l])[j]).0, regex_matches(pattern, ls[l])[j].1),
                )
        }),
{
    lemma_positions_placed(pattern, ls);
    lemma_positions_lines_ordered(pattern, ls);
    let mp = match_positions(pattern, ls);
    assert forall|l: int, j: int| 0 <= l < ls.len() && 0 <= j < regex_matches(pattern, ls[l]).len() implies mp.contains(
        ((l + 1) as usize, (#[trigger] regex_matches(pattern, ls[l])[j]).0, regex_matches(pattern, ls[l])[j].1),
    ) by {
        lemma_positions_complete(pattern, ls, l, j);
    }
}

/// The number of matches of `pattern` in the lines `l1` followed by `l2` is the number in
/// `l1` plus the number in `l2`.
pub proof fn lemma_positions_len_concat(pattern: Seq<char>, l1: Seq<Seq<char>>, l2: Seq<Seq<char>>)
    ensures
        match_positions(pattern, l1 + l2).len() == match_positions(pattern, l1).len() + match_positions(
            pattern,
            l2,
        ).len(),
    decreases l2.len(),
{
    if l2.len() == 0 {
        assert(l1 + l2 =~= l1);
    } else {
        lemma_positions_len_concat(pattern, l1, l2.drop_last());
        assert((l1 + l2).drop_last() =~= l1 + l2.drop_last());
        assert((l1 + l2).last() == l2.last());
    }
}

/// Each match lies in one of the lines and within that line's bytes.
pub open spec fn well_placed(ms: Seq<MatchPos>, ls: Seq<Seq<char>>) -> bool {
    forall|k: int|
        0 <= k < ms.len() ==> {
            &&& 1 <= #[trigger] ms[k].line <= ls.len()
            &&& ms[k].start <= ms[k].end <= encode_utf8(ls[ms[k].line - 1]).len()
        }
}

/// The matches come line by line and, within a line, each ends before the next starts.
pub open spec fn in_order(ms: Seq<MatchPos>) -> bool {
    forall|k: int|
        0 <= k < ms.len() - 1 ==> (#[trigger] ms[k]).line < ms[k + 1].line || (ms[k].line == ms[k + 1].line
            && ms[k].end <= ms[k + 1].start)
}

/// Appends to `res` the matches `ms` found in the line numbered `line_no` of `ls`.
#[verifier::rlimit(40)]
fn push_line_matches(res: &mut Vec<MatchPos>, line_no: usize, ms: &Vec<(usize, usize)>, Ghost(ls): Ghost<Seq<Seq<char>>>)
    requires
        1 <= line_no <= ls.len(),
        forall|k: int| 0 <= k < ms@.len() ==> (#[trigger] ms@[k]).0 <= ms@[k].1 <= encode_utf8(ls[line_no - 1]).len(),
        forall|k: int| 0 <= k < ms@.len() - 1 ==> (#[trigger] ms@[k]).1 <= ms@[k + 1].0,
        well_placed(old(res)@, ls),
        in_order(old(res)@),
        old(res)@.len() > 0 ==> old(res)@.last().line < line_no,
    ensures
        final(res)@.map_values(|m: MatchPos| m@) == old(res)@.map_values(|m: MatchPos| m@) + line_positions(
            line_no as nat,
            ms@,
        ),
        well_placed(final(res)@, ls),
        in_order(final(res)@),
        final(res)@.len() > 0 ==> final(res)@.last().line <= line_no,
{
    let ghost base = res@.map_values(|m: MatchPos| m@);
    let ghost cur = line_positions(line_no as nat, ms@);
    let ghost r0 = res@;
    for j in 0..ms.len()
        invariant
            1 <= line_no <= ls.len(),
            forall|k: int| 0 <= k < ms@.len() ==> (#[trigger] ms@[k]).0 <= ms@[k].1 <= encode_utf8(ls[line_no - 1]).len(),
            forall|k: int| 0 <= k < ms@.len() - 1 ==> (#[trigger] ms@[k]).1 <= ms@[k + 1].0,
            cur == line_positions(line_no as nat, ms@),
            res@.map_values(|m: MatchPos| m@) == base + cur.take(j as int),
            well_placed(res@, ls),
            in_order(res@),
            j == 0 ==> res@ == r0,
            r0.len() > 0 ==> r0.last().line < line_no,
            j > 0 ==> res@.len() > 0 && res@.last()@ == (line_no, ms@[j - 1].0, ms@[j - 1].1),
    {
        let (st, e) = ms[j];
        let ghost prev = res@;
        res.push(MatchPos::new(line_no, st, e));
        assert(res@.map_values(|m: MatchPos| m@) =~= prev.map_values(|m: MatchPos| m@).push((line_no, st, e)));
        assert(cur.take(j + 1) =~= cur.take(j as int).push(cur[j as int]));
        assert forall|k: int| 0 <= k < res@.len() implies {
            &&& 1 <= #[trigger] res@[k].line <= ls.len()
            &&& res@[k].start <= res@[k].end <= encode_utf8(ls[res@[k].line - 1]).len()
        } by {
            if k < prev.len() {
                assert(res@[k] == prev[k]);
            }
        }
        assert forall|k: int| 0 <= k < res@.len() - 1 implies (#[trigger] res@[k]).line < res@[k + 1].line || (
        res@[k].line == res@[k + 1].line && res@[k].end <= res@[k + 1].start) by {
            if k < prev.len() - 1 {
                assert(res@[k] == prev[k] && res@[k + 1] == prev[k + 1]);
            } else {
                assert(res@[k] == prev.last());
                if j > 0 {
                    assert(ms@[j - 1].1 <= ms@[j as int].0);
                }
            }
        }
    }
    assert(cur.take(ms.len() as int) == cur);
}

/// Every match of `pattern` in each of the lines `ls`.
pub fn matches_in_lines(ls: &Vec<String>, pattern: &Pattern) -> (res: Vec<MatchPos>)
    ensures
        res@.map_values(|m: MatchPos| m@) == match_positions(pattern@, views(ls@)),
        well_placed(res@, views(ls@)),
        in_order(res@),
{
    let ghost vs = views(ls@);
    let mut res: Vec<MatchPos> = Vec::new();
    for i in 0..ls.len()
        invariant
            vs == views(ls@),
            res@.map_values(|m: MatchPos| m@) == match_positions(pattern@, vs.take(i as int)),
            well_placed(res@, vs),
            in_order(res@),
            res@.len() > 0 ==> res@.last().line <= i,
    {
        assert(vs.take(i + 1).drop_last() == vs.take(i as int));
        assert(vs.take(i + 1).last() == ls@[i as int]@);
        let line = ls[i].as_str();
        let ms = find_all(pattern, line);
        push_line_matches(&mut res, i + 1, &ms, Ghost(vs));
    }
    assert(vs.take(ls.len() as int) == vs);
    res
}

/// Retrieves the 1-based line number and the start and end byte offsets of every match of
/// `pattern` in `s`, line by line and, within a line, from left to right.
pub fn scan_matched(s: &str, pattern: &Pattern) -> (res: Vec<MatchPos>)
    ensures
        res@.map_values(|m: MatchPos| m@) == match_positions(pattern@, lines(s@)),
        well_placed(res@, lines(s@)),
        in_order(res@),
{
    let cs = chars_of(s);
    let ls = lines_of(cs.as_slice());
    matches_in_lines(&ls, pattern)
}

/// The label that a message of each kind starts with.
pub open spec fn kind_label(kind: ItemType) -> Seq<char> {
    match kind {
        ItemType::Evil => "Found evil: "@,
        ItemType::Hardcoded => "Found hard-coded: "@,
        ItemType::Quality => "Found code quality: "@,
        ItemType::Secrets => "Found secrets: "@,
        ItemType::All => "Found issue: "@,
    }
}

/// The label that a message of the given kind starts with.
pub fn kind2str(kind: ItemType) -> (res: &'static str)
    ensures
        res@ == kind_label(kind),
{
    match kind {
        ItemType::Evil => "Found evil: ",
        ItemType::Hardcoded => "Found hard-coded: ",
        ItemType::Quality => "Found code quality: ",
        ItemType::Secrets => "Found secrets: ",
        ItemType::All => "Found issue: ",
    }
}

/// The three lines of a diagnostic: where the match is, the line itself, and a row that
/// underlines the match with `^` (offsets and widths count bytes, as the line's text does).
pub open spec fn message_text(
    prompt: Seq<char>,
    filename: Seq<char>,
    line: nat,
    line_text: Seq<char>,
    start: nat,
    end: nat,
) -> Seq<char> {
    let n = decimal(line);
    let width = encode_utf8(line_text).len();
    prompt + ": file "@ + filename + ", line "@ + n + ":\n"@ + n + " | "@ + line_text + "\n"@
        + repeat(' ', n.len()) + "   "@ + repeat(' ', start) + repeat('^', (end - start) as nat)
        + repeat(' ', (width - end) as nat) + "\n"@
}

/// The diagnostic message for the match `pos` in `line_text`, as it is written to the
/// error stream.
pub fn format_msg(prompt: &str, filename: &str, pos: &MatchPos, line_text: &str) -> (res: String)
    requires
        pos.start <= pos.end <= encode_utf8(line_text@).len(),
    ensures
        res@ == message_text(prompt@, filename@, pos.line as nat, line_text@, pos.start as nat, pos.end as nat),
{
    let mut n = String::new();
    push_decimal(&mut n, pos.line as u64);
    let mut s = String::new();
    push_str(&mut s, prompt);
    push_str(&mut s, ": file ");
    push_str(&mut s, filename);
    push_str(&mut s, ", line ");
    push_str(&mut s, n.as_str());
    push_str(&mut s, ":\n");
    push_str(&mut s, n.as_str());
    push_str(&mut s, " | ");
    push_str(&mut s, line_text);
    push_str(&mut s, "\n");
    let digits = chars_of(n.as_str()).len();
    push_repeat(&mut s, ' ', digits);
    push_str(&mut s, "   ");
    push_repeat(&mut s, ' ', pos.start);
    push_repeat(&mut s, '^', pos.end - pos.start);
    let width = line_text.as_bytes().len();
    push_repeat(&mut s, ' ', width - pos.end);
    push_str(&mut s, "\n");
    assert(s@ =~= message_text(prompt@, filename@, pos.line as nat, line_text@, pos.start as nat, pos.end as nat));
    s
}

/// The messages for the matches of one pattern.
pub open spec fn pattern_messages(
    prompt: Seq<char>,
    filename: Seq<char>,
    ls: Seq<Seq<char>>,
    pattern: Seq<char>,
) -> Seq<Seq<char>> {
    match_positions(pattern, ls).map_values(
        |m: (usize, usize, usize)|
            message_text(prompt, filename, m.0 as nat, ls[m.0 - 1], m.1 as nat, m.2 as nat),
    )
}

/// The messages for the matches of a list of patterns, pattern by pattern.
pub open spec fn patterns_messages(
    prompt: Seq<char>,
    filename: Seq<char>,
    ls: Seq<Seq<char>>,
    patterns: Seq<Seq<char>>,
) -> Seq<Seq<char>>
    decreases patterns.len(),
{
    if patterns.len() == 0 {
        seq![]
    } else {
        patterns_messages(prompt, filename, ls, patterns.drop_last()) + pattern_messages(
            prompt,
            filename,
            ls,
            patterns.last(),
        )
    }
}

/// The messages that a rule reports on the lines `ls` of the file `filename`.
pub open spec fn rule_messages(r: RuleView, filename: Seq<char>, ls: Seq<Seq<char>>) -> Seq<Seq<char>> {
    patterns_messages(kind_label(r.kind) + r.prompt, filename, ls, r.patterns)
}

/// The number of messages that patterns report on the lines `l1` followed by `l2` is the
/// number on `l1` plus the number on `l2`, whatever the prompt and the file's name.
pub proof fn lemma_patterns_messages_len_concat(
    prompt: Seq<char>,
    f1: Seq<char>,
    f2: Seq<char>,
    l1: Seq<Seq<char>>,
    l2: Seq<Seq<char>>,
    patterns: Seq<Seq<char>>,
)
    ensures
        patterns_messages(prompt, f1, l1 + l2, patterns).len() == patterns_messages(prompt, f1, l1, patterns).len()
            + patterns_messages(prompt, f2, l2, patterns).len(),
    decreases patterns.len(),
{
    if patterns.len() > 0 {
        lemma_patterns_messages_len_concat(prompt, f1, f2, l1, l2, patterns.drop_last());
        lemma_positions_len_concat(patterns.last(), l1, l2);
    }
}

/// Appends to `out` the messages of `rule` on the lines `ls`.
pub fn push_rule_messages(rule: &Rule, ls: &Vec<String>, filename: &str, out: &mut Vec<String>)
    ensures
        views(final(out)@) == views(old(out)@) + rule_messages(rule@, filename@, views(ls@)),
{
    let ghost vs = views(ls@);
    let ghost prompt_v = kind_label(rule.kind) + rule.prompt@;
    let mut prompt = String::new();
    push_str(&mut prompt, kind2str(rule.kind));
    push_str(&mut prompt, rule.prompt);
    let ghost pats = rule@.patterns;
    let ghost out0 = views(out@);
    for i in 0..rule.regex.len()
        invariant
            vs == views(ls@),
            prompt@ == prompt_v,
            pats == rule@.patterns,
            pats.len() == rule.regex@.len(),
            views(out@) == out0 + patterns_messages(prompt_v, filename@, vs, pats.take(i as int)),
    {
        assert(pats.take(i + 1).drop_last() == pats.take(i as int));
        assert(pats.take(i + 1).last() == rule.regex@[i as int]@);
        let ms = matches_in_lines(ls, &rule.regex[i]);
        let ghost ms_v = ms@.map_values(|m: MatchPos| m@);
        let ghost pm = pattern_messages(prompt_v, filename@, vs, rule.regex@[i as int]@);
        let ghost base = views(out@);
        for j in 0..ms.len()
            invariant
                vs == views(ls@),
                prompt@ == prompt_v,
                ms_v == ms@.map_values(|m: MatchPos| m@),
                ms_v == match_positions(rule.regex@[i as int]@, vs),
                well_placed(ms@, vs),
                pm == pattern_messages(prompt_v, filename@, vs, rule.regex@[i as int]@),
                views(out@) == base + pm.take(j as int),
        {
            let m = &ms[j];
            assert(ms@[j as int] == *m);
            let line = ls[m.line - 1].as_str();
            let msg = format_msg(prompt.as_str(), filename, m, line);
            let ghost before = out@;
            out.push(msg);
            assert(views(out@) == views(before).push(msg@));
            assert(pm.take(j + 1) == pm.take(j as int).push(pm[j as int]));
        }
        assert(pm.take(ms.len() as int) == pm);
    }
    assert(pats.take(rule.regex.len() as int) == pats);
}

/// Applies every pattern of `rule` to `file_content` and returns the diagnostic message of
/// each match, pattern by pattern and line by line.
pub fn diagnostic_by_regex(rule: &Rule, file_content: &str, filename: &str) -> (res: Vec<String>)
    ensures
        views(res@) == rule_messages(rule@, filename@, lines(file_content@)),
{
    let cs = chars_of(file_content);
    let ls = lines_of(cs.as_slice());
    let mut out: Vec<String> = Vec::new();
    push_rule_messages(rule, &ls, filename, &mut out);
    assert(views(out@) =~= seq![] + rule_messages(rule@, filename@, lines(file_content@)));
    out
}

} // verus!

verus! {

/// The views of a list of rules.
pub open spec fn rule_views(rules: Seq<Rule>) -> Seq<RuleView> {
    rules.map_values(|r: Rule| r@)
}

/// The messages that a list of rules reports on the lines `ls`, rule by rule.
pub open spec fn rules_messages(rules: Seq<RuleView>, filename: Seq<char>, ls: Seq<Seq<char>>) -> Seq<Seq<char>>
    decreases rules.len(),
{
    if rules.len() == 0 {
        seq![]
    } else {
        rules_messages(rules.drop_last(), filename, ls) + rule_messages(rules.last(), filename, ls)
    }
}

/// The number of messages that rules report on the lines `l1` followed by `l2` is the
/// number on `l1` plus the number on `l2`, whatever the file's name.
pub proof fn lemma_rules_messages_len_concat(
    rules: Seq<RuleView>,
    f1: Seq<char>,
    f2: Seq<char>,
    l1: Seq<Seq<char>>,
    l2: Seq<Seq<char>>,
)
    ensures
        rules_messages(rules, f1, l1 + l2).len() == rules_messages(rules, f1, l1).len() + rules_messages(
            rules,
            f2,
            l2,
        ).len(),
    decreases rules.len(),
{
    if rules.len() > 0 {
        lemma_rules_messages_len_concat(rules.drop_last(), f1, f2, l1, l2);
        let r = rules.last();
        lemma_patterns_messages_len_concat(kind_label(r.kind) + r.prompt, f1, f2, l1, l2, r.patterns);
    }
}

/// Appends to `out` the messages of every rule of `rules` on the lines `ls`.
pub fn push_rules_messages(rules: &Vec<Rule>, ls: &Vec<String>, filename: &str, out: &mut Vec<String>)
    ensures
        views(final(out)@) == views(old(out)@) + rules_messages(rule_views(rules@), filename@, views(ls@)),
{
    let ghost rs = rule_views(rules@);
    let ghost out0 = views(out@);
    for i in 0..rules.len()
        invariant
            rs == rule_views(rules@),
            views(out@) == out0 + rules_messages(rs.take(i as int), filename@, views(ls@)),
    {
        assert(rs.take(i + 1).drop_last() == rs.take(i as int));
        assert(rs.take(i + 1).last() == rules@[i as int]@);
        push_rule_messages(&rules[i], ls, filename, out);
    }
    assert(rs.take(rules.len() as int) == rs);
}

/// The diagnostic messages of every rule of `rules` on the text `s` of the file `filename`.
pub fn scan_with_rules(rules: &Vec<Rule>, s: &str, filename: &str) -> (res: Vec<String>)
    ensures
        views(res@) == rules_messages(rule_views(rules@), filename@, lines(s@)),
{
    let cs = chars_of(s);
    let ls = lines_of(cs.as_slice());
    let mut out: Vec<String> = Vec::new();
    push_rules_messages(rules, &ls, filename, &mut out);
    assert(views(out@) =~= seq![] + rules_messages(rule_views(rules@), filename@, lines(s@)));
    out
}

/// The message for the match `m` of a pattern in the line at index `l` of `ls`.
pub open spec fn line_message(prompt: Seq<char>, f: Seq<char>, ls: Seq<Seq<char>>, l: int, m: (usize, usize)) -> Seq<char> {
    message_text(prompt, f, (l + 1) as nat, ls[l], m.0 as nat, m.1 as nat)
}

/// Every match of `pattern` in every line of `ls` is reported in `msgs` with the prompt
/// `prompt` (the kind's label followed by the rule's prompt).
pub open spec fn reports_matches(
    msgs: Seq<Seq<char>>,
    prompt: Seq<char>,
    pattern: Seq<char>,
    f: Seq<char>,
    ls: Seq<Seq<char>>,
) -> bool {
    forall|l: int, m: (usize, usize)|
        0 <= l < ls.len() && #[trigger] regex_matches(pattern, ls[l]).contains(m) ==> msgs.contains(
            line_message(prompt, f, ls, l, m),
        )
}

/// The message `x` reports a match, in a line of `ls`, of one of the patterns of `table`
/// (prompt and pattern pairs), with that pattern's prompt.
pub open spec fn explained_by(x: Seq<char>, table: Seq<(Seq<char>, Seq<char>)>, f: Seq<char>, ls: Seq<Seq<char>>) -> bool {
    exists|e: int, l: int, m: (usize, usize)|
        0 <= e < table.len() && 0 <= l < ls.len() && regex_matches(table[e].1, ls[l]).contains(m) && x
            == #[trigger] line_message(table[e].0, f, ls, l, m)
}

/// Every message of `msgs` reports a match of one of the patterns of `table`.
pub open spec fn reports_only(msgs: Seq<Seq<char>>, table: Seq<(Seq<char>, Seq<char>)>, f: Seq<char>, ls: Seq<Seq<char>>) -> bool {
    forall|k: int| 0 <= k < msgs.len() ==> #[trigger] explained_by(msgs[k], table, f, ls)
}

proof fn lemma_pattern_reports(prompt: Seq<char>, f: Seq<char>, ls: Seq<Seq<char>>, pattern: Seq<char>, l: int, m: (usize, usize))
    requires
        ls.len() <= usize::MAX,
        0 <= l < ls.len(),
        regex_matches(pattern, ls[l]).contains(m),
    ensures
        pattern_messages(prompt, f, ls, pattern).contains(line_message(prompt, f, ls, l, m)),
{
    let rm = regex_matches(pattern, ls[l]);
    let jj = choose|jj: int| 0 <= jj < rm.len() && rm[jj] == m;
    law_match_positions_by_line(pattern, ls);
    let mp = match_positions(pattern, ls);
    assert(mp.contains(((l + 1) as usize, rm[jj].0, rm[jj].1)));
    let k = choose|k: int| 0 <= k < mp.len() && mp[k] == ((l + 1) as usize, rm[jj].0, rm[jj].1);
    let pm = pattern_messages(prompt, f, ls, pattern);
    assert(pm[k] == line_message(prompt, f, ls, l, m));
}

proof fn lemma_patterns_reports(
    prompt: Seq<char>,
    f: Seq<char>,
    ls: Seq<Seq<char>>,
    patterns: Seq<Seq<char>>,
    p: int,
    l: int,
    m: (usize, usize),
)
    requires
        ls.len() <= usize::MAX,
        0 <= p < patterns.len(),
        0 <= l < ls.len(),
        regex_matches(patterns[p], ls[l]).contains(m),
    ensures
        patterns_messages(prompt, f, ls, patterns).contains(line_message(prompt, f, ls, l, m)),
    decreases patterns.len(),
{
    let x = line_message(prompt, f, ls, l, m);
    let prev = patterns_messages(prompt, f, ls, patterns.drop_last());
    let cur = pattern_messages(prompt, f, ls, patterns.last());
    assert(patterns_messages(prompt, f, ls, patterns) == prev + cur);
    if p == patterns.len() - 1 {
        lemma_pattern_reports(prompt, f, ls, patterns.last(), l, m);
        let k = choose|k: int| 0 <= k < cur.len() && cur[k] == x;
        assert((prev + cur)[prev.len() + k] == x);
    } else {
        assert(patterns.drop_last()[p] == patterns[p]);
        lemma_patterns_reports(prompt, f, ls, patterns.drop_last(), p, l, m);
        let k = choose|k: int| 0 <= k < prev.len() && prev[k] == x;
        assert((prev + cur)[k] == x);
    }
}

proof fn lemma_rules_reports(rules: Seq<RuleView>, f: Seq<char>, ls: Seq<Seq<char>>, j: int, p: int, l: int, m: (usize, usize))
    requires
        ls.len() <= usize::MAX,
        0 <= j < rules.len(),
        0 <= p < rules[j].patterns.len(),
        0 <= l < ls.len(),
        regex_matches(rules[j].patterns[p], ls[l]).contains(m),
    ensures
        rules_messages(rules, f, ls).contains(line_message(kind_label(rules[j].kind) + rules[j].prompt, f, ls, l, m)),
    decreases rules.len(),
{
    let x = line_message(kind_label(rules[j].kind) + rules[j].prompt, f, ls, l, m);
    let prev = rules_messages(rules.drop_last(), f, ls);
    let cur = rule_messages(rules.last(), f, ls);
    assert(rules_messages(rules, f, ls) == prev + cur);
    if j == rules.len() - 1 {
        let r = rules.last();
        lemma_patterns_reports(kind_label(r.kind) + r.prompt, f, ls, r.patterns, p, l, m);
        let k = choose|k: int| 0 <= k < cur.len() && cur[k] == x;
        assert((prev + cur)[prev.len() + k] == x);
    } else {
        assert(rules.drop_last()[j] == rules[j]);
        lemma_rules_reports(rules.drop_last(), f, ls, j, p, l, m);
        let k = choose|k: int| 0 <= k < prev.len() && prev[k] == x;
        assert((prev + cur)[k] == x);
    }
}

proof fn lemma_pattern_origin(prompt: Seq<char>, f: Seq<char>, ls: Seq<Seq<char>>, pattern: Seq<char>, k: int)
    requires
        ls.len() <= usize::MAX,
        0 <= k < pattern_messages(prompt, f, ls, pattern).len(),
    ensures
        exists|l: int, m: (usize, usize)|
            0 <= l < ls.len() && regex_matches(pattern, ls[l]).contains(m) && pattern_messages(prompt, f, ls, pattern)[k]
                == #[trigger] line_message(prompt, f, ls, l, m),
{
    lemma_positions_placed(pattern, ls);
    let mp = match_positions(pattern, ls);
    let l = mp[k].0 - 1;
    let m = (mp[k].1, mp[k].2);
    assert(pattern_messages(prompt, f, ls, pattern)[k] == line_message(prompt, f, ls, l, m));
}

proof fn lemma_patterns_origin(prompt: Seq<char>, f: Seq<char>, ls: Seq<Seq<char>>, patterns: Seq<Seq<char>>, k: int)
    requires
        ls.len() <= usize::MAX,
        0 <= k < patterns_messages(prompt, f, ls, patterns).len(),
    ensures
        exists|p: int, l: int, m: (usize, usize)|
            #![trigger patterns[p], line_message(prompt, f, ls, l, m)]
            0 <= p < patterns.len() && 0 <= l < ls.len() && regex_matches(patterns[p], ls[l]).contains(m)
                && patterns_messages(prompt, f, ls, patterns)[k] == line_message(prompt, f, ls, l, m),
    decreases patterns.len(),
{
    let prev = patterns_messages(prompt, f, ls, patterns.drop_last());
    let cur = pattern_messages(prompt, f, ls, patterns.last());
    let all = patterns_messages(prompt, f, ls, patterns);
    assert(all == prev + cur);
    if k < prev.len() {
        lemma_patterns_origin(prompt, f, ls, patterns.drop_last(), k);
        let (p, l, m) = choose|p: int, l: int, m: (usize, usize)|
            #![trigger patterns.drop_last()[p], line_message(prompt, f, ls, l, m)]
            0 <= p < patterns.drop_last().len() && 0 <= l < ls.len() && regex_matches(patterns.drop_last()[p], ls[l]).contains(m)
                && prev[k] == line_message(prompt, f, ls, l, m);
        assert(patterns.drop_last()[p] == patterns[p]);
        assert(all[k] == prev[k]);
    } else {
        lemma_pattern_origin(prompt, f, ls, patterns.last(), k - prev.len());
        let (l, m) = choose|l: int, m: (usize, usize)|
            0 <= l < ls.len() && regex_matches(patterns.last(), ls[l]).contains(m) && cur[k - prev.len()]
                == #[trigger] line_message(prompt, f, ls, l, m);
        assert(all[k] == cur[k - prev.len()]);
        assert(patterns[patterns.len() - 1] == patterns.last());
    }
}

proof fn lemma_rules_origin(rules: Seq<RuleView>, f: Seq<char>, ls: Seq<Seq<char>>, k: int)
    requires
        ls.len() <= usize::MAX,
        0 <= k < rules_messages(rules, f, ls).len(),
    ensures
        exists|j: int, p: int, l: int, m: (usize, usize)|
            #![trigger rules[j].patterns[p], line_message(kind_label(rules[j].kind) + rules[j].prompt, f, ls, l, m)]
            0 <= j < rules.len() && 0 <= p < rules[j].patterns.len() && 0 <= l < ls.len() && regex_matches(
                rules[j].patterns[p],
                ls[l],
            ).contains(m) && rules_messages(rules, f, ls)[k] == line_message(kind_label(rules[j].kind) + rules[j].prompt, f, ls, l, m),
    decreases rules.len(),
{
    let prev = rules_messages(rules.drop_last(), f, ls);
    let cur = rule_messages(rules.last(), f, ls);
    let all = rules_messages(rules, f, ls);
    assert(all == prev + cur);
    if k < prev.len() {
        lemma_rules_origin(rules.drop_last(), f, ls, k);
        let (j, p, l, m) = choose|j: int, p: int, l: int, m: (usize, usize)|
            #![trigger rules.drop_last()[j].patterns[p], line_message(kind_label(rules.drop_last()[j].kind) + rules.drop_last()[j].prompt, f, ls, l, m)]
            0 <= j < rules.drop_last().len() && 0 <= p < rules.drop_last()[j].patterns.len() && 0 <= l < ls.len()
                && regex_matches(rules.drop_last()[j].patterns[p], ls[l]).contains(m) && prev[k]
                == line_message(kind_label(rules.drop_last()[j].kind) + rules.drop_last()[j].prompt, f, ls, l, m);
        assert(rules.drop_last()[j] == rules[j]);
        assert(all[k] == prev[k]);
    } else {
        let r = rules.last();
        lemma_patterns_origin(kind_label(r.kind) + r.prompt, f, ls, r.patterns, k - prev.len());
        let (p, l, m) = choose|p: int, l: int, m: (usize, usize)|
            #![trigger r.patterns[p], line_message(kind_label(r.kind) + r.prompt, f, ls, l, m)]
            0 <= p < r.patterns.len() && 0 <= l < ls.len() && regex_matches(r.patterns[p], ls[l]).contains(m)
                && cur[k - prev.len()] == line_message(kind_label(r.kind) + r.prompt, f, ls, l, m);
        assert(all[k] == cur[k - prev.len()]);
        assert(rules[rules.len() - 1] == r);
        assert(all[k] == line_message(kind_label(r.kind) + r.prompt, f, ls, l, m));
    }
}

/// When every (prompt, pattern) pair of `table` belongs to a rule whose kind's label followed
/// by its prompt is that prompt, the rules report every match of every pattern of the table.
pub proof fn lemma_table_reports(rules: Seq<RuleView>, table: Seq<(Seq<char>, Seq<char>)>, f: Seq<char>, ls: Seq<Seq<char>>)
    requires
        ls.len() <= usize::MAX,
        forall|e: int|
            0 <= e < table.len() ==> exists|j: int, p: int|
                0 <= j < rules.len() && 0 <= p < rules[j].patterns.len() && kind_label(rules[j].kind) + rules[j].prompt
                    == table[e].0 && #[trigger] rules[j].patterns[p] == (#[trigger] table[e]).1,
    ensures
        forall|e: int|
            0 <= e < table.len() ==> reports_matches(rules_messages(rules, f, ls), #[trigger] table[e].0, table[e].1, f, ls),
{
    assert forall|e: int| 0 <= e < table.len() implies reports_matches(
        rules_messages(rules, f, ls),
        #[trigger] table[e].0,
        table[e].1,
        f,
        ls,
    ) by {
        let (j, p) = choose|j: int, p: int|
            0 <= j < rules.len() && 0 <= p < rules[j].patterns.len() && kind_label(rules[j].kind) + rules[j].prompt
                == table[e].0 && #[trigger] rules[j].patterns[p] == table[e].1;
        assert forall|l: int, m: (usize, usize)|
            0 <= l < ls.len() && #[trigger] regex_matches(table[e].1, ls[l]).contains(m) implies rules_messages(
                rules,
                f,
                ls,
            ).contains(line_message(table[e].0, f, ls, l, m)) by {
            lemma_rules_reports(rules, f, ls, j, p, l, m);
        }
    }
}

/// When every pattern of every rule is in `table` with its kind's label followed by its
/// rule's prompt, each message of the rules reports a match of a pattern of the table.
pub proof fn lemma_table_covers(rules: Seq<RuleView>, table: Seq<(Seq<char>, Seq<char>)>, f: Seq<char>, ls: Seq<Seq<char>>)
    requires
        ls.len() <= usize::MAX,
        forall|j: int, p: int|
            0 <= j < rules.len() && 0 <= p < rules[j].patterns.len() ==> table.contains(
                (kind_label(rules[j].kind) + rules[j].prompt, #[trigger] rules[j].patterns[p]),
            ),
    ensures
        reports_only(rules_messages(rules, f, ls), table, f, ls),
{
    let msgs = rules_messages(rules, f, ls);
    assert forall|k: int| 0 <= k < msgs.len() implies #[trigger] explained_by(msgs[k], table, f, ls) by {
        lemma_rules_origin(rules, f, ls, k);
        let (j, p, l, m) = choose|j: int, p: int, l: int, m: (usize, usize)|
            #![trigger rules[j].patterns[p], line_message(kind_label(rules[j].kind) + rules[j].prompt, f, ls, l, m)]
            0 <= j < rules.len() && 0 <= p < rules[j].patterns.len() && 0 <= l < ls.len() && regex_matches(
                rules[j].patterns[p],
                ls[l],
            ).contains(m) && msgs[k] == line_message(kind_label(rules[j].kind) + rules[j].prompt, f, ls, l, m);
        assert(table.contains((kind_label(rules[j].kind) + rules[j].prompt, rules[j].patterns[p])));
        let e = choose|e: int|
            0 <= e < table.len() && table[e] == (kind_label(rules[j].kind) + rules[j].prompt, rules[j].patterns[p]);
        assert(line_message(table[e].0, f, ls, l, m) == msgs[k]);
    }
}

} // verus!
