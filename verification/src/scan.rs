//! What to scan: item kinds, masks of kinds, and which files are left out.
use vstd::prelude::*;
use crate::text::{chars_of, lines, lines_of, push_chars, push_str, string_eq_str, trim, trim_chars, views};
use crate::scan_utils::{evil, hardcoded, quality, secrets};
use crate::scan_utils::evil::evil_rules;
use crate::scan_utils::hardcoded::hardcoded_rules;
use crate::scan_utils::quality::quality_rules;
use crate::scan_utils::secrets::secret_rules;
use crate::scan_utils::utils::rules_messages;

verus! {

/// The kinds of issue that a scan looks for.
#[derive(Debug, Clone, Copy, PartialEq, Eq, Structural)]
pub enum ItemType {
    Secrets,
    Evil,
    Hardcoded,
    Quality,
    All,
}

/// The bit of each kind in a scan mask; `All` covers the four others.
pub open spec fn item_bits(t: ItemType) -> u64 {
    match t {
        ItemType::Secrets => 0x1,
        ItemType::Evil => 0x2,
        ItemType::Hardcoded => 0x4,
        ItemType::Quality => 0x8,
        ItemType::All => 0xF,
    }
}

impl ItemType {
    /// The bits of this kind in a scan mask.
    pub fn bits(self) -> (res: u64)
        ensures
            res == item_bits(self),
    {
        match self {
            ItemType::Secrets => 0x1,
            ItemType::Evil => 0x2,
            ItemType::Hardcoded => 0x4,
            ItemType::Quality => 0x8,
            ItemType::All => 0xF,
        }
    }
}

/// The kind that an item name on the command line stands for.
pub open spec fn item_of_name(name: Seq<char>) -> Option<ItemType> {
    if name == "*"@ || name == "all"@ {
        Some(ItemType::All)
    } else if name == "evil"@ {
        Some(ItemType::Evil)
    } else if name == "secrets"@ {
        Some(ItemType::Secrets)
    } else if name == "hardcoded"@ {
        Some(ItemType::Hardcoded)
    } else if name == "quality"@ {
        Some(ItemType::Quality)
    } else {
        None
    }
}

/// The item names: `*` and `all` stand for every kind, `evil`, `secrets`, `hardcoded` and
/// `quality` each for their own kind, and no other name stands for anything.
pub proof fn law_item_names(name: Seq<char>, t: ItemType)
    ensures
        item_of_name(name) == Some(t) <==> ((t == ItemType::All && (name == "*"@ || name == "all"@)) || (t
            == ItemType::Evil && name == "evil"@) || (t == ItemType::Secrets && name == "secrets"@) || (t
            == ItemType::Hardcoded && name == "hardcoded"@) || (t == ItemType::Quality && name == "quality"@)),
{
    reveal_strlit("*");
    reveal_strlit("all");
    reveal_strlit("evil");
    reveal_strlit("secrets");
    reveal_strlit("hardcoded");
    reveal_strlit("quality");
    assert("*"@.len() != "all"@.len());
    assert("*"@ != "all"@);
    assert("*"@.len() != "evil"@.len());
    assert("*"@ != "evil"@);
    assert("*"@.len() != "secrets"@.len());
    assert("*"@ != "secrets"@);
    assert("*"@.len() != "hardcoded"@.len());
    assert("*"@ != "hardcoded"@);
    assert("*"@.len() != "quality"@.len());
    assert("*"@ != "quality"@);
    assert("all"@.len() != "evil"@.len());
    assert("all"@ != "evil"@);
    assert("all"@.len() != "secrets"@.len());
    assert("all"@ != "secrets"@);
    assert("all"@.len() != "hardcoded"@.len());
    assert("all"@ != "hardcoded"@);
    assert("all"@.len() != "quality"@.len());
    assert("all"@ != "quality"@);
    assert("evil"@.len() != "secrets"@.len());
    assert("evil"@ != "secrets"@);
    assert("evil"@.len() != "hardcoded"@.len());
    assert("evil"@ != "hardcoded"@);
    assert("evil"@.len() != "quality"@.len());
    assert("evil"@ != "quality"@);
    assert("secrets"@.len() != "hardcoded"@.len());
    assert("secrets"@ != "hardcoded"@);
    assert("secrets"@[0] != "quality"@[0]);
    assert("secrets"@ != "quality"@);
    assert("hardcoded"@.len() != "quality"@.len());
    assert("hardcoded"@ != "quality"@);
}

/// Whether `name` is an item name that a scan recognises.
pub fn known_item(name: &str) -> (res: bool)
    ensures
        res == item_of_name(name@) is Some,
{
    let n = String::from_str(name);
    string_eq_str(&n, "*") || string_eq_str(&n, "all") || string_eq_str(&n, "evil") || string_eq_str(
        &n,
        "secrets",
    ) || string_eq_str(&n, "hardcoded") || string_eq_str(&n, "quality")
}

/// Converts a recognised item name to its kind (an unknown name is a fatal error of the
/// caller's).
pub fn str2enum(name: &str) -> (res: ItemType)
    requires
        item_of_name(name@) is Some,
    ensures
        Some(res) == item_of_name(name@),
{
    let n = String::from_str(name);
    if string_eq_str(&n, "*") || string_eq_str(&n, "all") {
        ItemType::All
    } else if string_eq_str(&n, "evil") {
        ItemType::Evil
    } else if string_eq_str(&n, "secrets") {
        ItemType::Secrets
    } else if string_eq_str(&n, "hardcoded") {
        ItemType::Hardcoded
    } else {
        ItemType::Quality
    }
}

/// Whether the mask `item` selects any bit of `target`.
pub open spec fn selects(item: u64, target: ItemType) -> bool {
    item & item_bits(target) != 0
}

/// Whether the scan mask `item` selects the kind `target`.
pub fn bit_mask(item: u64, target: ItemType) -> (res: bool)
    ensures
        res == selects(item, target),
{
    (item & target.bits()) != 0
}

/// Whether every one of `names` is a recognised item name.
pub open spec fn all_known(names: Seq<Seq<char>>) -> bool {
    forall|i: int| 0 <= i < names.len() ==> (#[trigger] item_of_name(names[i])) is Some
}

/// The scan mask of a list of recognised item names: the union of their bits.
pub open spec fn scan_mask_of(names: Seq<Seq<char>>) -> u64
    decreases names.len(),
{
    if names.len() == 0 {
        0
    } else {
        scan_mask_of(names.drop_last()) | item_bits(item_of_name(names.last())->0)
    }
}

/// The scan mask of the item names given on the command line, all of them recognised.
pub fn scan_mask(items: &Vec<String>) -> (res: u64)
    requires
        all_known(crate::text::views(items@)),
    ensures
        res == scan_mask_of(crate::text::views(items@)),
{
    let ghost names = crate::text::views(items@);
    let mut mask: u64 = 0;
    for i in 0..items.len()
        invariant
            names == crate::text::views(items@),
            all_known(names),
            scan_mask_of(names.take(i as int)) == mask,
    {
        assert(names.take(i + 1).drop_last() == names.take(i as int));
        assert(item_of_name(names[i as int]) is Some);
        let t = str2enum(items[i].as_str());
        mask = mask | t.bits();
    }
    assert(names.take(items.len() as int) == names);
    mask
}

/// Whether one of `names` stands for the kind `t`, or for every kind.
pub open spec fn names_select(names: Seq<Seq<char>>, t: ItemType) -> bool {
    exists|i: int|
        0 <= i < names.len() && (#[trigger] item_of_name(names[i]) == Some(t) || item_of_name(names[i])
            == Some(ItemType::All))
}

proof fn lemma_or_selects(m: u64, b: u64, x: u64)
    ensures
        ((m | b) & x != 0) <==> ((m & x != 0) || (b & x != 0)),
{
    assert(((m | b) & x != 0) <==> ((m & x != 0) || (b & x != 0))) by (bit_vector);
}

proof fn lemma_kind_bits(s: ItemType, t: ItemType)
    requires
        t != ItemType::All,
    ensures
        (item_bits(s) & item_bits(t) != 0) <==> (s == t || s == ItemType::All),
{
    assert(0x1u64 & 0x2u64 == 0 && 0x1u64 & 0x4u64 == 0 && 0x1u64 & 0x8u64 == 0) by (bit_vector);
    assert(0x2u64 & 0x1u64 == 0 && 0x2u64 & 0x4u64 == 0 && 0x2u64 & 0x8u64 == 0) by (bit_vector);
    assert(0x4u64 & 0x1u64 == 0 && 0x4u64 & 0x2u64 == 0 && 0x4u64 & 0x8u64 == 0) by (bit_vector);
    assert(0x8u64 & 0x1u64 == 0 && 0x8u64 & 0x2u64 == 0 && 0x8u64 & 0x4u64 == 0) by (bit_vector);
    assert(0x1u64 & 0x1u64 != 0 && 0x2u64 & 0x2u64 != 0 && 0x4u64 & 0x4u64 != 0 && 0x8u64 & 0x8u64 != 0)
        by (bit_vector);
    assert(0xFu64 & 0x1u64 != 0 && 0xFu64 & 0x2u64 != 0 && 0xFu64 & 0x4u64 != 0 && 0xFu64 & 0x8u64 != 0)
        by (bit_vector);
}

/// The scan mask of a list of item names selects a kind exactly when one of the names
/// stands for that kind or for all kinds (`all` or `*`); an empty list selects nothing.
pub proof fn law_scan_mask_selects(names: Seq<Seq<char>>, t: ItemType)
    requires
        all_known(names),
        t != ItemType::All,
    ensures
        selects(scan_mask_of(names), t) <==> names_select(names, t),
    decreases names.len(),
{
    if names.len() == 0 {
        assert(0u64 & item_bits(t) == 0) by (bit_vector);
    } else {
        let prev = names.drop_last();
        assert forall|i: int| 0 <= i < prev.len() implies (#[trigger] item_of_name(prev[i])) is Some by {
            assert(prev[i] == names[i]);
        }
        law_scan_mask_selects(prev, t);
        assert(item_of_name(names[names.len() - 1]) is Some);
        let m = scan_mask_of(prev);
        let s = item_of_name(names.last())->0;
        lemma_or_selects(m, item_bits(s), item_bits(t));
        lemma_kind_bits(s, t);
        if names_select(prev, t) {
            let i = choose|i: int|
                0 <= i < prev.len() && (#[trigger] item_of_name(prev[i]) == Some(t) || item_of_name(prev[i])
                    == Some(ItemType::All));
            assert(names[i] == prev[i]);
        }
        if names_select(names, t) {
            let i = choose|i: int|
                0 <= i < names.len() && (#[trigger] item_of_name(names[i]) == Some(t) || item_of_name(names[i])
                    == Some(ItemType::All));
            if i < names.len() - 1 {
                assert(prev[i] == names[i]);
            }
        }
        assert(item_of_name(names[names.len() - 1]) == Some(s));
    }
}

/// Whether `s` holds a glob metacharacter (`*`, `?`, `[` or `]`).
pub open spec fn has_glob_meta(s: Seq<char>) -> bool {
    exists|i: int| 0 <= i < s.len() && (s[i] == '*' || s[i] == '?' || s[i] == '[' || s[i] == ']')
}

/// Whether `s` holds a glob metacharacter.
pub fn is_glob_meta(s: &str) -> (res: bool)
    ensures
        res == has_glob_meta(s@),
{
    let cs = chars_of(s);
    for i in 0..cs.len()
        invariant
            cs@ == s@,
            forall|j: int|
                0 <= j < i ==> !(cs@[j] == '*' || cs@[j] == '?' || cs@[j] == '[' || cs@[j] == ']'),
    {
        let c = cs[i];
        if c == '*' || c == '?' || c == '[' || c == ']' {
            return true;
        }
    }
    false
}


// ---------------------------------------------------------------------------
// Which files are left out

/// `s` with every backslash turned into a slash.
pub open spec fn replace_backslash(s: Seq<char>) -> Seq<char> {
    s.map_values(|c: char| if c == '\\' { '/' } else { c })
}

/// `s` with every backslash turned into a slash (`str::replace("\\", "/")`).
pub fn replace_backslash_chars(s: &[char]) -> (res: Vec<char>)
    ensures
        res@ == replace_backslash(s@),
{
    let mut res: Vec<char> = Vec::new();
    for i in 0..s.len()
        invariant
            res@ == replace_backslash(s@.take(i as int)),
    {
        let c = s[i];
        res.push(if c == '\\' { '/' } else { c });
        assert(replace_backslash(s@.take(i + 1)) =~= replace_backslash(s@.take(i as int)).push(
            if c == '\\' { '/' } else { c },
        ));
    }
    assert(s@.take(s@.len() as int) == s@);
    res
}

/// The glob patterns that one path pattern of a `.gitignore` stands for: a directory
/// (`dir/`) also covers everything below it, and so does a plain name without glob
/// metacharacters.
pub open spec fn path_patterns(pat: Seq<char>) -> Seq<Seq<char>> {
    if pat.len() > 0 && pat.last() == '/' {
        seq![pat, pat + "**"@]
    } else if !has_glob_meta(pat) {
        seq![pat, pat + "/**"@]
    } else {
        seq![pat]
    }
}

/// The patterns that one line of a `.gitignore` adds to the excluded and to the included
/// lists: blank lines and comments add none, a line starting with `!` keeps files in again.
pub open spec fn gitignore_line(line: Seq<char>) -> (Seq<Seq<char>>, Seq<Seq<char>>) {
    let t = trim(line);
    if t.len() == 0 || t[0] == '#' {
        (seq![], seq![])
    } else if t[0] == '!' {
        (seq![], path_patterns(replace_backslash(t.drop_first())))
    } else {
        (path_patterns(replace_backslash(t)), seq![])
    }
}

/// The excluded and included patterns of the lines of a `.gitignore`, line by line.
pub open spec fn gitignore_patterns_of(ls: Seq<Seq<char>>) -> (Seq<Seq<char>>, Seq<Seq<char>>)
    decreases ls.len(),
{
    if ls.len() == 0 {
        (seq![], seq![])
    } else {
        let prev = gitignore_patterns_of(ls.drop_last());
        let cur = gitignore_line(ls.last());
        (prev.0 + cur.0, prev.1 + cur.1)
    }
}

/// Appends to `out` the patterns that the path pattern `pat` stands for.
fn push_path_patterns(pat: Vec<char>, out: &mut Vec<String>)
    ensures
        views(final(out)@) == views(old(out)@) + path_patterns(pat@),
{
    let ghost o = views(out@);
    let n = pat.len();
    if n > 0 && pat[n - 1] == '/' {
        let mut with_all = String::new();
        push_chars(&mut with_all, pat.as_slice());
        push_str(&mut with_all, "**");
        out.push(crate::text::string_of(pat.as_slice()));
        out.push(with_all);
        assert(views(out@) =~= o + path_patterns(pat@));
    } else {
        let p = crate::text::string_of(pat.as_slice());
        let meta = is_glob_meta(p.as_str());
        out.push(p);
        if !meta {
            let mut below = String::new();
            push_chars(&mut below, pat.as_slice());
            push_str(&mut below, "/**");
            out.push(below);
        }
        assert(views(out@) =~= o + path_patterns(pat@));
    }
}

/// Adds the patterns of the `.gitignore` text `content` to `exclude` and `keep`.
pub fn gitignore_patterns(content: &str, exclude: &mut Vec<String>, keep: &mut Vec<String>)
    ensures
        views(final(exclude)@) == views(old(exclude)@) + gitignore_patterns_of(lines(content@)).0,
        views(final(keep)@) == views(old(keep)@) + gitignore_patterns_of(lines(content@)).1,
{
    let cs = chars_of(content);
    let ls = lines_of(cs.as_slice());
    let ghost vs = views(ls@);
    let ghost e0 = views(exclude@);
    let ghost i0 = views(keep@);
    for k in 0..ls.len()
        invariant
            vs == views(ls@),
            views(exclude@) == e0 + gitignore_patterns_of(vs.take(k as int)).0,
            views(keep@) == i0 + gitignore_patterns_of(vs.take(k as int)).1,
    {
        assert(vs.take(k + 1).drop_last() == vs.take(k as int));
        assert(vs.take(k + 1).last() == ls@[k as int]@);
        let line = chars_of(ls[k].as_str());
        let t = trim_chars(line.as_slice());
        if t.len() == 0 || t[0] == '#' {
            assert(gitignore_line(ls@[k as int]@) == (Seq::<Seq<char>>::empty(), Seq::<Seq<char>>::empty()));
            assert(views(exclude@) =~= e0 + gitignore_patterns_of(vs.take(k + 1)).0);
            assert(views(keep@) =~= i0 + gitignore_patterns_of(vs.take(k + 1)).1);
        } else if t[0] == '!' {
            let mut rest: Vec<char> = Vec::new();
            for j in 1..t.len()
                invariant
                    1 <= t@.len(),
                    rest@ == t@.subrange(1, j as int),
            {
                rest.push(t[j]);
                assert(t@.subrange(1, j + 1) == t@.subrange(1, j as int).push(t@[j as int]));
            }
            assert(rest@ == t@.drop_first());
            let pat = replace_backslash_chars(rest.as_slice());
            push_path_patterns(pat, keep);
            assert(views(exclude@) =~= e0 + gitignore_patterns_of(vs.take(k + 1)).0);
            assert(views(keep@) =~= i0 + gitignore_patterns_of(vs.take(k + 1)).1);
        } else {
            let pat = replace_backslash_chars(t.as_slice());
            push_path_patterns(pat, exclude);
            assert(views(exclude@) =~= e0 + gitignore_patterns_of(vs.take(k + 1)).0);
            assert(views(keep@) =~= i0 + gitignore_patterns_of(vs.take(k + 1)).1);
        }
    }
    assert(vs.take(ls.len() as int) == vs);
}

proof fn lemma_line_patterns_kept(ls: Seq<Seq<char>>, i: int, k: int)
    requires
        0 <= i < ls.len(),
    ensures
        0 <= k < gitignore_line(ls[i]).0.len() ==> gitignore_patterns_of(ls).0.contains(
            gitignore_line(ls[i]).0[k],
        ),
        0 <= k < gitignore_line(ls[i]).1.len() ==> gitignore_patterns_of(ls).1.contains(
            gitignore_line(ls[i]).1[k],
        ),
    decreases ls.len(),
{
    let prev = ls.drop_last();
    let p = gitignore_patterns_of(prev);
    let cur = gitignore_line(ls.last());
    if i < ls.len() - 1 {
        lemma_line_patterns_kept(prev, i, k);
        assert(prev[i] == ls[i]);
        if 0 <= k < gitignore_line(ls[i]).0.len() {
            let j = choose|j: int| 0 <= j < p.0.len() && p.0[j] == gitignore_line(ls[i]).0[k];
            assert((p.0 + cur.0)[j] == p.0[j]);
        }
        if 0 <= k < gitignore_line(ls[i]).1.len() {
            let j = choose|j: int| 0 <= j < p.1.len() && p.1[j] == gitignore_line(ls[i]).1[k];
            assert((p.1 + cur.1)[j] == p.1[j]);
        }
    } else {
        if 0 <= k < cur.0.len() {
            assert((p.0 + cur.0)[p.0.len() + k] == cur.0[k]);
        }
        if 0 <= k < cur.1.len() {
            assert((p.1 + cur.1)[p.1.len() + k] == cur.1[k]);
        }
    }
}

/// A `.gitignore` line `!pat` keeps every file that `pat` matches in a scan that follows
/// the `.gitignore`, whatever else is excluded.
pub proof fn law_gitignore_negation_keeps(user: Seq<Seq<char>>, content: Seq<char>, i: int, rel: Seq<char>)
    requires
        0 <= i < lines(content).len(),
        trim(lines(content)[i]).len() > 0,
        trim(lines(content)[i])[0] == '!',
        glob_matches(replace_backslash(trim(lines(content)[i]).drop_first()), rel),
    ensures
        ({
            let r = scan_patterns_of(user, false, Some(content));
            !excluded(rel, r.0, r.1)
        }),
{
    let ls = lines(content);
    let pat = replace_backslash(trim(ls[i]).drop_first());
    lemma_line_patterns_kept(ls, i, 0);
    assert(gitignore_line(ls[i]).1 == path_patterns(pat));
    assert(path_patterns(pat)[0] == pat);
    let keep = gitignore_patterns_of(ls).1;
    let j = choose|j: int| 0 <= j < keep.len() && keep[j] == pat;
    assert(glob_matches(keep[j], rel));
}

/// A `.gitignore` line that is neither blank, a comment nor a negation leaves out every file
/// that its pattern matches, unless a negated line keeps the file.
pub proof fn law_gitignore_line_excludes(user: Seq<Seq<char>>, content: Seq<char>, i: int, rel: Seq<char>)
    requires
        0 <= i < lines(content).len(),
        trim(lines(content)[i]).len() > 0,
        trim(lines(content)[i])[0] != '#',
        trim(lines(content)[i])[0] != '!',
        glob_matches(replace_backslash(trim(lines(content)[i])), rel),
        !matches_any(scan_patterns_of(user, false, Some(content)).1, rel),
    ensures
        ({
            let r = scan_patterns_of(user, false, Some(content));
            excluded(rel, r.0, r.1)
        }),
{
    let ls = lines(content);
    let pat = replace_backslash(trim(ls[i]));
    lemma_line_patterns_kept(ls, i, 0);
    assert(gitignore_line(ls[i]).0 == path_patterns(pat));
    assert(path_patterns(pat)[0] == pat);
    let g = gitignore_patterns_of(ls);
    let j = choose|j: int| 0 <= j < g.0.len() && g.0[j] == pat;
    let ex = user + g.0;
    assert(ex[user.len() + j] == pat);
    let ex2 = if ex.contains(".git"@) { ex } else { ex.push(".git"@) };
    assert(ex2[user.len() + j] == pat);
    let r = scan_patterns_of(user, false, Some(content));
    assert(r.0[user.len() + j] == pat);
    assert(glob_matches(r.0[user.len() + j], rel));
}

/// The patterns that every scan leaves out.
pub open spec fn fixed_exclusions() -> Seq<Seq<char>> {
    seq!["target/**"@, ".git/**"@, "Cargo.*"@, ".cargo/**"@]
}

/// The excluded and included patterns of a scan: the user's exclusions; then, when scanning
/// all files, `.git` and everything below it, or else the patterns of the `.gitignore`
/// (`gitignore`, when it could be read) and `.git`; and last the fixed exclusions.
pub open spec fn scan_patterns_of(
    user: Seq<Seq<char>>,
    scan_all: bool,
    gitignore: Option<Seq<char>>,
) -> (Seq<Seq<char>>, Seq<Seq<char>>) {
    if scan_all {
        let ex = if user.contains(".git"@) {
            user
        } else {
            user + seq![".git"@, ".git/**"@]
        };
        (ex + fixed_exclusions(), seq![])
    } else {
        let g = match gitignore {
            Some(c) => gitignore_patterns_of(lines(c)),
            None => (seq![], seq![]),
        };
        let ex = user + g.0;
        let ex2 = if ex.contains(".git"@) {
            ex
        } else {
            ex.push(".git"@)
        };
        (ex2 + fixed_exclusions(), g.1)
    }
}

/// Every scan leaves out `.git` and the fixed exclusions, which come last, after the
/// user's own exclusions, which come first; a scan of all files keeps nothing back in.
pub proof fn law_scan_patterns_exclusions(
    user: Seq<Seq<char>>,
    scan_all: bool,
    gitignore: Option<Seq<char>>,
)
    ensures
        ({
            let r = scan_patterns_of(user, scan_all, gitignore);
            &&& r.0.contains(".git"@)
            &&& r.0.len() >= user.len() + 4
            &&& r.0.take(user.len() as int) == user
            &&& r.0.skip(r.0.len() - 4) == seq!["target/**"@, ".git/**"@, "Cargo.*"@, ".cargo/**"@]
            &&& scan_all ==> r.1.len() == 0
        }),
{
    let r = scan_patterns_of(user, scan_all, gitignore);
    let f = fixed_exclusions();
    if scan_all {
        let ex = if user.contains(".git"@) { user } else { user + seq![".git"@, ".git/**"@] };
        if !user.contains(".git"@) {
            assert(ex[user.len() as int] == ".git"@);
        }
        assert(ex.contains(".git"@));
        let i = choose|i: int| 0 <= i < ex.len() && ex[i] == ".git"@;
        assert(r.0[i] == ex[i]);
        assert(r.0.take(user.len() as int) =~= user);
        assert(r.0.skip(r.0.len() - f.len()) =~= f);
    } else {
        let g = match gitignore {
            Some(c) => gitignore_patterns_of(lines(c)),
            None => (seq![], seq![]),
        };
        let ex = user + g.0;
        let ex2 = if ex.contains(".git"@) { ex } else { ex.push(".git"@) };
        if !ex.contains(".git"@) {
            assert(ex2[ex.len() as int] == ".git"@);
        }
        assert(ex2.contains(".git"@));
        let i = choose|i: int| 0 <= i < ex2.len() && ex2[i] == ".git"@;
        assert(r.0[i] == ex2[i]);
        assert(r.0.take(user.len() as int) =~= user);
        assert(r.0.skip(r.0.len() - f.len()) =~= f);
    }
}

/// Every scan leaves out what a fixed exclusion (`target/**`, `.git/**`, `Cargo.*`,
/// `.cargo/**`) matches, unless an included pattern of the `.gitignore` keeps it; a scan of
/// all files keeps nothing back in, so there the fixed exclusions always apply.
pub proof fn law_fixed_exclusions_apply(
    user: Seq<Seq<char>>,
    scan_all: bool,
    gitignore: Option<Seq<char>>,
    rel: Seq<char>,
    k: int,
)
    requires
        0 <= k < fixed_exclusions().len(),
        glob_matches(fixed_exclusions()[k], rel),
        !matches_any(scan_patterns_of(user, scan_all, gitignore).1, rel) || scan_all,
    ensures
        ({
            let r = scan_patterns_of(user, scan_all, gitignore);
            excluded(rel, r.0, r.1)
        }),
{
    law_scan_patterns_exclusions(user, scan_all, gitignore);
    let r = scan_patterns_of(user, scan_all, gitignore);
    let f = fixed_exclusions();
    let start = r.0.len() - f.len();
    assert(r.0.skip(start)[k] == f[k]);
    assert(r.0[start + k] == f[k]);
    assert(glob_matches(r.0[start + k], rel));
}

/// Whether one of `v` equals `t`.
fn contains_str(v: &Vec<String>, t: &str) -> (res: bool)
    ensures
        res == views(v@).contains(t@),
{
    for i in 0..v.len()
        invariant
            forall|j: int| 0 <= j < i ==> v@[j]@ != t@,
    {
        if string_eq_str(&v[i], t) {
            assert(views(v@)[i as int] == t@);
            return true;
        }
    }
    assert forall|j: int| 0 <= j < views(v@).len() implies views(v@)[j] != t@ by {
        assert(views(v@)[j] == v@[j]@);
    }
    false
}

/// A `String` holding the characters of `t`.
fn owned(t: &str) -> (res: String)
    ensures
        res@ == t@,
{
    String::from_str(t)
}

/// The excluded and included glob patterns of a scan, from the user's exclusions, whether
/// all files are scanned, and the text of the `.gitignore` when there is one to follow.
pub fn scan_patterns(user_exclude: &Vec<String>, scan_all: bool, gitignore: Option<&str>) -> (res: (Vec<String>, Vec<String>))
    ensures
        (views(res.0@), views(res.1@)) == scan_patterns_of(
            views(user_exclude@),
            scan_all,
            match gitignore {
                Some(c) => Some(c@),
                None => None,
            },
        ),
{
    let mut exclude: Vec<String> = user_exclude.clone();
    let mut keep: Vec<String> = Vec::new();
    assert(views(exclude@) =~= views(user_exclude@));
    let ghost u = views(user_exclude@);
    if scan_all {
        if !contains_str(&exclude, ".git") {
            exclude.push(owned(".git"));
            exclude.push(owned(".git/**"));
        }
    } else {
        match gitignore {
            Some(c) => {
                gitignore_patterns(c, &mut exclude, &mut keep);
            },
            None => {},
        }
        if !contains_str(&exclude, ".git") {
            exclude.push(owned(".git"));
        }
    }
    exclude.push(owned("target/**"));
    exclude.push(owned(".git/**"));
    exclude.push(owned("Cargo.*"));
    exclude.push(owned(".cargo/**"));
    let ghost r = scan_patterns_of(u, scan_all, match gitignore { Some(c) => Some(c@), None => None });
    assert(views(exclude@) =~= r.0);
    assert(views(keep@) =~= r.1);
    (exclude, keep)
}

/// The path of `full` relative to `cwd`, with slashes for separators and without a leading
/// slash; `None` when `full` does not lie under `cwd`.
pub open spec fn relative_path(full: Seq<char>, cwd: Seq<char>) -> Option<Seq<char>> {
    if cwd.len() <= full.len() && full.take(cwd.len() as int) == cwd {
        let r = replace_backslash(full.skip(cwd.len() as int));
        Some(if r.len() > 0 && r[0] == '/' { r.drop_first() } else { r })
    } else {
        None
    }
}

/// A path built from the working directory, a slash and a relative Unix path that does
/// not start with a slash is read back as that relative path.
pub proof fn law_relative_path_round_trip(cwd: Seq<char>, rel: Seq<char>)
    requires
        !rel.contains('\\'),
        rel.len() == 0 || rel[0] != '/',
    ensures
        relative_path(cwd + "/"@ + rel, cwd) == Some(rel),
{
    reveal_strlit("/");
    let full = cwd + "/"@ + rel;
    assert(full.take(cwd.len() as int) =~= cwd);
    assert(full.skip(cwd.len() as int) =~= "/"@ + rel);
    let r = replace_backslash(full.skip(cwd.len() as int));
    assert(r[0] == '/');
    assert forall|k: int| 0 <= k < rel.len() implies rel[k] != '\\' by {
        if rel[k] == '\\' {
            assert(rel.contains('\\'));
        }
    }
    assert(r.drop_first() =~= rel);
}

/// The path of the file `full_abs` relative to the working directory `cwd`, in Unix style.
pub fn relative_unix_path(full_abs: &str, cwd: &str) -> (res: Option<String>)
    ensures
        match res {
            Some(r) => relative_path(full_abs@, cwd@) == Some(r@),
            None => relative_path(full_abs@, cwd@) is None,
        },
{
    let f = chars_of(full_abs);
    let c = chars_of(cwd);
    if c.len() > f.len() {
        return None;
    }
    for i in 0..c.len()
        invariant
            c@.len() <= f@.len(),
            f@ == full_abs@,
            c@ == cwd@,
            forall|j: int| 0 <= j < i ==> f@[j] == c@[j],
    {
        if f[i] != c[i] {
            assert(f@.take(c@.len() as int)[i as int] != c@[i as int]);
            return None;
        }
    }
    assert(f@.take(c@.len() as int) =~= c@);
    let mut rest: Vec<char> = Vec::new();
    for j in c.len()..f.len()
        invariant
            c@.len() <= f@.len(),
            rest@ == f@.subrange(c@.len() as int, j as int),
    {
        rest.push(f[j]);
        assert(f@.subrange(c@.len() as int, j + 1) == f@.subrange(c@.len() as int, j as int).push(f@[j as int]));
    }
    assert(rest@ == f@.skip(c@.len() as int));
    let r = replace_backslash_chars(rest.as_slice());
    if r.len() > 0 && r[0] == '/' {
        let mut out = String::new();
        for j in 1..r.len()
            invariant
                1 <= r@.len(),
                out@ == r@.subrange(1, j as int),
        {
            crate::text::push_char(&mut out, r[j]);
            assert(r@.subrange(1, j + 1) == r@.subrange(1, j as int).push(r@[j as int]));
        }
        assert(out@ == r@.drop_first());
        Some(out)
    } else {
        Some(crate::text::string_of(r.as_slice()))
    }
}

/// The longest glob, in characters, that is matched. globset builds a literal automaton
/// (aho-corasick) for a glob's literal parts and panics when that automaton outgrows its
/// state identifiers (about 2^31 states); a glob of at most this many characters (at most
/// 2^30 bytes) stays below that.
pub const MAX_GLOB_CHARS: usize = 0x1000_0000;

/// Whether every one of `patterns` is short enough to be matched.
pub open spec fn globs_in_bounds(patterns: Seq<Seq<char>>) -> bool {
    forall|k: int| 0 <= k < patterns.len() ==> (#[trigger] patterns[k]).len() <= MAX_GLOB_CHARS
}

/// Whether every one of `patterns` is short enough to be matched.
pub fn globs_fit(patterns: &Vec<String>) -> (res: bool)
    ensures
        res == globs_in_bounds(views(patterns@)),
{
    let ghost ps = views(patterns@);
    for k in 0..patterns.len()
        invariant
            ps == views(patterns@),
            forall|j: int| 0 <= j < k ==> (#[trigger] ps[j]).len() <= MAX_GLOB_CHARS,
    {
        let n = chars_of(patterns[k].as_str()).len();
        if n > MAX_GLOB_CHARS {
            assert(ps[k as int].len() > MAX_GLOB_CHARS);
            return false;
        }
    }
    true
}

/// Whether the glob `pattern` matches `path` (`globset`); a glob that does not parse, or
/// whose matcher cannot be built, matches nothing. globset's default options (whether a
/// backslash escapes, which characters separate path components) depend on the platform it
/// is built for, so this holds for one build.
pub uninterp spec fn glob_matches(pattern: Seq<char>, path: Seq<char>) -> bool;

/// Determines whether a file matches a glob pattern: `globset::Glob::new`, then a set of
/// that one glob built with `GlobSetBuilder` (whose `build` reports a matcher that cannot be
/// built as an error), then `GlobSet::is_match` on the path. Claims that the result is
/// `glob_matches` of the pattern and the path, `false` when either step fails.
#[verifier::external_body]
fn is_match(pattern: &str, rel_path_unix: &str) -> (res: bool)
    requires
        pattern@.len() <= MAX_GLOB_CHARS,
    ensures
        res == glob_matches(pattern@, rel_path_unix@),
{
    match globset::Glob::new(pattern) {
        Ok(g) => match globset::GlobSetBuilder::new().add(g).build() {
            Ok(set) => set.is_match(rel_path_unix),
            Err(_) => false,
        },
        Err(_) => false,
    }
}

/// Whether one of `patterns` matches `path`.
pub open spec fn matches_any(patterns: Seq<Seq<char>>, path: Seq<char>) -> bool {
    exists|k: int| 0 <= k < patterns.len() && glob_matches(#[trigger] patterns[k], path)
}

/// Whether a file is left out of a scan: an excluded pattern matches it and no included
/// pattern does.
pub open spec fn excluded(rel: Seq<char>, exclude: Seq<Seq<char>>, keep: Seq<Seq<char>>) -> bool {
    matches_any(exclude, rel) && !matches_any(keep, rel)
}

/// Whether one of `patterns` matches `rel`.
fn any_match(patterns: &Vec<String>, rel: &str) -> (res: bool)
    requires
        globs_in_bounds(views(patterns@)),
    ensures
        res == matches_any(views(patterns@), rel@),
{
    let ghost ps = views(patterns@);
    for k in 0..patterns.len()
        invariant
            ps == views(patterns@),
            forall|j: int| 0 <= j < k ==> !glob_matches(#[trigger] ps[j], rel@),
            globs_in_bounds(ps),
    {
        assert(ps[k as int] == patterns@[k as int]@);
        if is_match(patterns[k].as_str(), rel) {
            assert(glob_matches(ps[k as int], rel@));
            return true;
        }
    }
    false
}

/// Whether the file at the relative Unix path `rel` is left out of a scan.
pub fn is_excluded(rel: &str, exclude: &Vec<String>, keep: &Vec<String>) -> (res: bool)
    requires
        globs_in_bounds(views(exclude@)),
        globs_in_bounds(views(keep@)),
    ensures
        res == excluded(rel@, views(exclude@), views(keep@)),
{
    let mut is_excluded = any_match(exclude, rel);
    if is_excluded {
        let forced_keep = any_match(keep, rel);
        if forced_keep {
            is_excluded = false;
        }
    }
    is_excluded
}

/// Why a file could not be scanned.
#[derive(Debug, Clone, Copy, PartialEq, Eq, Structural)]
pub enum ScanError {
    /// The file does not lie under the working directory.
    OutsideWorkingDir,
}

impl ScanError {
    /// The message that reports the error.
    pub fn message(&self) -> (res: &'static str)
        ensures
            res@ == "file outside working directory"@,
    {
        match self {
            ScanError::OutsideWorkingDir => "file outside working directory",
        }
    }
}

/// Decides what happens to the file `full_abs` found under the working directory `cwd`:
/// its relative Unix path when it is scanned, `None` when it is left out, and an error
/// when it does not lie under `cwd`.
pub fn file_to_scan(full_abs: &str, cwd: &str, exclude: &Vec<String>, keep: &Vec<String>) -> (res: Result<
    Option<String>,
    ScanError,
>)
    requires
        globs_in_bounds(views(exclude@)),
        globs_in_bounds(views(keep@)),
    ensures
        match relative_path(full_abs@, cwd@) {
            None => res == Err::<Option<String>, ScanError>(ScanError::OutsideWorkingDir),
            Some(r) => if excluded(r, views(exclude@), views(keep@)) {
                res matches Ok(None)
            } else {
                res matches Ok(Some(p)) && p@ == r
            },
        },
{
    match relative_unix_path(full_abs, cwd) {
        None => Err(ScanError::OutsideWorkingDir),
        Some(rel) => {
            if is_excluded(rel.as_str(), exclude, keep) {
                Ok(None)
            } else {
                Ok(Some(rel))
            }
        },
    }
}

// ---------------------------------------------------------------------------
// Scanning a text

/// The messages of the rules of one kind when the mask selects that kind.
pub open spec fn selected_messages(
    mask: u64,
    kind: ItemType,
    rules: Seq<crate::scan_utils::utils::RuleView>,
    filename: Seq<char>,
    ls: Seq<Seq<char>>,
) -> Seq<Seq<char>> {
    if selects(mask, kind) {
        rules_messages(rules, filename, ls)
    } else {
        seq![]
    }
}

/// The diagnostic messages of a scan of the text of one file: secrets, malicious content,
/// hard-coded content and code quality, each when the mask selects it.
pub open spec fn scan_messages(mask: u64, text: Seq<char>, filename: Seq<char>) -> Seq<Seq<char>> {
    let ls = lines(text);
    selected_messages(mask, ItemType::Secrets, secret_rules(), filename, ls)
        + selected_messages(mask, ItemType::Evil, evil_rules(), filename, ls)
        + selected_messages(mask, ItemType::Hardcoded, hardcoded_rules(), filename, ls)
        + selected_messages(mask, ItemType::Quality, quality_rules(), filename, ls)
}

/// Scans the text of the file `filename` for the kinds of issue that `mask` selects and
/// returns the diagnostic messages; their number is the number of issues found.
pub fn scan_text(mask: u64, text: &String, filename: &String) -> (res: Vec<String>)
    ensures
        views(res@) == scan_messages(mask, text@, filename@),
{
    let mut out: Vec<String> = Vec::new();
    if bit_mask(mask, ItemType::Secrets) {
        out.append(&mut secrets::scan_secrets(text, filename));
    }
    let ghost a = views(out@);
    if bit_mask(mask, ItemType::Evil) {
        out.append(&mut evil::scan_evil(text, filename));
    }
    let ghost b = views(out@);
    if bit_mask(mask, ItemType::Hardcoded) {
        out.append(&mut hardcoded::scan_hardcoded(text, filename));
    }
    let ghost c = views(out@);
    if bit_mask(mask, ItemType::Quality) {
        out.append(&mut quality::scan_quality(text, filename));
    }
    assert(views(out@) =~= scan_messages(mask, text@, filename@));
    out
}

/// The number of issues that a scan finds adds up over texts: in a text that is empty or
/// ends with a newline, followed by another text, it is the number in the first plus the
/// number in the second; and it does not depend on the file's name.
pub proof fn law_issue_count_adds_up(mask: u64, a: Seq<char>, b: Seq<char>, f1: Seq<char>, f2: Seq<char>)
    requires
        a.len() == 0 || a.last() == '\n',
    ensures
        scan_messages(mask, a + b, f1).len() == scan_messages(mask, a, f1).len() + scan_messages(mask, b, f2).len(),
        scan_messages(mask, b, f1).len() == scan_messages(mask, b, f2).len(),
{
    crate::text::lemma_lines_concat(a, b);
    let l1 = lines(a);
    let l2 = lines(b);
    crate::scan_utils::utils::lemma_rules_messages_len_concat(secret_rules(), f1, f2, l1, l2);
    crate::scan_utils::utils::lemma_rules_messages_len_concat(evil_rules(), f1, f2, l1, l2);
    crate::scan_utils::utils::lemma_rules_messages_len_concat(hardcoded_rules(), f1, f2, l1, l2);
    crate::scan_utils::utils::lemma_rules_messages_len_concat(quality_rules(), f1, f2, l1, l2);
    let e: Seq<Seq<char>> = seq![];
    assert(e + l2 =~= l2);
    crate::scan_utils::utils::lemma_rules_messages_len_concat(secret_rules(), f1, f2, e, l2);
    crate::scan_utils::utils::lemma_rules_messages_len_concat(evil_rules(), f1, f2, e, l2);
    crate::scan_utils::utils::lemma_rules_messages_len_concat(hardcoded_rules(), f1, f2, e, l2);
    crate::scan_utils::utils::lemma_rules_messages_len_concat(quality_rules(), f1, f2, e, l2);
    lemma_no_messages_without_lines(secret_rules(), f1);
    lemma_no_messages_without_lines(evil_rules(), f1);
    lemma_no_messages_without_lines(hardcoded_rules(), f1);
    lemma_no_messages_without_lines(quality_rules(), f1);
}

proof fn lemma_no_messages_without_lines(rules: Seq<crate::scan_utils::utils::RuleView>, f: Seq<char>)
    ensures
        rules_messages(rules, f, seq![]).len() == 0,
{
    crate::scan_utils::utils::lemma_rules_messages_len_concat(rules, f, f, seq![], seq![]);
    assert(Seq::<Seq<char>>::empty() + Seq::<Seq<char>>::empty() =~= Seq::<Seq<char>>::empty());
}

/// The closing report of a scan that found `issues` issues.
pub open spec fn summary_text(issues: nat) -> Seq<char> {
    if issues > 0 {
        "\nOh no!\n"@ + crate::text::decimal(issues) + " issues found.\n"@
    } else {
        "No issues found!\n"@
    }
}

/// The closing report of a scan: written to the error stream when issues were found, to
/// the output stream otherwise.
pub fn scan_summary(issues: u64) -> (res: String)
    ensures
        res@ == summary_text(issues as nat),
{
    let mut s = String::new();
    if issues > 0 {
        push_str(&mut s, "\nOh no!\n");
        crate::text::push_decimal(&mut s, issues);
        push_str(&mut s, " issues found.\n");
    } else {
        push_str(&mut s, "No issues found!\n");
    }
    s
}

/// The number of issues found in the files `scanned`, each given by name and text.
pub open spec fn total_issues(mask: u64, scanned: Seq<(Seq<char>, Seq<char>)>) -> nat
    decreases scanned.len(),
{
    if scanned.len() == 0 {
        0
    } else {
        total_issues(mask, scanned.drop_last()) + scan_messages(mask, scanned.last().1, scanned.last().0).len()
    }
}

/// `n` as a count kept in a `u64`, which stops at `u64::MAX`.
pub open spec fn capped(n: nat) -> u64 {
    if n <= u64::MAX {
        n as u64
    } else {
        u64::MAX
    }
}

/// The running tally of a scan of many files: the kinds it looks for, the files scanned so
/// far, and the number of issues found in them.
pub struct ScanTally {
    mask: u64,
    issues: u64,
    scanned: Ghost<Seq<(Seq<char>, Seq<char>)>>,
}

/// The plain contents of a tally.
pub struct ScanTallyView {
    pub mask: u64,
    pub issues: u64,
    pub scanned: Seq<(Seq<char>, Seq<char>)>,
}

impl View for ScanTally {
    type V = ScanTallyView;

    closed spec fn view(&self) -> ScanTallyView {
        ScanTallyView { mask: self.mask, issues: self.issues, scanned: self.scanned@ }
    }
}

proof fn lemma_capped_step(a: nat, b: nat)
    ensures
        capped(a + b) == if capped(a) as nat + b <= u64::MAX { (capped(a) + b) as u64 } else { u64::MAX },
{
}

impl ScanTally {
    /// The issue count is the number of issues in the files scanned, up to `u64::MAX`.
    #[verifier::type_invariant]
    spec fn counts_scanned(self) -> bool {
        self.issues == capped(total_issues(self.mask, self.scanned@))
    }

    /// A tally of a scan for the kinds that `mask` selects, before any file is scanned.
    pub fn new(mask: u64) -> (res: ScanTally)
        ensures
            res@.mask == mask,
            res@.scanned.len() == 0,
            res@.issues == 0,
    {
        ScanTally { mask, issues: 0, scanned: Ghost(Seq::empty()) }
    }

    /// The number of issues found so far.
    pub fn issues(&self) -> (res: u64)
        ensures
            res == self@.issues,
            res == capped(total_issues(self@.mask, self@.scanned)),
    {
        proof {
            use_type_invariant(self);
        }
        self.issues
    }

    /// Scans the text of the file `filename`, counts its issues and returns its diagnostic
    /// messages.
    pub fn record(&mut self, text: &String, filename: &String) -> (res: Vec<String>)
        ensures
            views(res@) == scan_messages(old(self)@.mask, text@, filename@),
            final(self)@.mask == old(self)@.mask,
            final(self)@.scanned == old(self)@.scanned.push((filename@, text@)),
            final(self)@.issues == capped(total_issues(final(self)@.mask, final(self)@.scanned)),
    {
        proof {
            use_type_invariant(&*self);
        }
        let messages = scan_text(self.mask, text, filename);
        let n = messages.len() as u64;
        let ghost next = self.scanned@.push((filename@, text@));
        assert(next.drop_last() =~= self.scanned@);
        proof {
            lemma_capped_step(total_issues(self.mask, self.scanned@), n as nat);
        }
        let issues = if self.issues <= u64::MAX - n { self.issues + n } else { u64::MAX };
        *self = ScanTally { mask: self.mask, issues, scanned: Ghost(next) };
        messages
    }

    /// The closing report of the scan.
    pub fn summary(&self) -> (res: String)
        ensures
            res@ == summary_text(self@.issues as nat),
    {
        scan_summary(self.issues)
    }
}

/// The issue count of a scan of many files is the sum of the counts of the files, in any
/// split: scanning the files of `a` then those of `b` finds the issues of `a` plus those of
/// `b`, each file's count being that of `scan_text` on it.
pub proof fn law_total_issues_adds_up(mask: u64, a: Seq<(Seq<char>, Seq<char>)>, b: Seq<(Seq<char>, Seq<char>)>)
    ensures
        total_issues(mask, a + b) == total_issues(mask, a) + total_issues(mask, b),
    decreases b.len(),
{
    if b.len() == 0 {
        assert(a + b =~= a);
    } else {
        law_total_issues_adds_up(mask, a, b.drop_last());
        assert((a + b).drop_last() =~= a + b.drop_last());
        assert((a + b).last() == b.last());
    }
}

} // verus!
