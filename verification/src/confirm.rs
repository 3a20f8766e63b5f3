//! The confirmation flag, and the confirmation prompt and its answers.
use vstd::prelude::*;
use crate::args::CommonFlags;
use owo_colors::OwoColorize;
use crate::text::{chars_of, chars_eq, is_whitespace, push_str, trim, trim_chars, trim_end, trim_start};

verus! {

/// The answer taken when the user enters nothing.
#[derive(Debug, Clone, Copy, PartialEq, Eq, Structural)]
pub enum ConfirmDefaultOption {
    Yes,
    No,
    NoDefault,
}

/// The answer taken when the user enters nothing.
pub type DefaultOpt = ConfirmDefaultOption;

/// `flags` with the confirmation flag set to `option`.
pub open spec fn with_confirm(flags: CommonFlags, option: bool) -> CommonFlags {
    CommonFlags { confirm: option, ..flags }
}

/// Whether actions are confirmed before they are taken (`-c --confirm`).
pub fn get_confirm_flag(flags: &CommonFlags) -> (res: bool)
    ensures
        res == flags.confirm,
{
    flags.confirm
}

/// Sets whether actions are confirmed before they are taken.
pub fn set_confirm_flag(flags: &mut CommonFlags, option: bool)
    ensures
        *final(flags) == with_confirm(*old(flags), option),
{
    flags.confirm = option;
}

/// Setting the confirmation flag and reading it back gives the value set, and leaves the
/// verbose flag as it was.
pub proof fn law_confirm_flag_read_after_write(flags: CommonFlags, option: bool)
    ensures
        with_confirm(flags, option).confirm == option,
        with_confirm(flags, option).verbose == flags.verbose,
        with_confirm(with_confirm(flags, !option), option) == with_confirm(flags, option),
{
}

/// What to do with the user's answer to a confirmation prompt.
#[derive(Debug, Clone, Copy, PartialEq, Eq, Structural)]
pub enum ConfirmAnswer {
    /// Go on with the action.
    Proceed,
    /// Leave the program with exit status 1.
    Abort,
    /// Ask again.
    AskAgain,
}

/// The answer for the line `input` that the user entered: it is read without surrounding
/// whitespace and without regard to case; an empty answer takes the default.
pub open spec fn answer_for(input: Seq<char>, default_option: ConfirmDefaultOption) -> ConfirmAnswer {
    let t = trim(input);
    if t.len() == 0 {
        match default_option {
            ConfirmDefaultOption::NoDefault => ConfirmAnswer::AskAgain,
            ConfirmDefaultOption::Yes => ConfirmAnswer::Proceed,
            ConfirmDefaultOption::No => ConfirmAnswer::Abort,
        }
    } else if t == "y"@ || t == "Y"@ {
        ConfirmAnswer::Proceed
    } else if t == "n"@ || t == "N"@ {
        ConfirmAnswer::Abort
    } else {
        ConfirmAnswer::AskAgain
    }
}

/// Decides what the line `input` entered at a confirmation prompt asks for.
pub fn confirm_answer(input: &str, default_option: ConfirmDefaultOption) -> (res: ConfirmAnswer)
    ensures
        res == answer_for(input@, default_option),
{
    let cs = chars_of(input);
    let t = trim_chars(cs.as_slice());
    if t.len() == 0 {
        match default_option {
            ConfirmDefaultOption::NoDefault => ConfirmAnswer::AskAgain,
            ConfirmDefaultOption::Yes => ConfirmAnswer::Proceed,
            ConfirmDefaultOption::No => ConfirmAnswer::Abort,
        }
    } else if chars_eq(t.as_slice(), chars_of("y").as_slice()) || chars_eq(t.as_slice(), chars_of("Y").as_slice()) {
        ConfirmAnswer::Proceed
    } else if chars_eq(t.as_slice(), chars_of("n").as_slice()) || chars_eq(t.as_slice(), chars_of("N").as_slice()) {
        ConfirmAnswer::Abort
    } else {
        ConfirmAnswer::AskAgain
    }
}

/// `c` with an ASCII upper-case letter turned to lower case.
pub open spec fn ascii_lower_char(c: char) -> char {
    if 'A' <= c && c <= 'Z' {
        (c as int + 32) as char
    } else {
        c
    }
}

/// `s` with every ASCII upper-case letter turned to lower case.
pub open spec fn ascii_lower(s: Seq<char>) -> Seq<char> {
    s.map_values(|c: char| ascii_lower_char(c))
}

proof fn lemma_trim_start_lower(s: Seq<char>)
    ensures
        trim_start(ascii_lower(s)) == ascii_lower(trim_start(s)),
    decreases s.len(),
{
    if s.len() > 0 {
        assert(ascii_lower(s)[0] == ascii_lower_char(s[0]));
        assert(is_whitespace(ascii_lower_char(s[0])) == is_whitespace(s[0]));
        if is_whitespace(s[0]) {
            assert(ascii_lower(s).drop_first() =~= ascii_lower(s.drop_first()));
            lemma_trim_start_lower(s.drop_first());
        }
    }
}

proof fn lemma_trim_end_lower(s: Seq<char>)
    ensures
        trim_end(ascii_lower(s)) == ascii_lower(trim_end(s)),
    decreases s.len(),
{
    if s.len() > 0 {
        assert(ascii_lower(s).last() == ascii_lower_char(s.last()));
        assert(is_whitespace(ascii_lower_char(s.last())) == is_whitespace(s.last()));
        if is_whitespace(s.last()) {
            assert(ascii_lower(s).drop_last() =~= ascii_lower(s.drop_last()));
            lemma_trim_end_lower(s.drop_last());
        }
    }
}

/// The answer to a confirmation prompt does not depend on letter case, nor on the
/// whitespace around it: `y` (or `Y`) always goes on, `n` (or `N`) always aborts, whatever the
/// default, an empty answer takes the default, and any other answer asks again.
pub proof fn law_confirm_answer_ignores_case(input: Seq<char>, d: ConfirmDefaultOption)
    ensures
        answer_for(ascii_lower(input), d) == answer_for(input, d),
        trim(ascii_lower(input)) == "y"@ ==> answer_for(input, d) == ConfirmAnswer::Proceed,
        trim(ascii_lower(input)) == "n"@ ==> answer_for(input, d) == ConfirmAnswer::Abort,
        trim(input).len() == 0 ==> answer_for(input, d) == match d {
            ConfirmDefaultOption::Yes => ConfirmAnswer::Proceed,
            ConfirmDefaultOption::No => ConfirmAnswer::Abort,
            ConfirmDefaultOption::NoDefault => ConfirmAnswer::AskAgain,
        },
        trim(input).len() > 0 && trim(ascii_lower(input)) != "y"@ && trim(ascii_lower(input)) != "n"@ ==> answer_for(
            input,
            d,
        ) == ConfirmAnswer::AskAgain,
{
    reveal_strlit("y");
    reveal_strlit("Y");
    reveal_strlit("n");
    reveal_strlit("N");
    lemma_trim_start_lower(input);
    lemma_trim_end_lower(trim_start(input));
    let t = trim(input);
    let lt = ascii_lower(t);
    assert(trim(ascii_lower(input)) == lt);
    assert(lt.len() == t.len());
    if t.len() == 1 {
        assert(lt[0] == ascii_lower_char(t[0]));
        assert(t =~= seq![t[0]]);
        assert(lt =~= seq![lt[0]]);
        assert("y"@ =~= seq!['y']);
        assert("Y"@ =~= seq!['Y']);
        assert("n"@ =~= seq!['n']);
        assert("N"@ =~= seq!['N']);
        if t[0] == 'y' || t[0] == 'Y' {
            assert(lt =~= "y"@);
        } else if t[0] == 'n' || t[0] == 'N' {
            assert(lt =~= "n"@);
        } else {
            assert(lt[0] != 'y' && lt[0] != 'n');
            assert(lt != "y"@ && lt != "n"@);
            assert(t != "y"@ && t != "n"@ && t != "Y"@ && t != "N"@);
        }
    } else {
        assert(lt != "y"@ && lt != "n"@ && lt != "Y"@ && lt != "N"@);
        assert(t != "y"@ && t != "n"@ && t != "Y"@ && t != "N"@);
    }
}

/// The choices shown after a prompt with the given default.
pub open spec fn choices_text(default_option: ConfirmDefaultOption) -> Seq<char> {
    match default_option {
        ConfirmDefaultOption::Yes => "(Y/n)"@,
        ConfirmDefaultOption::No => "(y/N)"@,
        ConfirmDefaultOption::NoDefault => "(y/n)"@,
    }
}

/// The choices shown after a prompt with the given default.
pub fn choices(default_option: ConfirmDefaultOption) -> (res: &'static str)
    ensures
        res@ == choices_text(default_option),
{
    match default_option {
        ConfirmDefaultOption::Yes => "(Y/n)",
        ConfirmDefaultOption::No => "(y/N)",
        ConfirmDefaultOption::NoDefault => "(y/n)",
    }
}

/// `text` in bold yellow, as `owo_colors` writes it: the bold and yellow escape codes, the
/// text, then the codes that reset the colour and the style.
pub open spec fn yellow_bold_text(text: Seq<char>) -> Seq<char> {
    "\x1b[1m\x1b[33m"@ + text + "\x1b[39m\x1b[0m"@
}

/// Formats `text` in bold yellow (`owo_colors::OwoColorize::yellow`, then `bold`). Claims
/// the escape codes that the crate's source writes for these two styles.
#[verifier::external_body]
fn yellow_bold(text: &str) -> (res: String)
    ensures
        res@ == yellow_bold_text(text@),
{
    format!("{}", text.yellow().bold())
}

/// The confirmation prompt for `prompt`, as it is written to the error stream.
pub open spec fn prompt_text(prompt: Seq<char>, default_option: ConfirmDefaultOption) -> Seq<char> {
    yellow_bold_text("Confirm:"@) + " "@ + prompt + " "@ + choices_text(default_option) + ": "@
}

/// The confirmation prompt for `prompt` with the given default.
pub fn confirm_prompt(prompt: &str, default_option: ConfirmDefaultOption) -> (res: String)
    ensures
        res@ == prompt_text(prompt@, default_option),
{
    let mut s = yellow_bold("Confirm:");
    push_str(&mut s, " ");
    push_str(&mut s, prompt);
    push_str(&mut s, " ");
    push_str(&mut s, choices(default_option));
    push_str(&mut s, ": ");
    s
}

} // verus!
