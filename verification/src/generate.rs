//! Which item to generate, and generating it.
use vstd::prelude::*;
use core::ops::Range;
use vstd::utf8::encode_utf8;
use crate::gen_utils::password::{gen_password, in_charset};
use crate::gen_utils::rand::gen_randint;
use crate::gen_utils::sha256::{gen_sha256, hex_lower, sha256_digest};
use crate::text::{decimal, push_decimal, push_str, string_eq_str};

verus! {

/// An item to generate. The range of a random floating-point number is kept by the caller.
#[derive(Debug)]
pub enum GenerationItemType {
    Password(usize),
    RandInt(Range<i32>),
    RandFloat,
    Sha256(String),
    Checksum,
}

/// Why an item name and its arguments do not make an item to generate.
#[derive(Debug, PartialEq, Eq)]
pub enum GenerateError {
    MissingLength,
    MissingIntRange,
    MissingFloatRange,
    MissingContent,
    UnknownItem(String),
}

/// The message that reports an error in the item to generate.
pub open spec fn generate_error_text(e: GenerateError) -> Seq<char> {
    match e {
        GenerateError::MissingLength => "Argument 'len' is required if the item specified as 'password'"@,
        GenerateError::MissingIntRange => "Argument 'range' is required if the item specified as 'randint'"@,
        GenerateError::MissingFloatRange => "Argument 'range' is required if the item specified as 'randfloat'"@,
        GenerateError::MissingContent =>
            "One of arguments 'content' and 'from-file' is required if the item specified as 'sha256'"@,
        GenerateError::UnknownItem(item) => "Unknown type of item: "@ + item@,
    }
}

impl GenerateError {
    /// The message that reports the error.
    pub fn message(&self) -> (res: String)
        ensures
            res@ == generate_error_text(*self),
    {
        let mut s = String::new();
        match self {
            GenerateError::MissingLength => push_str(
                &mut s,
                "Argument 'len' is required if the item specified as 'password'",
            ),
            GenerateError::MissingIntRange => push_str(
                &mut s,
                "Argument 'range' is required if the item specified as 'randint'",
            ),
            GenerateError::MissingFloatRange => push_str(
                &mut s,
                "Argument 'range' is required if the item specified as 'randfloat'",
            ),
            GenerateError::MissingContent => push_str(
                &mut s,
                "One of arguments 'content' and 'from-file' is required if the item specified as 'sha256'",
            ),
            GenerateError::UnknownItem(item) => {
                push_str(&mut s, "Unknown type of item: ");
                push_str(&mut s, item.as_str());
            },
        }
        assert(s@ =~= generate_error_text(*self));
        s
    }
}

/// Whether `s` names an item that can be generated.
pub open spec fn is_item_name(s: Seq<char>) -> bool {
    s == "password"@ || s == "randint"@ || s == "randfloat"@ || s == "sha256"@ || s == "checksum"@
}

/// What is missing for a known item name: the argument that the item needs, when it was
/// not given (`None` when nothing is missing).
pub open spec fn missing_argument(
    s: Seq<char>,
    len_given: bool,
    int_range_given: bool,
    float_range_given: bool,
    content_given: bool,
) -> Option<GenerateError> {
    if s == "password"@ {
        if len_given { None } else { Some(GenerateError::MissingLength) }
    } else if s == "randint"@ {
        if int_range_given { None } else { Some(GenerateError::MissingIntRange) }
    } else if s == "randfloat"@ {
        if float_range_given { None } else { Some(GenerateError::MissingFloatRange) }
    } else if s == "sha256"@ {
        if content_given { None } else { Some(GenerateError::MissingContent) }
    } else {
        None
    }
}

/// Whether the item name and the arguments given with it make an item to generate.
pub open spec fn item_ready(
    s: Seq<char>,
    password_len: Option<usize>,
    randint_range: Option<Range<i32>>,
    randfloat_range_given: bool,
    content: Option<String>,
) -> bool {
    is_item_name(s) && missing_argument(
        s,
        password_len is Some,
        randint_range is Some,
        randfloat_range_given,
        content is Some,
    ) is None
}

/// The item that a known item name and the argument it needs stand for.
pub open spec fn generation_item(
    s: Seq<char>,
    password_len: Option<usize>,
    randint_range: Option<Range<i32>>,
    content: Option<String>,
) -> GenerationItemType {
    if s == "password"@ {
        GenerationItemType::Password(password_len->0)
    } else if s == "randint"@ {
        GenerationItemType::RandInt(randint_range->0)
    } else if s == "randfloat"@ {
        GenerationItemType::RandFloat
    } else if s == "sha256"@ {
        GenerationItemType::Sha256(content->0)
    } else {
        GenerationItemType::Checksum
    }
}

/// Why an item name and the arguments given with it do not make an item to generate: an
/// unknown name (reported with the name) or the missing argument; `None` when they do.
pub fn generation_error(
    s: &str,
    password_len: &Option<usize>,
    randint_range: &Option<Range<i32>>,
    randfloat_range_given: bool,
    content: &Option<String>,
) -> (res: Option<GenerateError>)
    ensures
        is_item_name(s@) ==> res == missing_argument(
            s@,
            password_len is Some,
            randint_range is Some,
            randfloat_range_given,
            content is Some,
        ),
        !is_item_name(s@) ==> (res matches Some(GenerateError::UnknownItem(n)) && n@ == s@),
{
    let name = String::from_str(s);
    if string_eq_str(&name, "password") {
        if password_len.is_none() {
            return Some(GenerateError::MissingLength);
        }
        None
    } else if string_eq_str(&name, "randint") {
        if randint_range.is_none() {
            return Some(GenerateError::MissingIntRange);
        }
        None
    } else if string_eq_str(&name, "randfloat") {
        if !randfloat_range_given {
            return Some(GenerateError::MissingFloatRange);
        }
        None
    } else if string_eq_str(&name, "sha256") {
        if content.is_none() {
            return Some(GenerateError::MissingContent);
        }
        None
    } else if string_eq_str(&name, "checksum") {
        None
    } else {
        Some(GenerateError::UnknownItem(name))
    }
}

/// Converts an item name and the argument it needs to an item to generate (an unknown name
/// or a missing argument is a fatal error of the caller's, which `generation_error` reports).
pub fn str2enum(
    s: &str,
    password_len: Option<usize>,
    randint_range: Option<Range<i32>>,
    randfloat_range_given: bool,
    content: Option<String>,
) -> (res: GenerationItemType)
    requires
        item_ready(s@, password_len, randint_range, randfloat_range_given, content),
    ensures
        res == generation_item(s@, password_len, randint_range, content),
{
    let name = String::from_str(s);
    if string_eq_str(&name, "password") {
        match password_len {
            Some(len) => GenerationItemType::Password(len),
            None => GenerationItemType::Checksum,
        }
    } else if string_eq_str(&name, "randint") {
        match randint_range {
            Some(r) => GenerationItemType::RandInt(r),
            None => GenerationItemType::Checksum,
        }
    } else if string_eq_str(&name, "randfloat") {
        GenerationItemType::RandFloat
    } else if string_eq_str(&name, "sha256") {
        match content {
            Some(c) => GenerationItemType::Sha256(c),
            None => GenerationItemType::Checksum,
        }
    } else {
        GenerationItemType::Checksum
    }
}

/// The decimal representation of an integer, with a minus sign when it is negative.
pub open spec fn signed_decimal(v: int) -> Seq<char> {
    if v < 0 {
        seq!['-'] + decimal((-v) as nat)
    } else {
        decimal(v as nat)
    }
}

/// The decimal representation of `v` (`i32::to_string`).
pub fn i32_to_string(v: i32) -> (res: String)
    ensures
        res@ == signed_decimal(v as int),
{
    let mut s = String::new();
    if v < 0 {
        crate::text::push_char(&mut s, '-');
        let m: i64 = -(v as i64);
        push_decimal(&mut s, m as u64);
        assert(s@ =~= seq!['-'] + decimal((-v) as nat));
    } else {
        push_decimal(&mut s, v as u64);
        assert(s@ =~= decimal(v as nat));
    }
    s
}

/// Whether the item's arguments are ones it can be generated from (a random integer needs
/// a non-empty range).
pub open spec fn can_generate(item: GenerationItemType) -> bool {
    match item {
        GenerationItemType::RandInt(r) => r.start < r.end,
        _ => true,
    }
}

/// Generates a password, a random integer or a SHA-256 digest as text. A random
/// floating-point number and a checksum listing are generated by the caller, which holds
/// their range and reads the files: for them the result is `None`.
pub fn generate(item: GenerationItemType) -> (res: Option<String>)
    requires
        can_generate(item),
    ensures
        match item {
            GenerationItemType::Password(len) => (res matches Some(p) && p@.len() == len && forall|k: int|
                0 <= k < p@.len() ==> in_charset(#[trigger] p@[k])),
            GenerationItemType::RandInt(r) => res matches Some(t) && exists|v: i32|
                r.start <= v < r.end && t@ == signed_decimal(v as int),
            GenerationItemType::Sha256(c) => res matches Some(h) && h@ == hex_lower(
                sha256_digest(encode_utf8(c@)),
            ),
            GenerationItemType::RandFloat => res is None,
            GenerationItemType::Checksum => res is None,
        },
{
    match item {
        GenerationItemType::Password(len) => Some(gen_password(len)),
        GenerationItemType::RandInt(range) => {
            let v = gen_randint(range);
            Some(i32_to_string(v))
        },
        GenerationItemType::RandFloat => None,
        GenerationItemType::Sha256(content) => Some(gen_sha256(content.as_str())),
        GenerationItemType::Checksum => None,
    }
}

} // verus!
