//! The configuration: its fields, their defaults, and changing one of them by name.
use vstd::prelude::*;
use crate::text::{chars_of, chars_eq, push_str, string_eq_str};

verus! {

/// The default limit of the log file's size in a new configuration (15 MiB).
pub const DEFAULT_MAX_LOG_BYTES: u64 = 15 * 1024 * 1024;

/// Main configuration struct.
#[derive(Debug)]
pub struct Config {
    /// -C --curr-dir <Directory>
    pub work_dir: String,
    /// -v --verbose
    pub verbose: bool,
    /// -c --confirm
    pub confirm: bool,
    /// --max-log-size <MiB>, in bytes
    pub max_log_bytes: u64,
}

impl Config {
    /// Creates a new `Config` with default values, working in the directory `work_dir`.
    pub fn new(work_dir: String) -> (res: Self)
        ensures
            res.work_dir == work_dir,
            !res.verbose,
            !res.confirm,
            res.max_log_bytes == DEFAULT_MAX_LOG_BYTES,
    {
        Self { work_dir, verbose: false, confirm: false, max_log_bytes: DEFAULT_MAX_LOG_BYTES }
    }

    /// Creates a new `Config` with the given values.
    pub fn new_with(work_dir: String, verbose: bool, confirm: bool, max_log_bytes: u64) -> (res: Self)
        ensures
            res.work_dir == work_dir,
            res.verbose == verbose,
            res.confirm == confirm,
            res.max_log_bytes == max_log_bytes,
    {
        Self { work_dir, verbose, confirm, max_log_bytes }
    }
}

/// Why an integer could not be read.
#[derive(Debug, Clone, Copy, PartialEq, Eq, Structural)]
pub enum IntErrorKind {
    Empty,
    InvalidDigit,
    PosOverflow,
}

/// Why a configuration change was refused.
#[derive(Debug, PartialEq, Eq)]
pub enum ConfigError {
    InvalidBool,
    InvalidNumber(IntErrorKind),
}

/// The message that reports a configuration error (the numeric and boolean ones are the
/// texts of the standard library's parse errors).
pub open spec fn config_error_text(e: ConfigError) -> Seq<char> {
    match e {
        ConfigError::InvalidBool => "provided string was not `true` or `false`"@,
        ConfigError::InvalidNumber(IntErrorKind::Empty) => "cannot parse integer from empty string"@,
        ConfigError::InvalidNumber(IntErrorKind::InvalidDigit) => "invalid digit found in string"@,
        ConfigError::InvalidNumber(IntErrorKind::PosOverflow) => "number too large to fit in target type"@,
    }
}

impl ConfigError {
    /// The message that reports the error.
    pub fn message(&self) -> (res: String)
        ensures
            res@ == config_error_text(*self),
    {
        let mut s = String::new();
        match self {
            ConfigError::InvalidBool => push_str(&mut s, "provided string was not `true` or `false`"),
            ConfigError::InvalidNumber(IntErrorKind::Empty) => push_str(&mut s, "cannot parse integer from empty string"),
            ConfigError::InvalidNumber(IntErrorKind::InvalidDigit) => push_str(&mut s, "invalid digit found in string"),
            ConfigError::InvalidNumber(IntErrorKind::PosOverflow) => push_str(&mut s, "number too large to fit in target type"),
        }
        assert(s@ =~= config_error_text(*self));
        s
    }
}

/// The boolean that `s` spells (`bool::from_str`): exactly `true` or `false`.
pub open spec fn bool_of(s: Seq<char>) -> Option<bool> {
    if s == "true"@ {
        Some(true)
    } else if s == "false"@ {
        Some(false)
    } else {
        None
    }
}

/// Reads a boolean.
pub fn parse_bool(s: &str) -> (res: Option<bool>)
    ensures
        res == bool_of(s@),
{
    let v = String::from_str(s);
    if string_eq_str(&v, "true") {
        Some(true)
    } else if string_eq_str(&v, "false") {
        Some(false)
    } else {
        None
    }
}

/// Whether `c` is an ASCII decimal digit.
pub open spec fn is_digit(c: char) -> bool {
    '0' <= c && c <= '9'
}

/// The value of the decimal digit `c`.
pub open spec fn digit_value(c: char) -> int {
    c as int - '0' as int
}

/// The value of a run of decimal digits, read from the left; the first character that is
/// not a digit, or the first digit that takes the value past `u64::MAX`, is the error.
pub open spec fn digits_value(d: Seq<char>) -> Result<u64, IntErrorKind>
    decreases d.len(),
{
    if d.len() == 0 {
        Ok(0)
    } else {
        match digits_value(d.drop_last()) {
            Err(e) => Err(e),
            Ok(v) => if !is_digit(d.last()) {
                Err(IntErrorKind::InvalidDigit)
            } else if v * 10 + digit_value(d.last()) > u64::MAX {
                Err(IntErrorKind::PosOverflow)
            } else {
                Ok((v * 10 + digit_value(d.last())) as u64)
            },
        }
    }
}

/// The unsigned integer that `s` spells (`u64::from_str`): an optional `+` and decimal digits.
pub open spec fn u64_of(s: Seq<char>) -> Result<u64, IntErrorKind> {
    if s.len() == 0 {
        Err(IntErrorKind::Empty)
    } else if s.len() == 1 && (s[0] == '+' || s[0] == '-') {
        Err(IntErrorKind::InvalidDigit)
    } else if s[0] == '+' {
        digits_value(s.drop_first())
    } else {
        digits_value(s)
    }
}

/// Reads an unsigned integer.
pub fn parse_u64(s: &str) -> (res: Result<u64, IntErrorKind>)
    ensures
        res == u64_of(s@),
{
    let cs = chars_of(s);
    let n = cs.len();
    if n == 0 {
        return Err(IntErrorKind::Empty);
    }
    if n == 1 && (cs[0] == '+' || cs[0] == '-') {
        return Err(IntErrorKind::InvalidDigit);
    }
    let first: usize = if cs[0] == '+' { 1 } else { 0 };
    let ghost d = cs@.skip(first as int);
    assert(d == if cs@[0] == '+' { s@.drop_first() } else { s@ });
    assert(u64_of(s@) == digits_value(d));
    let mut acc: u64 = 0;
    let mut i: usize = first;
    while i < n
        invariant
            first <= i <= n,
            n == cs@.len(),
            d == cs@.skip(first as int),
            u64_of(s@) == digits_value(d),
            digits_value(d.take(i - first)) == Ok::<u64, IntErrorKind>(acc),
        decreases n - i,
    {
        let c = cs[i];
        assert(d.take(i - first + 1).drop_last() == d.take(i - first));
        assert(d.take(i - first + 1).last() == c);
        if !('0' <= c && c <= '9') {
            assert(digits_value(d.take(i - first + 1)) == Err::<u64, IntErrorKind>(IntErrorKind::InvalidDigit));
            proof {
                lemma_digits_error_stays(d, (i - first + 1) as int);
            }
            return Err(IntErrorKind::InvalidDigit);
        }
        let dv: u64 = (c as u32 - '0' as u32) as u64;
        assert(dv == digit_value(c));
        if acc > (u64::MAX - dv) / 10 {
            assert(acc * 10 + dv > u64::MAX) by (nonlinear_arith)
                requires
                    acc > (u64::MAX - dv) / 10,
                    dv <= 9,
            ;
            assert(digits_value(d.take(i - first + 1)) == Err::<u64, IntErrorKind>(IntErrorKind::PosOverflow));
            proof {
                lemma_digits_error_stays(d, (i - first + 1) as int);
            }
            return Err(IntErrorKind::PosOverflow);
        }
        assert(acc * 10 + dv <= u64::MAX) by (nonlinear_arith)
            requires
                acc <= (u64::MAX - dv) / 10,
                dv <= 9,
        ;
        acc = acc * 10 + dv;
        i = i + 1;
    }
    assert(d.take(n - first) == d);
    Ok(acc)
}

proof fn lemma_digits_error_stays(d: Seq<char>, k: int)
    requires
        0 <= k <= d.len(),
        digits_value(d.take(k)) is Err,
    ensures
        digits_value(d) == digits_value(d.take(k)),
    decreases d.len() - k,
{
    if k < d.len() {
        assert(d.take(k + 1).drop_last() == d.take(k));
        lemma_digits_error_stays(d, k + 1);
    } else {
        assert(d.take(k) == d);
    }
}

/// The plain contents of a configuration.
pub struct ConfigView {
    pub work_dir: Seq<char>,
    pub verbose: bool,
    pub confirm: bool,
    pub max_log_bytes: u64,
}

impl View for Config {
    type V = ConfigView;

    open spec fn view(&self) -> ConfigView {
        ConfigView {
            work_dir: self.work_dir@,
            verbose: self.verbose,
            confirm: self.confirm,
            max_log_bytes: self.max_log_bytes,
        }
    }
}

/// Whether `key` names a field of the configuration.
pub open spec fn is_config_key(key: Seq<char>) -> bool {
    key == "work_dir"@ || key == "verbose"@ || key == "confirm"@ || key == "max_log_bytes"@
}

/// The configuration after setting the field named `key` to the text `val`: `work_dir`
/// takes the text, `verbose` and `confirm` a boolean, `max_log_bytes` an unsigned integer.
pub open spec fn applied(config: ConfigView, key: Seq<char>, val: Seq<char>) -> Result<ConfigView, ConfigError> {
    if key == "work_dir"@ {
        Ok(ConfigView { work_dir: val, ..config })
    } else if key == "verbose"@ {
        match bool_of(val) {
            Some(b) => Ok(ConfigView { verbose: b, ..config }),
            None => Err(ConfigError::InvalidBool),
        }
    } else if key == "confirm"@ {
        match bool_of(val) {
            Some(b) => Ok(ConfigView { confirm: b, ..config }),
            None => Err(ConfigError::InvalidBool),
        }
    } else {
        match u64_of(val) {
            Ok(n) => Ok(ConfigView { max_log_bytes: n, ..config }),
            Err(k) => Err(ConfigError::InvalidNumber(k)),
        }
    }
}

/// Whether `key` names a field of the configuration.
pub fn config_key_known(key: &str) -> (res: bool)
    ensures
        res == is_config_key(key@),
{
    let k = String::from_str(key);
    string_eq_str(&k, "work_dir") || string_eq_str(&k, "verbose") || string_eq_str(&k, "confirm")
        || string_eq_str(&k, "max_log_bytes")
}

/// Applies one setting, given by a known key and a value, to `config`; on an error `config`
/// is left as it was (an unknown key is a fatal error of the caller's).
pub fn apply_one_config(config: &mut Config, key: &str, val: &str) -> (res: Result<(), ConfigError>)
    requires
        is_config_key(key@),
    ensures
        match applied(old(config)@, key@, val@) {
            Ok(c) => res is Ok && final(config)@ == c,
            Err(e) => res == Err::<(), ConfigError>(e) && final(config)@ == old(config)@,
        },
{
    let k = String::from_str(key);
    if string_eq_str(&k, "work_dir") {
        config.work_dir = String::from_str(val);
        Ok(())
    } else if string_eq_str(&k, "verbose") {
        match parse_bool(val) {
            Some(b) => {
                config.verbose = b;
                Ok(())
            },
            None => Err(ConfigError::InvalidBool),
        }
    } else if string_eq_str(&k, "confirm") {
        match parse_bool(val) {
            Some(b) => {
                config.confirm = b;
                Ok(())
            },
            None => Err(ConfigError::InvalidBool),
        }
    } else {
        match parse_u64(val) {
            Ok(n) => {
                config.max_log_bytes = n;
                Ok(())
            },
            Err(e) => Err(ConfigError::InvalidNumber(e)),
        }
    }
}

/// Makes `file` the configuration file; `exists` tells whether it exists, and a file that
/// does not is a fatal error of the caller's. `config_path` holds the current one.
pub fn set_config_file(config_path: &mut String, file: String, exists: bool)
    requires
        exists,
    ensures
        *final(config_path) == file,
{
    *config_path = file;
}


/// Changing a setting writes exactly that setting: after a successful change, reading the
/// field named by `key` gives the value read from the text (`work_dir` the text itself, the
/// booleans `true` for "true" and `false` for "false", `max_log_bytes` the number), every
/// other field keeps its value, and the change fails exactly when the text cannot be read.
pub proof fn law_apply_reads_back(c: ConfigView, key: Seq<char>, v: Seq<char>)
    requires
        is_config_key(key),
    ensures
        key == "work_dir"@ ==> applied(c, key, v) == Ok::<ConfigView, ConfigError>(
            ConfigView { work_dir: v, verbose: c.verbose, confirm: c.confirm, max_log_bytes: c.max_log_bytes },
        ),
        key == "verbose"@ ==> match bool_of(v) {
            Some(b) => applied(c, key, v) == Ok::<ConfigView, ConfigError>(
                ConfigView { work_dir: c.work_dir, verbose: b, confirm: c.confirm, max_log_bytes: c.max_log_bytes },
            ),
            None => applied(c, key, v) == Err::<ConfigView, ConfigError>(ConfigError::InvalidBool),
        },
        key == "confirm"@ ==> match bool_of(v) {
            Some(b) => applied(c, key, v) == Ok::<ConfigView, ConfigError>(
                ConfigView { work_dir: c.work_dir, verbose: c.verbose, confirm: b, max_log_bytes: c.max_log_bytes },
            ),
            None => applied(c, key, v) == Err::<ConfigView, ConfigError>(ConfigError::InvalidBool),
        },
        key == "max_log_bytes"@ ==> match u64_of(v) {
            Ok(n) => applied(c, key, v) == Ok::<ConfigView, ConfigError>(
                ConfigView { work_dir: c.work_dir, verbose: c.verbose, confirm: c.confirm, max_log_bytes: n },
            ),
            Err(k) => applied(c, key, v) == Err::<ConfigView, ConfigError>(ConfigError::InvalidNumber(k)),
        },
        bool_of(v) == Some(true) <==> v == "true"@,
        bool_of(v) == Some(false) <==> v == "false"@,
{
    reveal_strlit("work_dir");
    reveal_strlit("verbose");
    reveal_strlit("confirm");
    reveal_strlit("max_log_bytes");
    reveal_strlit("true");
    reveal_strlit("false");
    assert("verbose"@.len() != "work_dir"@.len());
    assert("confirm"@.len() != "work_dir"@.len());
    assert("confirm"@[0] != "verbose"@[0]);
    assert("verbose"@ != "work_dir"@);
    assert("confirm"@ != "work_dir"@);
    assert("confirm"@ != "verbose"@);
}

/// Reading back the decimal representation of a number gives the number: a value written
/// the way the scanner writes numbers is accepted for `max_log_bytes` as itself.
pub proof fn law_decimal_reads_back(n: u64)
    ensures
        u64_of(crate::text::decimal(n as nat)) == Ok::<u64, IntErrorKind>(n),
{
    lemma_digits_of_decimal(n as nat);
    let d = crate::text::decimal(n as nat);
    assert(d.len() > 0);
    assert(is_digit(d[0]));
}

proof fn lemma_digit_char(i: int)
    requires
        0 <= i < 10,
    ensures
        is_digit(crate::text::DIGITS@[i]),
        digit_value(crate::text::DIGITS@[i]) == i,
{
    let digits = crate::text::DIGITS@;
    assert(digits =~= seq!['0', '1', '2', '3', '4', '5', '6', '7', '8', '9']);
    if i == 0 {
    } else if i == 1 {
    } else if i == 2 {
    } else if i == 3 {
    } else if i == 4 {
    } else if i == 5 {
    } else if i == 6 {
    } else if i == 7 {
    } else if i == 8 {
    } else {
        assert(i == 9);
    }
}

proof fn lemma_digits_of_decimal(n: nat)
    requires
        n <= u64::MAX,
    ensures
        digits_value(crate::text::decimal(n)) == Ok::<u64, IntErrorKind>(n as u64),
        crate::text::decimal(n).len() > 0,
        forall|k: int| 0 <= k < crate::text::decimal(n).len() ==> is_digit(#[trigger] crate::text::decimal(n)[k]),
    decreases n,
{
    let digits = crate::text::DIGITS@;
    let d = crate::text::decimal(n);
    if n < 10 {
        lemma_digit_char(n as int);
        assert(d == seq![digits[n as int]]);
        assert(d.drop_last() =~= Seq::<char>::empty());
        assert(digits_value(d.drop_last()) == Ok::<u64, IntErrorKind>(0));
        assert(d.last() == digits[n as int]);
    } else {
        lemma_digits_of_decimal(n / 10);
        lemma_digit_char((n % 10) as int);
        let c = digits[(n % 10) as int];
        assert(d == crate::text::decimal(n / 10).push(c));
        assert(d.drop_last() == crate::text::decimal(n / 10));
        assert(d.last() == c);
        assert((n / 10) * 10 + n % 10 == n);
        assert forall|k: int| 0 <= k < d.len() implies is_digit(#[trigger] d[k]) by {
            if k < d.len() - 1 {
                assert(d[k] == crate::text::decimal(n / 10)[k]);
            }
        }
    }
}

} // verus!
