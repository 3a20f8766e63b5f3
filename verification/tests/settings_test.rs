use scrut::args::{mib_to_bytes, subcommand_of, CommonFlags, Subcommand, MIB};
use scrut::config::{
    apply_one_config, config_key_known, parse_bool, parse_u64, set_config_file, Config, ConfigError, IntErrorKind,
    DEFAULT_MAX_LOG_BYTES,
};
use scrut::confirm::{
    choices, confirm_answer, confirm_prompt, get_confirm_flag, set_confirm_flag, ConfirmAnswer,
    ConfirmDefaultOption, DefaultOpt,
};
use owo_colors::OwoColorize;
use scrut::logging::{disable_verbose, enable_verbose, log_file_path, log_needs_reset, MAX_LOG_BYTES};

#[test]
fn config_defaults() {
    let c = Config::new("/w".to_string());
    assert_eq!(c.work_dir, "/w");
    assert!(!c.verbose && !c.confirm);
    assert_eq!(c.max_log_bytes, 15 * 1024 * 1024);
    assert_eq!(DEFAULT_MAX_LOG_BYTES, 15728640);
    let d = Config::new_with("/x".to_string(), true, false, 7);
    assert_eq!((d.work_dir.as_str(), d.verbose, d.confirm, d.max_log_bytes), ("/x", true, false, 7));
}

#[test]
fn apply_each_key() {
    let mut c = Config::new("/w".to_string());
    assert_eq!(apply_one_config(&mut c, "work_dir", "/tmp/p"), Ok(()));
    assert_eq!(c.work_dir, "/tmp/p");
    assert_eq!(apply_one_config(&mut c, "verbose", "true"), Ok(()));
    assert!(c.verbose);
    assert_eq!(apply_one_config(&mut c, "confirm", "true"), Ok(()));
    assert!(c.confirm);
    assert_eq!(apply_one_config(&mut c, "max_log_bytes", "+42"), Ok(()));
    assert_eq!(c.max_log_bytes, 42);
}

#[test]
fn apply_errors_leave_config() {
    let mut c = Config::new("/w".to_string());
    assert_eq!(apply_one_config(&mut c, "verbose", "yes"), Err(ConfigError::InvalidBool));
    assert_eq!(
        apply_one_config(&mut c, "max_log_bytes", "12x"),
        Err(ConfigError::InvalidNumber(IntErrorKind::InvalidDigit))
    );
    assert!(!config_key_known("colour"));
    for key in ["work_dir", "verbose", "confirm", "max_log_bytes"] {
        assert!(config_key_known(key));
    }
    assert!(!c.verbose);
    assert_eq!(c.max_log_bytes, DEFAULT_MAX_LOG_BYTES);
    assert_eq!(c.work_dir, "/w");
}

#[test]
fn booleans_and_integers_read_like_std() {
    assert_eq!(parse_bool("true"), Some(true));
    assert_eq!(parse_bool("false"), Some(false));
    assert_eq!(parse_bool("True"), None);
    assert_eq!(parse_bool(" true"), None);
    for s in ["0", "42", "+7", "007", "18446744073709551615", "18446744073709551616", "", "+", "-", "-1", "1 ", "9a", "99999999999999999999x"] {
        let ours = parse_u64(s);
        match s.parse::<u64>() {
            Ok(v) => assert_eq!(ours, Ok(v), "{}", s),
            Err(e) => {
                let k = match e.kind() {
                    std::num::IntErrorKind::Empty => IntErrorKind::Empty,
                    std::num::IntErrorKind::InvalidDigit => IntErrorKind::InvalidDigit,
                    std::num::IntErrorKind::PosOverflow => IntErrorKind::PosOverflow,
                    _ => panic!("unexpected kind"),
                };
                assert_eq!(ours, Err(k), "{}", s);
                assert_eq!(ConfigError::InvalidNumber(k).message(), e.to_string());
            }
        }
    }
    assert_eq!(ConfigError::InvalidBool.message(), "yes".parse::<bool>().unwrap_err().to_string());
}

#[test]
fn config_file_is_replaced() {
    let mut path = "/home/u/.scrut/config.toml".to_string();
    set_config_file(&mut path, "/etc/s.toml".to_string(), true);
    assert_eq!(path, "/etc/s.toml");
}

#[test]
fn confirm_flag_read_after_write() {
    let mut flags = CommonFlags::new(true, false);
    assert!(!get_confirm_flag(&flags));
    set_confirm_flag(&mut flags, true);
    assert!(get_confirm_flag(&flags));
    assert!(flags.verbose);
    set_confirm_flag(&mut flags, false);
    assert!(!get_confirm_flag(&flags));
}

#[test]
fn verbose_switch() {
    let mut flags = CommonFlags::new(false, true);
    enable_verbose(&mut flags);
    assert_eq!(flags, CommonFlags::new(true, true));
    enable_verbose(&mut flags);
    assert_eq!(flags, CommonFlags::new(true, true));
    disable_verbose(&mut flags);
    assert_eq!(flags, CommonFlags::new(false, true));
}

#[test]
fn confirm_answers() {
    let y = ConfirmDefaultOption::Yes;
    let n = ConfirmDefaultOption::No;
    let none: DefaultOpt = ConfirmDefaultOption::NoDefault;
    assert_eq!(confirm_answer("\n", y), ConfirmAnswer::Proceed);
    assert_eq!(confirm_answer("  \r\n", n), ConfirmAnswer::Abort);
    assert_eq!(confirm_answer("\n", none), ConfirmAnswer::AskAgain);
    assert_eq!(confirm_answer("Y\n", n), ConfirmAnswer::Proceed);
    assert_eq!(confirm_answer(" y ", none), ConfirmAnswer::Proceed);
    assert_eq!(confirm_answer("N\n", y), ConfirmAnswer::Abort);
    assert_eq!(confirm_answer("yes\n", y), ConfirmAnswer::AskAgain);
    assert_eq!(confirm_answer("x", none), ConfirmAnswer::AskAgain);
}

#[test]
fn confirm_prompt_text() {
    assert_eq!(choices(ConfirmDefaultOption::Yes), "(Y/n)");
    assert_eq!(choices(ConfirmDefaultOption::No), "(y/N)");
    assert_eq!(choices(ConfirmDefaultOption::NoDefault), "(y/n)");
    assert_eq!(
        confirm_prompt("Save?", ConfirmDefaultOption::Yes),
        "\u{1b}[1m\u{1b}[33mConfirm:\u{1b}[39m\u{1b}[0m Save? (Y/n): "
    );
    let expected = format!("{} {} {}: ", "Confirm:".yellow().bold(), "Save?", "(y/N)");
    assert_eq!(confirm_prompt("Save?", ConfirmDefaultOption::No), expected);
}

#[test]
fn log_settings() {
    assert_eq!(log_file_path("/home/u"), "/home/u/scrut.log");
    assert_eq!(MAX_LOG_BYTES, 10 * 1024 * 1024);
    assert!(!log_needs_reset(MAX_LOG_BYTES, None));
    assert!(log_needs_reset(MAX_LOG_BYTES + 1, None));
    assert!(!log_needs_reset(5, Some(5)));
    assert!(log_needs_reset(6, Some(5)));
    assert!(log_needs_reset(1, Some(0)));
    assert_eq!(mib_to_bytes(3), 3 * 1024 * 1024);
    assert_eq!(MIB, 1048576);
}

#[test]
fn subcommands() {
    assert_eq!(subcommand_of("version"), Subcommand::Version);
    assert_eq!(subcommand_of("docs"), Subcommand::Docs);
    assert_eq!(subcommand_of("log"), Subcommand::Log);
    assert_eq!(subcommand_of("scan"), Subcommand::Scan);
    assert_eq!(subcommand_of("fix"), Subcommand::Fix);
    assert_eq!(subcommand_of("generate"), Subcommand::Generate);
    assert_eq!(subcommand_of("gen"), Subcommand::Unknown);
}

#[test]
fn decimal_text_reads_back() {
    for n in [0i32, 9, 10, 12345, i32::MAX] {
        assert_eq!(parse_u64(&scrut::generate::i32_to_string(n)), Ok(n as u64));
    }
    assert_eq!(parse_u64(&u64::MAX.to_string()), Ok(u64::MAX));
}
