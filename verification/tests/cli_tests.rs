use desktoporz::cli::{
    help_text, language_available, parse_command, parse_resolution, profile_name_arg,
    timeout_arg, validate_profile_name, CliError, Command,
};
use desktoporz::i18n::Catalog;
use desktoporz::types::Resolution;

fn args(list: &[&str]) -> Vec<String> {
    list.iter().map(|s| s.to_string()).collect()
}

fn catalog(pairs: &[(&str, &str)]) -> Catalog {
    let mut c = Catalog::new();
    for (k, v) in pairs {
        c.insert(k.to_string(), v.to_string());
    }
    c
}

#[test]
fn parse_resolution_reads_width_and_height() {
    let r = parse_resolution("1920x1080").ok().unwrap();
    assert_eq!(r, Resolution { width: 1920, height: 1080 });
    let r = parse_resolution("800X600").ok().unwrap();
    assert_eq!(r, Resolution { width: 800, height: 600 });
    let r = parse_resolution("+1280x+720").ok().unwrap();
    assert_eq!(r, Resolution { width: 1280, height: 720 });
}

#[test]
fn parse_resolution_errors() {
    assert!(matches!(parse_resolution("1920-1080"), Err(CliError::ResolutionInvalid { raw }) if raw == "1920-1080"));
    assert!(matches!(parse_resolution("abcx100"), Err(CliError::ResolutionWidthInvalid { .. })));
    assert!(matches!(parse_resolution("x100"), Err(CliError::ResolutionWidthInvalid { .. })));
    assert!(matches!(parse_resolution("100x"), Err(CliError::ResolutionHeightInvalid { .. })));
    assert!(matches!(parse_resolution("100x-5"), Err(CliError::ResolutionHeightInvalid { .. })));
    assert!(matches!(parse_resolution("4294967296x1"), Err(CliError::ResolutionWidthInvalid { .. })));
    assert!(matches!(parse_resolution("4294967295x1"), Ok(Resolution { width: 4294967295, height: 1 })));
    assert!(matches!(parse_resolution("0x1080"), Err(CliError::ResolutionZero)));
    assert!(matches!(parse_resolution("1920x0"), Err(CliError::ResolutionZero)));
    // The first 'x' splits: the height "1x1" is no number.
    assert!(matches!(parse_resolution("1x1x1"), Err(CliError::ResolutionHeightInvalid { .. })));
}

#[test]
fn validate_profile_name_rejects_file_name_characters() {
    assert!(validate_profile_name("work").is_ok());
    assert!(validate_profile_name("my profile").is_ok());
    for bad in ["a\\b", "a/b", "a:b", "a*b", "a?b", "a\"b", "a<b", "a>b", "a|b"] {
        assert!(matches!(validate_profile_name(bad), Err(CliError::ProfileNameInvalid)));
    }
}

#[test]
fn profile_name_arg_needs_a_non_blank_name() {
    assert_eq!(profile_name_arg(&args(&["save", "home"])).ok().unwrap(), "home");
    assert!(matches!(profile_name_arg(&args(&["save"])), Err(CliError::ProfileNameMissing)));
    assert!(matches!(profile_name_arg(&args(&["save", "  \t"])), Err(CliError::ProfileNameMissing)));
    assert!(matches!(profile_name_arg(&args(&["save", "a/b"])), Err(CliError::ProfileNameInvalid)));
}

#[test]
fn timeout_arg_reads_seconds_after_the_flag() {
    assert_eq!(timeout_arg(&args(&["wait-drive", "on", "p"])).ok().unwrap(), None);
    assert_eq!(timeout_arg(&args(&["wait-drive", "on", "p", "--timeout", "30"])).ok().unwrap(), Some(30));
    assert_eq!(timeout_arg(&args(&["wait-drive", "on", "p", "-t", "7", "-t", "9"])).ok().unwrap(), Some(7));
    assert!(matches!(timeout_arg(&args(&["wait-drive", "on", "p", "-t"])), Err(CliError::InvalidTimeout)));
    assert!(matches!(timeout_arg(&args(&["wait-drive", "on", "p", "-t", "soon"])), Err(CliError::InvalidTimeout)));
}

#[test]
fn parse_command_profile_commands() {
    assert!(matches!(parse_command(&args(&["save", "home"])), Ok(Command::Save { name }) if name == "home"));
    assert!(matches!(parse_command(&args(&["restore", "home"])), Ok(Command::Restore { name }) if name == "home"));
    assert!(matches!(parse_command(&args(&["profile-update", "home"])), Ok(Command::ProfileUpdate { name }) if name == "home"));
    assert!(matches!(parse_command(&args(&["save-res", "home"])), Ok(Command::SaveRes { resolution: None, .. })));
    assert!(matches!(
        parse_command(&args(&["save-res", "home", "1366x768"])),
        Ok(Command::SaveRes { resolution: Some(Resolution { width: 1366, height: 768 }), .. })
    ));
    assert!(matches!(parse_command(&args(&["save-res", "home", "big"])), Err(CliError::ResolutionInvalid { .. })));
    assert!(matches!(parse_command(&args(&["save-res", "", "big"])), Err(CliError::ProfileNameMissing)));
    assert!(matches!(parse_command(&args(&["restore"])), Err(CliError::ProfileNameMissing)));
    assert!(matches!(parse_command(&args(&["list"])), Ok(Command::List)));
}

#[test]
fn parse_command_help_and_unknown() {
    assert!(matches!(parse_command(&args(&[])), Ok(Command::Help)));
    assert!(matches!(parse_command(&args(&["help"])), Ok(Command::Help)));
    assert!(matches!(parse_command(&args(&["--help"])), Ok(Command::Help)));
    assert!(matches!(parse_command(&args(&["-h"])), Ok(Command::Help)));
    assert!(matches!(parse_command(&args(&["dance"])), Err(CliError::UnknownCommand { command }) if command == "dance"));
}

#[test]
fn parse_command_lang() {
    assert!(matches!(parse_command(&args(&["lang"])), Ok(Command::LangShow)));
    assert!(matches!(parse_command(&args(&["lang", " "])), Ok(Command::LangShow)));
    assert!(matches!(parse_command(&args(&["lang", "pt-br"])), Ok(Command::LangSet { code }) if code == "pt-br"));
}

#[test]
fn parse_command_startup() {
    assert!(matches!(parse_command(&args(&["startup"])), Ok(Command::StartupStatus)));
    assert!(matches!(parse_command(&args(&["startup", "status"])), Ok(Command::StartupStatus)));
    assert!(matches!(parse_command(&args(&["startup", "off"])), Ok(Command::StartupOff)));
    assert!(matches!(parse_command(&args(&["startup", "on", "home"])), Ok(Command::StartupOn { name }) if name == "home"));
    // startup on does not check the name's characters.
    assert!(matches!(parse_command(&args(&["startup", "on", "a/b"])), Ok(Command::StartupOn { .. })));
    assert!(matches!(parse_command(&args(&["startup", "on"])), Err(CliError::StartupMissingProfile)));
    assert!(matches!(parse_command(&args(&["startup", "maybe"])), Err(CliError::StartupUsage)));
}

#[test]
fn parse_command_wait_drive() {
    assert!(matches!(parse_command(&args(&["wait-drive"])), Ok(Command::WaitDriveStatus)));
    assert!(matches!(parse_command(&args(&["wait-drive", "run"])), Ok(Command::WaitDriveRun)));
    assert!(matches!(parse_command(&args(&["wait-drive", "false"])), Ok(Command::WaitDriveOff)));
    assert!(matches!(parse_command(&args(&["wait-drive", "off"])), Ok(Command::WaitDriveOff)));
    assert!(matches!(
        parse_command(&args(&["wait-drive", "true", "home", "-t", "120"])),
        Ok(Command::WaitDriveOn { name, timeout_secs: Some(120) }) if name == "home"
    ));
    assert!(matches!(
        parse_command(&args(&["wait-drive", "on", "home"])),
        Ok(Command::WaitDriveOn { timeout_secs: None, .. })
    ));
    assert!(matches!(parse_command(&args(&["wait-drive", "on", "a|b"])), Err(CliError::ProfileNameInvalid)));
    assert!(matches!(parse_command(&args(&["wait-drive", "on", "home", "--timeout", "x"])), Err(CliError::InvalidTimeout)));
    assert!(matches!(parse_command(&args(&["wait-drive", "on"])), Err(CliError::WaitDriveMissingProfile)));
    assert!(matches!(parse_command(&args(&["wait-drive", "later"])), Err(CliError::WaitDriveUsage)));
}

#[test]
fn error_messages_use_the_catalog() {
    let c = catalog(&[
        ("errors.resolution_invalid", "Bad resolution: {raw}"),
        ("errors.unknown_command", "Unknown '{command}'.\n{help}"),
        ("help.text", "usage: ..."),
    ]);
    let e = parse_resolution("wide").err().unwrap();
    assert_eq!(e.message(&c), "Bad resolution: wide");
    let e = parse_command(&args(&["dance"])).err().unwrap();
    assert_eq!(e.message(&c), "Unknown 'dance'.\nusage: ...");
    assert_eq!(CliError::ResolutionZero.message(&c), "[errors.resolution_zero]");
    assert_eq!(help_text(&c), "usage: ...");
}

#[test]
fn language_available_checks_file_or_built_in() {
    let docs = desktoporz::i18n::BuiltinDocuments { pt_br: "{}", en_us: "{}", ru: "{}", zh: "{}", es: "{}" };
    assert!(language_available(true, &docs, "xx"));
    assert!(language_available(false, &docs, "PT-BR"));
    assert!(!language_available(false, &docs, "xx"));
}
