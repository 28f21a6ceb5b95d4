use desktoporz::config::WaitDriveMirror;
use desktoporz::i18n::Catalog;
use desktoporz::process_watcher::{
    description_matches, description_query, description_text, exe_name_matches,
    timeout_message, translation_pairs, wait_step, ProcessWait,
};
use desktoporz::startup::{
    command_line, disable_outcome, enable_message, registry_string, status_message,
    strip_unc_prefix,
};
use desktoporz::utf16::{le_bytes, to_wide_nul};
use desktoporz::wait_drive::{
    config_from_mirror, config_from_registry, disabled_mirror, mirror_of, registry_text,
    run_entry_command, run_plan, status, timeout_dword, timeout_text, WaitDriveConfig,
};

fn side_catalog(pairs: &[(&str, &str)]) -> Catalog {
    let mut c = Catalog::new();
    for (k, v) in pairs {
        c.insert(k.to_string(), v.to_string());
    }
    c
}

fn wide(s: &str) -> Vec<u16> {
    s.encode_utf16().collect()
}

#[test]
fn strip_unc_prefix_removes_extended_prefix() {
    assert_eq!(strip_unc_prefix("\\\\?\\C:\\Tools\\app.exe"), "C:\\Tools\\app.exe");
    assert_eq!(strip_unc_prefix("C:\\Tools\\app.exe"), "C:\\Tools\\app.exe");
    assert_eq!(strip_unc_prefix("\\\\?"), "\\\\?");
}

#[test]
fn command_line_quotes_exe_and_profile() {
    let expected: Vec<u16> = "\"C:\\a b\\app.exe\" restore \"home\""
        .encode_utf16()
        .chain(std::iter::once(0))
        .collect();
    assert_eq!(command_line("C:\\a b\\app.exe", "home"), expected);
    assert_eq!(run_entry_command("C:\\app.exe"), "\"C:\\app.exe\" wait-drive run");
}

#[test]
fn startup_messages() {
    assert_eq!(
        enable_message("home", "C:\\app.exe"),
        "Inicialização automática ATIVADA. Perfil 'home' será restaurado ao iniciar o Windows.\nCaminho registrado: C:\\app.exe"
    );
    assert_eq!(disable_outcome(0, "").unwrap(), "Inicialização automática DESATIVADA.");
    assert_eq!(disable_outcome(2, "").unwrap(), "Inicialização automática já estava desativada.");
    assert_eq!(disable_outcome(5, "WIN32_ERROR(5)").unwrap_err(), "Falha ao remover do registro: WIN32_ERROR(5)");
    assert_eq!(status_message(None), "Inicialização automática: DESATIVADA");
    let bytes = le_bytes(&to_wide_nul("\"C:\\app.exe\" restore \"home\""));
    assert_eq!(
        status_message(Some(&bytes)),
        "Inicialização automática: ATIVADA\nComando registrado: \"C:\\app.exe\" restore \"home\""
    );
}

#[test]
fn registry_text_reads_back_what_was_written() {
    let bytes = le_bytes(&to_wide_nul("Trabalho ☕"));
    assert_eq!(registry_text(&bytes), Some("Trabalho ☕".to_string()));
    assert_eq!(registry_string(&[0x41, 0, 0, 0, 0, 0]), "A");
    assert_eq!(registry_text(&[0, 0]), None);
    assert_eq!(registry_text(&[]), None);
}

#[test]
fn wait_drive_config_sources() {
    let c = config_from_registry(Some("home".to_string()), Some(0));
    assert!(c.enabled);
    assert_eq!(c.timeout_secs, None);
    let c = config_from_registry(None, Some(30));
    assert!(!c.enabled);
    assert_eq!(c.timeout_secs, Some(30));
    let c = config_from_mirror(WaitDriveMirror { enabled: true, profile: Some("p".to_string()), timeout_secs: Some(5) });
    assert!(c.enabled);
    let m = mirror_of(&c);
    assert_eq!((m.enabled, m.profile.as_deref(), m.timeout_secs), (true, Some("p"), Some(5)));
    let m = disabled_mirror();
    assert!(!m.enabled && m.profile.is_none());
}

#[test]
fn timeout_dword_round_trip() {
    assert_eq!(timeout_dword(None), 0);
    assert_eq!(timeout_dword(Some(90)), 90);
    assert_eq!(timeout_dword(Some((1u64 << 32) + 5)), 5);
    assert_eq!(config_from_registry(Some("p".to_string()), Some(timeout_dword(Some(90)))).timeout_secs, Some(90));
}

#[test]
fn wait_drive_status_messages() {
    let c = side_catalog(&[
        ("wait_drive.status_enabled", "On: {profile}, {timeout}"),
        ("wait_drive.status_disabled", "Off"),
        ("wait_drive.timeout_on", "{seconds} s"),
        ("wait_drive.timeout_off", "no limit"),
        ("wait_drive.profile_undefined", "?"),
    ]);
    assert_eq!(status(WaitDriveConfig::default(), &c), "Off");
    let on = WaitDriveConfig { enabled: true, profile: Some("home".to_string()), timeout_secs: Some(45) };
    assert_eq!(status(on, &c), "On: home, 45 s");
    let on = WaitDriveConfig { enabled: true, profile: None, timeout_secs: None };
    assert_eq!(status(on, &c), "On: ?, no limit");
    assert_eq!(timeout_text(&c, Some(10)), "10s");
    assert_eq!(timeout_text(&c, None), "no limit");
}

#[test]
fn run_plan_needs_the_setting_on() {
    assert!(run_plan(WaitDriveConfig::default()).is_err());
    let plan = run_plan(WaitDriveConfig { enabled: true, profile: Some("home".to_string()), timeout_secs: Some(3) }).unwrap();
    assert_eq!((plan.profile.as_str(), plan.timeout_secs), ("home", Some(3)));
}

#[test]
fn process_matching() {
    let mut buf = [0u16; 16];
    for (i, u) in wide("GoogleDriveFS.exe").iter().take(15).enumerate() {
        buf[i] = *u;
    }
    assert!(exe_name_matches(&buf, "googledrivefs.e"));
    assert!(!exe_name_matches(&buf, "explorer.exe"));
    assert!(description_matches("  Google Drive\t", "google drive"));
    assert!(!description_matches("Google Drive Helper", "Google Drive"));
}

#[test]
fn version_info_queries() {
    assert_eq!(translation_pairs(None), vec![(0x0409, 0x04B0), (0x0409, 0x04E4)]);
    assert_eq!(translation_pairs(Some(&[0x04B0_0416])), vec![(0x0416, 0x04B0)]);
    let q = description_query(0x0409, 0x04b0);
    let expected: Vec<u16> = "\\StringFileInfo\\040904b0\\FileDescription".encode_utf16().chain(std::iter::once(0)).collect();
    assert_eq!(q, expected);
    let mut v = wide("Google Drive");
    v.push(0);
    assert_eq!(description_text(&v), "Google Drive");
    assert_eq!(description_text(&[]), "");
}

#[test]
fn process_wait_decisions() {
    assert_eq!(wait_step(true, 10, Some(0)), ProcessWait::Detected);
    assert_eq!(wait_step(false, 4_999_999_999, Some(5)), ProcessWait::Sleep);
    assert_eq!(wait_step(false, 5_000_000_000, Some(5)), ProcessWait::TimedOut);
    assert_eq!(wait_step(false, u128::MAX, None), ProcessWait::Sleep);
    let c = side_catalog(&[("process_watcher.timeout", "{process} not seen in {seconds}s")]);
    assert_eq!(timeout_message(&c, "Google Drive", 30), "Google Drive not seen in 30s");
}
