use desktoporz::i18n::{parse_json, Catalog};
use desktoporz::messages::{
    generic_error, language_message, list_message, profile_invalid, profile_message,
    profile_not_found, profile_update_success, restored, run_detected, run_waiting,
    save_res_success, save_success,
};
use desktoporz::types::Resolution;

fn messages() -> Catalog {
    parse_json(
        r#"{
        "save": {"success": "{name}: {count} icons at {width}x{height}"},
        "save_res": {"success": "{name}: {count} icons for {resolution}"},
        "profile_update": {"success": "{name} updated: {count} at {width}x{height}", "not_found": "no {name}"},
        "restore": {"success": "{name}: {moved}/{count}"},
        "list": {"empty": "none", "some": "Profiles:\n{list}"},
        "lang": {"changed": "now {lang}"},
        "errors": {"generic": "Error: {error}", "profile_not_found": "{name} not at {path}", "profile_invalid": "bad: {error}"},
        "wait_drive": {"run_waiting": "waiting for {process}{timeout}", "run_timeout_suffix": " up to {seconds}s",
                       "run_no_timeout_suffix": "", "run_detected": "after {seconds}s, restoring {name}"}
    }"#,
    )
    .unwrap()
}

#[test]
fn command_success_messages() {
    let c = messages();
    let hd = Resolution { width: 1920, height: 1080 };
    assert_eq!(save_success(&c, "home", 12, hd), "home: 12 icons at 1920x1080");
    assert_eq!(save_res_success(&c, "home", 3, hd), "home: 3 icons for 1920x1080");
    assert_eq!(profile_update_success(&c, "home", 4, hd), "home updated: 4 at 1920x1080");
    assert_eq!(restored(&c, "restore.success", "home", 2, 5), "home: 2/5");
    assert_eq!(profile_message(&c, "profile_update.not_found", "x"), "no x");
    assert_eq!(language_message(&c, "lang.changed", "ru"), "now ru");
}

#[test]
fn list_and_error_messages() {
    let c = messages();
    assert_eq!(list_message(&c, &[]), "none");
    assert_eq!(list_message(&c, &["a".to_string(), "b".to_string()]), "Profiles:\na\nb");
    assert_eq!(generic_error(&c, "boom"), "Error: boom");
    assert_eq!(profile_not_found(&c, "p", "C:\\p.json"), "p not at C:\\p.json");
    assert_eq!(profile_invalid(&c, "eof"), "bad: eof");
}

#[test]
fn run_at_logon_messages() {
    let c = messages();
    assert_eq!(run_waiting(&c, "Google Drive", Some(60)), "waiting for Google Drive up to 60s");
    assert_eq!(run_waiting(&c, "Google Drive", None), "waiting for Google Drive");
    assert_eq!(run_detected(&c, 7, "home"), "after 7s, restoring home");
}
