use vstd::prelude::*;
use crate::config::WaitDriveMirror;
use crate::i18n::{args_view, fill_args, t, t_args, t_spec, Catalog};
use crate::numbers::{decimal_spec, push_decimal};
use crate::startup::{registry_string, registry_string_spec};
use crate::text::{append_str, push_char};

verus! {

/// The wait-for-Google-Drive setting: whether it is on, the profile it restores, and how
/// long it waits for Google Drive (`None`: without limit).
pub struct WaitDriveConfig {
    pub enabled: bool,
    pub profile: Option<String>,
    pub timeout_secs: Option<u64>,
}

impl Default for WaitDriveConfig {
    fn default() -> (c: Self)
        ensures
            !c.enabled,
            c.profile is None,
            c.timeout_secs is None,
    {
        WaitDriveConfig { enabled: false, profile: None, timeout_secs: None }
    }
}

/// The setting that the copy in the configuration file holds.
pub fn config_from_mirror(mirror: WaitDriveMirror) -> (c: WaitDriveConfig)
    ensures
        c.enabled == mirror.enabled,
        c.profile == mirror.profile,
        c.timeout_secs == mirror.timeout_secs,
{
    WaitDriveConfig {
        enabled: mirror.enabled,
        profile: mirror.profile,
        timeout_secs: mirror.timeout_secs,
    }
}

/// The timeout that a stored DWORD stands for: 0 means no limit.
pub open spec fn timeout_from_dword_spec(v: Option<u32>) -> Option<u64> {
    match v {
        Some(d) => if d == 0 {
            None
        } else {
            Some(d as u64)
        },
        None => None,
    }
}

/// The text of a registry string value, unless it is empty.
pub open spec fn registry_text_spec(bytes: Seq<u8>) -> Option<Seq<char>> {
    if registry_string_spec(bytes).len() == 0 {
        None
    } else {
        Some(registry_string_spec(bytes))
    }
}

/// The text of the profile value, unless it is empty.
pub fn registry_text(bytes: &[u8]) -> (r: Option<String>)
    ensures
        r matches Some(s) ==> registry_text_spec(bytes@) == Some(s@),
        r is None ==> registry_text_spec(bytes@) is None,
{
    let s = registry_string(bytes);
    if s.as_str().is_empty() {
        None
    } else {
        Some(s)
    }
}

/// The setting that the registry holds: on exactly when a profile is stored.
pub fn config_from_registry(profile: Option<String>, timeout_dword: Option<u32>) -> (c: WaitDriveConfig)
    ensures
        c.enabled == profile is Some,
        c.profile == profile,
        c.timeout_secs == timeout_from_dword_spec(timeout_dword),
{
    let timeout_secs = match timeout_dword {
        Some(d) => if d == 0 {
            None
        } else {
            Some(d as u64)
        },
        None => None,
    };
    let enabled = profile.is_some();
    WaitDriveConfig { enabled, profile, timeout_secs }
}

fn copy_name(s: &Option<String>) -> (r: Option<String>)
    ensures
        r == *s,
{
    match s {
        Some(v) => Some(v.clone()),
        None => None,
    }
}

/// The copy of a setting for the configuration file.
pub fn mirror_of(config: &WaitDriveConfig) -> (m: WaitDriveMirror)
    ensures
        m.enabled == config.enabled,
        m.profile == config.profile,
        m.timeout_secs == config.timeout_secs,
{
    WaitDriveMirror {
        enabled: config.enabled,
        profile: copy_name(&config.profile),
        timeout_secs: config.timeout_secs,
    }
}

/// The DWORD stored for a timeout: the seconds cut to 32 bits, or 0 for no limit.
pub fn timeout_dword(timeout_secs: Option<u64>) -> (d: u32)
    ensures
        d == (match timeout_secs {
            Some(t) => t as u32,
            None => 0u32,
        }),
{
    match timeout_secs {
        Some(t) => t as u32,
        None => 0,
    }
}

/// A timeout that fits in 32 bits reads back as itself; no timeout reads back as none.
pub proof fn lemma_timeout_round_trip(timeout_secs: Option<u64>)
    requires
        timeout_secs matches Some(t) ==> 0 < t <= u32::MAX,
    ensures
        timeout_from_dword_spec(Some(match timeout_secs {
            Some(t) => t as u32,
            None => 0u32,
        })) == timeout_secs,
{
}

/// The copy of the setting after turning it on.
pub fn enabled_mirror(profile: &str, timeout_secs: Option<u64>) -> (m: WaitDriveMirror)
    ensures
        m.enabled,
        m.profile matches Some(p) && p@ == profile@,
        m.timeout_secs == timeout_secs,
{
    WaitDriveMirror { enabled: true, profile: Some(profile.to_owned()), timeout_secs }
}

/// The copy of the setting after turning it off.
pub fn disabled_mirror() -> (m: WaitDriveMirror)
    ensures
        !m.enabled,
        m.profile is None,
        m.timeout_secs is None,
{
    WaitDriveMirror { enabled: false, profile: None, timeout_secs: None }
}

/// The command that the Run key holds: `"EXE" wait-drive run`.
pub fn run_entry_command(exe: &str) -> (r: String)
    ensures
        r@ == seq!['"'] + exe@ + "\" wait-drive run"@,
{
    let mut s = String::new();
    push_char(&mut s, '"');
    append_str(&mut s, exe);
    append_str(&mut s, "\" wait-drive run");
    s
}

/// "{seconds}s", or the text for no limit.
pub open spec fn timeout_text_spec(m: Map<Seq<char>, Seq<char>>, timeout_secs: Option<u64>) -> Seq<char> {
    match timeout_secs {
        Some(s) => decimal_spec(s as nat) + seq!['s'],
        None => t_spec(m, "wait_drive.timeout_off"@),
    }
}

/// How a timeout is shown after turning the setting on.
pub fn timeout_text(catalog: &Catalog, timeout_secs: Option<u64>) -> (r: String)
    ensures
        r@ == timeout_text_spec(catalog@, timeout_secs),
{
    match timeout_secs {
        Some(s) => {
            let mut r = String::new();
            push_decimal(&mut r, s);
            push_char(&mut r, 's');
            r
        },
        None => t(catalog, "wait_drive.timeout_off"),
    }
}

/// The message after turning the setting on.
pub fn enable_message(catalog: &Catalog, profile: &str, timeout_secs: Option<u64>) -> (r: String)
    ensures
        r@ == fill_args(
            t_spec(catalog@, "wait_drive.enable_success"@),
            seq![("profile"@, profile@), ("timeout"@, timeout_text_spec(catalog@, timeout_secs))],
        ),
{
    let timeout = timeout_text(catalog, timeout_secs);
    let args = [("profile", profile), ("timeout", timeout.as_str())];
    assert(args_view(args@) == seq![("profile"@, profile@), ("timeout"@, timeout@)]);
    t_args(catalog, "wait_drive.enable_success", &args)
}

/// The status report of the setting.
pub open spec fn status_spec(
    enabled: bool,
    profile: Option<Seq<char>>,
    timeout_secs: Option<u64>,
    m: Map<Seq<char>, Seq<char>>,
) -> Seq<char> {
    if !enabled {
        t_spec(m, "wait_drive.status_disabled"@)
    } else {
        let p = match profile {
            Some(p) => p,
            None => t_spec(m, "wait_drive.profile_undefined"@),
        };
        let timeout = match timeout_secs {
            Some(s) => fill_args(
                t_spec(m, "wait_drive.timeout_on"@),
                seq![("seconds"@, decimal_spec(s as nat))],
            ),
            None => t_spec(m, "wait_drive.timeout_off"@),
        };
        fill_args(t_spec(m, "wait_drive.status_enabled"@), seq![("profile"@, p), ("timeout"@, timeout)])
    }
}

/// The status report of the setting.
pub fn status(config: WaitDriveConfig, catalog: &Catalog) -> (r: String)
    ensures
        r@ == status_spec(
            config.enabled,
            match config.profile {
                Some(p) => Some(p@),
                None => None,
            },
            config.timeout_secs,
            catalog@,
        ),
{
    if !config.enabled {
        return t(catalog, "wait_drive.status_disabled");
    }
    let profile = match config.profile {
        Some(p) => p,
        None => t(catalog, "wait_drive.profile_undefined"),
    };
    let timeout = match config.timeout_secs {
        Some(s) => {
            let secs = crate::numbers::decimal(s);
            let args = [("seconds", secs.as_str())];
            assert(args_view(args@) == seq![("seconds"@, secs@)]);
            t_args(catalog, "wait_drive.timeout_on", &args)
        },
        None => t(catalog, "wait_drive.timeout_off"),
    };
    let args = [("profile", profile.as_str()), ("timeout", timeout.as_str())];
    assert(args_view(args@) == seq![("profile"@, profile@), ("timeout"@, timeout@)]);
    t_args(catalog, "wait_drive.status_enabled", &args)
}

/// Which registry step failed.
#[derive(Debug, Clone, Copy, PartialEq, Eq, Structural)]
pub enum RegistryFailure {
    OpenKey,
    CreateKey,
    Write,
}

/// The message for a registry failure; `error` is the error as the system writes it.
pub fn registry_error(catalog: &Catalog, failure: RegistryFailure, error: &str) -> (r: String)
    ensures
        r@ == fill_args(
            t_spec(
                catalog@,
                match failure {
                    RegistryFailure::OpenKey => "wait_drive.error_open_key"@,
                    RegistryFailure::CreateKey => "wait_drive.error_create_key"@,
                    RegistryFailure::Write => "wait_drive.error_write"@,
                },
            ),
            seq![("error"@, error@)],
        ),
{
    let args = [("error", error)];
    assert(args_view(args@) == seq![("error"@, error@)]);
    match failure {
        RegistryFailure::OpenKey => t_args(catalog, "wait_drive.error_open_key", &args),
        RegistryFailure::CreateKey => t_args(catalog, "wait_drive.error_create_key", &args),
        RegistryFailure::Write => t_args(catalog, "wait_drive.error_write", &args),
    }
}

/// What the run at logon does: the profile to restore and how long to wait for Google Drive.
pub struct RunPlan {
    pub profile: String,
    pub timeout_secs: Option<u64>,
}

/// The run at logon: refused when the setting is off, else the plan. A setting that is on
/// always names a profile (the tool stores both together).
pub fn run_plan(config: WaitDriveConfig) -> (r: Result<RunPlan, ()>)
    requires
        config.enabled ==> config.profile is Some,
    ensures
        r is Err <==> !config.enabled,
        r matches Ok(p) ==> Some(p.profile) == config.profile && p.timeout_secs == config.timeout_secs,
{
    if !config.enabled {
        return Err(());
    }
    match config.profile {
        Some(profile) => Ok(RunPlan { profile, timeout_secs: config.timeout_secs }),
        None => Err(()),
    }
}

} // verus!
