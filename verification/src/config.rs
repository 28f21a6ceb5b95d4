use vstd::prelude::*;

verus! {

/// The language a new configuration starts with.
pub open spec fn default_language_spec() -> Seq<char> {
    seq!['e', 'n', '-', 'u', 's']
}

/// The language used when the configuration names none: "en-us".
pub fn default_language() -> (r: String)
    ensures
        r@ == default_language_spec(),
{
    let r = "en-us".to_owned();
    proof {
        reveal_strlit("en-us");
    }
    r
}

/// The copy, kept in the configuration file, of the start-with-Windows setting.
pub struct StartupMirror {
    pub enabled: bool,
    pub profile: Option<String>,
    pub command: Option<String>,
}

/// The copy, kept in the configuration file, of the wait-for-Google-Drive setting.
pub struct WaitDriveMirror {
    pub enabled: bool,
    pub profile: Option<String>,
    pub timeout_secs: Option<u64>,
}

/// The persistent configuration of the command line tool.
pub struct CliConfig {
    pub language: String,
    pub startup: Option<StartupMirror>,
    pub wait_drive: Option<WaitDriveMirror>,
}

impl Default for CliConfig {
    fn default() -> (c: Self)
        ensures
            c.language@ == default_language_spec(),
            c.startup is None,
            c.wait_drive is None,
    {
        CliConfig { language: default_language(), startup: None, wait_drive: None }
    }
}

/// A fresh configuration: the default language and no mirrored settings.
pub fn default_config() -> (c: CliConfig)
    ensures
        c.language@ == default_language_spec(),
        c.startup is None,
        c.wait_drive is None,
{
    CliConfig { language: default_language(), startup: None, wait_drive: None }
}

/// What reading the configuration file gave.
pub enum ConfigRead {
    /// The folder of the executable could not be determined.
    NoPath,
    /// The file could not be read (it does not exist yet).
    Unreadable,
    /// The file was read; `None` when its text is not a valid configuration.
    Parsed(Option<CliConfig>),
}

/// The configuration to use after reading the file, and whether the defaults must be
/// written to create the file.
pub fn resolve_config(read: ConfigRead) -> (r: (CliConfig, bool))
    ensures
        read matches ConfigRead::Parsed(Some(c)) ==> r.0 == c && !r.1,
        !(read matches ConfigRead::Parsed(Some(_))) ==> r.0.language@ == default_language_spec()
            && r.0.startup is None && r.0.wait_drive is None,
        r.1 == (read is Unreadable),
{
    match read {
        ConfigRead::Parsed(Some(c)) => (c, false),
        ConfigRead::Parsed(None) => (default_config(), false),
        ConfigRead::NoPath => (default_config(), false),
        ConfigRead::Unreadable => (default_config(), true),
    }
}

/// The configured language.
pub fn get_language(config: CliConfig) -> (r: String)
    ensures
        r == config.language,
{
    config.language
}

/// Sets the language, leaving the rest of the configuration as it was.
pub fn set_language(config: &mut CliConfig, language: &str)
    ensures
        final(config).language@ == language@,
        final(config).startup == old(config).startup,
        final(config).wait_drive == old(config).wait_drive,
{
    config.language = language.to_owned();
}

/// The mirrored start-with-Windows setting.
pub fn get_startup(config: CliConfig) -> (r: Option<StartupMirror>)
    ensures
        r == config.startup,
{
    config.startup
}

/// Replaces the mirrored start-with-Windows setting, leaving the rest as it was.
pub fn set_startup(config: &mut CliConfig, mirror: Option<StartupMirror>)
    ensures
        final(config).startup == mirror,
        final(config).language == old(config).language,
        final(config).wait_drive == old(config).wait_drive,
{
    config.startup = mirror;
}

/// The mirrored wait-for-Google-Drive setting.
pub fn get_wait_drive(config: CliConfig) -> (r: Option<WaitDriveMirror>)
    ensures
        r == config.wait_drive,
{
    config.wait_drive
}

/// Replaces the mirrored wait-for-Google-Drive setting, leaving the rest as it was.
pub fn set_wait_drive(config: &mut CliConfig, mirror: Option<WaitDriveMirror>)
    ensures
        final(config).wait_drive == mirror,
        final(config).language == old(config).language,
        final(config).startup == old(config).startup,
{
    config.wait_drive = mirror;
}

} // verus!
