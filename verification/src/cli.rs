use vstd::prelude::*;
use crate::i18n::{args_view, fill_args, t, t_args, t_spec, Catalog};
use crate::numbers::{parse_u32, parse_u64, parse_unsigned_spec};
use crate::text::{chars_of, is_blank, is_blank_spec, str_equal, sub_chars};
use crate::types::Resolution;

verus! {

/// A command of the tool, as its arguments name it.
pub enum Command {
    /// `save NAME`: capture the desktop into a profile.
    Save { name: String },
    /// `save-res NAME [WIDTHxHEIGHT]`: capture the desktop as the layout of a resolution.
    SaveRes { name: String, resolution: Option<Resolution> },
    /// `profile-update NAME`: capture the desktop into an existing profile.
    ProfileUpdate { name: String },
    /// `restore NAME`: put the icons back where a profile has them.
    Restore { name: String },
    /// `list`: the saved profiles.
    List,
    /// `lang`: show the language.
    LangShow,
    /// `lang CODE`: choose a language.
    LangSet { code: String },
    /// `startup on NAME`.
    StartupOn { name: String },
    /// `startup off`.
    StartupOff,
    /// `startup [status]`.
    StartupStatus,
    /// `wait-drive on|true NAME [--timeout|-t SECONDS]`.
    WaitDriveOn { name: String, timeout_secs: Option<u64> },
    /// `wait-drive off|false`.
    WaitDriveOff,
    /// `wait-drive [status]`.
    WaitDriveStatus,
    /// `wait-drive run`: the run at logon.
    WaitDriveRun,
    /// `help`, `--help`, `-h` or no command.
    Help,
}

/// A command as plain values.
pub enum CommandView {
    Save { name: Seq<char> },
    SaveRes { name: Seq<char>, resolution: Option<Resolution> },
    ProfileUpdate { name: Seq<char> },
    Restore { name: Seq<char> },
    List,
    LangShow,
    LangSet { code: Seq<char> },
    StartupOn { name: Seq<char> },
    StartupOff,
    StartupStatus,
    WaitDriveOn { name: Seq<char>, timeout_secs: Option<u64> },
    WaitDriveOff,
    WaitDriveStatus,
    WaitDriveRun,
    Help,
}

impl View for Command {
    type V = CommandView;

    open spec fn view(&self) -> CommandView {
        match self {
            Command::Save { name } => CommandView::Save { name: name@ },
            Command::SaveRes { name, resolution } => CommandView::SaveRes {
                name: name@,
                resolution: *resolution,
            },
            Command::ProfileUpdate { name } => CommandView::ProfileUpdate { name: name@ },
            Command::Restore { name } => CommandView::Restore { name: name@ },
            Command::List => CommandView::List,
            Command::LangShow => CommandView::LangShow,
            Command::LangSet { code } => CommandView::LangSet { code: code@ },
            Command::StartupOn { name } => CommandView::StartupOn { name: name@ },
            Command::StartupOff => CommandView::StartupOff,
            Command::StartupStatus => CommandView::StartupStatus,
            Command::WaitDriveOn { name, timeout_secs } => CommandView::WaitDriveOn {
                name: name@,
                timeout_secs: *timeout_secs,
            },
            Command::WaitDriveOff => CommandView::WaitDriveOff,
            Command::WaitDriveStatus => CommandView::WaitDriveStatus,
            Command::WaitDriveRun => CommandView::WaitDriveRun,
            Command::Help => CommandView::Help,
        }
    }
}

/// Why the arguments name no command.
pub enum CliError {
    ProfileNameMissing,
    ProfileNameInvalid,
    ResolutionInvalid { raw: String },
    ResolutionWidthInvalid { raw: String },
    ResolutionHeightInvalid { raw: String },
    ResolutionZero,
    InvalidTimeout,
    StartupMissingProfile,
    StartupUsage,
    WaitDriveMissingProfile,
    WaitDriveUsage,
    UnknownCommand { command: String },
}

/// An argument error as plain values.
pub enum CliErrorView {
    ProfileNameMissing,
    ProfileNameInvalid,
    ResolutionInvalid { raw: Seq<char> },
    ResolutionWidthInvalid { raw: Seq<char> },
    ResolutionHeightInvalid { raw: Seq<char> },
    ResolutionZero,
    InvalidTimeout,
    StartupMissingProfile,
    StartupUsage,
    WaitDriveMissingProfile,
    WaitDriveUsage,
    UnknownCommand { command: Seq<char> },
}

impl View for CliError {
    type V = CliErrorView;

    open spec fn view(&self) -> CliErrorView {
        match self {
            CliError::ProfileNameMissing => CliErrorView::ProfileNameMissing,
            CliError::ProfileNameInvalid => CliErrorView::ProfileNameInvalid,
            CliError::ResolutionInvalid { raw } => CliErrorView::ResolutionInvalid { raw: raw@ },
            CliError::ResolutionWidthInvalid { raw } => CliErrorView::ResolutionWidthInvalid {
                raw: raw@,
            },
            CliError::ResolutionHeightInvalid { raw } => CliErrorView::ResolutionHeightInvalid {
                raw: raw@,
            },
            CliError::ResolutionZero => CliErrorView::ResolutionZero,
            CliError::InvalidTimeout => CliErrorView::InvalidTimeout,
            CliError::StartupMissingProfile => CliErrorView::StartupMissingProfile,
            CliError::StartupUsage => CliErrorView::StartupUsage,
            CliError::WaitDriveMissingProfile => CliErrorView::WaitDriveMissingProfile,
            CliError::WaitDriveUsage => CliErrorView::WaitDriveUsage,
            CliError::UnknownCommand { command } => CliErrorView::UnknownCommand {
                command: command@,
            },
        }
    }
}

/// The characters that a profile name may not hold, since it names a file: \ / : * ? " < > |
pub open spec fn is_forbidden_in_name(c: char) -> bool {
    ||| c == '\\'
    ||| c == '/'
    ||| c == ':'
    ||| c == '*'
    ||| c == '?'
    ||| c == '"'
    ||| c == '<'
    ||| c == '>'
    ||| c == '|'
}

pub open spec fn has_forbidden_char(name: Seq<char>) -> bool {
    exists|i: int| 0 <= i < name.len() && is_forbidden_in_name(#[trigger] name[i])
}

/// Rejects a profile name that holds a character that a file name cannot hold.
pub fn validate_profile_name(name: &str) -> (r: Result<(), CliError>)
    ensures
        r is Ok <==> !has_forbidden_char(name@),
        r matches Err(e) ==> e@ == CliErrorView::ProfileNameInvalid,
{
    let cs = chars_of(name);
    for i in 0..cs.len()
        invariant
            cs@ == name@,
            forall|j: int| 0 <= j < i ==> !is_forbidden_in_name(#[trigger] cs@[j]),
    {
        let c = cs[i];
        if c == '\\' || c == '/' || c == ':' || c == '*' || c == '?' || c == '"' || c == '<' || c
            == '>' || c == '|' {
            return Err(CliError::ProfileNameInvalid);
        }
    }
    Ok(())
}

/// The views of the arguments.
pub open spec fn arg_views(args: Seq<String>) -> Seq<Seq<char>> {
    args.map_values(|s: String| s@)
}

/// The argument at position `i`, if there is one.
pub open spec fn arg_at(a: Seq<Seq<char>>, i: int) -> Option<Seq<char>> {
    if 0 <= i < a.len() {
        Some(a[i])
    } else {
        None
    }
}

/// The argument at `i` unless it is missing or blank.
pub open spec fn nonblank_arg(a: Seq<Seq<char>>, i: int) -> Option<Seq<char>> {
    match arg_at(a, i) {
        Some(s) => if is_blank_spec(s) {
            None
        } else {
            Some(s)
        },
        None => None,
    }
}

/// The profile name of a command: the second argument, present, not blank, and a valid file name.
pub open spec fn profile_name_arg_spec(a: Seq<Seq<char>>) -> Result<Seq<char>, CliErrorView> {
    match nonblank_arg(a, 1) {
        None => Err(CliErrorView::ProfileNameMissing),
        Some(n) => if has_forbidden_char(n) {
            Err(CliErrorView::ProfileNameInvalid)
        } else {
            Ok(n)
        },
    }
}

fn nonblank_at(args: &[String], i: usize) -> (r: Option<&String>)
    ensures
        r matches Some(s) ==> nonblank_arg(arg_views(args@), i as int) == Some(s@),
        r is None ==> nonblank_arg(arg_views(args@), i as int) is None,
{
    if i < args.len() && !is_blank(args[i].as_str()) {
        Some(&args[i])
    } else {
        None
    }
}

/// The profile name that a command names.
pub fn profile_name_arg(args: &[String]) -> (r: Result<String, CliError>)
    ensures
        r matches Ok(n) ==> profile_name_arg_spec(arg_views(args@)) == Ok::<Seq<char>, CliErrorView>(n@),
        r matches Err(e) ==> profile_name_arg_spec(arg_views(args@)) == Err::<Seq<char>, CliErrorView>(e@),
{
    match nonblank_at(args, 1) {
        None => Err(CliError::ProfileNameMissing),
        Some(name) => {
            match validate_profile_name(name.as_str()) {
                Ok(()) => Ok(name.clone()),
                Err(e) => Err(e),
            }
        },
    }
}

// ---------------------------------------------------------------------------
// Resolutions written as WIDTHxHEIGHT.

pub open spec fn is_resolution_separator(c: char) -> bool {
    c == 'x' || c == 'X'
}

/// The position of the first 'x' or 'X'.
pub open spec fn first_separator(s: Seq<char>) -> Option<int>
    decreases s.len(),
{
    if s.len() == 0 {
        None
    } else if is_resolution_separator(s[0]) {
        Some(0)
    } else {
        match first_separator(s.skip(1)) {
            Some(i) => Some(i + 1),
            None => None,
        }
    }
}

/// What `WIDTHxHEIGHT` means: two unsigned 32-bit numbers around the first 'x' or 'X',
/// neither of them zero.
pub open spec fn parse_resolution_spec(raw: Seq<char>) -> Result<Resolution, CliErrorView> {
    match first_separator(raw) {
        None => Err(CliErrorView::ResolutionInvalid { raw }),
        Some(i) => match parse_unsigned_spec(raw.take(i), u32::MAX as nat) {
            None => Err(CliErrorView::ResolutionWidthInvalid { raw }),
            Some(w) => match parse_unsigned_spec(raw.skip(i + 1), u32::MAX as nat) {
                None => Err(CliErrorView::ResolutionHeightInvalid { raw }),
                Some(h) => if w == 0 || h == 0 {
                    Err(CliErrorView::ResolutionZero)
                } else {
                    Ok(Resolution { width: w as u32, height: h as u32 })
                },
            },
        },
    }
}

fn find_separator(cs: &[char]) -> (r: Option<usize>)
    ensures
        r matches Some(i) ==> first_separator(cs@) == Some(i as int) && i < cs@.len(),
        r is None ==> first_separator(cs@) is None,
{
    let n = cs.len();
    let mut i: usize = 0;
    assert(cs@.skip(0) == cs@);
    while i < n
        invariant
            n == cs@.len(),
            i <= n,
            forall|j: int| 0 <= j < i ==> !is_resolution_separator(#[trigger] cs@[j]),
            first_separator(cs@) == (match first_separator(cs@.skip(i as int)) {
                Some(k) => Some(k + i),
                None => None,
            }),
        decreases n - i,
    {
        assert(cs@.skip(i as int)[0] == cs@[i as int]);
        if cs[i] == 'x' || cs[i] == 'X' {
            return Some(i);
        }
        assert(cs@.skip(i as int).skip(1) == cs@.skip(i + 1));
        i = i + 1;
    }
    None
}

/// Reads a resolution written as WIDTHxHEIGHT, such as "1920x1080".
pub fn parse_resolution(raw: &str) -> (r: Result<Resolution, CliError>)
    ensures
        r matches Ok(res) ==> parse_resolution_spec(raw@) == Ok::<Resolution, CliErrorView>(res),
        r matches Err(e) ==> parse_resolution_spec(raw@) == Err::<Resolution, CliErrorView>(e@),
{
    let cs = chars_of(raw);
    match find_separator(cs.as_slice()) {
        None => Err(CliError::ResolutionInvalid { raw: raw.to_owned() }),
        Some(i) => {
            let w_chars = sub_chars(cs.as_slice(), 0, i);
            let h_chars = sub_chars(cs.as_slice(), i + 1, cs.len());
            assert(w_chars@ == raw@.take(i as int));
            assert(h_chars@ == raw@.skip(i + 1));
            match parse_u32(w_chars.as_slice()) {
                None => Err(CliError::ResolutionWidthInvalid { raw: raw.to_owned() }),
                Some(width) => match parse_u32(h_chars.as_slice()) {
                    None => Err(CliError::ResolutionHeightInvalid { raw: raw.to_owned() }),
                    Some(height) => {
                        if width == 0 || height == 0 {
                            Err(CliError::ResolutionZero)
                        } else {
                            Ok(Resolution { width, height })
                        }
                    },
                },
            }
        },
    }
}

// ---------------------------------------------------------------------------
// The timeout option of `wait-drive on`.

pub open spec fn is_timeout_flag(s: Seq<char>) -> bool {
    s == "--timeout"@ || s == "-t"@
}

/// The position of the first "--timeout" or "-t" among the arguments.
pub open spec fn first_timeout_flag(a: Seq<Seq<char>>) -> Option<int>
    decreases a.len(),
{
    if a.len() == 0 {
        None
    } else if is_timeout_flag(a[0]) {
        Some(0)
    } else {
        match first_timeout_flag(a.skip(1)) {
            Some(i) => Some(i + 1),
            None => None,
        }
    }
}

/// The timeout in seconds that follows the first "--timeout" or "-t", if there is such a flag.
pub open spec fn timeout_arg_spec(a: Seq<Seq<char>>) -> Result<Option<u64>, CliErrorView> {
    match first_timeout_flag(a) {
        None => Ok(None),
        Some(p) => match arg_at(a, p + 1) {
            Some(v) => match parse_unsigned_spec(v, u64::MAX as nat) {
                Some(n) => Ok(Some(n as u64)),
                None => Err(CliErrorView::InvalidTimeout),
            },
            None => Err(CliErrorView::InvalidTimeout),
        },
    }
}

/// The timeout in seconds given with "--timeout" or "-t".
pub fn timeout_arg(args: &[String]) -> (r: Result<Option<u64>, CliError>)
    ensures
        r matches Ok(t) ==> timeout_arg_spec(arg_views(args@)) == Ok::<Option<u64>, CliErrorView>(t),
        r matches Err(e) ==> timeout_arg_spec(arg_views(args@)) == Err::<Option<u64>, CliErrorView>(
            e@,
        ),
{
    let ghost a = arg_views(args@);
    let n = args.len();
    let mut i: usize = 0;
    assert(a.skip(0) == a);
    while i < n
        invariant
            a == arg_views(args@),
            n == a.len(),
            i <= n,
            first_timeout_flag(a) == (match first_timeout_flag(a.skip(i as int)) {
                Some(k) => Some(k + i),
                None => None,
            }),
        decreases n - i,
    {
        assert(a.skip(i as int)[0] == args@[i as int]@);
        if str_equal(args[i].as_str(), "--timeout") || str_equal(args[i].as_str(), "-t") {
            assert(first_timeout_flag(a) == Some(i as int));
            if i + 1 < n {
                let cs = chars_of(args[i + 1].as_str());
                return match parse_u64(cs.as_slice()) {
                    Some(v) => Ok(Some(v)),
                    None => Err(CliError::InvalidTimeout),
                };
            } else {
                return Err(CliError::InvalidTimeout);
            }
        }
        assert(a.skip(i as int).skip(1) == a.skip(i + 1));
        i = i + 1;
    }
    Ok(None)
}

// ---------------------------------------------------------------------------
// The commands.

/// Whether the argument at `i` is present and equals `w`.
pub open spec fn arg_is(a: Seq<Seq<char>>, i: int, w: Seq<char>) -> bool {
    arg_at(a, i) == Some(w)
}

/// The `startup` subcommands.
pub open spec fn startup_command_spec(a: Seq<Seq<char>>) -> Result<CommandView, CliErrorView> {
    if arg_is(a, 1, "on"@) {
        match nonblank_arg(a, 2) {
            Some(name) => Ok(CommandView::StartupOn { name }),
            None => Err(CliErrorView::StartupMissingProfile),
        }
    } else if arg_is(a, 1, "off"@) {
        Ok(CommandView::StartupOff)
    } else if arg_is(a, 1, "status"@) || arg_at(a, 1) is None {
        Ok(CommandView::StartupStatus)
    } else {
        Err(CliErrorView::StartupUsage)
    }
}

/// The `wait-drive` subcommands.
pub open spec fn wait_drive_command_spec(a: Seq<Seq<char>>) -> Result<CommandView, CliErrorView> {
    if arg_is(a, 1, "on"@) || arg_is(a, 1, "true"@) {
        match nonblank_arg(a, 2) {
            Some(name) => if has_forbidden_char(name) {
                Err(CliErrorView::ProfileNameInvalid)
            } else {
                match timeout_arg_spec(a) {
                    Ok(timeout_secs) => Ok(CommandView::WaitDriveOn { name, timeout_secs }),
                    Err(e) => Err(e),
                }
            },
            None => Err(CliErrorView::WaitDriveMissingProfile),
        }
    } else if arg_is(a, 1, "off"@) || arg_is(a, 1, "false"@) {
        Ok(CommandView::WaitDriveOff)
    } else if arg_is(a, 1, "status"@) || arg_at(a, 1) is None {
        Ok(CommandView::WaitDriveStatus)
    } else if arg_is(a, 1, "run"@) {
        Ok(CommandView::WaitDriveRun)
    } else {
        Err(CliErrorView::WaitDriveUsage)
    }
}

/// The command that the arguments (after the program name) name, or why they name none.
pub open spec fn parse_command_spec(a: Seq<Seq<char>>) -> Result<CommandView, CliErrorView> {
    if arg_is(a, 0, "save"@) {
        match profile_name_arg_spec(a) {
            Ok(name) => Ok(CommandView::Save { name }),
            Err(e) => Err(e),
        }
    } else if arg_is(a, 0, "save-res"@) {
        match profile_name_arg_spec(a) {
            Ok(name) => match arg_at(a, 2) {
                Some(raw) => match parse_resolution_spec(raw) {
                    Ok(r) => Ok(CommandView::SaveRes { name, resolution: Some(r) }),
                    Err(e) => Err(e),
                },
                None => Ok(CommandView::SaveRes { name, resolution: None }),
            },
            Err(e) => Err(e),
        }
    } else if arg_is(a, 0, "profile-update"@) {
        match profile_name_arg_spec(a) {
            Ok(name) => Ok(CommandView::ProfileUpdate { name }),
            Err(e) => Err(e),
        }
    } else if arg_is(a, 0, "restore"@) {
        match profile_name_arg_spec(a) {
            Ok(name) => Ok(CommandView::Restore { name }),
            Err(e) => Err(e),
        }
    } else if arg_is(a, 0, "list"@) {
        Ok(CommandView::List)
    } else if arg_is(a, 0, "lang"@) {
        match nonblank_arg(a, 1) {
            Some(code) => Ok(CommandView::LangSet { code }),
            None => Ok(CommandView::LangShow),
        }
    } else if arg_is(a, 0, "startup"@) {
        startup_command_spec(a)
    } else if arg_is(a, 0, "wait-drive"@) {
        wait_drive_command_spec(a)
    } else if arg_is(a, 0, "help"@) || arg_is(a, 0, "--help"@) || arg_is(a, 0, "-h"@) || arg_at(
        a,
        0,
    ) is None {
        Ok(CommandView::Help)
    } else {
        Err(CliErrorView::UnknownCommand { command: a[0] })
    }
}

fn arg_equals(args: &[String], i: usize, w: &str) -> (r: bool)
    ensures
        r == arg_is(arg_views(args@), i as int, w@),
{
    i < args.len() && str_equal(args[i].as_str(), w)
}

fn startup_command(args: &[String]) -> (r: Result<Command, CliError>)
    ensures
        r matches Ok(c) ==> startup_command_spec(arg_views(args@)) == Ok::<CommandView, CliErrorView>(c@),
        r matches Err(e) ==> startup_command_spec(arg_views(args@)) == Err::<CommandView, CliErrorView>(e@),
{
    if arg_equals(args, 1, "on") {
        match nonblank_at(args, 2) {
            Some(name) => Ok(Command::StartupOn { name: name.clone() }),
            None => Err(CliError::StartupMissingProfile),
        }
    } else if arg_equals(args, 1, "off") {
        Ok(Command::StartupOff)
    } else if arg_equals(args, 1, "status") || args.len() <= 1 {
        Ok(Command::StartupStatus)
    } else {
        Err(CliError::StartupUsage)
    }
}

fn wait_drive_command(args: &[String]) -> (r: Result<Command, CliError>)
    ensures
        r matches Ok(c) ==> wait_drive_command_spec(arg_views(args@)) == Ok::<CommandView, CliErrorView>(c@),
        r matches Err(e) ==> wait_drive_command_spec(arg_views(args@)) == Err::<CommandView, CliErrorView>(e@),
{
    if arg_equals(args, 1, "on") || arg_equals(args, 1, "true") {
        match nonblank_at(args, 2) {
            Some(name) => {
                validate_profile_name(name.as_str())?;
                let timeout_secs = timeout_arg(args)?;
                Ok(Command::WaitDriveOn { name: name.clone(), timeout_secs })
            },
            None => Err(CliError::WaitDriveMissingProfile),
        }
    } else if arg_equals(args, 1, "off") || arg_equals(args, 1, "false") {
        Ok(Command::WaitDriveOff)
    } else if arg_equals(args, 1, "status") || args.len() <= 1 {
        Ok(Command::WaitDriveStatus)
    } else if arg_equals(args, 1, "run") {
        Ok(Command::WaitDriveRun)
    } else {
        Err(CliError::WaitDriveUsage)
    }
}

/// Reads the command from the arguments that follow the program name.
pub fn parse_command(args: &[String]) -> (r: Result<Command, CliError>)
    ensures
        r matches Ok(c) ==> parse_command_spec(arg_views(args@)) == Ok::<CommandView, CliErrorView>(c@),
        r matches Err(e) ==> parse_command_spec(arg_views(args@)) == Err::<CommandView, CliErrorView>(e@),
{
    if arg_equals(args, 0, "save") {
        let name = profile_name_arg(args)?;
        Ok(Command::Save { name })
    } else if arg_equals(args, 0, "save-res") {
        let name = profile_name_arg(args)?;
        if args.len() > 2 {
            let resolution = parse_resolution(args[2].as_str())?;
            Ok(Command::SaveRes { name, resolution: Some(resolution) })
        } else {
            Ok(Command::SaveRes { name, resolution: None })
        }
    } else if arg_equals(args, 0, "profile-update") {
        let name = profile_name_arg(args)?;
        Ok(Command::ProfileUpdate { name })
    } else if arg_equals(args, 0, "restore") {
        let name = profile_name_arg(args)?;
        Ok(Command::Restore { name })
    } else if arg_equals(args, 0, "list") {
        Ok(Command::List)
    } else if arg_equals(args, 0, "lang") {
        match nonblank_at(args, 1) {
            Some(code) => Ok(Command::LangSet { code: code.clone() }),
            None => Ok(Command::LangShow),
        }
    } else if arg_equals(args, 0, "startup") {
        startup_command(args)
    } else if arg_equals(args, 0, "wait-drive") {
        wait_drive_command(args)
    } else if arg_equals(args, 0, "help") || arg_equals(args, 0, "--help") || arg_equals(
        args,
        0,
        "-h",
    ) || args.len() == 0 {
        Ok(Command::Help)
    } else {
        Err(CliError::UnknownCommand { command: args[0].clone() })
    }
}

// ---------------------------------------------------------------------------
// Messages.

/// The help text.
pub fn help_text(catalog: &Catalog) -> (r: String)
    ensures
        r@ == t_spec(catalog@, "help.text"@),
{
    t(catalog, "help.text")
}

/// The message that reports an argument error.
pub open spec fn error_message_spec(e: CliErrorView, m: Map<Seq<char>, Seq<char>>) -> Seq<char> {
    match e {
        CliErrorView::ProfileNameMissing => t_spec(m, "errors.profile_name_missing"@),
        CliErrorView::ProfileNameInvalid => t_spec(m, "errors.profile_name_invalid"@),
        CliErrorView::ResolutionInvalid { raw } => fill_args(
            t_spec(m, "errors.resolution_invalid"@),
            seq![("raw"@, raw)],
        ),
        CliErrorView::ResolutionWidthInvalid { raw } => fill_args(
            t_spec(m, "errors.resolution_width_invalid"@),
            seq![("raw"@, raw)],
        ),
        CliErrorView::ResolutionHeightInvalid { raw } => fill_args(
            t_spec(m, "errors.resolution_height_invalid"@),
            seq![("raw"@, raw)],
        ),
        CliErrorView::ResolutionZero => t_spec(m, "errors.resolution_zero"@),
        CliErrorView::InvalidTimeout => t_spec(m, "errors.invalid_timeout"@),
        CliErrorView::StartupMissingProfile => t_spec(m, "startup.missing_profile"@),
        CliErrorView::StartupUsage => t_spec(m, "startup.usage"@),
        CliErrorView::WaitDriveMissingProfile => t_spec(m, "wait_drive.missing_profile"@),
        CliErrorView::WaitDriveUsage => t_spec(m, "wait_drive.usage"@),
        CliErrorView::UnknownCommand { command } => fill_args(
            t_spec(m, "errors.unknown_command"@),
            seq![("command"@, command), ("help"@, t_spec(m, "help.text"@))],
        ),
    }
}

impl CliError {
    /// The message that reports the error, in the catalog's language.
    pub fn message(&self, catalog: &Catalog) -> (r: String)
        ensures
            r@ == error_message_spec(self@, catalog@),
    {
        match self {
            CliError::ProfileNameMissing => t(catalog, "errors.profile_name_missing"),
            CliError::ProfileNameInvalid => t(catalog, "errors.profile_name_invalid"),
            CliError::ResolutionInvalid { raw } => {
                let args = [("raw", raw.as_str())];
                assert(args_view(args@) == seq![("raw"@, raw@)]);
                t_args(catalog, "errors.resolution_invalid", &args)
            },
            CliError::ResolutionWidthInvalid { raw } => {
                let args = [("raw", raw.as_str())];
                assert(args_view(args@) == seq![("raw"@, raw@)]);
                t_args(catalog, "errors.resolution_width_invalid", &args)
            },
            CliError::ResolutionHeightInvalid { raw } => {
                let args = [("raw", raw.as_str())];
                assert(args_view(args@) == seq![("raw"@, raw@)]);
                t_args(catalog, "errors.resolution_height_invalid", &args)
            },
            CliError::ResolutionZero => t(catalog, "errors.resolution_zero"),
            CliError::InvalidTimeout => t(catalog, "errors.invalid_timeout"),
            CliError::StartupMissingProfile => t(catalog, "startup.missing_profile"),
            CliError::StartupUsage => t(catalog, "startup.usage"),
            CliError::WaitDriveMissingProfile => t(catalog, "wait_drive.missing_profile"),
            CliError::WaitDriveUsage => t(catalog, "wait_drive.usage"),
            CliError::UnknownCommand { command } => {
                let help = help_text(catalog);
                let args = [("command", command.as_str()), ("help", help.as_str())];
                assert(args_view(args@) == seq![("command"@, command@), ("help"@, help@)]);
                t_args(catalog, "errors.unknown_command", &args)
            },
        }
    }
}

/// `lang CODE` accepts a language that has a document beside the executable or is built in.
pub open spec fn language_available_spec(
    file_exists: bool,
    docs: crate::i18n::BuiltinDocuments,
    code: Seq<char>,
) -> bool {
    file_exists || crate::i18n::embedded_language_spec(docs, code) is Some
}

/// Whether `lang CODE` may choose the language.
pub fn language_available(
    file_exists: bool,
    docs: &crate::i18n::BuiltinDocuments,
    code: &str,
) -> (r: bool)
    ensures
        r == language_available_spec(file_exists, *docs, code@),
{
    file_exists || crate::i18n::embedded_language(docs, code).is_some()
}

// ---------------------------------------------------------------------------
// A resolution's key reads back as the resolution.

proof fn lemma_first_separator_after_digits(a: Seq<char>, rest: Seq<char>)
    requires
        crate::numbers::all_digits(a),
    ensures
        first_separator(a + rest) == (match first_separator(rest) {
            Some(i) => Some(i + a.len()),
            None => None,
        }),
    decreases a.len(),
{
    if a.len() > 0 {
        assert((a + rest)[0] == a[0]);
        assert(crate::numbers::is_ascii_digit(a[0]));
        assert(!is_resolution_separator(a[0]));
        assert((a + rest).skip(1) == a.skip(1) + rest);
        assert(crate::numbers::all_digits(a.skip(1))) by {
            assert forall|i: int| 0 <= i < a.skip(1).len() implies crate::numbers::is_ascii_digit(
                #[trigger] a.skip(1)[i],
            ) by {
                assert(a.skip(1)[i] == a[i + 1]);
            }
        }
        lemma_first_separator_after_digits(a.skip(1), rest);
    } else {
        assert(a + rest == rest);
    }
}

/// The key under which a layout is saved, "WIDTHxHEIGHT", reads back as the resolution.
pub proof fn lemma_resolution_key_round_trip(r: Resolution)
    requires
        r.width > 0,
        r.height > 0,
    ensures
        parse_resolution_spec(crate::types::resolution_key_spec(r)) == Ok::<Resolution, CliErrorView>(r),
{
    let a = crate::numbers::decimal_spec(r.width as nat);
    let b = crate::numbers::decimal_spec(r.height as nat);
    let key = crate::types::resolution_key_spec(r);
    crate::numbers::lemma_decimal_digits(r.width as nat);
    crate::numbers::lemma_parse_decimal(r.width as nat, u32::MAX as nat);
    crate::numbers::lemma_parse_decimal(r.height as nat, u32::MAX as nat);
    assert(key == a + (seq!['x'] + b));
    lemma_first_separator_after_digits(a, seq!['x'] + b);
    assert(first_separator(seq!['x'] + b) == Some(0int));
    assert(key.take(a.len() as int) == a);
    assert(key.skip(a.len() + 1int) == b);
}

// ---------------------------------------------------------------------------
// What the commands name.

/// The lengths of the command words, and the letters that tell apart those of one length.
proof fn lemma_command_words()
    ensures
        "save"@.len() == 4 && "save"@[0] == 's',
        "save-res"@.len() == 8,
        "profile-update"@.len() == 14,
        "restore"@.len() == 7 && "restore"@[0] == 'r',
        "list"@.len() == 4 && "list"@[0] == 'l' && "list"@[1] == 'i',
        "lang"@.len() == 4 && "lang"@[0] == 'l' && "lang"@[1] == 'a',
        "startup"@.len() == 7 && "startup"@[0] == 's',
        "wait-drive"@.len() == 10,
        "help"@.len() == 4 && "help"@[0] == 'h',
        "--help"@.len() == 6,
        "-h"@.len() == 2,
{
    reveal_strlit("save");
    reveal_strlit("save-res");
    reveal_strlit("profile-update");
    reveal_strlit("restore");
    reveal_strlit("list");
    reveal_strlit("lang");
    reveal_strlit("startup");
    reveal_strlit("wait-drive");
    reveal_strlit("help");
    reveal_strlit("--help");
    reveal_strlit("-h");
}

/// The lengths of the subcommand words, and the first letters of the two of length three.
proof fn lemma_subcommand_words()
    ensures
        "on"@.len() == 2,
        "true"@.len() == 4,
        "off"@.len() == 3,
        "false"@.len() == 5,
        "status"@.len() == 6,
        "run"@.len() == 3,
        "off"@[0] == 'o',
        "run"@[0] == 'r',
{
    reveal_strlit("on");
    reveal_strlit("true");
    reveal_strlit("off");
    reveal_strlit("false");
    reveal_strlit("status");
    reveal_strlit("run");
}

/// The command words are told apart: a first argument equal to one of them is equal
/// to no other.
proof fn lemma_command_word_distinct(w: Seq<char>)
    ensures
        w == "save"@ ==> w != "save-res"@ && w != "profile-update"@ && w != "restore"@ && w
            != "list"@ && w != "lang"@ && w != "startup"@ && w != "wait-drive"@,
        w == "restore"@ ==> w != "save"@ && w != "save-res"@ && w != "profile-update"@ && w
            != "list"@ && w != "lang"@ && w != "startup"@ && w != "wait-drive"@,
        w == "profile-update"@ ==> w != "save"@ && w != "save-res"@ && w != "restore"@ && w
            != "list"@ && w != "lang"@ && w != "startup"@ && w != "wait-drive"@,
        w == "startup"@ ==> w != "save"@ && w != "save-res"@ && w != "profile-update"@ && w
            != "restore"@ && w != "list"@ && w != "lang"@ && w != "wait-drive"@,
        w == "wait-drive"@ ==> w != "save"@ && w != "save-res"@ && w != "profile-update"@ && w
            != "restore"@ && w != "list"@ && w != "lang"@ && w != "startup"@,
{
    lemma_command_words();
}

/// `save NAME`, `profile-update NAME` and `restore NAME` name their command with the
/// profile NAME exactly when NAME is given, is not blank and holds no character that a
/// file name cannot hold; a missing or blank NAME is reported as missing, and a NAME
/// with such a character as invalid.
pub proof fn lemma_profile_commands(a: Seq<Seq<char>>)
    requires
        a.len() >= 1,
        a[0] == "save"@ || a[0] == "profile-update"@ || a[0] == "restore"@,
    ensures
        (a.len() < 2 || is_blank_spec(a[1])) ==> parse_command_spec(a) == Err::<
            CommandView,
            CliErrorView,
        >(CliErrorView::ProfileNameMissing),
        (a.len() >= 2 && !is_blank_spec(a[1]) && has_forbidden_char(a[1])) ==> parse_command_spec(a)
            == Err::<CommandView, CliErrorView>(CliErrorView::ProfileNameInvalid),
        (a.len() >= 2 && !is_blank_spec(a[1]) && !has_forbidden_char(a[1]) && a[0] == "save"@)
            ==> parse_command_spec(a) == Ok::<CommandView, CliErrorView>(
            (CommandView::Save { name: a[1] }),
        ),
        (a.len() >= 2 && !is_blank_spec(a[1]) && !has_forbidden_char(a[1]) && a[0]
            == "profile-update"@) ==> parse_command_spec(a) == Ok::<CommandView, CliErrorView>(
            (CommandView::ProfileUpdate { name: a[1] }),
        ),
        (a.len() >= 2 && !is_blank_spec(a[1]) && !has_forbidden_char(a[1]) && a[0] == "restore"@)
            ==> parse_command_spec(a) == Ok::<CommandView, CliErrorView>(
            (CommandView::Restore { name: a[1] }),
        ),
{
    lemma_command_word_distinct(a[0]);
}

/// With no "--timeout" or "-t" among the arguments there is no timeout.
proof fn lemma_no_timeout_flag(a: Seq<Seq<char>>)
    ensures
        (forall|k: int| 0 <= k < a.len() ==> !is_timeout_flag(#[trigger] a[k])) ==> timeout_arg_spec(a)
            == Ok::<Option<u64>, CliErrorView>(None),
    decreases a.len(),
{
    if a.len() > 0 {
        lemma_no_timeout_flag(a.skip(1));
        if forall|k: int| 0 <= k < a.len() ==> !is_timeout_flag(#[trigger] a[k]) {
            assert forall|k: int| 0 <= k < a.skip(1).len() implies !is_timeout_flag(
                #[trigger] a.skip(1)[k],
            ) by {
                assert(a.skip(1)[k] == a[k + 1]);
            }
            assert(!is_timeout_flag(a[0]));
        }
    }
}

/// `wait-drive` alone or `wait-drive status` shows the status, and nothing else does;
/// `off` and `false` turn the setting off; `run` is the run at logon; `on` and `true`
/// turn it on for the profile that follows, which must be given and not blank.
pub proof fn lemma_wait_drive_subcommands(a: Seq<Seq<char>>)
    requires
        a.len() >= 1,
        a[0] == "wait-drive"@,
    ensures
        (a.len() == 1 || a[1] == "status"@) <==> parse_command_spec(a) == Ok::<
            CommandView,
            CliErrorView,
        >(CommandView::WaitDriveStatus),
        (a.len() >= 2 && (a[1] == "off"@ || a[1] == "false"@)) <==> parse_command_spec(a) == Ok::<
            CommandView,
            CliErrorView,
        >(CommandView::WaitDriveOff),
        (a.len() >= 2 && a[1] == "run"@) <==> parse_command_spec(a) == Ok::<
            CommandView,
            CliErrorView,
        >(CommandView::WaitDriveRun),
        (a.len() >= 2 && (a[1] == "on"@ || a[1] == "true"@)) <==> ((parse_command_spec(a) matches Ok(
            c,
        ) && c is WaitDriveOn) || (parse_command_spec(a) matches Err(e) && (e is ProfileNameInvalid
            || e is InvalidTimeout || e is WaitDriveMissingProfile))),
        (a.len() >= 2 && (a[1] == "on"@ || a[1] == "true"@) && (a.len() < 3 || is_blank_spec(a[2])))
            ==> parse_command_spec(a) == Err::<CommandView, CliErrorView>(
            CliErrorView::WaitDriveMissingProfile,
        ),
        (a.len() >= 3 && (a[1] == "on"@ || a[1] == "true"@) && !is_blank_spec(a[2])
            && has_forbidden_char(a[2])) ==> parse_command_spec(a) == Err::<CommandView, CliErrorView>(
            CliErrorView::ProfileNameInvalid,
        ),
        (a.len() >= 3 && (a[1] == "on"@ || a[1] == "true"@) && !is_blank_spec(a[2])
            && !has_forbidden_char(a[2]) && (forall|k: int| 0 <= k < a.len() ==> !is_timeout_flag(
            #[trigger] a[k],
        ))) ==> parse_command_spec(a) == Ok::<CommandView, CliErrorView>(
            (CommandView::WaitDriveOn { name: a[2], timeout_secs: None }),
        ),
{
    lemma_no_timeout_flag(a);
    lemma_command_word_distinct(a[0]);
    lemma_subcommand_words();
    assert(parse_command_spec(a) == wait_drive_command_spec(a));
}

/// `startup` alone or `startup status` shows the status, and nothing else does; `off`
/// turns the start with Windows off; `on NAME` turns it on for the profile NAME, which
/// must be given and not blank.
pub proof fn lemma_startup_subcommands(a: Seq<Seq<char>>)
    requires
        a.len() >= 1,
        a[0] == "startup"@,
    ensures
        (a.len() == 1 || a[1] == "status"@) <==> parse_command_spec(a) == Ok::<
            CommandView,
            CliErrorView,
        >(CommandView::StartupStatus),
        (a.len() >= 2 && a[1] == "off"@) <==> parse_command_spec(a) == Ok::<
            CommandView,
            CliErrorView,
        >(CommandView::StartupOff),
        (a.len() >= 2 && a[1] == "on"@) <==> ((parse_command_spec(a) matches Ok(c) && c is StartupOn)
            || parse_command_spec(a) == Err::<CommandView, CliErrorView>(
            CliErrorView::StartupMissingProfile,
        )),
        (a.len() >= 3 && a[1] == "on"@ && !is_blank_spec(a[2])) ==> parse_command_spec(a) == Ok::<
            CommandView,
            CliErrorView,
        >((CommandView::StartupOn { name: a[2] })),
        (a.len() >= 2 && a[1] == "on"@ && (a.len() < 3 || is_blank_spec(a[2])))
            ==> parse_command_spec(a) == Err::<CommandView, CliErrorView>(
            CliErrorView::StartupMissingProfile,
        ),
        (a.len() >= 2 && a[1] != "on"@ && a[1] != "off"@ && a[1] != "status"@)
            ==> parse_command_spec(a) == Err::<CommandView, CliErrorView>(CliErrorView::StartupUsage),
{
    lemma_command_word_distinct(a[0]);
    lemma_subcommand_words();
    assert(parse_command_spec(a) == startup_command_spec(a));
}

/// A first argument that is no command word, nor `help`, `--help` or `-h`, is reported
/// as an unknown command, by itself.
pub proof fn lemma_unknown_command(a: Seq<Seq<char>>)
    requires
        a.len() >= 1,
        a[0] != "save"@,
        a[0] != "save-res"@,
        a[0] != "profile-update"@,
        a[0] != "restore"@,
        a[0] != "list"@,
        a[0] != "lang"@,
        a[0] != "startup"@,
        a[0] != "wait-drive"@,
        a[0] != "help"@,
        a[0] != "--help"@,
        a[0] != "-h"@,
    ensures
        parse_command_spec(a) == Err::<CommandView, CliErrorView>(
            (CliErrorView::UnknownCommand { command: a[0] }),
        ),
{
}

} // verus!
