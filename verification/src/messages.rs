use vstd::prelude::*;
use crate::i18n::{args_view, fill_args, t, t_args, t_spec, Catalog};
use crate::numbers::{decimal, decimal_spec};
use crate::profiles::{join_lines, join_lines_spec, texts};
use crate::types::{resolution_key_spec, Resolution};

verus! {

/// The report of a command that succeeded or failed.
pub open spec fn message_spec(
    m: Map<Seq<char>, Seq<char>>,
    key: Seq<char>,
    args: Seq<(Seq<char>, Seq<char>)>,
) -> Seq<char> {
    fill_args(t_spec(m, key), args)
}

/// `save`: the profile, how many icons it holds, and the resolution.
pub fn save_success(catalog: &Catalog, name: &str, icons: usize, resolution: Resolution) -> (r: String)
    ensures
        r@ == message_spec(
            catalog@,
            "save.success"@,
            seq![
                ("name"@, name@),
                ("count"@, decimal_spec(icons as nat)),
                ("width"@, decimal_spec(resolution.width as nat)),
                ("height"@, decimal_spec(resolution.height as nat)),
            ],
        ),
{
    let count = decimal(icons as u64);
    let width = decimal(resolution.width as u64);
    let height = decimal(resolution.height as u64);
    let args = [
        ("name", name),
        ("count", count.as_str()),
        ("width", width.as_str()),
        ("height", height.as_str()),
    ];
    assert(args_view(args@) == seq![
        ("name"@, name@),
        ("count"@, count@),
        ("width"@, width@),
        ("height"@, height@),
    ]);
    t_args(catalog, "save.success", &args)
}

/// `save-res`: the profile, how many icons the layout holds, and its resolution key.
pub fn save_res_success(catalog: &Catalog, name: &str, icons: usize, resolution: Resolution) -> (r:
    String)
    ensures
        r@ == message_spec(
            catalog@,
            "save_res.success"@,
            seq![
                ("name"@, name@),
                ("count"@, decimal_spec(icons as nat)),
                ("resolution"@, resolution_key_spec(resolution)),
            ],
        ),
{
    let count = decimal(icons as u64);
    let key = crate::types::resolution_key(resolution);
    let args = [("name", name), ("count", count.as_str()), ("resolution", key.as_str())];
    assert(args_view(args@) == seq![("name"@, name@), ("count"@, count@), ("resolution"@, key@)]);
    t_args(catalog, "save_res.success", &args)
}

/// `profile-update`: the profile, how many icons it now holds, and the resolution.
pub fn profile_update_success(
    catalog: &Catalog,
    name: &str,
    icons: usize,
    resolution: Resolution,
) -> (r: String)
    ensures
        r@ == message_spec(
            catalog@,
            "profile_update.success"@,
            seq![
                ("name"@, name@),
                ("count"@, decimal_spec(icons as nat)),
                ("width"@, decimal_spec(resolution.width as nat)),
                ("height"@, decimal_spec(resolution.height as nat)),
            ],
        ),
{
    let count = decimal(icons as u64);
    let width = decimal(resolution.width as u64);
    let height = decimal(resolution.height as u64);
    let args = [
        ("name", name),
        ("count", count.as_str()),
        ("width", width.as_str()),
        ("height", height.as_str()),
    ];
    assert(args_view(args@) == seq![
        ("name"@, name@),
        ("count"@, count@),
        ("width"@, width@),
        ("height"@, height@),
    ]);
    t_args(catalog, "profile_update.success", &args)
}

/// A message about one profile, under `key`, with the argument "name".
pub fn profile_message(catalog: &Catalog, key: &str, name: &str) -> (r: String)
    ensures
        r@ == message_spec(catalog@, key@, seq![("name"@, name@)]),
{
    let args = [("name", name)];
    assert(args_view(args@) == seq![("name"@, name@)]);
    t_args(catalog, key, &args)
}

/// `restore`, and the end of the run at logon (`key`): the profile, how many icons were
/// moved, and how many it holds.
pub fn restored(catalog: &Catalog, key: &str, name: &str, moved: usize, icons: usize) -> (r: String)
    ensures
        r@ == message_spec(
            catalog@,
            key@,
            seq![
                ("name"@, name@),
                ("moved"@, decimal_spec(moved as nat)),
                ("count"@, decimal_spec(icons as nat)),
            ],
        ),
{
    let moved_text = decimal(moved as u64);
    let count = decimal(icons as u64);
    let args = [("name", name), ("moved", moved_text.as_str()), ("count", count.as_str())];
    assert(args_view(args@) == seq![("name"@, name@), ("moved"@, moved_text@), ("count"@, count@)]);
    t_args(catalog, key, &args)
}

/// `list`: the empty-list message, or the profiles one per line.
pub fn list_message(catalog: &Catalog, profiles: &[String]) -> (r: String)
    ensures
        r@ == (if profiles@.len() == 0 {
            t_spec(catalog@, "list.empty"@)
        } else {
            message_spec(catalog@, "list.some"@, seq![("list"@, join_lines_spec(texts(profiles@)))])
        }),
{
    if profiles.len() == 0 {
        t(catalog, "list.empty")
    } else {
        let list = join_lines(profiles);
        let args = [("list", list.as_str())];
        assert(args_view(args@) == seq![("list"@, list@)]);
        t_args(catalog, "list.some", &args)
    }
}

/// A message about a language, under `key`, with the argument "lang".
pub fn language_message(catalog: &Catalog, key: &str, lang: &str) -> (r: String)
    ensures
        r@ == message_spec(catalog@, key@, seq![("lang"@, lang@)]),
{
    let args = [("lang", lang)];
    assert(args_view(args@) == seq![("lang"@, lang@)]);
    t_args(catalog, key, &args)
}

/// A failure, under "errors.generic", with the argument "error".
pub fn generic_error(catalog: &Catalog, error: &str) -> (r: String)
    ensures
        r@ == message_spec(catalog@, "errors.generic"@, seq![("error"@, error@)]),
{
    let args = [("error", error)];
    assert(args_view(args@) == seq![("error"@, error@)]);
    t_args(catalog, "errors.generic", &args)
}

/// A profile file that cannot be read: its name and path.
pub fn profile_not_found(catalog: &Catalog, name: &str, path: &str) -> (r: String)
    ensures
        r@ == message_spec(
            catalog@,
            "errors.profile_not_found"@,
            seq![("name"@, name@), ("path"@, path@)],
        ),
{
    let args = [("name", name), ("path", path)];
    assert(args_view(args@) == seq![("name"@, name@), ("path"@, path@)]);
    t_args(catalog, "errors.profile_not_found", &args)
}

/// A profile file that is not a valid profile: the parser's error.
pub fn profile_invalid(catalog: &Catalog, error: &str) -> (r: String)
    ensures
        r@ == message_spec(catalog@, "errors.profile_invalid"@, seq![("error"@, error@)]),
{
    let args = [("error", error)];
    assert(args_view(args@) == seq![("error"@, error@)]);
    t_args(catalog, "errors.profile_invalid", &args)
}

/// How the run at logon describes its timeout: "wait_drive.run_timeout_suffix" with the
/// seconds, or "wait_drive.run_no_timeout_suffix".
pub open spec fn run_timeout_suffix_spec(m: Map<Seq<char>, Seq<char>>, timeout_secs: Option<u64>) -> Seq<
    char,
> {
    match timeout_secs {
        Some(s) => message_spec(
            m,
            "wait_drive.run_timeout_suffix"@,
            seq![("seconds"@, decimal_spec(s as nat))],
        ),
        None => t_spec(m, "wait_drive.run_no_timeout_suffix"@),
    }
}

/// The run at logon starts waiting: for which process, and for how long.
pub fn run_waiting(catalog: &Catalog, process: &str, timeout_secs: Option<u64>) -> (r: String)
    ensures
        r@ == message_spec(
            catalog@,
            "wait_drive.run_waiting"@,
            seq![("process"@, process@), ("timeout"@, run_timeout_suffix_spec(catalog@, timeout_secs))],
        ),
{
    let suffix = match timeout_secs {
        Some(s) => {
            let secs = decimal(s);
            let args = [("seconds", secs.as_str())];
            assert(args_view(args@) == seq![("seconds"@, secs@)]);
            t_args(catalog, "wait_drive.run_timeout_suffix", &args)
        },
        None => t(catalog, "wait_drive.run_no_timeout_suffix"),
    };
    let args = [("process", process), ("timeout", suffix.as_str())];
    assert(args_view(args@) == seq![("process"@, process@), ("timeout"@, suffix@)]);
    t_args(catalog, "wait_drive.run_waiting", &args)
}

/// The run at logon found Google Drive: after how many seconds, and the profile it restores.
pub fn run_detected(catalog: &Catalog, waited_secs: u64, name: &str) -> (r: String)
    ensures
        r@ == message_spec(
            catalog@,
            "wait_drive.run_detected"@,
            seq![("seconds"@, decimal_spec(waited_secs as nat)), ("name"@, name@)],
        ),
{
    let secs = decimal(waited_secs);
    let args = [("seconds", secs.as_str()), ("name", name)];
    assert(args_view(args@) == seq![("seconds"@, secs@), ("name"@, name@)]);
    t_args(catalog, "wait_drive.run_detected", &args)
}

} // verus!
