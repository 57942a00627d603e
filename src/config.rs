//! Configuration files: where they are, and the checks made when they are
//! loaded and saved.
use vstd::prelude::*;
use crate::error::AppError;
use crate::error::IoErrorKind;
use crate::error::join_text;
use crate::json::is_invalid_json_error;
use crate::json::is_json_text;
use crate::json::validate_json;
use crate::jsonc::strip_jsonc_comments;
use crate::jsonc::stripped;
use crate::text::chars_of;
use crate::text::trim_text;
use crate::text::trimmed;
use crate::writer::add_config_comments;
use crate::writer::config_header;

verus! {

/// A configuration file's raw text and where it was read from.
#[derive(Debug, Clone)]
pub struct WaybarConfigFile {
    pub content: String,
    pub path: String,
}

/// Where the configuration lives.
#[derive(Debug, Clone)]
pub struct ConfigPaths {
    pub config_dir: String,
    pub config_file: String,
    pub style_file: String,
}

/// `name` joined to the directory `dir`, with one `/` between them.
pub open spec fn path_join(dir: Seq<char>, name: Seq<char>) -> Seq<char> {
    if dir.len() == 0 {
        name
    } else if dir.last() == '/' {
        dir + name
    } else {
        dir + seq!['/'] + name
    }
}

/// The names that a configuration file may have, in order of preference.
pub open spec fn config_file_names() -> Seq<Seq<char>> {
    seq!["config.jsonc"@, "config"@]
}

/// `name` joined to the directory `dir` (see `path_join`).
pub fn join_path(dir: &str, name: &str) -> (r: String)
    ensures
        r@ == path_join(dir@, name@),
{
    let v = chars_of(dir);
    if v.len() == 0 {
        String::from_str(name)
    } else if v[v.len() - 1] == '/' {
        join_text(dir, name)
    } else {
        let with_slash = join_text(dir, "/");
        proof {
            reveal_strlit("/");
        }
        assert(with_slash@ + name@ =~= dir@ + seq!['/'] + name@);
        join_text(with_slash.as_str(), name)
    }
}

/// The paths at which the configuration file of `config_dir` is looked for.
pub fn config_file_candidates(config_dir: &str) -> (r: Vec<String>)
    ensures
        r@.len() == 2,
        forall|i: int| 0 <= i < 2 ==> #[trigger] r@[i]@ == path_join(config_dir@, config_file_names()[i]),
{
    let a = join_path(config_dir, "config.jsonc");
    let b = join_path(config_dir, "config");
    vec![a, b]
}

impl ConfigPaths {
    /// The default paths under the home directory `home`; an error when it is
    /// not known.
    pub fn default(home: Option<&str>) -> (r: Result<ConfigPaths, AppError>)
        ensures
            home is None ==> r is Err && r->Err_0 is Config && r->Err_0->Config_0@
                == "HOME environment variable not set"@,
            home is Some ==> r is Ok && r->Ok_0.config_dir@ == home->0@ + "/.config/waybar"@
                && r->Ok_0.config_file@ == home->0@ + "/.config/waybar"@ + "/config.jsonc"@
                && r->Ok_0.style_file@ == home->0@ + "/.config/waybar"@ + "/style.css"@,
    {
        match home {
            None => Err(AppError::Config(String::from_str("HOME environment variable not set"))),
            Some(h) => {
                let dir = join_text(h, "/.config/waybar");
                let file = join_text(dir.as_str(), "/config.jsonc");
                let style = join_text(dir.as_str(), "/style.css");
                Ok(ConfigPaths { config_dir: dir, config_file: file, style_file: style })
            },
        }
    }

    /// The configuration file of `config_dir`: the first candidate (see
    /// `config_file_candidates`) that is present, `present[i]` telling whether
    /// the `i`-th is; a missing entry counts as absent.
    pub fn detect_config_file(config_dir: &str, present: &Vec<bool>) -> (r: Option<String>)
        ensures
            (present@.len() > 0 && present@[0]) ==> r is Some && r->0@ == path_join(config_dir@, "config.jsonc"@),
            !(present@.len() > 0 && present@[0]) && (present@.len() > 1 && present@[1]) ==> r is Some && r->0@
                == path_join(config_dir@, "config"@),
            !(present@.len() > 0 && present@[0]) && !(present@.len() > 1 && present@[1]) ==> r is None,
    {
        if present.len() > 0 && present[0] {
            Some(join_path(config_dir, "config.jsonc"))
        } else if present.len() > 1 && present[1] {
            Some(join_path(config_dir, "config"))
        } else {
            None
        }
    }
}

/// The paths found on disk: an error when the directory is missing, else the
/// paths with the detected configuration file, if one was found.
pub fn settle_config_paths(paths: ConfigPaths, dir_exists: bool, detected: Option<String>) -> (r: Result<ConfigPaths, AppError>)
    ensures
        !dir_exists ==> r is Err && r->Err_0 is NotFound && r->Err_0->NotFound_0@
            == "Waybar config directory not found at: "@ + paths.config_dir@,
        dir_exists ==> r is Ok && r->Ok_0.config_dir == paths.config_dir && r->Ok_0.style_file
            == paths.style_file,
        dir_exists && detected is Some ==> r->Ok_0.config_file == detected->0,
        dir_exists && detected is None ==> r->Ok_0.config_file == paths.config_file,
{
    if !dir_exists {
        return Err(AppError::NotFound(join_text("Waybar config directory not found at: ", paths.config_dir.as_str())));
    }
    match detected {
        Some(f) => Ok(ConfigPaths { config_dir: paths.config_dir, config_file: f, style_file: paths.style_file }),
        None => Ok(paths),
    }
}

/// The error for a failed read of the `what` file at `path`: a missing file is
/// named as such, other failures keep their kind.
pub fn read_failure(what: &str, path: &str, kind: IoErrorKind, message: String) -> (r: AppError)
    ensures
        kind == IoErrorKind::NotFound ==> r is NotFound && r->NotFound_0@ == what@ + " file not found: "@ + path@,
        kind == IoErrorKind::PermissionDenied ==> r == AppError::PermissionDenied(message),
        kind == IoErrorKind::AlreadyExists ==> r == AppError::AlreadyExists(message),
        kind == IoErrorKind::Other ==> r == AppError::Io(message),
{
    match kind {
        IoErrorKind::NotFound => {
            let head = join_text(what, " file not found: ");
            AppError::NotFound(join_text(head.as_str(), path))
        },
        _ => AppError::from_io(kind, message),
    }
}

/// Accepts a loaded configuration when its text, comments removed, is JSON.
pub fn load_config_text(path: String, content: String) -> (r: Result<WaybarConfigFile, AppError>)
    ensures
        r is Ok <==> is_json_text(stripped(content@)),
        r is Ok ==> r->Ok_0.content == content && r->Ok_0.path == path,
        r is Err ==> is_invalid_json_error(r->Err_0),
{
    let plain = strip_jsonc_comments(content.as_str());
    match validate_json(plain.as_str()) {
        Ok(()) => Ok(WaybarConfigFile { content, path }),
        Err(e) => Err(e),
    }
}

/// The text to save for the configuration `content`: it must be strict JSON,
/// and gets the header in front.
pub fn prepare_config_save(content: &str) -> (r: Result<String, AppError>)
    ensures
        r is Ok <==> is_json_text(content@),
        r is Ok ==> r->Ok_0@ == config_header() + content@,
        r is Err ==> is_invalid_json_error(r->Err_0),
{
    match validate_json(content) {
        Ok(()) => Ok(add_config_comments(content)),
        Err(e) => Err(e),
    }
}

/// Refuses a style sheet that is empty or only whitespace.
pub fn check_css(content: &str) -> (r: Result<(), AppError>)
    ensures
        r is Ok <==> trimmed(content@).len() > 0,
        r is Err ==> r->Err_0 is Validation && r->Err_0->Validation_0@ == "CSS content cannot be empty"@,
{
    let t = trim_text(content);
    if t.unicode_len() == 0 {
        Err(AppError::Validation(String::from_str("CSS content cannot be empty")))
    } else {
        Ok(())
    }
}

} // verus!
