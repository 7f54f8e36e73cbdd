//! Location of the application's data directory.
use vstd::prelude::*;

verus! {

/// Persistent configuration that records the user-chosen data directory.
#[derive(Debug, Clone, PartialEq, Eq)]
pub struct DataDirConfig {
    pub data_dir: String,
}

/// The resolved data directory path.
#[derive(Debug, Clone, PartialEq, Eq)]
pub struct DataDir(pub String);

/// The file beside the executable that records the data directory.
pub const CONFIG_FILE: &'static str = "data-path.json";

/// The data directory's name beside the executable when none is configured.
pub const DEFAULT_DATA_SUBDIR: &'static str = "data";

/// The names of the data files that a migration copies.
pub const DATA_FILES: [&'static str; 3] = ["qtools.db", "agent-settings.json", "canvas-settings.json"];

/// `path` joined onto `base` (Unix `Path::join`): an absolute `path`
/// replaces `base`; otherwise a `/` separates them unless `base` is empty or
/// already ends with one.
pub open spec fn spec_join(base: Seq<char>, path: Seq<char>) -> Seq<char> {
    if path.len() > 0 && path[0] == '/' {
        path
    } else if base.len() == 0 || base.last() == '/' {
        base + path
    } else {
        base + seq!['/'] + path
    }
}

/// Resolve a potentially relative path against a base directory.
pub fn resolve_relative(base: &str, path_str: &str) -> (r: String)
    ensures
        r@ == spec_join(base@, path_str@),
{
    let p = crate::text::chars_of(path_str);
    if p.len() > 0 && p[0] == '/' {
        return String::from_str(path_str);
    }
    let b = crate::text::chars_of(base);
    let mut r = String::from_str(base);
    if !(b.len() == 0 || b[b.len() - 1] == '/') {
        crate::text::push_char(&mut r, '/');
    }
    r.append(path_str);
    r
}

/// The configuration written when none exists: `./data`.
pub fn default_config() -> (c: DataDirConfig)
    ensures
        c.data_dir@ == "./data"@,
{
    DataDirConfig { data_dir: String::from_str("./data") }
}

/// The data directory chosen from the configuration beside the executable in
/// `exe_dir`: the configured path resolved against `exe_dir`, or
/// `{exe_dir}/data` when there is no readable configuration.
pub fn data_dir_from_config(exe_dir: &str, config: Option<DataDirConfig>) -> (r: String)
    ensures
        r@ == match config {
            Some(c) => spec_join(exe_dir@, c.data_dir@),
            None => spec_join(exe_dir@, DEFAULT_DATA_SUBDIR@),
        },
{
    match config {
        Some(c) => resolve_relative(exe_dir, c.data_dir.as_str()),
        None => resolve_relative(exe_dir, DEFAULT_DATA_SUBDIR),
    }
}

} // verus!

verus! {

/// An absolute path is used as it is; a relative one is placed under the
/// base directory: the result starts with the base and ends with the path.
pub proof fn lemma_join(base: Seq<char>, path: Seq<char>)
    ensures
        path.len() > 0 && path[0] == '/' ==> spec_join(base, path) == path,
        !(path.len() > 0 && path[0] == '/') ==> spec_join(base, path).take(base.len() as int)
            == base,
        spec_join(base, path).len() >= path.len() && spec_join(base, path).skip(
            spec_join(base, path).len() - path.len(),
        ) == path,
{
    let j = spec_join(base, path);
    assert(j.skip(j.len() - path.len()) =~= path);
    if !(path.len() > 0 && path[0] == '/') {
        assert(j.take(base.len() as int) =~= base);
    }
}

} // verus!
