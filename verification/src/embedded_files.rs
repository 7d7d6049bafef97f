//! The definitions that the daemon brings with it. They stand under a prefix that
//! no real directory has, and are found by path like files.

use vstd::prelude::*;
use vstd::string::StringExecFns;
use vstd::string::StrSliceExecFns;
use vstd::utf8::encode_utf8;
use crate::paths::{join, joined, path_begins, starts_with};
use crate::text::str_eq;

verus! {

/// The prefix of every embedded path.
pub const PREFIX: &'static str = "/__WAKETIMED_EMBEDDED__";

/// The directory of the embedded rule definitions.
pub const PREFIX_RULE_DEF: &'static str = "/__WAKETIMED_EMBEDDED__/rule_def";

/// The directory of the embedded variable definitions.
pub const PREFIX_VAR_DEF: &'static str = "/__WAKETIMED_EMBEDDED__/var_def";

/// Stay up while a call is going on.
pub const RULE_CALL_PRESENT: &'static str =
    "kind: !stayup_bool\n  value_script: \"wtd_call_present\"\n";

/// Stay up while an inhibitor blocks sleep.
pub const RULE_SLEEP_BLOCK_INHIBITED: &'static str =
    "kind: !stayup_bool\n  value_script: \"wtd_sleep_block_inhibited\"\n";

/// Stay up while the user is busy.
pub const RULE_USER_BUSY: &'static str = "kind: !stayup_bool\n  value_script: \"wtd_user_busy\"\n";

/// True when a variable of the category of calls is true.
pub const VAR_CALL_PRESENT: &'static str =
    "data_type: bool\nkind: !category_any\n  category_name: wtd_call_present\n";

/// Whether the seat is in use; it counts for the user being busy.
pub const VAR_LOGIN_SEAT_BUSY: &'static str =
    "data_type: bool\ncategories: [wtd_user_busy]\nkind: !builtin_poll\n  \
     builtin_name: login_seat_busy\n";

/// Whether a modem has a voice call; it counts for a call going on.
pub const VAR_MODEM_VOICE_CALL_PRESENT: &'static str =
    "data_type: bool\ncategories: [wtd_call_present]\nkind: !builtin_poll\n  \
     builtin_name: modem_voice_call_present\n";

/// Whether an inhibitor blocks sleep.
pub const VAR_SLEEP_BLOCK_INHIBITED: &'static str =
    "data_type: bool\nkind: !builtin_poll\n  builtin_name: sleep_block_inhibited\n";

/// True when a variable of the category of the user being busy is true.
pub const VAR_USER_BUSY: &'static str =
    "data_type: bool\nkind: !category_any\n  category_name: wtd_user_busy\n";

/// Why an embedded path is refused.
#[derive(Debug, Clone, PartialEq, Eq)]
pub enum EmbeddedError {
    /// The directory is no embedded directory.
    UnknownDir(String),
    /// The path is under no embedded directory.
    UnknownPath(String),
    /// The embedded directory holds no such file.
    NotFound(String),
}

/// An embedded file: its name in its directory, and what it holds.
#[derive(Debug, Clone, Copy, PartialEq, Eq)]
pub struct EmbeddedFile {
    pub name: &'static str,
    pub data: &'static str,
}

/// An embedded file as mathematics.
pub struct FileView {
    pub name: Seq<char>,
    pub data: Seq<char>,
}

impl View for EmbeddedFile {
    type V = FileView;

    open spec fn view(&self) -> FileView {
        FileView { name: self.name@, data: self.data@ }
    }
}

/// A run of embedded files as mathematics.
pub open spec fn file_views(files: Seq<EmbeddedFile>) -> Seq<FileView> {
    files.map_values(|f: EmbeddedFile| f@)
}

/// The embedded rule definitions.
pub open spec fn rule_def_files() -> Seq<FileView> {
    seq![
        FileView { name: "wtd_call_present.yaml"@, data: RULE_CALL_PRESENT@ },
        FileView { name: "wtd_sleep_block_inhibited.yaml"@, data: RULE_SLEEP_BLOCK_INHIBITED@ },
        FileView { name: "wtd_user_busy.yaml"@, data: RULE_USER_BUSY@ },
    ]
}

/// The embedded variable definitions.
pub open spec fn var_def_files() -> Seq<FileView> {
    seq![
        FileView { name: "wtd_call_present.yaml"@, data: VAR_CALL_PRESENT@ },
        FileView { name: "wtd_login_seat_busy.yaml"@, data: VAR_LOGIN_SEAT_BUSY@ },
        FileView {
            name: "wtd_modem_voice_call_present.yaml"@,
            data: VAR_MODEM_VOICE_CALL_PRESENT@,
        },
        FileView { name: "wtd_sleep_block_inhibited.yaml"@, data: VAR_SLEEP_BLOCK_INHIBITED@ },
        FileView { name: "wtd_user_busy.yaml"@, data: VAR_USER_BUSY@ },
    ]
}

/// The embedded rule definitions.
pub fn embedded_rule_defs() -> (files: Vec<EmbeddedFile>)
    ensures
        file_views(files@) == rule_def_files(),
{
    let mut files: Vec<EmbeddedFile> = Vec::new();
    files.push(EmbeddedFile { name: "wtd_call_present.yaml", data: RULE_CALL_PRESENT });
    files.push(
        EmbeddedFile { name: "wtd_sleep_block_inhibited.yaml", data: RULE_SLEEP_BLOCK_INHIBITED },
    );
    files.push(EmbeddedFile { name: "wtd_user_busy.yaml", data: RULE_USER_BUSY });
    assert(file_views(files@) =~= rule_def_files());
    files
}

/// The embedded variable definitions.
pub fn embedded_var_defs() -> (files: Vec<EmbeddedFile>)
    ensures
        file_views(files@) == var_def_files(),
{
    let mut files: Vec<EmbeddedFile> = Vec::new();
    files.push(EmbeddedFile { name: "wtd_call_present.yaml", data: VAR_CALL_PRESENT });
    files.push(EmbeddedFile { name: "wtd_login_seat_busy.yaml", data: VAR_LOGIN_SEAT_BUSY });
    files.push(
        EmbeddedFile {
            name: "wtd_modem_voice_call_present.yaml",
            data: VAR_MODEM_VOICE_CALL_PRESENT,
        },
    );
    files.push(
        EmbeddedFile { name: "wtd_sleep_block_inhibited.yaml", data: VAR_SLEEP_BLOCK_INHIBITED },
    );
    files.push(EmbeddedFile { name: "wtd_user_busy.yaml", data: VAR_USER_BUSY });
    assert(file_views(files@) =~= var_def_files());
    files
}

/// `dir` is one of the two embedded directories.
pub open spec fn is_embedded_dir(dir: Seq<char>) -> bool {
    dir == PREFIX_RULE_DEF@ || dir == PREFIX_VAR_DEF@
}

/// The files of the embedded directory `dir`.
pub open spec fn files_of(dir: Seq<char>) -> Seq<FileView> {
    if dir == PREFIX_RULE_DEF@ {
        rule_def_files()
    } else {
        var_def_files()
    }
}

/// The paths of the files of `dir`: each name adjoined to `dir`.
pub open spec fn entry_paths(dir: Seq<char>, files: Seq<FileView>) -> Seq<Seq<char>> {
    files.map_values(|f: FileView| joined(dir, f.name))
}

/// Whether `dir` is one of the two embedded directories.
pub fn is_existing_embedded_dir(dir: &str) -> (b: bool)
    ensures
        b == is_embedded_dir(dir@),
{
    str_eq(dir, PREFIX_RULE_DEF) || str_eq(dir, PREFIX_VAR_DEF)
}

/// The paths of the files in the embedded directory `dir`, in the order of
/// their names. A directory that is not embedded is refused.
pub fn embedded_dir_entry_paths(dir: &str) -> (r: Result<Vec<String>, EmbeddedError>)
    ensures
        r is Ok <==> is_embedded_dir(dir@),
        r matches Ok(paths) ==> crate::files::texts(paths@) == entry_paths(dir@, files_of(dir@)),
        r matches Err(e) ==> (e matches EmbeddedError::UnknownDir(d) && d@ == dir@),
{
    let files = if str_eq(dir, PREFIX_RULE_DEF) {
        embedded_rule_defs()
    } else if str_eq(dir, PREFIX_VAR_DEF) {
        embedded_var_defs()
    } else {
        return Err(EmbeddedError::UnknownDir(dir.to_owned()));
    };
    let mut paths: Vec<String> = Vec::new();
    let mut i: usize = 0;
    while i < files.len()
        invariant
            i <= files.len(),
            paths@.len() == i,
            forall|j: int| 0 <= j < i ==> (#[trigger] paths@[j])@ == joined(dir@, files@[j]@.name),
        decreases files.len() - i,
    {
        paths.push(join(dir, files[i].name));
        i += 1;
    }
    assert(crate::files::texts(paths@) =~= entry_paths(dir@, files_of(dir@)));
    Ok(paths)
}

/// The path of a file in an embedded directory: the directory, a slash, the name.
pub open spec fn key_of(dir: Seq<char>, name: Seq<char>) -> Seq<char> {
    dir + seq!['/'] + name
}

/// What the file with the path `path` holds, among `files` of `dir`.
pub open spec fn data_of(files: Seq<FileView>, dir: Seq<char>, path: Seq<char>) -> Option<
    Seq<char>,
>
    decreases files.len(),
{
    if files.len() == 0 {
        None
    } else if key_of(dir, files.first().name) == path {
        Some(files.first().data)
    } else {
        data_of(files.drop_first(), dir, path)
    }
}

/// What asking for the embedded file `path` gives, as text.
pub open spec fn embedded_data(path: Seq<char>) -> Option<Seq<char>> {
    if path_begins(path, PREFIX_RULE_DEF@) {
        data_of(rule_def_files(), PREFIX_RULE_DEF@, path)
    } else if path_begins(path, PREFIX_VAR_DEF@) {
        data_of(var_def_files(), PREFIX_VAR_DEF@, path)
    } else {
        None
    }
}

fn find_data(files: &Vec<EmbeddedFile>, dir: &str, path: &str) -> (r: Option<&'static str>)
    ensures
        match r {
            Some(data) => data_of(file_views(files@), dir@, path@) == Some(data@),
            None => data_of(file_views(files@), dir@, path@) is None,
        },
{
    let ghost all = file_views(files@);
    let mut i: usize = 0;
    assert(all.skip(0) =~= all);
    while i < files.len()
        invariant
            i <= files.len(),
            all == file_views(files@),
            data_of(all, dir@, path@) == data_of(all.skip(i as int), dir@, path@),
        decreases files.len() - i,
    {
        proof {
            reveal_strlit("/");
            assert(all.skip(i as int).drop_first() =~= all.skip(i as int + 1));
            assert(all.skip(i as int).first() == files@[i as int]@);
        }
        let key = dir.to_owned().concat("/").concat(files[i].name);
        assert(key@ =~= key_of(dir@, files@[i as int]@.name));
        if str_eq(key.as_str(), path) {
            return Some(files[i].data);
        }
        i += 1;
    }
    assert(all.skip(files.len() as int) =~= Seq::<FileView>::empty());
    None
}

/// What asking for the embedded file `path` gives, where it is known under which
/// embedded directory the path stands.
pub open spec fn embedded_data_under(
    under_rule_defs: bool,
    under_var_defs: bool,
    path: Seq<char>,
) -> Option<Seq<char>> {
    if under_rule_defs {
        data_of(rule_def_files(), PREFIX_RULE_DEF@, path)
    } else if under_var_defs {
        data_of(var_def_files(), PREFIX_VAR_DEF@, path)
    } else {
        None
    }
}

/// What the embedded file `path` holds, where it is given whether the path
/// stands under the directory of the rule definitions, or under that of the
/// variable definitions. A path under neither is refused, and so is a path that
/// no embedded file has.
pub fn embedded_file_data_under(under_rule_defs: bool, under_var_defs: bool, path: &str) -> (r:
    Result<Vec<u8>, EmbeddedError>)
    ensures
        match embedded_data_under(under_rule_defs, under_var_defs, path@) {
            Some(data) => r matches Ok(bytes) && bytes@ == encode_utf8(data),
            None => if under_rule_defs || under_var_defs {
                r matches Err(EmbeddedError::NotFound(p)) && p@ == path@
            } else {
                r matches Err(EmbeddedError::UnknownPath(p)) && p@ == path@
            },
        },
{
    let data = if under_rule_defs {
        find_data(&embedded_rule_defs(), PREFIX_RULE_DEF, path)
    } else if under_var_defs {
        find_data(&embedded_var_defs(), PREFIX_VAR_DEF, path)
    } else {
        return Err(EmbeddedError::UnknownPath(path.to_owned()));
    };
    match data {
        Some(text) => Ok(text.as_bytes_vec()),
        None => Err(EmbeddedError::NotFound(path.to_owned())),
    }
}

/// What the embedded file `path` holds. A path under neither embedded directory
/// is refused, and so is a path that no embedded file has.
pub fn embedded_file_data(path: &str) -> (r: Result<Vec<u8>, EmbeddedError>)
    ensures
        match embedded_data(path@) {
            Some(data) => r matches Ok(bytes) && bytes@ == encode_utf8(data),
            None => if path_begins(path@, PREFIX_RULE_DEF@) || path_begins(path@, PREFIX_VAR_DEF@) {
                r matches Err(EmbeddedError::NotFound(p)) && p@ == path@
            } else {
                r matches Err(EmbeddedError::UnknownPath(p)) && p@ == path@
            },
        },
{
    let under_rule_defs = starts_with(path, PREFIX_RULE_DEF);
    let under_var_defs = starts_with(path, PREFIX_VAR_DEF);
    embedded_file_data_under(under_rule_defs, under_var_defs, path)
}

} // verus!
