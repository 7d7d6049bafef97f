use waketimed::files::{
    dirs_entry_paths, entries_of_dir, into_existing_dirs, keep_definition_files, list_yaml_files,
    list_yaml_files_in_dirs, load_rule_defs, load_var_defs, parse_rule_def, parse_var_def,
    rule_def_named, split_by_file_names, unique_and_overriden_paths_from, var_def_named, DefFile,
    DirProbe, FilesError, NamedPath, PathExtension, VarDefBody,
};
use waketimed::params::Params;
use waketimed::rules::{RuleKind, RuleName, RuleNameError, StayupBoolDef};
use waketimed::vars::{BuiltinPollDef, VarDataType, VarKind, VarName, VarNameError};

fn poll_body(builtin: &str) -> VarDefBody {
    VarDefBody {
        data_type: VarDataType::Bool,
        categories: Vec::new(),
        kind: VarKind::BuiltinPoll(BuiltinPollDef {
            builtin_name: builtin.to_string(),
            params: Params::new(),
        }),
    }
}

#[test]
fn test_unique_and_overriden_paths() -> Result<(), FilesError> {
    let paths = vec![
        "/original/overriden_variable_def.yaml".to_string(),
        "/original/not_overriden_variable_def.yaml".to_string(),
        "/overrides/overriden_variable_def.yaml".to_string(),
        "/overrides/another_variable_def.yaml".to_string(),
    ];
    let unique_expected = vec![
        "/original/not_overriden_variable_def.yaml".to_string(),
        "/overrides/overriden_variable_def.yaml".to_string(),
        "/overrides/another_variable_def.yaml".to_string(),
    ];
    let overriden_expected = vec!["/original/overriden_variable_def.yaml".to_string()];
    let (unique, overriden) = unique_and_overriden_paths_from(paths)?;
    assert_eq!(unique, unique_expected);
    assert_eq!(overriden, overriden_expected);
    Ok(())
}

#[test]
fn overridden_paths_come_last_first() {
    let paths = vec![
        "/a/x.yaml".to_string(),
        "/b/x.yaml".to_string(),
        "/a/y.yaml".to_string(),
        "/c/x.yaml".to_string(),
        "/c/y.yaml".to_string(),
    ];
    let (unique, overridden) = unique_and_overriden_paths_from(paths).unwrap();
    assert_eq!(unique, vec!["/c/x.yaml".to_string(), "/c/y.yaml".to_string()]);
    assert_eq!(
        overridden,
        vec![
            "/a/y.yaml".to_string(),
            "/b/x.yaml".to_string(),
            "/a/x.yaml".to_string()
        ]
    );
    let (unique, overridden) = unique_and_overriden_paths_from(Vec::new()).unwrap();
    assert!(unique.is_empty());
    assert!(overridden.is_empty());
}

#[test]
fn path_without_file_name_is_refused() {
    let paths = vec!["/a/x.yaml".to_string(), "/a/..".to_string()];
    assert_eq!(
        unique_and_overriden_paths_from(paths),
        Err(FilesError::NoFileName("/a/..".to_string()))
    );
}

#[test]
fn only_yaml_files_are_definitions() {
    let paths = vec![
        "/a/x.yaml".to_string(),
        "/a/readme.md".to_string(),
        "/a/y.yml".to_string(),
        "/a/yaml".to_string(),
        "/a/z.yaml".to_string(),
        "/a/.yaml".to_string(),
    ];
    assert_eq!(
        list_yaml_files(paths),
        vec!["/a/x.yaml".to_string(), "/a/z.yaml".to_string()]
    );
}

#[test]
fn definition_takes_its_name_from_the_stem() {
    let def = parse_var_def("/etc/waketimed/var_def/my_var.yaml", Some(poll_body("test_inactive")))
        .unwrap()
        .unwrap();
    assert_eq!(def.name().as_str(), "my_var");
    assert_eq!(def.kind, poll_body("test_inactive").kind);
    assert_eq!(def.data_type, VarDataType::Bool);
    // An empty file is void.
    assert_eq!(parse_var_def("/etc/waketimed/var_def/my_var.yaml", None), Ok(None));
    // The name is validated even where the file is void.
    assert_eq!(
        parse_var_def("/x/My-Var.yaml", None),
        Err(FilesError::VarName(
            "/x/My-Var.yaml".to_string(),
            VarNameError::DisallowedCharacters("My-Var".to_string())
        ))
    );
    assert_eq!(
        parse_var_def("/", Some(poll_body("test_inactive"))),
        Err(FilesError::NoName("/".to_string()))
    );
    let rule = parse_rule_def(
        "rule_def/wtd_user_busy.yaml",
        Some(RuleKind::StayupBool(StayupBoolDef {
            value_script: "wtd_user_busy".to_string(),
        })),
    )
    .unwrap()
    .unwrap();
    assert_eq!(rule.name(), &RuleName::new("wtd_user_busy".to_string()).unwrap());
    assert_eq!(rule.value_script(), "wtd_user_busy");
    assert!(matches!(
        parse_rule_def("rule_def/9lives.yaml", None),
        Err(FilesError::RuleName(_, _))
    ));
}

#[test]
fn scenario_override_and_void() {
    // Directory A has a valid x.yaml, directory B, which comes later, an empty one.
    let paths = vec!["/a/x.yaml".to_string(), "/b/x.yaml".to_string()];
    let (unique, overridden) = unique_and_overriden_paths_from(paths).unwrap();
    assert_eq!(overridden, vec!["/a/x.yaml".to_string()]);
    assert_eq!(unique, vec!["/b/x.yaml".to_string()]);
    let files = vec![DefFile {
        path: "/b/x.yaml".to_string(),
        body: None,
    }];
    let defs = load_var_defs(files).unwrap();
    assert!(defs.is_empty());
}

#[test]
fn later_directory_overrides_earlier() {
    let paths = vec![
        "/a/x.yaml".to_string(),
        "/a/y.yaml".to_string(),
        "/b/x.yaml".to_string(),
    ];
    let (unique, overridden) = unique_and_overriden_paths_from(paths).unwrap();
    assert_eq!(unique, vec!["/a/y.yaml".to_string(), "/b/x.yaml".to_string()]);
    assert_eq!(overridden.iter().filter(|p| p.as_str() == "/a/x.yaml").count(), 1);
    let files = vec![
        DefFile {
            path: "/a/y.yaml".to_string(),
            body: Some(poll_body("from_a")),
        },
        DefFile {
            path: "/b/x.yaml".to_string(),
            body: Some(poll_body("from_b")),
        },
    ];
    let defs = load_var_defs(files).unwrap();
    assert_eq!(defs.len(), 2);
    assert_eq!(defs[1].name(), &VarName::new("x".to_string()).unwrap());
    assert_eq!(defs[1].kind, poll_body("from_b").kind);
}

#[test]
fn first_file_with_a_bad_name_is_the_error() {
    let files = vec![
        DefFile {
            path: "/a/good.yaml".to_string(),
            body: Some(poll_body("p")),
        },
        DefFile {
            path: "/a/__bad.yaml".to_string(),
            body: None,
        },
        DefFile {
            path: "/a/Worse.yaml".to_string(),
            body: None,
        },
    ];
    assert_eq!(
        load_var_defs(files),
        Err(FilesError::VarName(
            "/a/__bad.yaml".to_string(),
            VarNameError::IncorrectPattern("__bad".to_string())
        ))
    );
    let rules = vec![
        DefFile {
            path: "/r/void.yaml".to_string(),
            body: None,
        },
        DefFile {
            path: "/r/r1.yaml".to_string(),
            body: Some(RuleKind::StayupBool(StayupBoolDef {
                value_script: "true".to_string(),
            })),
        },
    ];
    let defs = load_rule_defs(rules).unwrap();
    assert_eq!(defs.len(), 1);
    assert_eq!(defs[0].name().as_str(), "r1");
}

#[test]
fn existing_dirs_are_the_embedded_and_the_found() {
    let dirs = vec![
        "/__WAKETIMED_EMBEDDED__/var_def".to_string(),
        "/etc/waketimed/var_def".to_string(),
        "/opt/var_def".to_string(),
    ];
    let probes = vec![DirProbe::NotFound, DirProbe::NotFound, DirProbe::Exists];
    assert_eq!(
        into_existing_dirs(dirs.clone(), &probes),
        Ok(vec![
            "/__WAKETIMED_EMBEDDED__/var_def".to_string(),
            "/opt/var_def".to_string()
        ])
    );
    let probes = vec![
        DirProbe::Exists,
        DirProbe::Failed("permission denied".to_string()),
        DirProbe::Failed("later".to_string()),
    ];
    assert_eq!(
        into_existing_dirs(dirs.clone(), &probes),
        Err(FilesError::ReadDir(
            "/etc/waketimed/var_def".to_string(),
            "permission denied".to_string()
        ))
    );
    assert_eq!(
        into_existing_dirs(dirs, &vec![DirProbe::Exists]),
        Err(FilesError::ListingsMismatch)
    );
}

#[test]
fn entries_of_embedded_and_real_dirs() {
    let dirs = vec![
        "/__WAKETIMED_EMBEDDED__/rule_def".to_string(),
        "/etc/waketimed/rule_def".to_string(),
    ];
    let listings = vec![
        Vec::new(),
        vec![
            "/etc/waketimed/rule_def/wtd_user_busy.yaml".to_string(),
            "/etc/waketimed/rule_def/notes.txt".to_string(),
        ],
    ];
    let all = dirs_entry_paths(&dirs, &listings).unwrap();
    assert_eq!(
        all,
        vec![
            "/__WAKETIMED_EMBEDDED__/rule_def/wtd_call_present.yaml".to_string(),
            "/__WAKETIMED_EMBEDDED__/rule_def/wtd_sleep_block_inhibited.yaml".to_string(),
            "/__WAKETIMED_EMBEDDED__/rule_def/wtd_user_busy.yaml".to_string(),
            "/etc/waketimed/rule_def/wtd_user_busy.yaml".to_string(),
            "/etc/waketimed/rule_def/notes.txt".to_string(),
        ]
    );
    let yaml = list_yaml_files_in_dirs(&dirs, &listings).unwrap();
    assert_eq!(yaml.len(), 4);
    let (unique, overridden) = unique_and_overriden_paths_from(yaml).unwrap();
    assert_eq!(
        overridden,
        vec!["/__WAKETIMED_EMBEDDED__/rule_def/wtd_user_busy.yaml".to_string()]
    );
    assert_eq!(unique.len(), 3);
    assert_eq!(unique[2], "/etc/waketimed/rule_def/wtd_user_busy.yaml");
    assert_eq!(
        dirs_entry_paths(&vec!["/__WAKETIMED_EMBEDDED__/other".to_string()], &vec![Vec::new()]),
        Err(FilesError::UnknownEmbeddedDir(
            "/__WAKETIMED_EMBEDDED__/other".to_string()
        ))
    );
    assert_eq!(
        dirs_entry_paths(&dirs, &Vec::new()),
        Err(FilesError::ListingsMismatch)
    );
}

fn named(path: &str, file_name: &str) -> NamedPath {
    NamedPath {
        path: path.to_string(),
        file_name: file_name.to_string(),
    }
}

#[test]
fn paths_are_split_by_the_names_that_come_with_them() {
    // The names decide, whatever the paths look like.
    let (unique, overridden) = split_by_file_names(vec![
        named("file0", "x"),
        named("file1", "y"),
        named("file2", "x"),
        named("file3", "z"),
        named("file4", "x"),
    ]);
    assert_eq!(unique, vec!["file1".to_string(), "file3".to_string(), "file4".to_string()]);
    assert_eq!(overridden, vec!["file2".to_string(), "file0".to_string()]);
    let (unique, overridden) = split_by_file_names(Vec::new());
    assert!(unique.is_empty() && overridden.is_empty());
}

#[test]
fn definition_files_are_kept_by_the_extensions_that_come_with_them() {
    let items = vec![
        PathExtension {
            path: "a".to_string(),
            extension: Some("yaml".to_string()),
        },
        PathExtension {
            path: "b.yaml".to_string(),
            extension: None,
        },
        PathExtension {
            path: "c".to_string(),
            extension: Some("YAML".to_string()),
        },
        PathExtension {
            path: "d".to_string(),
            extension: Some("yaml".to_string()),
        },
    ];
    assert_eq!(
        keep_definition_files(items),
        vec!["a".to_string(), "d".to_string()]
    );
}

#[test]
fn definitions_are_named_by_the_stems_that_come_with_them() {
    let def = var_def_named("my_var".to_string(), "anywhere", Some(poll_body("p")))
        .unwrap()
        .unwrap();
    assert_eq!(def.name().as_str(), "my_var");
    assert_eq!(var_def_named("my_var".to_string(), "anywhere", None), Ok(None));
    assert_eq!(
        var_def_named("".to_string(), "anywhere", None),
        Err(FilesError::VarName("anywhere".to_string(), VarNameError::Empty))
    );
    let rule = rule_def_named(
        "r1".to_string(),
        "anywhere",
        Some(RuleKind::StayupBool(StayupBoolDef {
            value_script: "true".to_string(),
        })),
    )
    .unwrap()
    .unwrap();
    assert_eq!(rule.name().as_str(), "r1");
    assert_eq!(
        rule_def_named("1r".to_string(), "anywhere", None),
        Err(FilesError::RuleName(
            "anywhere".to_string(),
            RuleNameError::IncorrectPattern("1r".to_string())
        ))
    );
}

#[test]
fn entries_of_one_directory() {
    let listing = vec!["/etc/x/a.yaml".to_string(), "/etc/x/b".to_string()];
    assert_eq!(entries_of_dir("/etc/x", false, &listing), Ok(listing.clone()));
    // Under the embedded prefix the listing is not read.
    let embedded = entries_of_dir("/__WAKETIMED_EMBEDDED__/rule_def", true, &listing).unwrap();
    assert_eq!(embedded.len(), 3);
    assert_eq!(
        embedded[0],
        "/__WAKETIMED_EMBEDDED__/rule_def/wtd_call_present.yaml"
    );
    assert_eq!(
        entries_of_dir("/etc/x", true, &listing),
        Err(FilesError::UnknownEmbeddedDir("/etc/x".to_string()))
    );
}
