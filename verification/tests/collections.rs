use waketimed::categories::{category_keys, compute_category_vars_map, lists_category, members_of};
use waketimed::params::Params;
use waketimed::text::{bytes_eq, concat3, str_eq};
use waketimed::text_map::TextMap;
use waketimed::text_set::TextSet;
use waketimed::vars::{
    BuiltinPollDef, CategoryAnyDef, VarDataType, VarDef, VarKind, VarName, VarNameError, VarValue,
};

fn var_name(name: &str) -> VarName {
    VarName::try_from(name.to_string()).expect("Invalid VarName")
}

fn def(name: &str, categories: &[&str], category_of: Option<&str>) -> VarDef {
    VarDef {
        name: var_name(name),
        data_type: VarDataType::Bool,
        categories: categories.iter().map(|c| var_name(c)).collect(),
        kind: match category_of {
            Some(c) => VarKind::CategoryAny(CategoryAnyDef {
                category_name: var_name(c),
            }),
            None => VarKind::BuiltinPoll(BuiltinPollDef {
                builtin_name: "test_inactive".to_string(),
                params: Params::new(),
            }),
        },
    }
}

#[test]
fn map_keeps_the_last_value_of_a_key() {
    let mut m: TextMap<u32> = TextMap::new();
    assert!(m.is_empty());
    assert_eq!(m.get("a"), None);
    m.insert("a".to_string(), 1);
    m.insert("b".to_string(), 2);
    m.insert("a".to_string(), 3);
    assert_eq!(m.len(), 2);
    assert!(!m.is_empty());
    assert_eq!(m.get("a"), Some(&3));
    assert_eq!(m.get("b"), Some(&2));
    assert_eq!(m.find("b"), Some(1));
    assert_eq!(m.find("c"), None);
    assert!(m.contains_key("a"));
    assert!(!m.contains_key("c"));
    assert_eq!(m.key_at(0), "a");
    assert_eq!(m.value_at(0), &3);
    assert_eq!(m.remove("a"), Some(3));
    assert_eq!(m.remove("a"), None);
    assert_eq!(m.len(), 1);
    assert_eq!(m.key_at(0), "b");
    assert_eq!(m.get("a"), None);
    let mut v: TextMap<VarValue> = TextMap::new();
    v.insert("x".to_string(), VarValue::Bool(true));
    assert_eq!(v.duplicate(), v);
}

#[test]
fn set_holds_each_item_once() {
    let mut s = TextSet::new();
    assert!(s.is_empty());
    assert!(s.insert("a".to_string()));
    assert!(s.insert("b".to_string()));
    assert!(!s.insert("a".to_string()));
    assert_eq!(s.len(), 2);
    assert!(s.contains("a"));
    assert!(!s.contains("c"));
    assert_eq!(s.item_at(1), "b");
    assert!(s.remove("a"));
    assert!(!s.remove("a"));
    assert_eq!(s.len(), 1);
    assert!(!s.contains("a"));
    assert!(!s.is_empty());
}

#[test]
fn texts_are_compared_byte_by_byte() {
    assert!(str_eq("", ""));
    assert!(str_eq("abc", "abc"));
    assert!(!str_eq("abc", "abd"));
    assert!(!str_eq("abc", "ab"));
    assert!(str_eq("č", "č"));
    assert!(!str_eq("č", "c"));
    assert!(bytes_eq(b"ab", b"ab"));
    assert!(!bytes_eq(b"ab", b"ba"));
    assert_eq!(concat3("a", "b", "c"), "abc");
}

#[test]
fn category_index() {
    let defs = vec![
        def("p", &["c1", "c2"], None),
        def("q", &["c2"], Some("c3")),
        def("r", &[], None),
    ];
    assert!(lists_category(&defs[0], "c2"));
    assert!(!lists_category(&defs[0], "c3"));
    let keys = category_keys(&defs);
    assert_eq!(keys.len(), 3);
    assert!(keys.contains("c1") && keys.contains("c2") && keys.contains("c3"));
    let c2 = members_of(&defs, "c2");
    assert_eq!(c2.len(), 2);
    assert!(c2.contains("p") && c2.contains("q"));
    assert!(members_of(&defs, "c3").is_empty());
    let index = compute_category_vars_map(&defs);
    assert_eq!(index.len(), 3);
    assert_eq!(index.get("c1").map(|s| s.len()), Some(1));
    assert_eq!(index.get("c2").map(|s| s.len()), Some(2));
    assert_eq!(index.get("c3").map(|s| s.len()), Some(0));
    assert!(index.get("p").is_none());
    assert!(compute_category_vars_map(&Vec::new()).is_empty());
}

#[test]
fn messages_of_name_errors() {
    assert_eq!(VarNameError::Empty.to_string(), "Var name cannot be empty.");
    assert_eq!(
        VarNameError::TooLong("abc".to_string(), 40).to_string(),
        "Var name 'abc' is too long. Maximum length is 40 characters."
    );
    assert_eq!(
        VarNameError::IncorrectPattern("a__b".to_string()).to_string(),
        "Var name 'a__b' follows an incorrect pattern."
    );
    assert_eq!(
        VarNameError::DisallowedCharacters("a-b".to_string()).to_string(),
        "Var name 'a-b' contains disallowed charecters. Allowed are lower case ASCII \
         alphanumerics, and underscore.)"
    );
    assert_eq!(VarValue::Bool(true).to_string(), "true");
    assert_eq!(VarValue::Bool(false).to_string(), "false");
    assert!(VarValue::Bool(true).is_true());
    assert!(!VarValue::Bool(false).is_true());
}
