use waketimed::rules::{RuleName, RuleNameError};
use waketimed::vars::{VarName, VarNameError};

#[test]
fn types_test_var_name_valid() -> Result<(), VarNameError> {
    let name = "wtd_display_on".to_string();
    let _rn: VarName = name.try_into()?;
    Ok(())
}

#[test]
fn name_test_var_name_valid() -> Result<(), VarNameError> {
    let name = "wtd_display_on".to_string();
    let _rn: VarName = name.try_into()?;
    Ok(())
}

#[test]
fn types_test_var_name_invalid() {
    let name = "".to_string(); // empty
    assert!(VarName::try_from(name).is_err());
    let name = "x".repeat(60); // too long
    assert!(VarName::try_from(name).is_err());
    let name = "a_b.c".to_string(); // contains '.'
    assert!(VarName::try_from(name).is_err());
    let name = "abč".to_string(); // contains 'č'
    assert!(VarName::try_from(name).is_err());
    let name = "a__bc".to_string(); // consecutive underscores
    assert!(VarName::try_from(name).is_err());
    let name = "_abc".to_string(); // starts with an underscore
    assert!(VarName::try_from(name).is_err());
    let name = "abc_".to_string(); // ends with an underscore
    assert!(VarName::try_from(name).is_err());
}

#[test]
fn name_test_var_name_invalid() {
    let name = "".to_string(); // empty
    assert!(VarName::try_from(name).is_err());
    let name = "x".repeat(60); // too long
    assert!(VarName::try_from(name).is_err());
    let name = "a_b.c".to_string(); // contains '.'
    assert!(VarName::try_from(name).is_err());
    let name = "abč".to_string(); // contains 'č'
    assert!(VarName::try_from(name).is_err());
    let name = "a__bc".to_string(); // consecutive underscores
    assert!(VarName::try_from(name).is_err());
    let name = "_abc".to_string(); // starts with an underscore
    assert!(VarName::try_from(name).is_err());
    let name = "abc_".to_string(); // ends with an underscore
    assert!(VarName::try_from(name).is_err());
}

#[test]
fn name_test_rule_name_valid() {
    let name = "wtd_display_on".to_string();
    assert!(RuleName::try_from(name).is_ok());
    let name = "abc9".to_string();
    assert!(RuleName::try_from(name).is_ok());
}

#[test]
fn name_test_rule_name_invalid() {
    let name = "".to_string(); // empty
    assert!(RuleName::try_from(name).is_err());
    let name = "X".repeat(81); // too long
    assert!(RuleName::try_from(name).is_err());
    let name = "a_b_c-d".to_string(); // contains '-'
    assert!(RuleName::try_from(name).is_err());
    let name = "a_b.c".to_string(); // contains '.'
    assert!(RuleName::try_from(name).is_err());
    let name = "abč".to_string(); // contains 'č'
    assert!(RuleName::try_from(name).is_err());
    let name = "a__bc".to_string(); // consecutive underscores
    assert!(RuleName::try_from(name).is_err());
    let name = "_abc".to_string(); // starts with an underscore
    assert!(RuleName::try_from(name).is_err());
    let name = "abc_".to_string(); // ends with an underscore
    assert!(RuleName::try_from(name).is_err());
    let name = "9abc".to_string(); // starts with a number
    assert!(RuleName::try_from(name).is_err());
    let name = "abc9".to_string(); // ends with a number - ok
    assert!(RuleName::try_from(name).is_ok());
}

#[test]
fn types_test_rule_name_invalid() {
    let name = "".to_string(); // empty
    assert!(RuleName::try_from(name).is_err());
    let name = "X".repeat(81); // too long
    assert!(RuleName::try_from(name).is_err());
    let name = "a.b.c-d".to_string(); // contains '-'
    assert!(RuleName::try_from(name).is_err());
    let name = "a.b.č".to_string(); // contains 'č'
    assert!(RuleName::try_from(name).is_err());
    let name = "a..b.c".to_string(); // consecutive periods
    assert!(RuleName::try_from(name).is_err());
    let name = ".a.b.c".to_string(); // starts with a period
    assert!(RuleName::try_from(name).is_err());
    let name = "a.b.c.".to_string(); // ends with a period
    assert!(RuleName::try_from(name).is_err());
}

#[test]
fn var_name_errors_name_the_first_failing_test() {
    assert_eq!(VarName::new("".to_string()), Err(VarNameError::Empty));
    let long = "x".repeat(41);
    assert_eq!(VarName::new(long.clone()), Err(VarNameError::TooLong(long, 40)));
    // Too long is told before the character set.
    let long_bad = "X".repeat(41);
    assert_eq!(VarName::new(long_bad.clone()), Err(VarNameError::TooLong(long_bad, 40)));
    assert_eq!(
        VarName::new("a-b".to_string()),
        Err(VarNameError::DisallowedCharacters("a-b".to_string()))
    );
    assert_eq!(
        VarName::new("Abc".to_string()),
        Err(VarNameError::DisallowedCharacters("Abc".to_string()))
    );
    assert_eq!(
        VarName::new("a__b".to_string()),
        Err(VarNameError::IncorrectPattern("a__b".to_string()))
    );
    assert_eq!(
        VarName::new("_".to_string()),
        Err(VarNameError::IncorrectPattern("_".to_string()))
    );
}

#[test]
fn var_name_boundaries() {
    assert!(VarName::new("a".to_string()).is_ok());
    assert!(VarName::new("9".to_string()).is_ok());
    assert!(VarName::new("9abc".to_string()).is_ok());
    assert!(VarName::new("x".repeat(40)).is_ok());
    assert!(VarName::new("x".repeat(41)).is_err());
    // The length is counted in bytes.
    let wide = "č".repeat(21);
    assert_eq!(VarName::new(wide.clone()), Err(VarNameError::TooLong(wide, 40)));
    let narrow = "č".repeat(20);
    assert_eq!(
        VarName::new(narrow.clone()),
        Err(VarNameError::DisallowedCharacters(narrow))
    );
}

#[test]
fn rule_name_errors_and_boundaries() {
    assert_eq!(RuleName::new("".to_string()), Err(RuleNameError::Empty));
    assert!(RuleName::new("a".to_string()).is_ok());
    assert!(RuleName::new("x".repeat(80)).is_ok());
    let long = "x".repeat(81);
    assert_eq!(RuleName::new(long.clone()), Err(RuleNameError::TooLong(long, 80)));
    assert_eq!(
        RuleName::new("a.b".to_string()),
        Err(RuleNameError::DisallowedCharacters("a.b".to_string()))
    );
    assert_eq!(
        RuleName::new("9abc".to_string()),
        Err(RuleNameError::IncorrectPattern("9abc".to_string()))
    );
    assert_eq!(
        RuleName::new("a_".to_string()),
        Err(RuleNameError::IncorrectPattern("a_".to_string()))
    );
    // A dotted name of upper and lower case is no rule name.
    assert!(RuleName::try_from(
        "org.waketimed.test_rule.UUID_length_and_more_lorem_ipsum_dolor_sit_amet".to_string()
    )
    .is_err());
}

#[test]
fn names_give_their_text_back() {
    let name = VarName::new("wtd_display_on".to_string()).unwrap();
    assert_eq!(name.as_str(), "wtd_display_on");
    let text: &str = name.as_ref();
    assert_eq!(text, "wtd_display_on");
    assert_eq!(String::from(name.clone()), "wtd_display_on");
    assert_eq!(name.duplicate(), name);
    assert_eq!(name.into_string(), "wtd_display_on".to_string());
    let rule = RuleName::new("wtd_user_busy".to_string()).unwrap();
    assert_eq!(rule.as_str(), "wtd_user_busy");
    let text: &str = rule.as_ref();
    assert_eq!(text, "wtd_user_busy");
    assert_eq!(String::from(rule.clone()), "wtd_user_busy");
    assert_eq!(rule.duplicate(), rule);
    assert_eq!(rule.into_string(), "wtd_user_busy".to_string());
}
