use waketimed::params::{ParamValue, Params};
use waketimed::rules;
use waketimed::rules::{RuleError, RuleNameError};
use waketimed::vars;
use waketimed::vars::{VarError, VarNameError};

fn create_params() -> Params {
    let mut params = Params::new();
    params.insert("a key".into(), ParamValue::Text("a val".to_string()));
    params.insert("b key".into(), ParamValue::Text("b val".to_string()));
    params
}

#[test]
fn params_test_param_required() -> Result<(), VarError> {
    let params = create_params();
    assert_eq!("a val", &(vars::param_required::<String>(&params, "a key")?));
    assert_eq!("b val", &(vars::param_required::<String>(&params, "b key")?));

    let res = vars::param_required::<String>(&params, "c key");
    assert!(res.is_err());
    let err = res.unwrap_err();
    assert!(err.to_string().contains("c key"));

    Ok(())
}

#[test]
fn rule_params_test_param_required() -> Result<(), RuleError> {
    let params = create_params();
    assert_eq!("a val", &(rules::param_required::<String>(&params, "a key")?));
    assert_eq!("b val", &(rules::param_required::<String>(&params, "b key")?));

    let res = rules::param_required::<String>(&params, "c key");
    assert!(res.is_err());
    let err = res.unwrap_err();
    assert!(err.to_string().contains("c key"));

    Ok(())
}

#[test]
fn param_of_the_wrong_shape_is_told_apart_from_a_missing_one() {
    let mut params = create_params();
    params.insert("flag".to_string(), ParamValue::Bool(true));
    assert_eq!(vars::param_required::<bool>(&params, "flag"), Ok(true));
    assert_eq!(
        vars::param_required::<bool>(&params, "a key"),
        Err(VarError::IncorrectParamType("a key".to_string()))
    );
    assert_eq!(
        vars::param_required::<bool>(&params, "nope"),
        Err(VarError::ParamMissing("nope".to_string()))
    );
    assert_eq!(
        vars::param_required::<String>(&params, "flag"),
        Err(VarError::IncorrectParamType("flag".to_string()))
    );
    assert_eq!(
        vars::param_required_value(&params, "flag"),
        Ok(ParamValue::Bool(true))
    );
    assert_eq!(
        rules::param_required_value(&params, "nope"),
        Err(RuleError::ParamMissing("nope".to_string()))
    );
}

#[test]
fn error_texts() {
    assert_eq!(
        VarError::ParamMissing("c key".to_string()).to_string(),
        "Var parameter 'c key' is missing."
    );
    assert_eq!(
        VarError::IncorrectParamType("k".to_string()).to_string(),
        "Var parameter 'k' is of incorrect data type."
    );
    assert_eq!(
        RuleError::ParamMissing("c key".to_string()).to_string(),
        "Rule parameter 'c key' is missing."
    );
}

#[test]
fn name_errors_become_definition_errors() {
    assert_eq!(
        VarError::from(VarNameError::Empty),
        VarError::IncorrectName(VarNameError::Empty)
    );
    let e: RuleError = RuleNameError::IncorrectPattern("9a".to_string()).into();
    assert_eq!(
        e,
        RuleError::IncorrectName(RuleNameError::IncorrectPattern("9a".to_string()))
    );
    assert_eq!(e.to_string(), "Incorrect rule name.");
    assert_eq!(
        VarError::IncorrectName(VarNameError::Empty).to_string(),
        "Incorrect var name."
    );
    assert_eq!(
        VarError::DuplicateName("a".to_string()).to_string(),
        "Var name 'a' is defined twice."
    );
    assert_eq!(
        RuleError::ScriptCompile("r".to_string(), "oops".to_string()).to_string(),
        "Script of rule 'r' does not compile: oops"
    );
    assert_eq!(
        RuleNameError::TooLong("x".to_string(), 80).to_string(),
        "Rule name 'x' is too long. Maximum length is 80 characters."
    );
    assert_eq!(RuleNameError::Empty.to_string(), "Rule name cannot be empty.");
}

#[test]
fn rule_param_of_the_wrong_shape() {
    let params = create_params();
    assert_eq!(
        rules::param_required::<bool>(&params, "a key"),
        Err(RuleError::IncorrectParamType("a key".to_string()))
    );
    assert_eq!(
        RuleError::IncorrectParamType("a key".to_string()).to_string(),
        "Rule parameter 'a key' is of incorrect data type."
    );
}
