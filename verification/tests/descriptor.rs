use command_core::{ArgType, BuildError, CommandInfo, ParamSpec};

fn required(ty: ArgType) -> ParamSpec {
    ParamSpec { ty, optional: false, variadic: false }
}

fn optional(ty: ArgType) -> ParamSpec {
    ParamSpec { ty, optional: true, variadic: false }
}

fn variadic(ty: ArgType) -> ParamSpec {
    ParamSpec { ty, optional: false, variadic: true }
}

fn optional_variadic(ty: ArgType) -> ParamSpec {
    ParamSpec { ty, optional: true, variadic: true }
}

fn build(name: &str, params: Vec<ParamSpec>) -> Result<CommandInfo, BuildError> {
    CommandInfo::new(name.to_string(), String::new(), Vec::new(), params)
}

#[test]
fn arity_of_fixed_shape() {
    let info = build("copy", vec![required(ArgType::Text), required(ArgType::Text)]).unwrap();
    assert_eq!(info.min(), 2);
    assert_eq!(info.max(), 2);
    assert!(info.min() <= info.max());
}

#[test]
fn arity_of_zero_parameters() {
    let info = build("exit", vec![]).unwrap();
    assert_eq!(info.min(), 0);
    assert_eq!(info.max(), 0);
}

#[test]
fn arity_of_optional_trailing() {
    let info = build("help", vec![optional(ArgType::Text)]).unwrap();
    assert_eq!(info.min(), 0);
    assert_eq!(info.max(), 1);
}

#[test]
fn arity_of_required_variadic() {
    let info = build("touch", vec![variadic(ArgType::Text)]).unwrap();
    assert_eq!(info.min(), 1);
    assert_eq!(info.max(), usize::MAX);
}

#[test]
fn arity_of_optional_variadic() {
    let info = build("cat", vec![optional_variadic(ArgType::Text)]).unwrap();
    assert_eq!(info.min(), 0);
    assert_eq!(info.max(), usize::MAX);
}

#[test]
fn arity_of_mixed_shape() {
    let info = build(
        "mix",
        vec![required(ArgType::Text), optional(ArgType::Boolean), variadic(ArgType::Int32)],
    )
    .unwrap();
    assert_eq!(info.min(), 2);
    assert_eq!(info.max(), usize::MAX);
    assert!(info.min() <= info.max());
}

#[test]
fn empty_name_is_rejected() {
    assert!(matches!(build("", vec![]), Err(BuildError::EmptyName)));
}

#[test]
fn variadic_must_be_last() {
    let r = build("bad", vec![variadic(ArgType::Text), required(ArgType::Text)]);
    assert!(matches!(r, Err(BuildError::VariadicNotLast(0))));
}

#[test]
fn two_variadics_are_rejected() {
    let r = build("bad", vec![variadic(ArgType::Text), variadic(ArgType::Text)]);
    assert!(matches!(r, Err(BuildError::VariadicNotLast(0))));
}

#[test]
fn required_after_optional_is_rejected() {
    let r = build("bad", vec![optional(ArgType::Text), required(ArgType::Text)]);
    assert!(matches!(r, Err(BuildError::RequiredAfterOptional(1))));
}

#[test]
fn optional_then_variadic_is_accepted() {
    let info = build("ok", vec![optional(ArgType::Text), variadic(ArgType::Text)]).unwrap();
    assert_eq!(info.min(), 1);
    assert_eq!(info.max(), usize::MAX);
}

#[test]
fn descriptor_exposes_its_fields() {
    let info = CommandInfo::new(
        "exit".to_string(),
        "Exit the shell".to_string(),
        vec!["quit".to_string(), "bye".to_string()],
        Vec::new(),
    )
    .unwrap();
    assert_eq!(info.name(), "exit");
    assert_eq!(info.description(), "Exit the shell");
    assert_eq!(info.aliases(), &vec!["quit".to_string(), "bye".to_string()]);
    assert_eq!(info.params().len(), 0);
    let copy = info.duplicate();
    assert_eq!(copy.name(), "exit");
    assert_eq!(copy.min(), info.min());
    assert_eq!(copy.max(), info.max());
}
