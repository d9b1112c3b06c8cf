use command_core::{
    bind_arguments, ArgType, BoundValue, BuildError, CommandError, CommandHandler, CommandInfo,
    CommandRegistry, ParamSpec, ParsedValue, RecordingHandler,
};

fn required(ty: ArgType) -> ParamSpec {
    ParamSpec { ty, optional: false, variadic: false }
}

fn optional(ty: ArgType) -> ParamSpec {
    ParamSpec { ty, optional: true, variadic: false }
}

fn variadic(ty: ArgType) -> ParamSpec {
    ParamSpec { ty, optional: false, variadic: true }
}

fn descriptor(name: &str, aliases: &[&str], params: Vec<ParamSpec>) -> CommandInfo {
    CommandInfo::new(
        name.to_string(),
        String::new(),
        aliases.iter().map(|s| s.to_string()).collect(),
        params,
    )
    .unwrap()
}

fn strings(toks: &[&str]) -> Vec<String> {
    toks.iter().map(|s| s.to_string()).collect()
}

/// The handwritten adapter a command supplies: it binds typed parameters with
/// the library's positional algorithm and only then runs the concrete
/// function, here modelled by recording the bound values.
struct AdapterHandler {
    info: CommandInfo,
    runs: Vec<Vec<BoundValue>>,
    raw_calls: usize,
}

impl AdapterHandler {
    fn new(info: CommandInfo) -> AdapterHandler {
        AdapterHandler { info, runs: Vec::new(), raw_calls: 0 }
    }
}

impl CommandHandler for AdapterHandler {
    fn call(&mut self, args: &Vec<String>) -> Result<(), CommandError> {
        self.raw_calls += 1;
        let bound = bind_arguments(&self.info, args)?;
        self.runs.push(bound);
        Ok(())
    }
}

#[test]
fn too_few_arguments_short_circuits() {
    let info = descriptor("copy", &[], vec![required(ArgType::Text), required(ArgType::Text)]);
    let mut reg: CommandRegistry<RecordingHandler> = CommandRegistry::new();
    reg.register(info, RecordingHandler::new()).unwrap();
    reg.freeze();
    let r = reg.execute_command("copy", &strings(&["only"]));
    match r {
        Err(CommandError::TooFewArguments(given, d)) => {
            assert_eq!(given, 1);
            assert_eq!(d.min(), 2);
            assert_eq!(d.name(), "copy");
        }
        other => panic!("expected TooFewArguments, got {:?}", other),
    }
    assert!(!reg.handler_of("copy").unwrap().was_called());
}

#[test]
fn too_many_arguments_short_circuits() {
    let info = descriptor("copy", &[], vec![required(ArgType::Text), required(ArgType::Text)]);
    let mut reg: CommandRegistry<RecordingHandler> = CommandRegistry::new();
    reg.register(info, RecordingHandler::new()).unwrap();
    reg.freeze();
    let r = reg.execute_command("copy", &strings(&["a", "b", "c"]));
    match r {
        Err(CommandError::TooManyArguments(given, d)) => {
            assert_eq!(given, 3);
            assert_eq!(d.max(), 2);
        }
        other => panic!("expected TooManyArguments, got {:?}", other),
    }
    assert!(!reg.handler_of("copy").unwrap().was_called());
}

#[test]
fn unknown_command_is_not_found() {
    let mut reg: CommandRegistry<RecordingHandler> = CommandRegistry::new();
    reg.register(descriptor("pwd", &[], vec![]), RecordingHandler::new()).unwrap();
    reg.freeze();
    let r = reg.execute_command("nope", &strings(&[]));
    match r {
        Err(CommandError::CommandNotFound(name)) => assert_eq!(name, "nope"),
        other => panic!("expected CommandNotFound, got {:?}", other),
    }
    let e = reg.execute_command("nope", &strings(&[])).unwrap_err();
    assert_eq!(e.message(), "Command 'nope' not found");
}

#[test]
fn variadic_floor_and_binding() {
    let info = descriptor("touch", &[], vec![variadic(ArgType::Text)]);
    assert_eq!(info.min(), 1);
    assert_eq!(info.max(), usize::MAX);
    let adapter = AdapterHandler::new(info.duplicate());
    let mut reg: CommandRegistry<AdapterHandler> = CommandRegistry::new();
    reg.register(info, adapter).unwrap();
    reg.freeze();

    let r = reg.execute_command("touch", &strings(&[]));
    match r {
        Err(CommandError::TooFewArguments(given, d)) => {
            assert_eq!(given, 0);
            assert_eq!(d.min(), 1);
            assert_eq!(
                CommandError::TooFewArguments(given, d).message(),
                "Too few arguments passed '0' when calling command 'touch', the minimum required is '1'"
            );
        }
        other => panic!("expected TooFewArguments, got {:?}", other),
    }
    assert_eq!(reg.handler_of("touch").unwrap().raw_calls, 0);

    reg.execute_command("touch", &strings(&["a", "b", "c"])).unwrap();
    let h = reg.handler_of("touch").unwrap();
    assert_eq!(h.raw_calls, 1);
    assert_eq!(h.runs.len(), 1);
    match &h.runs[0][0] {
        BoundValue::Rest(vals) => {
            let got: Vec<&str> = vals
                .iter()
                .map(|v| match v {
                    ParsedValue::Str(s) => s.as_str(),
                    other => panic!("expected a string value, got {:?}", other),
                })
                .collect();
            assert_eq!(got, vec!["a", "b", "c"]);
        }
        other => panic!("expected a bound sequence, got {:?}", other),
    }
}

#[test]
fn alias_invokes_the_same_handler() {
    let info = descriptor("exit", &["quit", "bye"], vec![]);
    assert_eq!(info.min(), 0);
    assert_eq!(info.max(), 0);
    let mut reg: CommandRegistry<RecordingHandler> = CommandRegistry::new();
    reg.register(info, RecordingHandler::new()).unwrap();
    reg.freeze();
    reg.execute_command("bye", &strings(&[])).unwrap();
    assert!(reg.handler_of("exit").unwrap().was_called());
    reg.execute_command("exit", &strings(&[])).unwrap();
    reg.execute_command("quit", &strings(&[])).unwrap();
    assert!(reg.handler_of("bye").unwrap().was_called());
}

#[test]
fn mixed_sequence_fails_fast_before_the_function_runs() {
    let info = descriptor(
        "mix",
        &[],
        vec![required(ArgType::Text), required(ArgType::Text), variadic(ArgType::Int32)],
    );
    let adapter = AdapterHandler::new(info.duplicate());
    let mut reg: CommandRegistry<AdapterHandler> = CommandRegistry::new();
    reg.register(info, adapter).unwrap();
    reg.freeze();
    let r = reg.execute_command("mix", &strings(&["a", "b", "3", "x", "5"]));
    match r {
        Err(CommandError::ArgumentConversionError(ty, raw)) => {
            assert_eq!(ty, "i32");
            assert_eq!(raw, "x");
        }
        other => panic!("expected a conversion error, got {:?}", other),
    }
    let h = reg.handler_of("mix").unwrap();
    assert_eq!(h.raw_calls, 1, "the adapter ran");
    assert_eq!(h.runs.len(), 0, "the concrete function never ran");
}

#[test]
fn find_returns_descriptors_by_name_and_alias() {
    let mut reg: CommandRegistry<RecordingHandler> = CommandRegistry::new();
    reg.register(descriptor("exit", &["quit", "bye"], vec![]), RecordingHandler::new()).unwrap();
    reg.register(descriptor("pwd", &[], vec![]), RecordingHandler::new()).unwrap();
    reg.freeze();
    assert_eq!(reg.find("exit").unwrap().name(), "exit");
    assert_eq!(reg.find("quit").unwrap().name(), "exit");
    assert_eq!(reg.find("bye").unwrap().name(), "exit");
    assert_eq!(reg.find("pwd").unwrap().name(), "pwd");
    assert!(reg.find("Exit").is_none(), "lookup is case-sensitive");
    assert!(reg.find("ex").is_none(), "lookup has no prefix matching");
}

#[test]
fn registration_rejects_collisions() {
    let mut reg: CommandRegistry<RecordingHandler> = CommandRegistry::new();
    reg.register(descriptor("exit", &["quit"], vec![]), RecordingHandler::new()).unwrap();
    let r = reg.register(descriptor("exit", &[], vec![]), RecordingHandler::new());
    assert!(matches!(r, Err(BuildError::DuplicateName(n)) if n == "exit"));
    let r = reg.register(descriptor("quit", &[], vec![]), RecordingHandler::new());
    assert!(matches!(r, Err(BuildError::DuplicateName(n)) if n == "quit"));
    let r = reg.register(descriptor("leave", &["exit"], vec![]), RecordingHandler::new());
    assert!(matches!(r, Err(BuildError::DuplicateAlias(a)) if a == "exit"));
    let r = reg.register(descriptor("leave", &["quit"], vec![]), RecordingHandler::new());
    assert!(matches!(r, Err(BuildError::DuplicateAlias(a)) if a == "quit"));
    reg.register(descriptor("leave", &[], vec![]), RecordingHandler::new()).unwrap();
}

#[test]
fn frozen_registry_rejects_registration() {
    let mut reg: CommandRegistry<RecordingHandler> = CommandRegistry::new();
    reg.register(descriptor("pwd", &[], vec![]), RecordingHandler::new()).unwrap();
    reg.freeze();
    let r = reg.register(descriptor("cd", &[], vec![]), RecordingHandler::new());
    assert!(matches!(r, Err(BuildError::RegistryFrozen)));
    assert!(reg.find("cd").is_none());
    reg.execute_command("pwd", &strings(&[])).unwrap();
}

#[test]
fn all_preserves_registration_order() {
    let mut reg: CommandRegistry<RecordingHandler> = CommandRegistry::new();
    reg.register(descriptor("pwd", &[], vec![]), RecordingHandler::new()).unwrap();
    reg.register(descriptor("cd", &[], vec![optional(ArgType::Path)]), RecordingHandler::new())
        .unwrap();
    reg.register(descriptor("exit", &["quit"], vec![]), RecordingHandler::new()).unwrap();
    reg.freeze();
    let names: Vec<String> =
        reg.all().iter().map(|info| info.name().clone()).collect();
    assert_eq!(names, vec!["pwd".to_string(), "cd".to_string(), "exit".to_string()]);
}

#[test]
fn arity_error_messages_render_counts() {
    let info = descriptor("copy", &[], vec![required(ArgType::Text), required(ArgType::Text)]);
    let e = CommandError::TooFewArguments(1, info.duplicate());
    assert_eq!(
        e.message(),
        "Too few arguments passed '1' when calling command 'copy', the minimum required is '2'"
    );
    let e = CommandError::TooManyArguments(1234567890, info);
    assert_eq!(
        e.message(),
        "Too many arguments passed '1234567890' when calling command 'copy', the maximum required is '2'"
    );
}

#[test]
fn handler_error_messages_pass_through() {
    assert_eq!(CommandError::CommandFailed("it broke".to_string()).message(), "it broke");
    assert_eq!(CommandError::InvalidArguments("bad flag".to_string()).message(), "bad flag");
    assert_eq!(
        CommandError::CannotAccessCurrentDirectory("denied".to_string()).message(),
        "Could not access the current directory: denied"
    );
    assert_eq!(
        CommandError::DirectoryReadError("/tmp/d".to_string(), "denied".to_string()).message(),
        "Could not read directory '/tmp/d': denied"
    );
    assert_eq!(
        CommandError::FileReadError("/tmp/f".to_string(), "gone".to_string()).message(),
        "Could not read file '/tmp/f': gone"
    );
}

struct FailingHandler;

impl CommandHandler for FailingHandler {
    fn call(&mut self, _args: &Vec<String>) -> Result<(), CommandError> {
        Err(CommandError::CommandFailed("handler says no".to_string()))
    }
}

#[test]
fn handler_result_passes_through_unchanged() {
    let mut reg: CommandRegistry<FailingHandler> = CommandRegistry::new();
    reg.register(descriptor("no", &[], vec![]), FailingHandler).unwrap();
    reg.freeze();
    let r = reg.execute_command("no", &strings(&[]));
    assert!(matches!(r, Err(CommandError::CommandFailed(m)) if m == "handler says no"));
}

#[test]
fn binding_covers_every_shape() {
    let info = descriptor(
        "shape",
        &[],
        vec![required(ArgType::Boolean), optional(ArgType::Int32), variadic(ArgType::Text)],
    );
    let bound = bind_arguments(&info, &strings(&["true", "7", "x", "y"])).unwrap();
    assert!(matches!(bound[0], BoundValue::Single(ParsedValue::Bool(true))));
    assert!(matches!(bound[1], BoundValue::Single(ParsedValue::I32(7))));
    assert!(matches!(&bound[2], BoundValue::Rest(v) if v.len() == 2));

    let bound = bind_arguments(&info, &strings(&["false", "7"])).unwrap();
    assert!(matches!(&bound[2], BoundValue::Rest(v) if v.is_empty()));

    let trailing = descriptor("get", &[], vec![optional(ArgType::Int32)]);
    let bound = bind_arguments(&trailing, &strings(&[])).unwrap();
    assert!(matches!(bound[0], BoundValue::Absent));

    let e = bind_arguments(&info, &strings(&[])).unwrap_err();
    assert!(matches!(e, CommandError::TooFewArguments(0, _)));
}
