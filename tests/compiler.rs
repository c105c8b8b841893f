use nightfall::compiler::{
    bindable_params, check_config, command_controller, CommandController, parameter_shape, CommandInfo,
    ControllerConfig, DefinitionError, HandlerMethod, OptionInfo, Param, ParamType,
};
use nightfall::schema::{Choice, ChoiceValue, CommandKind};
use nightfall::value::OptionType;

fn typed(name: &str, ty: ParamType) -> Param {
    Param::Typed { ident: Some(name.to_string()), ty }
}

fn option(name: Option<&str>, description: &str) -> OptionInfo {
    OptionInfo { name: name.map(|n| n.to_string()), description: description.to_string(), choices: vec![] }
}

fn method(ident: &str, options: Vec<OptionInfo>, params: Vec<Param>) -> HandlerMethod {
    HandlerMethod {
        ident: ident.to_string(),
        info: CommandInfo {
            name: None,
            description: "does something".to_string(),
            options,
            interaction: None,
        },
        params,
    }
}

fn root() -> ControllerConfig {
    ControllerConfig { sub: None, sub_description: None, group: None }
}

fn self_ref() -> Param {
    Param::Receiver { reference: true, mutable: false }
}

#[test]
fn root_controller_compiles() {
    let mut echo = method(
        "echo",
        vec![option(None, "The message to echo")],
        vec![self_ref(), typed("interaction", ParamType::Unsupported), typed("message", ParamType::Plain(OptionType::String))],
    );
    echo.info.options[0].choices = vec![
        Choice { name: "Hello".to_string(), value: ChoiceValue::String("Hi".to_string()) },
        Choice { name: "World".to_string(), value: ChoiceValue::String("Heaven".to_string()) },
    ];
    let member = method("member", vec![], vec![self_ref()]);
    let ds = command_controller(&root(), &vec![echo, member]).unwrap();
    assert_eq!(ds.len(), 2);
    assert_eq!(ds[0].name, "echo");
    assert!(matches!(ds[0].kind, CommandKind::Root));
    assert_eq!(ds[0].options.len(), 1);
    assert_eq!(ds[0].options[0].name, "message");
    assert_eq!(ds[0].options[0].description, "The message to echo");
    assert_eq!(ds[0].options[0].kind, OptionType::String);
    assert!(ds[0].options[0].required);
    assert_eq!(ds[0].options[0].choices.len(), 2);
    assert_eq!(ds[0].options[0].choices[1].name, "World");
    assert_eq!(ds[1].name, "member");
    assert!(ds[1].options.is_empty());
}

#[test]
fn named_command_and_option() {
    let mut m = method(
        "user",
        vec![option(Some("target"), "The user")],
        vec![self_ref(), typed("user_id", ParamType::Plain(OptionType::User)), typed("ctx", ParamType::Unsupported)],
    );
    m.info.name = Some("whois".to_string());
    m.info.interaction = Some("ctx".to_string());
    let ds = command_controller(&root(), &vec![m]).unwrap();
    assert_eq!(ds[0].name, "whois");
    assert_eq!(ds[0].options[0].name, "target");
    assert_eq!(ds[0].options[0].kind, OptionType::User);
}

#[test]
fn subcommand_controller_has_group_parent() {
    let cfg = ControllerConfig {
        sub: Some("paru".to_string()),
        sub_description: Some("Emulates paru".to_string()),
        group: None,
    };
    let m = method("install", vec![option(Some("name"), "The package name")], vec![self_ref(), typed("name", ParamType::Plain(OptionType::String))]);
    let ds = command_controller(&cfg, &vec![m]).unwrap();
    assert_eq!(ds.len(), 2);
    assert_eq!(ds[0].name, "paru");
    assert_eq!(ds[0].description, "Emulates paru");
    assert!(matches!(ds[0].kind, CommandKind::Group));
    assert_eq!(ds[1].name, "install");
    assert!(matches!(ds[1].kind, CommandKind::Sub(ref g) if g == "paru"));
}

#[test]
fn config_errors() {
    let group_alone = ControllerConfig { sub: None, sub_description: None, group: Some("g".to_string()) };
    assert_eq!(check_config(&group_alone), Err(DefinitionError::GroupWithoutSub));
    let no_desc = ControllerConfig { sub: Some("s".to_string()), sub_description: None, group: None };
    assert_eq!(check_config(&no_desc), Err(DefinitionError::MissingSubDescription));
    let stray = ControllerConfig { sub: None, sub_description: Some("d".to_string()), group: None };
    assert_eq!(check_config(&stray), Err(DefinitionError::UnexpectedSubDescription));
    let empty = ControllerConfig { sub: Some("s".to_string()), sub_description: Some(String::new()), group: None };
    assert_eq!(check_config(&empty), Err(DefinitionError::EmptyDescription));
    assert_eq!(check_config(&root()), Ok(()));
    let r = command_controller(&group_alone, &vec![]);
    assert_eq!(r.err(), Some(DefinitionError::GroupWithoutSub));
}

#[test]
fn more_options_than_arguments() {
    let m = method("m", vec![option(None, "a"), option(None, "b")], vec![self_ref(), typed("x", ParamType::Plain(OptionType::Integer))]);
    assert_eq!(command_controller(&root(), &vec![m]).err(), Some(DefinitionError::MoreOptionsThanArguments));
}

#[test]
fn argument_without_option() {
    let m = method("m", vec![], vec![self_ref(), typed("x", ParamType::Plain(OptionType::Integer))]);
    assert_eq!(command_controller(&root(), &vec![m]).err(), Some(DefinitionError::ArgumentWithoutOption));
}

#[test]
fn receiver_errors() {
    let m = method("m", vec![], vec![Param::Receiver { reference: true, mutable: true }]);
    assert_eq!(command_controller(&root(), &vec![m]).err(), Some(DefinitionError::MutableReceiver));
    let m = method("m", vec![], vec![Param::Receiver { reference: false, mutable: false }]);
    assert_eq!(command_controller(&root(), &vec![m]).err(), Some(DefinitionError::ReceiverNotReference));
    let m = method("m", vec![], vec![Param::Typed { ident: None, ty: ParamType::Plain(OptionType::Boolean) }]);
    assert_eq!(command_controller(&root(), &vec![m]).err(), Some(DefinitionError::UnrecognisedIdentifier));
}

#[test]
fn unsupported_parameter_type() {
    let m = method("m", vec![option(None, "a")], vec![typed("x", ParamType::Unsupported)]);
    assert_eq!(command_controller(&root(), &vec![m]).err(), Some(DefinitionError::UnsupportedType));
    let m = method("m", vec![option(None, "a")], vec![typed("x", ParamType::Plain(OptionType::SubCommandGroup))]);
    assert_eq!(command_controller(&root(), &vec![m]).err(), Some(DefinitionError::UnsupportedType));
}

#[test]
fn choice_type_mismatch() {
    let mut m = method("m", vec![option(None, "a")], vec![typed("x", ParamType::Plain(OptionType::Integer))]);
    m.info.options[0].choices = vec![Choice { name: "one".to_string(), value: ChoiceValue::String("1".to_string()) }];
    assert_eq!(command_controller(&root(), &vec![m]).err(), Some(DefinitionError::ChoiceTypeMismatch));
    let mut m = method("m", vec![option(None, "a")], vec![typed("x", ParamType::Plain(OptionType::Boolean))]);
    m.info.options[0].choices = vec![Choice { name: "one".to_string(), value: ChoiceValue::Integer(1) }];
    assert_eq!(command_controller(&root(), &vec![m]).err(), Some(DefinitionError::ChoiceTypeMismatch));
}

#[test]
fn duplicate_option_name() {
    let m = method(
        "m",
        vec![option(Some("same"), "a"), option(Some("same"), "b")],
        vec![typed("x", ParamType::Plain(OptionType::Integer)), typed("y", ParamType::Plain(OptionType::Integer))],
    );
    assert_eq!(command_controller(&root(), &vec![m]).err(), Some(DefinitionError::DuplicateOptionName));
}

#[test]
fn empty_descriptions_rejected() {
    let m = method("m", vec![option(None, "")], vec![typed("x", ParamType::Plain(OptionType::Integer))]);
    assert_eq!(command_controller(&root(), &vec![m]).err(), Some(DefinitionError::EmptyDescription));
    let mut m = method("m", vec![], vec![]);
    m.info.description = String::new();
    assert_eq!(command_controller(&root(), &vec![m]).err(), Some(DefinitionError::EmptyDescription));
}

#[test]
fn bindable_skips_receiver_context_and_patterns() {
    let params = vec![
        typed("interaction", ParamType::Unsupported),
        self_ref(),
        typed("a", ParamType::Plain(OptionType::Integer)),
        Param::Typed { ident: None, ty: ParamType::Unsupported },
        typed("b", ParamType::Optional(OptionType::Number)),
    ];
    assert_eq!(bindable_params(&params, &"interaction".to_string()), vec![2, 4]);
    assert_eq!(bindable_params(&params, &"a".to_string()), vec![0, 4]);
}

#[test]
fn parameter_shapes() {
    assert_eq!(parameter_shape(ParamType::Plain(OptionType::Channel)), Some((OptionType::Channel, true)));
    assert_eq!(parameter_shape(ParamType::Optional(OptionType::Number)), Some((OptionType::Number, false)));
    assert_eq!(parameter_shape(ParamType::Optional(OptionType::SubCommandGroup)), None);
    assert_eq!(parameter_shape(ParamType::Unsupported), None);
}

struct Greeter;

impl CommandController for Greeter {
    fn definition() -> (ControllerConfig, Vec<HandlerMethod>) {
        let info = nightfall::compiler::command(
            Some("hello".to_string()),
            "Says hello".to_string(),
            vec![option(Some("to"), "Whom to greet")],
            Some("ctx".to_string()),
        );
        let m = HandlerMethod {
            ident: "greet".to_string(),
            info,
            params: vec![self_ref(), typed("ctx", ParamType::Unsupported), typed("to", ParamType::Optional(OptionType::User))],
        };
        (root(), vec![m])
    }
}

#[test]
fn controller_trait_builds_commands() {
    let ds = Greeter::build_commands().unwrap();
    assert_eq!(ds.len(), 1);
    assert_eq!(ds[0].name, "hello");
    assert_eq!(ds[0].description, "Says hello");
    assert_eq!(ds[0].options[0].name, "to");
    assert_eq!(ds[0].options[0].kind, OptionType::User);
    assert!(!ds[0].options[0].required);
}

#[test]
fn command_builder_keeps_fields() {
    let info: CommandInfo = nightfall::compiler::command(None, "d".to_string(), vec![], None);
    assert!(info.name.is_none());
    assert_eq!(info.description, "d");
    assert!(info.options.is_empty());
    assert!(info.interaction.is_none());
}

#[test]
fn errors_come_in_a_fixed_order() {
    let m = method(
        "m",
        vec![option(None, ""), option(None, "b")],
        vec![Param::Receiver { reference: false, mutable: true }, typed("x", ParamType::Unsupported)],
    );
    assert_eq!(command_controller(&root(), &vec![m]).err(), Some(DefinitionError::MutableReceiver));
    let first = method("a", vec![option(None, "")], vec![typed("x", ParamType::Unsupported)]);
    let second = method("b", vec![], vec![Param::Receiver { reference: true, mutable: true }]);
    assert_eq!(command_controller(&root(), &vec![first, second]).err(), Some(DefinitionError::EmptyDescription));
    let bad_cfg = ControllerConfig { sub: None, sub_description: None, group: Some("g".to_string()) };
    let faulty = method("c", vec![option(None, "a")], vec![]);
    assert_eq!(command_controller(&bad_cfg, &vec![faulty]).err(), Some(DefinitionError::GroupWithoutSub));
    let m = method("m", vec![option(None, "a")], vec![typed("x", ParamType::Unsupported), typed("y", ParamType::Plain(OptionType::Integer))]);
    assert_eq!(command_controller(&root(), &vec![m]).err(), Some(DefinitionError::ArgumentWithoutOption));
}
