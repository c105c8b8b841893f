use nightfall::handler::{same_key, CommandHandler, DuplicateCommand};
use nightfall::schema::{CommandDescriptor, CommandKind};

fn root(name: &str) -> CommandDescriptor {
    CommandDescriptor {
        name: name.to_string(),
        description: "a command".to_string(),
        options: vec![],
        kind: CommandKind::Root,
    }
}

fn sub(group: &str, name: &str) -> CommandDescriptor {
    CommandDescriptor {
        name: name.to_string(),
        description: "a subcommand".to_string(),
        options: vec![],
        kind: CommandKind::Sub(group.to_string()),
    }
}

#[test]
fn lookup_after_register_finds_binder() {
    let mut h = CommandHandler::new();
    assert!(h.register(root("ping"), 1u32).is_ok());
    assert!(h.register(sub("paru", "install"), 2u32).is_ok());
    let e = h.lookup(&"ping".to_string(), None).unwrap();
    assert_eq!(e.binder, 1);
    let e = h.lookup(&"paru".to_string(), Some(&"install".to_string())).unwrap();
    assert_eq!(e.binder, 2);
    assert!(h.lookup(&"ping".to_string(), Some(&"install".to_string())).is_none());
    assert!(h.lookup(&"install".to_string(), None).is_none());
    assert!(h.lookup(&"paru".to_string(), None).is_none());
}

#[test]
fn duplicate_register_rejected_unchanged() {
    let mut h = CommandHandler::new();
    assert!(h.register(root("ping"), 1u32).is_ok());
    assert_eq!(h.register(root("ping"), 9u32), Err(DuplicateCommand));
    assert_eq!(h.lookup(&"ping".to_string(), None).unwrap().binder, 1);
    assert!(h.register(sub("g", "a"), 3u32).is_ok());
    assert_eq!(h.register(sub("g", "a"), 4u32), Err(DuplicateCommand));
    assert_eq!(h.lookup(&"g".to_string(), Some(&"a".to_string())).unwrap().binder, 3);
}

#[test]
fn add_command_is_all_or_nothing() {
    let mut h = CommandHandler::new();
    assert!(h.add_command(vec![root("a"), root("b")], 1u32).is_ok());
    assert_eq!(h.add_command(vec![root("c"), root("a")], 2u32), Err(DuplicateCommand));
    assert!(h.lookup(&"c".to_string(), None).is_none());
    assert_eq!(h.add_command(vec![root("d"), root("d")], 3u32), Err(DuplicateCommand));
    assert!(h.lookup(&"d".to_string(), None).is_none());
    assert_eq!(h.lookup(&"a".to_string(), None).unwrap().binder, 1);
    assert_eq!(h.lookup(&"b".to_string(), None).unwrap().binder, 1);
}

#[test]
fn keys_compare_by_kind() {
    assert!(same_key(&root("a"), &root("a")));
    assert!(!same_key(&root("a"), &sub("a", "a")));
    assert!(same_key(&sub("g", "x"), &sub("g", "x")));
    assert!(!same_key(&sub("g", "x"), &sub("h", "x")));
}
