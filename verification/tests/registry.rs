use client_shell::registry::{CommandDescriptor, CommandRegistry, RegistryError};

fn command(aliases: &[&str], params: &str, description: &str, interactive_only: bool) -> CommandDescriptor {
    CommandDescriptor {
        aliases: aliases.iter().map(|a| a.to_string()).collect(),
        params_help: params.to_string(),
        description: description.to_string(),
        interactive_only,
    }
}

fn sample() -> Vec<CommandDescriptor> {
    vec![
        command(&["account", "a"], "<arg>", "Account operations", false),
        command(&["query", "q"], "<arg>", "Query operations", false),
        command(&["dev"], "", "Local Move development", true),
    ]
}

#[test]
fn build_keeps_the_commands_in_order() {
    let registry = CommandRegistry::build(true, &sample()).unwrap();
    assert_eq!(registry.len(), 3);
    assert_eq!(registry.commands(), &sample());
}

#[test]
fn build_leaves_out_what_the_session_does_not_offer() {
    let registry = CommandRegistry::build(false, &sample()).unwrap();
    assert_eq!(registry.len(), 2);
    assert_eq!(registry.commands()[0], sample()[0]);
    assert_eq!(registry.commands()[1], sample()[1]);
    assert_eq!(registry.lookup("dev"), None);
}

#[test]
fn build_of_nothing_is_empty() {
    let registry = CommandRegistry::build(true, &Vec::new()).unwrap();
    assert_eq!(registry.len(), 0);
    assert_eq!(registry.lookup("account"), None);
}

#[test]
fn build_refuses_an_alias_of_two_commands() {
    let mut commands = sample();
    commands.push(command(&["transfer", "a"], "", "", false));
    match CommandRegistry::build(true, &commands) {
        Err(RegistryError::DuplicateAlias(alias)) => assert_eq!(alias, "a"),
        Ok(_) => panic!("a duplicate alias was accepted"),
    }
}

#[test]
fn build_refuses_an_alias_twice_in_one_command() {
    let commands = vec![command(&["x", "y", "x"], "", "", false)];
    match CommandRegistry::build(true, &commands) {
        Err(RegistryError::DuplicateAlias(alias)) => assert_eq!(alias, "x"),
        Ok(_) => panic!("a duplicate alias was accepted"),
    }
}

#[test]
fn build_names_the_first_alias_that_was_registered_before() {
    let commands = vec![
        command(&["a", "b"], "", "", false),
        command(&["c", "b"], "", "", false),
        command(&["a"], "", "", false),
    ];
    match CommandRegistry::build(true, &commands) {
        Err(RegistryError::DuplicateAlias(alias)) => assert_eq!(alias, "b"),
        Ok(_) => panic!("a duplicate alias was accepted"),
    }
}

#[test]
fn build_ignores_a_duplicate_in_what_is_left_out() {
    let commands = vec![
        command(&["a"], "", "", false),
        command(&["a"], "", "", true),
    ];
    assert!(CommandRegistry::build(true, &commands).is_err());
    let registry = CommandRegistry::build(false, &commands).unwrap();
    assert_eq!(registry.len(), 1);
}

#[test]
fn lookup_finds_every_alias_at_its_command() {
    let registry = CommandRegistry::build(true, &sample()).unwrap();
    assert_eq!(registry.lookup("account"), Some(0));
    assert_eq!(registry.lookup("a"), Some(0));
    assert_eq!(registry.lookup("query"), Some(1));
    assert_eq!(registry.lookup("q"), Some(1));
    assert_eq!(registry.lookup("dev"), Some(2));
}

#[test]
fn lookup_finds_nothing_for_what_is_not_registered() {
    let registry = CommandRegistry::build(true, &sample()).unwrap();
    assert_eq!(registry.lookup("xyz"), None);
    assert_eq!(registry.lookup(""), None);
    assert_eq!(registry.lookup("Account"), None);
    assert_eq!(registry.lookup("account "), None);
    assert_eq!(registry.lookup("quit"), None);
}

#[test]
fn help_text_is_written_out_in_full() {
    let registry = CommandRegistry::build(false, &sample()).unwrap();
    let expected = "Connected to validator at: http://v, latest version = 1, timestamp = t\n\
        usage: <command> <args>\n\nUse the following commands:\n\n\
        account | a <arg>\n\tAccount operations\n\
        query | q <arg>\n\tQuery operations\n\
        help | h \n\tPrints this help\n\
        quit | q! \n\tExit this client\n\n\n";
    assert_eq!(
        registry.help_text("Connected to validator at: http://v, latest version = 1, timestamp = t"),
        expected
    );
}

#[test]
fn help_text_of_an_empty_registry_lists_the_built_in_commands() {
    let registry = CommandRegistry::build(true, &Vec::new()).unwrap();
    assert_eq!(
        registry.help_text(""),
        "\nusage: <command> <args>\n\nUse the following commands:\n\n\
         help | h \n\tPrints this help\nquit | q! \n\tExit this client\n\n\n"
    );
}

#[test]
fn duplicate_keeps_the_contents() {
    let c = command(&["account", "a"], "<arg>", "Account operations", true);
    assert_eq!(c.duplicate(), c);
}
