use client_shell::dispatch::{
    invocation_stamp, opening_text, prompt, resolve, start, step, unknown_command, Effect, Event,
    LoopState, Resolution,
};
use client_shell::registry::{CommandDescriptor, CommandRegistry};

const INFO: &str = "Connected to validator at: http://localhost:8080, latest version = 5, timestamp = 2020-09-13T12:26:40Z";

fn described(aliases: &[&str], params: &str, description: &str) -> CommandDescriptor {
    CommandDescriptor {
        aliases: aliases.iter().map(|a| a.to_string()).collect(),
        params_help: params.to_string(),
        description: description.to_string(),
        interactive_only: false,
    }
}

fn shell() -> CommandRegistry {
    CommandRegistry::build(
        true,
        &vec![
            described(&["account", "a"], "<arg>", "Account operations"),
            described(&["query", "q"], "<arg>", "Query operations"),
            described(&["transfer", "transferb", "t", "tb"], "\n\t<sender> <receiver> <coins>", "Transfer coins"),
        ],
    )
    .unwrap()
}

fn line(text: &str) -> Event {
    Event::Line(text.to_string())
}

fn words(items: &[&str]) -> Vec<String> {
    items.iter().map(|s| s.to_string()).collect()
}

#[test]
fn a_session_starts_prompting() {
    assert_eq!(start(), LoopState::Prompting);
    assert_eq!(prompt(), "libra% ");
}

#[test]
fn help_shows_every_command_and_the_built_in_ones() {
    let registry = shell();
    let (state, effect) = step(LoopState::Prompting, false, INFO, &registry, line("help"));
    assert_eq!(state, LoopState::Prompting);
    let shown = match effect {
        Effect::Show(text) => text,
        other => panic!("help showed nothing: {:?}", other),
    };
    assert!(shown.contains(INFO));
    for command in registry.commands() {
        assert!(shown.contains(&command.aliases.join(" | ")));
        assert!(shown.contains(&command.params_help));
        assert!(shown.contains(&command.description));
        for alias in &command.aliases {
            assert!(shown.contains(alias.as_str()));
        }
    }
    assert!(shown.contains("account | a <arg>\n\tAccount operations\n"));
    assert!(shown.contains("transfer | transferb | t | tb \n\t<sender> <receiver> <coins>\n\tTransfer coins\n"));
    assert!(shown.contains("help | h \n\tPrints this help\n"));
    assert!(shown.contains("quit | q! \n\tExit this client\n"));
    assert_eq!(shown, registry.help_text(INFO));
}

#[test]
fn the_short_name_of_help_shows_the_same() {
    let registry = shell();
    let long = step(LoopState::Prompting, false, INFO, &registry, line("help"));
    let short = step(LoopState::Prompting, true, INFO, &registry, line("  h  ignored words"));
    assert_eq!(long, short);
}

#[test]
fn quit_ends_the_session_and_runs_nothing() {
    let registry = shell();
    let out = step(LoopState::Prompting, true, INFO, &registry, line("quit"));
    assert_eq!(out, (LoopState::Exiting, Effect::Nothing));
}

#[test]
fn the_short_name_of_quit_ends_the_session_too() {
    let registry = shell();
    let out = step(LoopState::Prompting, false, INFO, &registry, line(" q! now"));
    assert_eq!(out, (LoopState::Exiting, Effect::Nothing));
}

#[test]
fn an_unknown_word_is_named_and_the_session_goes_on() {
    let registry = shell();
    let (state, effect) = step(LoopState::Prompting, false, INFO, &registry, line("xyz"));
    assert_eq!(state, LoopState::Prompting);
    match &effect {
        Effect::Show(text) => assert!(text.contains("xyz")),
        other => panic!("nothing was shown: {:?}", other),
    }
    assert_eq!(effect, Effect::Show("Unknown command: \"xyz\"\n".to_string()));
}

#[test]
fn an_unknown_word_is_the_first_word_of_the_line() {
    let registry = shell();
    let out = step(LoopState::Prompting, false, INFO, &registry, line("  xyz account q!"));
    assert_eq!(out, (LoopState::Prompting, Effect::Show("Unknown command: \"xyz\"\n".to_string())));
    assert_eq!(unknown_command("Quit"), "Unknown command: \"Quit\"\n");
}

#[test]
fn every_alias_runs_its_own_command() {
    let registry = shell();
    for (position, command) in registry.commands().iter().enumerate() {
        for alias in &command.aliases {
            assert_eq!(resolve(&registry, alias), Resolution::Command(position));
            let out = step(LoopState::Prompting, false, INFO, &registry, line(alias));
            assert_eq!(
                out,
                (
                    LoopState::Executing { command: position },
                    Effect::Run { command: position, params: vec![alias.clone()], stamped: false },
                )
            );
        }
    }
}

#[test]
fn a_command_gets_all_the_words_of_the_line() {
    let registry = shell();
    let out = step(LoopState::Prompting, false, INFO, &registry, line("  t 0\t1   10  "));
    assert_eq!(
        out,
        (
            LoopState::Executing { command: 2 },
            Effect::Run { command: 2, params: words(&["t", "0", "1", "10"]), stamped: false },
        )
    );
}

#[test]
fn a_verbose_session_stamps_its_invocations() {
    let registry = shell();
    let out = step(LoopState::Prompting, true, INFO, &registry, line("a create"));
    assert_eq!(
        out,
        (
            LoopState::Executing { command: 0 },
            Effect::Run { command: 0, params: words(&["a", "create"]), stamped: true },
        )
    );
}

#[test]
fn a_registered_alias_comes_before_a_built_in_name() {
    let registry = CommandRegistry::build(
        true,
        &vec![described(&["quit", "help"], "", "Takes both names")],
    )
    .unwrap();
    assert_eq!(resolve(&registry, "quit"), Resolution::Command(0));
    assert_eq!(resolve(&registry, "help"), Resolution::Command(0));
    assert_eq!(resolve(&registry, "q!"), Resolution::Quit);
    assert_eq!(resolve(&registry, "h"), Resolution::Help);
    let out = step(LoopState::Prompting, false, INFO, &registry, line("quit"));
    assert_eq!(
        out,
        (
            LoopState::Executing { command: 0 },
            Effect::Run { command: 0, params: words(&["quit"]), stamped: false },
        )
    );
}

#[test]
fn resolve_tells_the_four_kinds_apart() {
    let registry = shell();
    assert_eq!(resolve(&registry, "q"), Resolution::Command(1));
    assert_eq!(resolve(&registry, "quit"), Resolution::Quit);
    assert_eq!(resolve(&registry, "q!"), Resolution::Quit);
    assert_eq!(resolve(&registry, "help"), Resolution::Help);
    assert_eq!(resolve(&registry, "h"), Resolution::Help);
    assert_eq!(resolve(&registry, "xyz"), Resolution::Unknown);
    assert_eq!(resolve(&registry, ""), Resolution::Unknown);
    assert_eq!(resolve(&registry, "QUIT"), Resolution::Unknown);
}

#[test]
fn a_blank_line_does_nothing() {
    let registry = shell();
    for blank in ["", " ", "\t", "   \t \r\n", "\u{A0}\u{3000}"] {
        let out = step(LoopState::Prompting, true, INFO, &registry, line(blank));
        assert_eq!(out, (LoopState::Prompting, Effect::Nothing));
    }
}

#[test]
fn a_failed_command_is_reported_and_the_session_prompts_again() {
    let registry = shell();
    let failed = Event::CommandFailed {
        context: "Error creating account".to_string(),
        cause: "Server unavailable".to_string(),
    };
    let (state, effect) = step(LoopState::Executing { command: 0 }, false, INFO, &registry, failed);
    assert_eq!(state, LoopState::Prompting);
    assert_eq!(
        effect,
        Effect::Show("[ERROR] Error creating account: Server unavailable\n".to_string())
    );
    let (state, effect) = step(state, false, INFO, &registry, line("q 1"));
    assert_eq!(state, LoopState::Executing { command: 1 });
    assert_eq!(effect, Effect::Run { command: 1, params: words(&["q", "1"]), stamped: false });
}

#[test]
fn a_finished_command_prompts_again() {
    let registry = shell();
    let out = step(LoopState::Executing { command: 2 }, true, INFO, &registry, Event::CommandDone);
    assert_eq!(out, (LoopState::Prompting, Effect::Nothing));
}

#[test]
fn the_end_of_input_ends_the_session() {
    let registry = shell();
    let out = step(LoopState::Prompting, false, INFO, &registry, Event::EndOfInput);
    assert_eq!(out, (LoopState::Exiting, Effect::Show("CTRL-D\n".to_string())));
}

#[test]
fn an_interrupt_ends_the_session() {
    let registry = shell();
    let out = step(LoopState::Prompting, false, INFO, &registry, Event::Interrupt);
    assert_eq!(out, (LoopState::Exiting, Effect::Show("CTRL-C\n".to_string())));
}

#[test]
fn a_failed_read_ends_the_session() {
    let registry = shell();
    let failure = Event::ReadFailure("Io(Custom { kind: Other })".to_string());
    let out = step(LoopState::Prompting, false, INFO, &registry, failure);
    assert_eq!(
        out,
        (LoopState::Exiting, Effect::Show("Error: Io(Custom { kind: Other })\n".to_string()))
    );
}

#[test]
fn a_running_command_is_not_disturbed() {
    let registry = shell();
    let running = LoopState::Executing { command: 1 };
    for event in [line("quit"), Event::EndOfInput, Event::Interrupt, Event::ReadFailure("x".to_string())] {
        assert_eq!(step(running, false, INFO, &registry, event), (running, Effect::Nothing));
    }
}

#[test]
fn a_prompt_does_not_wait_for_a_command() {
    let registry = shell();
    let failed = Event::CommandFailed { context: "c".to_string(), cause: "e".to_string() };
    assert_eq!(
        step(LoopState::Prompting, false, INFO, &registry, Event::CommandDone),
        (LoopState::Prompting, Effect::Nothing)
    );
    assert_eq!(
        step(LoopState::Prompting, false, INFO, &registry, failed),
        (LoopState::Prompting, Effect::Nothing)
    );
}

#[test]
fn an_ended_session_stays_ended() {
    let registry = shell();
    let failed = Event::CommandFailed { context: "c".to_string(), cause: "e".to_string() };
    for event in [line("help"), line("a"), Event::EndOfInput, Event::Interrupt, Event::CommandDone, failed] {
        assert_eq!(
            step(LoopState::Exiting, true, INFO, &registry, event),
            (LoopState::Exiting, Effect::Nothing)
        );
    }
}

#[test]
fn a_whole_session_runs_to_its_end() {
    let registry = shell();
    let mut state = start();
    let mut runs = 0;
    let mut shown = Vec::new();
    let script = vec![
        line(""),
        line("a create"),
        Event::CommandFailed { context: "Error creating account".to_string(), cause: "no".to_string() },
        line("nope"),
        line("q balance 0"),
        Event::CommandDone,
        line("quit"),
        line("a create"),
    ];
    for event in script {
        let (next, effect) = step(state, false, INFO, &registry, event);
        state = next;
        match effect {
            Effect::Run { .. } => runs += 1,
            Effect::Show(text) => shown.push(text),
            Effect::Nothing => {}
        }
    }
    assert_eq!(state, LoopState::Exiting);
    assert_eq!(runs, 2);
    assert_eq!(
        shown,
        vec!["[ERROR] Error creating account: no\n".to_string(), "Unknown command: \"nope\"\n".to_string()]
    );
}

#[test]
fn the_opening_is_the_help_and_an_invitation() {
    let registry = shell();
    let mut expected = registry.help_text(INFO);
    expected.push_str("Please, input commands: \n\n");
    assert_eq!(opening_text(INFO, &registry), expected);
}

#[test]
fn the_stamp_is_the_time_to_the_second_in_utc() {
    assert_eq!(invocation_stamp(0), Some("1970-01-01T00:00:00Z\n".to_string()));
    assert_eq!(invocation_stamp(1_600_000_000), Some("2020-09-13T12:26:40Z\n".to_string()));
    assert_eq!(invocation_stamp(253_402_300_799), Some("9999-12-31T23:59:59Z\n".to_string()));
    assert_eq!(invocation_stamp(-1), Some("1969-12-31T23:59:59Z\n".to_string()));
}

#[test]
fn there_is_no_stamp_for_a_time_out_of_range() {
    assert_eq!(invocation_stamp(i64::MAX), None);
    assert_eq!(invocation_stamp(i64::MIN), None);
}
