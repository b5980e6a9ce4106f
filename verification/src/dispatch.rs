//! The interactive loop as a state machine: what the session does with each
//! thing that happens at the console or to a running command.
//!
//! The caller drives the loop. While the state is `Prompting` it reads a line
//! and reports it; when told to run a command it runs it and reports how it
//! ended; it stops once the state is `Exiting`.

use crate::registry::{
    distinct_aliases, help_for, lemma_owner_is_unique, owner, owns, CommandRegistry, CommandView,
};
use crate::report::{error_report, error_text};
use crate::text::{
    contains_text, is_blank, is_space, lemma_contains_middle, lemma_no_words_iff_blank,
    lemma_word_len_is, split_words, str_equal, texts, words,
};
use crate::trusted::{in_four_digit_years, utc_instant, utc_instant_text};
use vstd::prelude::*;

verus! {

/// Where the loop stands.
#[derive(Clone, Copy, Debug, PartialEq, Eq, Structural)]
pub enum LoopState {
    /// Waiting for a line from the operator.
    Prompting,
    /// Waiting for the command at this position of the registry to end.
    Executing { command: usize },
    /// Done. Nothing happens any more.
    Exiting,
}

/// Something that happened, as the caller reports it.
#[derive(Clone, Debug, PartialEq, Eq)]
pub enum Event {
    /// The operator entered a line.
    Line(String),
    /// The input ended.
    EndOfInput,
    /// The operator interrupted the prompt.
    Interrupt,
    /// Reading a line failed for another reason, described by the text.
    ReadFailure(String),
    /// The running command ended well.
    CommandDone,
    /// The running command failed at what `context` names, because of `cause`.
    CommandFailed { context: String, cause: String },
}

/// An event as plain values.
pub enum EventView {
    Line(Seq<char>),
    EndOfInput,
    Interrupt,
    ReadFailure(Seq<char>),
    CommandDone,
    CommandFailed { context: Seq<char>, cause: Seq<char> },
}

impl View for Event {
    type V = EventView;

    open spec fn view(&self) -> EventView {
        match *self {
            Event::Line(line) => EventView::Line(line@),
            Event::EndOfInput => EventView::EndOfInput,
            Event::Interrupt => EventView::Interrupt,
            Event::ReadFailure(text) => EventView::ReadFailure(text@),
            Event::CommandDone => EventView::CommandDone,
            Event::CommandFailed { context, cause } => EventView::CommandFailed {
                context: context@,
                cause: cause@,
            },
        }
    }
}

/// What the caller is to do before it reports the next event.
#[derive(Clone, Debug, PartialEq, Eq)]
pub enum Effect {
    /// Nothing.
    Nothing,
    /// Write the text to the console as it is.
    Show(String),
    /// Run the command at this position of the registry on the words of the
    /// line, the command's own name first. Where `stamped` is set, write the
    /// time of the invocation first.
    Run { command: usize, params: Vec<String>, stamped: bool },
}

/// An effect as plain values.
pub enum EffectView {
    Nothing,
    Show(Seq<char>),
    Run { command: usize, params: Seq<Seq<char>>, stamped: bool },
}

impl View for Effect {
    type V = EffectView;

    open spec fn view(&self) -> EffectView {
        match *self {
            Effect::Nothing => EffectView::Nothing,
            Effect::Show(text) => EffectView::Show(text@),
            Effect::Run { command, params, stamped } => EffectView::Run {
                command,
                params: texts(params@),
                stamped,
            },
        }
    }
}

/// What the first word of a line stands for.
#[derive(Clone, Copy, Debug, PartialEq, Eq, Structural)]
pub enum Resolution {
    /// The command at this position of the registry.
    Command(usize),
    /// The built-in command that ends the session.
    Quit,
    /// The built-in command that shows the help.
    Help,
    /// Nothing that the session knows.
    Unknown,
}

/// Whether a word is one of the names of the built-in command that ends the
/// session.
pub open spec fn is_quit_word(key: Seq<char>) -> bool {
    key == "quit"@ || key == "q!"@
}

/// Whether a word is one of the names of the built-in command that shows the
/// help.
pub open spec fn is_help_word(key: Seq<char>) -> bool {
    key == "help"@ || key == "h"@
}

/// What a word stands for: a registered command where the word is one of its
/// aliases; else the built-in command of that name; else nothing.
pub open spec fn resolve_for(cmds: Seq<CommandView>, key: Seq<char>) -> Resolution {
    match owner(cmds, key) {
        Some(i) => Resolution::Command(i as usize),
        None => if is_quit_word(key) {
            Resolution::Quit
        } else if is_help_word(key) {
            Resolution::Help
        } else {
            Resolution::Unknown
        },
    }
}

/// What the operator is prompted with.
pub open spec fn prompt_text() -> Seq<char> {
    "libra% "@
}

/// The text that tells the operator that a word is no command.
pub open spec fn unknown_text(key: Seq<char>) -> Seq<char> {
    "Unknown command: \""@ + key + "\"\n"@
}

/// The farewell after the operator interrupted the prompt.
pub open spec fn interrupt_text() -> Seq<char> {
    "CTRL-C\n"@
}

/// The farewell after the input ended.
pub open spec fn end_of_input_text() -> Seq<char> {
    "CTRL-D\n"@
}

/// The farewell after reading a line failed.
pub open spec fn read_failure_text(text: Seq<char>) -> Seq<char> {
    "Error: "@ + text + "\n"@
}

/// What the operator is shown when the session opens: the help, and the
/// invitation to enter commands.
pub open spec fn opening_for(info: Seq<char>, cmds: Seq<CommandView>) -> Seq<char> {
    help_for(info, cmds) + "Please, input commands: \n\n"@
}

/// The line that is written before a command is run in a verbose session:
/// the time of the invocation in UTC, to the second; or nothing where the
/// time is no moment that can be written.
pub open spec fn stamp_for(unix_secs: i64) -> Option<Seq<char>> {
    match utc_instant_text(unix_secs as int, 0) {
        Some(stamp) => Some(stamp + "\n"@),
        None => None,
    }
}

/// What a line does to a session that is prompting.
pub open spec fn on_line(verbose: bool, info: Seq<char>, cmds: Seq<CommandView>, line: Seq<char>) -> (
    LoopState,
    EffectView,
) {
    let params = words(line);
    if params.len() == 0 {
        (LoopState::Prompting, EffectView::Nothing)
    } else {
        match resolve_for(cmds, params[0]) {
            Resolution::Command(command) => (
                LoopState::Executing { command },
                EffectView::Run { command, params, stamped: verbose },
            ),
            Resolution::Quit => (LoopState::Exiting, EffectView::Nothing),
            Resolution::Help => (LoopState::Prompting, EffectView::Show(help_for(info, cmds))),
            Resolution::Unknown => (
                LoopState::Prompting,
                EffectView::Show(unknown_text(params[0])),
            ),
        }
    }
}

/// The state after an event, and what the caller is to do.
///
/// A prompting session acts on lines and on the ways a prompt can end. A
/// session that is running a command waits for the command to end and then
/// prompts again, whether the command failed or not. An event that the state
/// does not wait for changes nothing, and a session that has ended stays so.
pub open spec fn next(
    state: LoopState,
    verbose: bool,
    info: Seq<char>,
    cmds: Seq<CommandView>,
    event: EventView,
) -> (LoopState, EffectView) {
    match state {
        LoopState::Prompting => match event {
            EventView::Line(line) => on_line(verbose, info, cmds, line),
            EventView::EndOfInput => (LoopState::Exiting, EffectView::Show(end_of_input_text())),
            EventView::Interrupt => (LoopState::Exiting, EffectView::Show(interrupt_text())),
            EventView::ReadFailure(text) => (
                LoopState::Exiting,
                EffectView::Show(read_failure_text(text)),
            ),
            _ => (state, EffectView::Nothing),
        },
        LoopState::Executing { .. } => match event {
            EventView::CommandDone => (LoopState::Prompting, EffectView::Nothing),
            EventView::CommandFailed { context, cause } => (
                LoopState::Prompting,
                EffectView::Show(error_text(context, cause)),
            ),
            _ => (state, EffectView::Nothing),
        },
        LoopState::Exiting => (state, EffectView::Nothing),
    }
}

/// A text without white space, and not empty, is one word.
pub proof fn lemma_single_word(s: Seq<char>)
    requires
        s.len() > 0,
        forall|k: int| 0 <= k < s.len() ==> !is_space(#[trigger] s[k]),
    ensures
        words(s) == seq![s],
{
    lemma_word_len_is(s, s.len() as int);
    assert(s.take(s.len() as int) =~= s);
    assert(words(s.skip(s.len() as int)) =~= Seq::<Seq<char>>::empty());
    assert(seq![s] + Seq::<Seq<char>>::empty() =~= seq![s]);
}

/// Every registered alias stands for the command that registered it, whatever
/// the built-in commands are called.
pub proof fn lemma_alias_resolves_to_its_command(cmds: Seq<CommandView>, i: int, alias: Seq<char>)
    requires
        distinct_aliases(cmds),
        owns(cmds, i, alias),
    ensures
        owner(cmds, alias) == Some(i),
        resolve_for(cmds, alias) == Resolution::Command(i as usize),
{
    lemma_owner_is_unique(cmds, i, alias);
}

/// No two commands of a registry share an alias.
pub proof fn lemma_no_shared_alias(cmds: Seq<CommandView>, i1: int, i2: int, alias: Seq<char>)
    requires
        distinct_aliases(cmds),
        owns(cmds, i1, alias),
        owns(cmds, i2, alias),
    ensures
        i1 == i2,
{
    lemma_owner_is_unique(cmds, i1, alias);
}

/// A line whose first word is a registered alias runs the command that
/// registered it, on all the words of the line.
pub proof fn lemma_alias_line_runs_its_command(
    verbose: bool,
    info: Seq<char>,
    cmds: Seq<CommandView>,
    i: int,
    line: Seq<char>,
)
    requires
        distinct_aliases(cmds),
        words(line).len() > 0,
        owns(cmds, i, words(line)[0]),
    ensures
        next(LoopState::Prompting, verbose, info, cmds, EventView::Line(line)) == (
            LoopState::Executing { command: i as usize },
            EffectView::Run { command: i as usize, params: words(line), stamped: verbose },
        ),
{
    lemma_owner_is_unique(cmds, i, words(line)[0]);
}

/// A registered alias entered as it is, where it is one word, runs the
/// command that registered it.
pub proof fn lemma_alias_alone_runs_its_command(
    verbose: bool,
    info: Seq<char>,
    cmds: Seq<CommandView>,
    i: int,
    alias: Seq<char>,
)
    requires
        distinct_aliases(cmds),
        owns(cmds, i, alias),
        alias.len() > 0,
        forall|k: int| 0 <= k < alias.len() ==> !is_space(#[trigger] alias[k]),
    ensures
        next(LoopState::Prompting, verbose, info, cmds, EventView::Line(alias)) == (
            LoopState::Executing { command: i as usize },
            EffectView::Run { command: i as usize, params: seq![alias], stamped: verbose },
        ),
{
    lemma_single_word(alias);
    lemma_alias_line_runs_its_command(verbose, info, cmds, i, alias);
}

/// A line of nothing but white space does nothing: the session prompts again.
pub proof fn lemma_blank_line_prompts_again(
    verbose: bool,
    info: Seq<char>,
    cmds: Seq<CommandView>,
    line: Seq<char>,
)
    requires
        is_blank(line),
    ensures
        next(LoopState::Prompting, verbose, info, cmds, EventView::Line(line)) == (
            LoopState::Prompting,
            EffectView::Nothing,
        ),
{
    lemma_no_words_iff_blank(line);
}

/// A command that fails does not end the session: the failure is shown and
/// the session prompts again.
pub proof fn lemma_failure_prompts_again(
    command: usize,
    verbose: bool,
    info: Seq<char>,
    cmds: Seq<CommandView>,
    context: Seq<char>,
    cause: Seq<char>,
)
    ensures
        next(
            LoopState::Executing { command },
            verbose,
            info,
            cmds,
            EventView::CommandFailed { context, cause },
        ) == (LoopState::Prompting, EffectView::Show(error_text(context, cause))),
        contains_text(error_text(context, cause), context),
        contains_text(error_text(context, cause), cause),
{
    lemma_contains_middle("[ERROR] "@, context, ": "@ + cause + "\n"@);
    assert("[ERROR] "@ + context + (": "@ + cause + "\n"@) =~= error_text(context, cause));
    lemma_contains_middle("[ERROR] "@ + context + ": "@, cause, "\n"@);
}

/// A session ends only at the prompt, and only because the input ended, the
/// operator interrupted it, reading failed, or the operator asked for it.
pub proof fn lemma_ends_only_on_request(
    state: LoopState,
    verbose: bool,
    info: Seq<char>,
    cmds: Seq<CommandView>,
    event: EventView,
)
    requires
        state != LoopState::Exiting,
        next(state, verbose, info, cmds, event).0 == LoopState::Exiting,
    ensures
        state == LoopState::Prompting,
        event is EndOfInput || event is Interrupt || event is ReadFailure || (event matches EventView::Line(
            line,
        ) && words(line).len() > 0 && resolve_for(cmds, words(line)[0]) == Resolution::Quit),
{
}

/// Asking for the end of the session ends it, and runs no command.
pub proof fn lemma_quit_runs_nothing(
    verbose: bool,
    info: Seq<char>,
    cmds: Seq<CommandView>,
    line: Seq<char>,
)
    requires
        words(line).len() > 0,
        is_quit_word(words(line)[0]),
        owner(cmds, words(line)[0]) is None,
    ensures
        next(LoopState::Prompting, verbose, info, cmds, EventView::Line(line)) == (
            LoopState::Exiting,
            EffectView::Nothing,
        ),
{
}

/// Asking for the help shows it, and the session prompts again.
pub proof fn lemma_help_shows_the_help(
    verbose: bool,
    info: Seq<char>,
    cmds: Seq<CommandView>,
    line: Seq<char>,
)
    requires
        words(line).len() > 0,
        is_help_word(words(line)[0]),
        !is_quit_word(words(line)[0]),
        owner(cmds, words(line)[0]) is None,
    ensures
        next(LoopState::Prompting, verbose, info, cmds, EventView::Line(line)) == (
            LoopState::Prompting,
            EffectView::Show(help_for(info, cmds)),
        ),
{
}

/// A first word that nothing answers to is named in what the operator is
/// shown, and the session prompts again.
pub proof fn lemma_unknown_word_is_named(
    verbose: bool,
    info: Seq<char>,
    cmds: Seq<CommandView>,
    line: Seq<char>,
)
    requires
        words(line).len() > 0,
        resolve_for(cmds, words(line)[0]) == Resolution::Unknown,
    ensures
        next(LoopState::Prompting, verbose, info, cmds, EventView::Line(line)) == (
            LoopState::Prompting,
            EffectView::Show(unknown_text(words(line)[0])),
        ),
        contains_text(unknown_text(words(line)[0]), words(line)[0]),
{
    lemma_contains_middle("Unknown command: \""@, words(line)[0], "\"\n"@);
}

/// The two farewells differ: the operator can tell an interrupt from the end
/// of the input.
pub proof fn lemma_farewells_differ()
    ensures
        interrupt_text() != end_of_input_text(),
{
    reveal_strlit("CTRL-C\n");
    reveal_strlit("CTRL-D\n");
    assert(interrupt_text()[5] == 'C');
    assert(end_of_input_text()[5] == 'D');
}

/// A session that has ended stays ended and asks for nothing.
pub proof fn lemma_ended_stays_ended(
    verbose: bool,
    info: Seq<char>,
    cmds: Seq<CommandView>,
    event: EventView,
)
    ensures
        next(LoopState::Exiting, verbose, info, cmds, event) == (
            LoopState::Exiting,
            EffectView::Nothing,
        ),
{
}

/// The state a session starts in.
pub fn start() -> (state: LoopState)
    ensures
        state == LoopState::Prompting,
{
    LoopState::Prompting
}

/// What the operator is prompted with while the session is prompting.
pub fn prompt() -> (out: &'static str)
    ensures
        out@ == prompt_text(),
{
    "libra% "
}

/// Finds what a word stands for.
pub fn resolve(registry: &CommandRegistry, key: &str) -> (found: Resolution)
    ensures
        found == resolve_for(registry@, key@),
{
    match registry.lookup(key) {
        Some(i) => Resolution::Command(i),
        None => {
            if str_equal(key, "quit") || str_equal(key, "q!") {
                Resolution::Quit
            } else if str_equal(key, "help") || str_equal(key, "h") {
                Resolution::Help
            } else {
                Resolution::Unknown
            }
        },
    }
}

/// Writes the text that tells the operator that a word is no command.
pub fn unknown_command(key: &str) -> (out: String)
    ensures
        out@ == unknown_text(key@),
{
    let mut out = "Unknown command: \"".to_owned();
    out.append(key);
    out.append("\"\n");
    out
}

/// Writes what the operator is shown when the session opens.
pub fn opening_text(info: &str, registry: &CommandRegistry) -> (out: String)
    ensures
        out@ == opening_for(info@, registry@),
{
    let mut out = registry.help_text(info);
    out.append("Please, input commands: \n\n");
    out
}

/// Writes the line that goes before a command in a verbose session, from the
/// time of the invocation in seconds since the start of 1970. There is such
/// a line for every time up to the end of the year 9999.
pub fn invocation_stamp(unix_secs: i64) -> (out: Option<String>)
    ensures
        match out {
            Some(line) => stamp_for(unix_secs) == Some(line@),
            None => stamp_for(unix_secs) is None,
        },
        in_four_digit_years(unix_secs as int) ==> out is Some,
{
    match utc_instant(unix_secs, 0) {
        Some(stamp) => {
            let mut line = stamp;
            line.append("\n");
            Some(line)
        },
        None => None,
    }
}

/// Takes the session one step: from the state it is in and the event that
/// the caller reports to the state it is in next and what the caller is to do.
pub fn step(
    state: LoopState,
    verbose: bool,
    info: &str,
    registry: &CommandRegistry,
    event: Event,
) -> (out: (LoopState, Effect))
    ensures
        (out.0, out.1@) == next(state, verbose, info@, registry@, event@),
{
    match state {
        LoopState::Prompting => match event {
            Event::Line(line) => {
                let params = split_words(line.as_str());
                if params.len() == 0 {
                    (LoopState::Prompting, Effect::Nothing)
                } else {
                    match resolve(registry, params[0].as_str()) {
                        Resolution::Command(command) => (
                            LoopState::Executing { command },
                            Effect::Run { command, params, stamped: verbose },
                        ),
                        Resolution::Quit => (LoopState::Exiting, Effect::Nothing),
                        Resolution::Help => (
                            LoopState::Prompting,
                            Effect::Show(registry.help_text(info)),
                        ),
                        Resolution::Unknown => (
                            LoopState::Prompting,
                            Effect::Show(unknown_command(params[0].as_str())),
                        ),
                    }
                }
            },
            Event::EndOfInput => (LoopState::Exiting, Effect::Show("CTRL-D\n".to_owned())),
            Event::Interrupt => (LoopState::Exiting, Effect::Show("CTRL-C\n".to_owned())),
            Event::ReadFailure(text) => {
                let mut out = "Error: ".to_owned();
                out.append(text.as_str());
                out.append("\n");
                (LoopState::Exiting, Effect::Show(out))
            },
            _ => (state, Effect::Nothing),
        },
        LoopState::Executing { .. } => match event {
            Event::CommandDone => (LoopState::Prompting, Effect::Nothing),
            Event::CommandFailed { context, cause } => (
                LoopState::Prompting,
                Effect::Show(error_report(context.as_str(), cause.as_str())),
            ),
            _ => (state, Effect::Nothing),
        },
        LoopState::Exiting => (state, Effect::Nothing),
    }
}

} // verus!
