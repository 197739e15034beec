//! The perception actor: the boundary between the outside world and the
//! cognitive core.  Inputs go on to cognition, outputs are shown, and a
//! shutdown stops the actor.
use crate::text::{eq_ignore_ascii_case, equal_ignoring_ascii_case, trim, trimmed};
use vstd::prelude::*;

verus! {

/// A message as the perception actor sees it.
#[derive(Debug)]
pub enum PerceptionEvent {
    /// Text from the user.
    Input(String),
    /// Text the assistant says.
    Output(String),
    /// The system is shutting down.
    Shutdown,
    /// Any other message.
    Other,
}

/// What the perception actor does with a message.
#[derive(Debug)]
pub enum PerceptionAction {
    /// Pass the user's text on to cognition.
    Forward(String),
    /// Show the assistant's text to the user.
    Show(String),
    /// Stop the actor.
    Stop,
    /// Do nothing.
    Ignore,
}

/// Routes a message: inputs are forwarded, outputs shown, a shutdown stops
/// the actor, and anything else is ignored.
pub fn perceive(event: PerceptionEvent) -> (a: PerceptionAction)
    ensures
        match event {
            PerceptionEvent::Input(t) => a matches PerceptionAction::Forward(f) && f@ == t@,
            PerceptionEvent::Output(t) => a matches PerceptionAction::Show(f) && f@ == t@,
            PerceptionEvent::Shutdown => a is Stop,
            PerceptionEvent::Other => a is Ignore,
        },
{
    match event {
        PerceptionEvent::Input(t) => PerceptionAction::Forward(t),
        PerceptionEvent::Output(t) => PerceptionAction::Show(t),
        PerceptionEvent::Shutdown => PerceptionAction::Stop,
        PerceptionEvent::Other => PerceptionAction::Ignore,
    }
}

/// What a line typed at the console asks for.
#[derive(Debug)]
pub enum ConsoleCommand {
    /// Shut the system down.
    Quit,
    /// Nothing was typed.
    Skip,
    /// Send this input to perception.
    Send(String),
}

/// A trimmed console line asks to stop: it is "exit" or "quit" in any ASCII case.
pub open spec fn asks_to_quit(clean: Seq<char>) -> bool {
    equal_ignoring_ascii_case(clean, "exit"@) || equal_ignoring_ascii_case(clean, "quit"@)
}

/// Reads a line typed by the user: "exit" or "quit" (in any case, around
/// whitespace) stops the system, a blank line is skipped, and anything else
/// is sent on, trimmed.
pub fn read_console_line(line: &str) -> (c: ConsoleCommand)
    ensures
        asks_to_quit(trimmed(line@)) ==> c is Quit,
        !asks_to_quit(trimmed(line@)) && trimmed(line@).len() == 0 ==> c is Skip,
        !asks_to_quit(trimmed(line@)) && trimmed(line@).len() > 0 ==> (c matches ConsoleCommand::Send(
            t,
        ) && t@ == trimmed(line@)),
{
    let clean = trim(line);
    if eq_ignore_ascii_case(clean.as_str(), "exit") || eq_ignore_ascii_case(clean.as_str(), "quit") {
        ConsoleCommand::Quit
    } else if clean.as_str().is_empty() {
        ConsoleCommand::Skip
    } else {
        ConsoleCommand::Send(clean)
    }
}

} // verus!
