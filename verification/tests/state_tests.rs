use cognitive_core::heartbeat::{HeartbeatState, TickAction};
use cognitive_core::perception::{perceive, read_console_line, ConsoleCommand, PerceptionAction, PerceptionEvent};
use cognitive_core::session::{SessionBuffer, Speaker, SESSION_BUFFER_MAX};

#[test]
fn buffer_drops_oldest_turn_when_full() {
    let mut b = SessionBuffer::new();
    for i in 0..25 {
        b.push(Speaker::User, &format!("turno {}", i));
        assert!(b.len() <= 2 * SESSION_BUFFER_MAX);
    }
    assert_eq!(b.len(), 20);
    let snap = b.snapshot();
    assert_eq!(snap[0].content, "turno 5");
    assert_eq!(snap[19].content, "turno 24");
}

#[test]
fn compression_takes_the_whole_buffer() {
    let mut b = SessionBuffer::new();
    for i in 0..9 {
        b.push(if i % 2 == 0 { Speaker::User } else { Speaker::Android }, &format!("t{}", i));
    }
    assert!(b.take_for_compression().is_none());
    assert_eq!(b.len(), 9);
    b.push(Speaker::Android, "t9");
    let taken = b.take_for_compression().expect("ten turns trigger compression");
    assert_eq!(taken.len(), 10);
    assert_eq!(taken[0].content, "t0");
    assert_eq!(taken[9].content, "t9");
    assert_eq!(taken[9].speaker, Speaker::Android);
    assert_eq!(b.len(), 0);
}

#[test]
fn heartbeat_consolidates_every_fifth_tick() {
    let mut h = HeartbeatState::new();
    let mut actions = Vec::new();
    for _ in 0..10 {
        actions.push(h.on_tick());
    }
    let consolidations: Vec<usize> = actions
        .iter()
        .enumerate()
        .filter(|(_, a)| **a == TickAction::Consolidate)
        .map(|(i, _)| i + 1)
        .collect();
    assert_eq!(consolidations, vec![5, 10]);
}

#[test]
fn curiosity_fires_then_cools_down() {
    let mut h = HeartbeatState::new();
    let gaps = vec!["Rust".to_string(), "Toby".to_string()];
    let q = h.on_gaps(&gaps, true);
    assert_eq!(
        q.as_deref(),
        Some("¿Qué más puedes contarme sobre 'Rust' y cómo se relaciona con lo que ya sabes?")
    );
    let other = vec!["Madrid".to_string()];
    for _ in 0..4 {
        assert!(h.on_gaps(&other, true).is_none());
    }
    let q = h.on_gaps(&other, true);
    assert_eq!(
        q.as_deref(),
        Some("¿Qué más puedes contarme sobre 'Madrid' y cómo se relaciona con lo que ya sabes?")
    );
}

#[test]
fn curiosity_needs_a_new_gap_and_enough_arousal() {
    let mut h = HeartbeatState::new();
    assert!(h.on_gaps(&Vec::new(), true).is_none());
    let gaps = vec!["Rust".to_string()];
    assert!(h.on_gaps(&gaps, false).is_none());
    assert!(h.on_gaps(&gaps, true).is_some());
    for _ in 0..4 {
        assert!(h.on_gaps(&gaps, true).is_none());
    }
    // The cooldown has run out, but the concept is the one asked about last.
    assert!(h.on_gaps(&gaps, true).is_none());
    assert!(h.on_gaps(&vec!["Luna".to_string()], true).is_some());
}

#[test]
fn perception_routes_messages() {
    assert!(matches!(perceive(PerceptionEvent::Input("hola".into())), PerceptionAction::Forward(t) if t == "hola"));
    assert!(matches!(perceive(PerceptionEvent::Output("adiós".into())), PerceptionAction::Show(t) if t == "adiós"));
    assert!(matches!(perceive(PerceptionEvent::Shutdown), PerceptionAction::Stop));
    assert!(matches!(perceive(PerceptionEvent::Other), PerceptionAction::Ignore));
}

#[test]
fn ticks_leave_curiosity_untouched() {
    let mut h = HeartbeatState::new();
    assert!(h.on_gaps(&vec!["Rust".to_string()], true).is_some());
    for _ in 0..10 {
        h.on_tick();
    }
    let gaps = vec!["Luna".to_string()];
    for _ in 0..4 {
        assert!(h.on_gaps(&gaps, true).is_none());
    }
    assert!(h.on_gaps(&gaps, true).is_some());
}

#[test]
fn questions_are_spaced_by_four_silent_replies() {
    let mut h = HeartbeatState::new();
    let mut fired = Vec::new();
    for reply in 1..=11 {
        let gaps = vec![format!("concepto {}", reply)];
        if h.on_gaps(&gaps, true).is_some() {
            fired.push(reply);
        }
    }
    assert_eq!(fired, vec![1, 6, 11]);
}

#[test]
fn console_lines() {
    assert!(matches!(read_console_line("  EXIT\n"), ConsoleCommand::Quit));
    assert!(matches!(read_console_line("Quit"), ConsoleCommand::Quit));
    assert!(matches!(read_console_line(" \t\n"), ConsoleCommand::Skip));
    assert!(matches!(read_console_line("  hola  \n"), ConsoleCommand::Send(t) if t == "hola"));
    assert!(matches!(read_console_line("exito"), ConsoleCommand::Send(t) if t == "exito"));
    assert!(matches!(read_console_line("ÉXIT"), ConsoleCommand::Send(_)));
}
