use vol_llm::connection::{
    backoff_delay, connection_indicator, format_duration, reconnect_step, restore_on_entries, restore_on_resume,
    restore_on_sessions, restore_poll, GlobalState, Indicator, ReconnectAction, ReconnectPhase, RestoreAction,
    RestorePhase,
};
use vol_llm::conversation::ConversationState;
use vol_llm::events::UiEvent;
use vol_llm::rpc::{ConnectionState, SessionListEntry};

#[test]
fn backoff_doubles_from_three_up_to_thirty() {
    let delays: Vec<u64> = (1..=10).map(backoff_delay).collect();
    assert_eq!(delays, vec![3, 6, 12, 24, 30, 30, 30, 30, 30, 30]);
}

#[test]
fn disconnect_starts_reconnecting_and_connect_clears_it() {
    let mut g = GlobalState::new("ws://h:3001/ws".to_string());
    g.is_running = true;
    let e = g.on_connection_state(ConnectionState::Disconnected);
    assert!(matches!(e, UiEvent::WsDisconnected { reason: Some(ref r) } if r == "Disconnected"));
    assert!(g.reconnecting);
    assert!(!g.is_running);
    assert_eq!(g.ws_last_error.as_deref(), Some("Disconnected"));
    let e = g.on_connection_state(ConnectionState::Connecting);
    assert!(matches!(e, UiEvent::WsConnecting));
    assert!(!g.ws_connected);
    let e = g.on_connection_state(ConnectionState::Connected);
    assert!(matches!(e, UiEvent::WsConnected));
    assert!(g.ws_connected && !g.reconnecting && g.ws_last_error.is_none());
}

#[test]
fn disconnect_after_giving_up_does_not_restart() {
    let mut g = GlobalState::new("u".to_string());
    g.reconnect_maxed = true;
    g.on_connection_state(ConnectionState::Disconnected);
    assert!(!g.reconnecting);
}

#[test]
fn lifecycle_events_update_run_counters() {
    let mut g = GlobalState::new("u".to_string());
    g.on_ui_event(&UiEvent::AgentStart { input: "hi".to_string() });
    assert_eq!(g.run_count, 1);
    assert!(g.is_running);
    g.on_ui_event(&UiEvent::IterationComplete { iteration: 3, final_answer: None });
    assert_eq!(g.iteration, 3);
    g.on_ui_event(&UiEvent::AgentComplete { response: "done".to_string() });
    assert!(!g.is_running);
    g.on_ui_event(&UiEvent::ThinkingStart);
    assert_eq!(g.run_count, 1);
}

#[test]
fn reconnect_loop_counts_down_and_reconnects() {
    let mut g = GlobalState::new("u".to_string());
    let (p, a) = reconnect_step(ReconnectPhase::Waiting, &mut g);
    assert_eq!(p, ReconnectPhase::Waiting);
    assert!(matches!(a, ReconnectAction::Sleep(200)));
    g.on_connection_state(ConnectionState::Disconnected);
    let (p, _) = reconnect_step(p, &mut g);
    assert_eq!(p, ReconnectPhase::Attempt { attempt: 1 });
    let (p, a) = reconnect_step(p, &mut g);
    assert!(matches!(a, ReconnectAction::Publish(UiEvent::WsReconnecting { attempt: 1, delay_secs: 3 })));
    assert_eq!(g.reconnect_attempts, 1);
    let mut phase = p;
    let mut sleeps = 0;
    let mut reconnects = 0;
    for _ in 0..20 {
        let (np, a) = reconnect_step(phase, &mut g);
        match a {
            ReconnectAction::Sleep(1000) => sleeps += 1,
            ReconnectAction::CallReconnect => {
                reconnects += 1;
                phase = np;
                break;
            }
            _ => {}
        }
        phase = np;
    }
    assert_eq!(sleeps, 3);
    assert_eq!(reconnects, 1);
    assert_eq!(phase, ReconnectPhase::Awaiting { attempt: 1, polls: 0 });
    g.on_connection_state(ConnectionState::Connected);
    let (p, _) = reconnect_step(phase, &mut g);
    let (p, a) = reconnect_step(p, &mut g);
    assert_eq!(p, ReconnectPhase::Finished);
    assert!(matches!(a, ReconnectAction::Stop));
}

#[test]
fn reconnect_loop_gives_up_after_the_tenth_attempt() {
    let mut g = GlobalState::new("u".to_string());
    g.reconnecting = true;
    let (p, a) = reconnect_step(ReconnectPhase::Awaiting { attempt: 10, polls: 50 }, &mut g);
    assert_eq!(p, ReconnectPhase::GiveUp);
    assert!(matches!(a, ReconnectAction::Continue));
    let (p, a) = reconnect_step(p, &mut g);
    assert_eq!(p, ReconnectPhase::Finished);
    assert!(matches!(a, ReconnectAction::Publish(UiEvent::WsReconnectFailed)));
    assert!(g.reconnect_maxed && !g.reconnecting);
    assert_eq!(g.ws_last_error.as_deref(), Some("Connection lost. Please refresh."));
}

#[test]
fn indicator_priorities_and_labels() {
    assert_eq!(connection_indicator(true, None, true, 5, true).label(), "No connection");
    let i = connection_indicator(false, None, true, 7, false);
    assert_eq!(i.label(), "Reconnecting... (7s)");
    assert_eq!(i.title(), "Reconnecting...");
    assert_eq!(connection_indicator(true, Some("x"), false, 0, false).label(), "Connected");
    let e = connection_indicator(false, Some("boom"), false, 0, false);
    assert!(matches!(e, Indicator::Error(ref t) if t == "boom"));
    assert_eq!(e.label(), "Error");
    assert_eq!(e.title(), "boom");
    assert_eq!(connection_indicator(false, None, false, 0, false).title(), "Connecting...");
}

#[test]
fn durations_as_minutes_and_seconds() {
    assert_eq!(format_duration(0), "00:00");
    assert_eq!(format_duration(75), "01:15");
    assert_eq!(format_duration(6000), "100:00");
}

#[test]
fn restore_after_reconnect_resumes_latest_session() {
    let mut g = GlobalState::new("u".to_string());
    let (p, a) = restore_poll(RestorePhase::WaitReconnect, &g);
    assert!(matches!(p, RestorePhase::WaitReconnect));
    assert!(matches!(a, RestoreAction::Sleep(200)));
    g.ws_connected = true;
    g.reconnect_attempts = 2;
    let (p, a) = restore_poll(RestorePhase::WaitReconnect, &g);
    assert!(matches!(p, RestorePhase::FetchingSessions));
    assert!(matches!(a, RestoreAction::FetchSessions));
    let sessions = vec![
        SessionListEntry { id: "newest".to_string(), entry_count: 2, created_at: 10 },
        SessionListEntry { id: "older".to_string(), entry_count: 1, created_at: 5 },
    ];
    let (p, a) = restore_on_sessions(&mut g, Ok(sessions));
    assert!(matches!(p, RestorePhase::Resuming(ref id) if id == "newest"));
    assert!(matches!(a, Some(RestoreAction::Resume(ref id)) if id == "newest"));
    let (p, a) = restore_on_resume(&mut g, "newest".to_string(), true);
    assert!(matches!(p, RestorePhase::FetchingEntries(ref id) if id == "newest"));
    assert!(matches!(a, Some(RestoreAction::FetchEntries(_))));
    let mut conv = ConversationState::new();
    let p = restore_on_entries(&mut g, &mut conv, "agent", Ok(vec![]));
    assert!(matches!(p, RestorePhase::WaitDisconnect));
    assert_eq!(g.reconnect_attempts, 0);
    assert_eq!(conv.agents.len(), 1);
}

#[test]
fn restore_with_no_sessions_stops() {
    let mut g = GlobalState::new("u".to_string());
    g.reconnect_attempts = 3;
    let (p, a) = restore_on_sessions(&mut g, Ok(vec![]));
    assert!(matches!(p, RestorePhase::WaitReconnect));
    assert!(a.is_none());
    assert_eq!(g.reconnect_attempts, 0);
}

#[test]
fn a_connection_that_never_returns_gets_ten_attempts_then_gives_up() {
    let mut g = GlobalState::new("u".to_string());
    g.on_connection_state(ConnectionState::Disconnected);
    let mut phase = ReconnectPhase::Waiting;
    let mut announced = Vec::new();
    let mut reconnects = 0;
    let mut failed = 0;
    for _ in 0..100_000 {
        let (next, action) = reconnect_step(phase, &mut g);
        match action {
            ReconnectAction::Publish(UiEvent::WsReconnecting { attempt, delay_secs }) => {
                announced.push((attempt, delay_secs));
                assert_eq!(g.reconnect_attempts, attempt);
            }
            ReconnectAction::Publish(UiEvent::WsReconnectFailed) => failed += 1,
            ReconnectAction::CallReconnect => reconnects += 1,
            _ => {}
        }
        phase = next;
        if phase == ReconnectPhase::Finished {
            break;
        }
    }
    let expected: Vec<(u32, u32)> =
        vec![(1, 3), (2, 6), (3, 12), (4, 24), (5, 30), (6, 30), (7, 30), (8, 30), (9, 30), (10, 30)];
    assert_eq!(announced, expected);
    assert_eq!((reconnects, failed), (10, 1));
    assert!(!g.reconnecting && g.reconnect_maxed);
    assert_eq!(g.ws_last_error.as_deref(), Some("Connection lost. Please refresh."));
}
