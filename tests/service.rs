use my_service::config::{listener_config, LISTEN_PORT};
use my_service::response::{handler, STATUS_OK};
use my_service::server::{Admission, ServeState};
use my_service::shutdown::{shutdown_message, Reaction, ShutdownWatcher, SignalSource, WatcherState};

const GREETING: &str = "<h1>Hello, World!</h1><h2>This is my axum service.</h2>";

fn armed(terminate_supported: bool) -> ShutdownWatcher {
    let mut w = ShutdownWatcher::new(terminate_supported);
    w.arm();
    w
}

#[test]
fn root_route_answers_200_with_greeting() {
    let r = handler();
    assert_eq!(r.status, 200);
    assert_eq!(r.status, STATUS_OK);
    assert!(r.html);
    assert_eq!(r.body, GREETING);
}

#[test]
fn root_route_answers_the_same_every_time() {
    for _ in 0..3 {
        let r = handler();
        assert_eq!(r.status, 200);
        assert_eq!(r.body, GREETING);
    }
}

#[test]
fn listener_binds_all_interfaces_on_port_3000() {
    let c = listener_config();
    assert_eq!(c.octets, [0, 0, 0, 0]);
    assert_eq!(c.port, 3000);
    assert_eq!(LISTEN_PORT, 3000);
}

#[test]
fn new_watcher_is_unarmed_and_arming_is_one_way() {
    let mut w = ShutdownWatcher::new(true);
    assert_eq!(w.state, WatcherState::Unarmed);
    assert!(!w.is_signaled());
    w.arm();
    assert_eq!(w.state, WatcherState::Armed);
    w.arm();
    assert_eq!(w.state, WatcherState::Armed);
}

#[test]
fn unarmed_watcher_ignores_signals() {
    let mut w = ShutdownWatcher::new(true);
    assert_eq!(w.on_signal(SignalSource::Interrupt), Reaction::Ignore);
    assert_eq!(w.state, WatcherState::Unarmed);
}

#[test]
fn interrupt_starts_shutdown() {
    let mut w = armed(true);
    assert_eq!(w.on_signal(SignalSource::Interrupt), Reaction::StartShutdown);
    assert_eq!(w.state, WatcherState::Signaled { by: SignalSource::Interrupt });
    assert!(w.is_signaled());
}

#[test]
fn shutdown_fires_at_most_once_over_many_signals() {
    let mut w = armed(true);
    let signals = [
        SignalSource::Interrupt,
        SignalSource::Terminate,
        SignalSource::Interrupt,
        SignalSource::Interrupt,
        SignalSource::Terminate,
    ];
    let mut fired = 0;
    for s in signals {
        if w.on_signal(s) == Reaction::StartShutdown {
            fired += 1;
        }
    }
    assert_eq!(fired, 1);
    assert_eq!(w.state, WatcherState::Signaled { by: SignalSource::Interrupt });
    w.arm();
    assert!(w.is_signaled());
}

#[test]
fn termination_before_interrupt_still_shuts_down() {
    let mut w = armed(true);
    assert_eq!(w.on_signal(SignalSource::Terminate), Reaction::StartShutdown);
    assert_eq!(w.on_signal(SignalSource::Interrupt), Reaction::Ignore);
    assert_eq!(w.state, WatcherState::Signaled { by: SignalSource::Terminate });
}

#[test]
fn without_termination_support_only_interrupt_resolves() {
    let mut w = armed(false);
    assert_eq!(w.on_signal(SignalSource::Terminate), Reaction::Ignore);
    assert_eq!(w.on_signal(SignalSource::Terminate), Reaction::Ignore);
    assert_eq!(w.state, WatcherState::Armed);
    assert_eq!(w.on_signal(SignalSource::Interrupt), Reaction::StartShutdown);
    assert_eq!(w.state, WatcherState::Signaled { by: SignalSource::Interrupt });
}

#[test]
fn shutdown_message_text() {
    assert_eq!(shutdown_message(), "signal received, starting graceful shutdown");
}

#[test]
fn open_server_admits_connections() {
    let mut g = ServeState::new();
    assert!(g.is_accepting());
    assert!(!g.is_finished());
    assert_eq!(g.on_connection(), Admission::Admit);
    assert_eq!(g.on_connection(), Admission::Admit);
    assert_eq!(g.in_flight, 2);
    g.on_completed();
    assert_eq!(g.in_flight, 1);
    assert!(!g.is_finished());
}

#[test]
fn draining_server_refuses_new_connections() {
    let mut g = ServeState::new();
    g.on_shutdown();
    assert!(!g.is_accepting());
    assert_eq!(g.on_connection(), Admission::Refuse);
    assert_eq!(g.in_flight, 0);
    assert!(g.is_finished());
}

#[test]
fn in_flight_request_completes_before_return() {
    let mut g = ServeState::new();
    assert_eq!(g.on_connection(), Admission::Admit);
    g.on_shutdown();
    assert_eq!(g.on_connection(), Admission::Refuse);
    assert!(!g.is_finished());
    g.on_completed();
    assert!(g.is_finished());
}

#[test]
fn signal_drives_server_into_drain() {
    let mut w = armed(true);
    let mut g = ServeState::new();
    assert_eq!(g.on_connection(), Admission::Admit);
    for s in [SignalSource::Terminate, SignalSource::Interrupt] {
        if w.on_signal(s) == Reaction::StartShutdown {
            g.on_shutdown();
        }
    }
    assert_eq!(g.on_connection(), Admission::Refuse);
    assert!(!g.is_finished());
    g.on_completed();
    assert!(g.is_finished());
}

#[test]
fn request_then_interrupt_ends_in_clean_drain() {
    let mut w = armed(true);
    let mut server = ServeState::new();
    assert_eq!(server.on_connection(), Admission::Admit);
    let r = handler();
    assert_eq!(r.status, 200);
    assert_eq!(r.body, GREETING);
    server.on_completed();
    assert!(!server.is_finished());
    assert_eq!(w.on_signal(SignalSource::Interrupt), Reaction::StartShutdown);
    assert_eq!(shutdown_message(), "signal received, starting graceful shutdown");
    server.on_shutdown();
    assert!(server.is_finished());
}
