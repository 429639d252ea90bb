use iptv_player::args::get_ffmpeg_args;
use iptv_player::session::{Action, Event, Phase, Session, MAX_POLL_ATTEMPTS};

fn start_to_ready(s: &mut Session, url: &str, files: u64) -> Vec<Action> {
    let mut actions = Vec::new();
    actions.push(s.step(Event::StartRequested(url.to_string())));
    actions.push(s.step(Event::Killed));
    actions.push(s.step(Event::Settled));
    actions.push(s.step(Event::Purged));
    actions.push(s.step(Event::Prepared));
    if matches!(actions.last().unwrap(), Action::Bind) {
        actions.push(s.step(Event::Bound(true)));
    }
    actions.push(s.step(Event::Delayed));
    actions.push(s.step(Event::SpawnedOk));
    actions.push(s.step(Event::Observed { manifest: true, segment: true, files }));
    actions
}

fn stop_to_idle(s: &mut Session) {
    s.step(Event::StopRequested);
    s.step(Event::Killed);
    s.step(Event::Settled);
    s.step(Event::Purged);
}

#[test]
fn successful_start_delivers_playback_url() {
    let mut s = Session::new("/tmp/iptv-hls".to_string());
    assert_eq!(s.phase(), Phase::Idle);
    assert!(!s.is_server_started());

    assert!(matches!(s.step(Event::StartRequested("http://src".to_string())), Action::Kill));
    assert!(matches!(s.step(Event::Killed), Action::Settle));
    assert!(matches!(s.step(Event::Settled), Action::Purge));
    assert!(matches!(s.step(Event::Purged), Action::Prepare));
    assert!(matches!(s.step(Event::Prepared), Action::Bind));
    assert!(s.is_server_started());
    assert!(matches!(s.step(Event::Bound(true)), Action::Delay));
    assert_eq!(s.listeners_bound(), 1);

    let spawn = s.step(Event::Delayed);
    match spawn {
        Action::Spawn { fallback, args } => {
            assert!(!fallback);
            assert_eq!(
                args,
                get_ffmpeg_args(
                    "http://src",
                    "/tmp/iptv-hls/segment%d.ts",
                    "/tmp/iptv-hls/stream.m3u8"
                )
            );
        },
        _ => panic!("expected a spawn"),
    }
    assert!(matches!(s.step(Event::SpawnedOk), Action::Poll));
    assert_eq!(s.processes_alive(), 1);

    let done = s.step(Event::Observed { manifest: true, segment: true, files: 3 });
    match done {
        Action::Deliver(url) => {
            assert_eq!(url, "http://127.0.0.1:9876/hls/stream.m3u8".to_string())
        },
        _ => panic!("expected the playback URL"),
    }
    assert_eq!(s.phase(), Phase::Ready);
    assert_eq!(s.processes_alive(), 1);
    assert_eq!(s.source_url(), "http://src");
}

#[test]
fn stop_clears_workspace_and_process() {
    let mut s = Session::new("/tmp/iptv-hls".to_string());
    start_to_ready(&mut s, "http://src", 7);
    assert_eq!(s.workspace_files(), 7);
    assert_eq!(s.processes_alive(), 1);

    assert!(matches!(s.step(Event::StopRequested), Action::Kill));
    assert!(matches!(s.step(Event::Killed), Action::Settle));
    assert_eq!(s.processes_alive(), 0);
    // The settling pause comes before the purge, so the old session's
    // files are still there.
    assert_eq!(s.workspace_files(), 7);
    assert!(matches!(s.step(Event::Settled), Action::Purge));
    assert!(matches!(s.step(Event::Purged), Action::Nothing));
    assert_eq!(s.workspace_files(), 0);
    assert_eq!(s.phase(), Phase::Idle);
}

#[test]
fn stop_without_session_is_a_no_op() {
    let mut s = Session::new("/tmp/iptv-hls".to_string());
    stop_to_idle(&mut s);
    assert_eq!(s.phase(), Phase::Idle);
    assert_eq!(s.processes_alive(), 0);
    assert_eq!(s.workspace_files(), 0);
}

#[test]
fn server_is_bound_exactly_once() {
    let mut s = Session::new("/tmp/iptv-hls".to_string());
    start_to_ready(&mut s, "http://one", 1);
    assert_eq!(s.listeners_bound(), 1);

    // The second start finds the flag set: no second bind is asked for.
    s.step(Event::StartRequested("http://two".to_string()));
    s.step(Event::Killed);
    s.step(Event::Settled);
    s.step(Event::Purged);
    assert!(matches!(s.step(Event::Prepared), Action::Delay));
    assert_eq!(s.listeners_bound(), 1);
    // A stray bind report changes nothing.
    assert!(matches!(s.step(Event::Bound(true)), Action::Nothing));
    assert_eq!(s.listeners_bound(), 1);
}

#[test]
fn failed_bind_is_swallowed() {
    let mut s = Session::new("/tmp/iptv-hls".to_string());
    s.step(Event::StartRequested("http://src".to_string()));
    s.step(Event::Killed);
    s.step(Event::Settled);
    s.step(Event::Purged);
    assert!(matches!(s.step(Event::Prepared), Action::Bind));
    // The bind failed; the start sequence goes on regardless.
    assert!(matches!(s.step(Event::Bound(false)), Action::Delay));
    assert_eq!(s.listeners_bound(), 0);
    assert!(s.is_server_started());
}

#[test]
fn spawn_falls_back_once_then_fails() {
    let mut s = Session::new("/tmp/iptv-hls".to_string());
    s.step(Event::StartRequested("http://src".to_string()));
    s.step(Event::Killed);
    s.step(Event::Settled);
    s.step(Event::Purged);
    s.step(Event::Prepared);
    s.step(Event::Bound(true));
    s.step(Event::Delayed);

    let second = s.step(Event::SpawnedErr("no sidecar".to_string()));
    match second {
        Action::Spawn { fallback, .. } => assert!(fallback),
        _ => panic!("expected the system candidate"),
    }
    let failed = s.step(Event::SpawnedErr("boom".to_string()));
    match failed {
        Action::Fail(msg) => {
            assert_eq!(msg, "FFmpeg not found: boom. Please install ffmpeg.".to_string())
        },
        _ => panic!("expected the failure message"),
    }
    assert_eq!(s.phase(), Phase::Failed);
    assert_eq!(
        s.error_message(),
        "FFmpeg not found: boom. Please install ffmpeg.".to_string()
    );
    assert_eq!(s.processes_alive(), 0);
}

#[test]
fn polling_stops_at_the_attempt_bound() {
    let mut s = Session::new("/tmp/iptv-hls".to_string());
    s.step(Event::StartRequested("http://src".to_string()));
    s.step(Event::Killed);
    s.step(Event::Settled);
    s.step(Event::Purged);
    s.step(Event::Prepared);
    s.step(Event::Bound(true));
    s.step(Event::Delayed);
    s.step(Event::SpawnedOk);

    // The workspace never becomes ready: after the bound, the URL is
    // delivered anyway (the player is expected to retry).
    let mut polls: u64 = 0;
    loop {
        let a = s.step(Event::Observed { manifest: false, segment: false, files: 0 });
        polls += 1;
        match a {
            Action::Poll => {
                assert!(polls < MAX_POLL_ATTEMPTS);
            },
            Action::Deliver(_) => break,
            _ => panic!("unexpected action while polling"),
        }
    }
    assert_eq!(polls, MAX_POLL_ATTEMPTS);
    assert_eq!(s.polls_used(), MAX_POLL_ATTEMPTS);
    assert_eq!(s.phase(), Phase::Ready);
}

#[test]
fn round_trip_leaves_no_residue() {
    let mut s = Session::new("/tmp/iptv-hls".to_string());
    start_to_ready(&mut s, "http://src", 9);
    stop_to_idle(&mut s);
    let actions = start_to_ready(&mut s, "http://src", 2);
    // No second bind happened in the second start.
    assert!(actions.iter().all(|a| !matches!(a, Action::Bind)));
    assert_eq!(s.phase(), Phase::Ready);
    assert_eq!(s.processes_alive(), 1);
    assert_eq!(s.listeners_bound(), 1);
    // Only the second session's files are in the workspace.
    assert_eq!(s.workspace_files(), 2);
    assert_eq!(s.polls_used(), 1);
}

#[test]
fn events_in_the_wrong_phase_do_nothing() {
    let mut s = Session::new("/tmp/iptv-hls".to_string());
    assert!(matches!(s.step(Event::Killed), Action::Nothing));
    assert!(matches!(s.step(Event::SpawnedOk), Action::Nothing));
    assert!(matches!(
        s.step(Event::Observed { manifest: true, segment: true, files: 1 }),
        Action::Nothing
    ));
    assert_eq!(s.phase(), Phase::Idle);
    assert_eq!(s.processes_alive(), 0);
}
