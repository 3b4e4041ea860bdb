use slide_show::config::Config;
use slide_show::convert::convert;
use slide_show::driver::{control_from_keys, Action, Control, Phase, PipelineState};
use slide_show::error::{DecodeError, PipelineError};
use slide_show::pixel::{PixelBuffer, RgbRaster};
use slide_show::protocol::{WorkRequest, WorkResult};

fn catalog(names: &[&str]) -> Vec<String> {
    names.iter().map(|n| n.to_string()).collect()
}

fn config() -> Config {
    Config::resolve(None, None, None)
}

fn buffer(shade: u8) -> PixelBuffer {
    let raster = RgbRaster::from_raw(2, 1, vec![shade; 6]).unwrap();
    convert(&raster, 1)
}

fn ok(shade: u8) -> WorkResult {
    WorkResult::Ready(Ok(buffer(shade)))
}

fn failed() -> WorkResult {
    WorkResult::Ready(Err(DecodeError::Open("unreadable".to_string())))
}

fn decode(name: &str) -> Action {
    Action::Send(WorkRequest::Decode(name.to_string()))
}

fn shade_of(state: &PipelineState) -> u32 {
    state.current_buffer().unwrap().pixels()[0] & 0xFF
}

fn running(names: &[&str]) -> PipelineState {
    let (state, _) = PipelineState::new(catalog(names), &config()).unwrap();
    let (state, _) = state.on_result(ok(1), 0);
    state
}

#[test]
fn empty_catalog_is_rejected() {
    match PipelineState::new(Vec::new(), &config()) {
        Err(e) => assert_eq!(e, PipelineError::EmptyCatalog),
        Ok(_) => panic!(),
    }
}

#[test]
fn start_asks_for_the_first_path() {
    let (state, request) = PipelineState::new(catalog(&["a", "b", "c"]), &config()).unwrap();
    assert_eq!(request, WorkRequest::Decode("a".to_string()));
    assert_eq!(state.phase(), Phase::Bootstrap);
    assert!(state.is_awaiting());
    assert!(state.current_buffer().is_none());
    assert!(!state.has_pending());
    assert_eq!(state.interval_ms(), 5000);
    assert_eq!(state.catalog(), &catalog(&["a", "b", "c"]));
}

#[test]
fn first_image_goes_on_display_and_the_next_is_asked_for() {
    let (state, _) = PipelineState::new(catalog(&["a", "b", "c"]), &config()).unwrap();
    let (state, action) = state.on_result(ok(7), 120);
    assert_eq!(action, decode("b"));
    assert_eq!(state.phase(), Phase::Running);
    assert_eq!(state.current_index(), 0);
    assert_eq!(shade_of(&state), 7);
    assert!(state.is_awaiting());
    assert!(!state.has_pending());
}

#[test]
fn bootstrap_skips_a_path_that_fails() {
    let (state, _) = PipelineState::new(catalog(&["a", "b", "c"]), &config()).unwrap();
    let (state, action) = state.on_result(failed(), 0);
    assert_eq!(action, decode("b"));
    assert_eq!(state.phase(), Phase::Bootstrap);
    let (state, action) = state.on_result(ok(9), 0);
    assert_eq!(action, decode("c"));
    assert_eq!(state.phase(), Phase::Running);
    assert_eq!(state.current_index(), 1);
    assert_eq!(shade_of(&state), 9);
}

#[test]
fn catalog_of_failing_paths_is_fatal_after_one_traversal() {
    let (mut state, first) = PipelineState::new(catalog(&["a", "b", "c"]), &config()).unwrap();
    let mut asked = vec![first];
    let mut rounds = 0;
    let error = loop {
        rounds += 1;
        assert!(rounds <= 3);
        let (next, action) = state.on_result(failed(), 0);
        state = next;
        match action {
            Action::Send(request) => asked.push(request),
            Action::Fatal(e) => break e,
            _ => panic!(),
        }
    };
    assert_eq!(rounds, 3);
    assert_eq!(error, PipelineError::Exhausted);
    assert_eq!(state.phase(), Phase::Failed);
    assert!(!state.is_awaiting());
    assert_eq!(
        asked,
        vec![
            WorkRequest::Decode("a".to_string()),
            WorkRequest::Decode("b".to_string()),
            WorkRequest::Decode("c".to_string())
        ]
    );
    let (state, action) = state.on_result(failed(), 0);
    assert_eq!(action, Action::Nothing);
    assert_eq!(state.phase(), Phase::Failed);
}

#[test]
fn single_failing_path_is_fatal_at_once() {
    let (state, _) = PipelineState::new(catalog(&["only"]), &config()).unwrap();
    let (state, action) = state.on_result(failed(), 0);
    assert_eq!(action, Action::Fatal(PipelineError::Exhausted));
    assert_eq!(state.phase(), Phase::Failed);
}

#[test]
fn decoded_image_waits_until_the_interval_has_elapsed() {
    let state = running(&["a", "b", "c"]);
    let (state, action) = state.on_result(ok(2), 100);
    assert_eq!(action, Action::Nothing);
    assert!(state.has_pending());
    assert!(!state.is_awaiting());
    assert_eq!(shade_of(&state), 1);

    let (state, action) = state.tick(4999);
    assert_eq!(action, Action::Nothing);
    assert_eq!(shade_of(&state), 1);
    assert_eq!(state.current_index(), 0);

    let (state, action) = state.tick(5000);
    assert_eq!(action, decode("c"));
    assert_eq!(shade_of(&state), 2);
    assert_eq!(state.current_index(), 1);
    assert!(!state.has_pending());
    assert!(state.is_awaiting());
}

#[test]
fn promotion_restarts_the_interval() {
    let state = running(&["a", "b"]);
    let (state, _) = state.on_result(ok(2), 0);
    let (state, action) = state.tick(6000);
    assert_eq!(action, decode("a"));
    let (state, _) = state.on_result(ok(3), 6100);
    let (state, action) = state.tick(10_999);
    assert_eq!(action, Action::Nothing);
    assert_eq!(shade_of(&state), 2);
    let (state, action) = state.tick(11_000);
    assert_eq!(action, decode("b"));
    assert_eq!(shade_of(&state), 3);
    assert_eq!(state.current_index(), 0);
}

#[test]
fn without_a_waiting_image_the_current_one_stays() {
    let state = running(&["a", "b", "c"]);
    let (state, action) = state.tick(60_000);
    assert_eq!(action, Action::Nothing);
    assert_eq!(shade_of(&state), 1);
    assert_eq!(state.current_index(), 0);
    assert!(state.is_awaiting());

    let (state, action) = state.on_result(ok(5), 60_001);
    assert_eq!(action, Action::Nothing);
    let (state, action) = state.tick(60_002);
    assert_eq!(action, decode("c"));
    assert_eq!(shade_of(&state), 5);
}

#[test]
fn clock_that_runs_backwards_promotes_nothing() {
    let (state, _) = PipelineState::new(catalog(&["a", "b"]), &config()).unwrap();
    let (state, _) = state.on_result(ok(1), 9000);
    let (state, _) = state.on_result(ok(2), 9000);
    let (state, action) = state.tick(100);
    assert_eq!(action, Action::Nothing);
    assert_eq!(shade_of(&state), 1);
}

#[test]
fn failed_decode_while_running_asks_for_the_following_path_at_once() {
    let state = running(&["a", "b", "c", "d"]);
    let (state, action) = state.on_result(failed(), 10);
    assert_eq!(action, decode("c"));
    assert_eq!(shade_of(&state), 1);
    assert!(!state.has_pending());
    let (state, action) = state.on_result(ok(3), 20);
    assert_eq!(action, Action::Nothing);
    let (state, action) = state.tick(5000);
    assert_eq!(action, decode("d"));
    assert_eq!(state.current_index(), 2);
    assert_eq!(shade_of(&state), 3);
}

#[test]
fn requests_wrap_round_the_catalog() {
    let state = running(&["a", "b"]);
    let (state, _) = state.on_result(ok(2), 0);
    let (state, action) = state.tick(5000);
    assert_eq!(action, decode("a"));
    let (state, _) = state.on_result(failed(), 5001);
    assert!(state.is_awaiting());
    let (state, _) = state.on_result(ok(4), 5002);
    let (state, action) = state.tick(10_000);
    assert_eq!(action, decode("a"));
    assert_eq!(state.current_index(), 1);
    assert_eq!(shade_of(&state), 4);
}

#[test]
fn running_loop_gives_up_when_every_path_fails_in_a_row() {
    let mut state = running(&["a", "b", "c"]);
    let mut actions = Vec::new();
    for _ in 0..3 {
        let (next, action) = state.on_result(failed(), 50);
        state = next;
        actions.push(action);
    }
    assert_eq!(
        actions,
        vec![decode("c"), decode("a"), Action::Fatal(PipelineError::Exhausted)]
    );
    assert_eq!(state.phase(), Phase::Failed);
    assert_eq!(shade_of(&state), 1);
}

#[test]
fn success_resets_the_count_of_failures() {
    let state = running(&["a", "b", "c"]);
    let (state, _) = state.on_result(failed(), 0);
    let (state, _) = state.on_result(failed(), 0);
    let (state, action) = state.on_result(ok(2), 0);
    assert_eq!(action, Action::Nothing);
    let (state, _) = state.tick(5000);
    let (state, action) = state.on_result(failed(), 5001);
    assert_eq!(action, decode("c"));
    let (state, action) = state.on_result(failed(), 5002);
    assert_eq!(action, decode("a"));
    assert_eq!(state.phase(), Phase::Running);
}

#[test]
fn shutdown_ack_in_place_of_a_result_is_a_protocol_error() {
    let (state, _) = PipelineState::new(catalog(&["a"]), &config()).unwrap();
    let (state, action) = state.on_result(WorkResult::ShutdownAck, 0);
    assert_eq!(action, Action::Fatal(PipelineError::Protocol));
    assert_eq!(state.phase(), Phase::Failed);

    let state = running(&["a", "b"]);
    let (state, action) = state.on_result(WorkResult::ShutdownAck, 0);
    assert_eq!(action, Action::Fatal(PipelineError::Protocol));
    assert_eq!(state.phase(), Phase::Failed);
}

#[test]
fn result_that_nothing_asked_for_is_a_protocol_error() {
    let state = running(&["a", "b"]);
    let (state, _) = state.on_result(ok(2), 0);
    let (state, action) = state.on_result(ok(3), 0);
    assert_eq!(action, Action::Fatal(PipelineError::Protocol));
    assert_eq!(state.phase(), Phase::Failed);
}

#[test]
fn exit_with_nothing_outstanding_sends_shutdown_at_once() {
    let state = running(&["a", "b"]);
    let (state, _) = state.on_result(ok(2), 0);
    let (state, action) = state.request_exit();
    assert_eq!(action, Action::Send(WorkRequest::Shutdown));
    assert_eq!(state.phase(), Phase::Closing);
    let (state, action) = state.on_result(WorkResult::ShutdownAck, 0);
    assert_eq!(action, Action::Finished);
    assert_eq!(state.phase(), Phase::Done);
    let (state, action) = state.on_result(WorkResult::ShutdownAck, 0);
    assert_eq!(action, Action::Nothing);
    assert_eq!(state.phase(), Phase::Done);
}

#[test]
fn exit_waits_for_the_outstanding_result_before_shutdown() {
    let state = running(&["a", "b"]);
    assert!(state.is_awaiting());
    let (state, action) = state.request_exit();
    assert_eq!(action, Action::Nothing);
    assert_eq!(state.phase(), Phase::Draining);
    let (state, action) = state.tick(99_999);
    assert_eq!(action, Action::Nothing);
    let (state, action) = state.on_result(failed(), 0);
    assert_eq!(action, Action::Send(WorkRequest::Shutdown));
    assert_eq!(state.phase(), Phase::Closing);
    assert!(!state.is_awaiting());
    let (state, action) = state.on_result(WorkResult::ShutdownAck, 0);
    assert_eq!(action, Action::Finished);
    assert_eq!(state.phase(), Phase::Done);
}

#[test]
fn exit_during_bootstrap_drains_first() {
    let (state, _) = PipelineState::new(catalog(&["a"]), &config()).unwrap();
    let (state, action) = state.request_exit();
    assert_eq!(action, Action::Nothing);
    assert_eq!(state.phase(), Phase::Draining);
    let (state, action) = state.on_result(ok(1), 0);
    assert_eq!(action, Action::Send(WorkRequest::Shutdown));
    let (state, action) = state.on_result(ok(1), 0);
    assert_eq!(action, Action::Fatal(PipelineError::Protocol));
    assert_eq!(state.phase(), Phase::Failed);
}

#[test]
fn exit_twice_sends_shutdown_once() {
    let state = running(&["a", "b"]);
    let (state, _) = state.on_result(ok(2), 0);
    let (state, first) = state.request_exit();
    let (state, second) = state.request_exit();
    assert_eq!(first, Action::Send(WorkRequest::Shutdown));
    assert_eq!(second, Action::Nothing);
    assert_eq!(state.phase(), Phase::Closing);
}

#[test]
fn controls_change_the_interval() {
    let state = running(&["a", "b"]);
    let state = state.control(Control::Faster);
    assert_eq!(state.interval_ms(), 4500);
    let state = state.control(Control::Neither);
    assert_eq!(state.interval_ms(), 4500);
    let state = state.control(Control::Slower).control(Control::Slower);
    assert_eq!(state.interval_ms(), 5500);
    let mut state = state;
    for _ in 0..50 {
        state = state.control(Control::Faster);
        assert!(state.interval_ms() >= 500);
    }
    assert_eq!(state.interval_ms(), 500);
}

#[test]
fn shorter_interval_promotes_sooner() {
    let state = running(&["a", "b"]);
    let (state, _) = state.on_result(ok(2), 0);
    let (state, action) = state.tick(4500);
    assert_eq!(action, Action::Nothing);
    let state = state.control(Control::Faster);
    let (state, action) = state.tick(4500);
    assert_eq!(action, decode("a"));
    assert_eq!(shade_of(&state), 2);
}

#[test]
fn keys_choose_the_control() {
    assert_eq!(control_from_keys(true, false), Control::Faster);
    assert_eq!(control_from_keys(true, true), Control::Faster);
    assert_eq!(control_from_keys(false, true), Control::Slower);
    assert_eq!(control_from_keys(false, false), Control::Neither);
}

#[test]
fn frame_applies_control_message_and_time_in_turn() {
    let state = running(&["a", "b", "c"]);
    let (state, action) = state.frame(Control::Neither, None, 1000);
    assert_eq!(action, Action::Nothing);
    let (state, action) = state.frame(Control::Faster, Some(ok(2)), 4500);
    assert_eq!(action, decode("c"));
    assert_eq!(state.interval_ms(), 4500);
    assert_eq!(shade_of(&state), 2);
    assert_eq!(state.current_index(), 1);
    let (state, action) = state.frame(Control::Slower, Some(failed()), 4600);
    assert_eq!(action, decode("a"));
    assert_eq!(state.interval_ms(), 5000);
    assert_eq!(shade_of(&state), 2);
    let (state, action) = state.frame(Control::Neither, Some(WorkResult::ShutdownAck), 4700);
    assert_eq!(action, Action::Fatal(PipelineError::Protocol));
    assert_eq!(state.phase(), Phase::Failed);
}

#[test]
fn config_falls_back_to_the_defaults() {
    let config = Config::resolve(None, None, None);
    assert_eq!(config.window.0, 640);
    assert_eq!(config.window.1, 480);
    assert_eq!(config.directory, "./photo");
    assert_eq!(config.interval_ms, 5000);
    let config = Config::resolve(Some(1920), None, Some("/srv/pictures".to_string()));
    assert_eq!(config.window.0, 1920);
    assert_eq!(config.window.1, 480);
    assert_eq!(config.directory, "/srv/pictures");
    let config = Config::resolve(None, Some(1080), None);
    assert_eq!(config.window.0, 640);
    assert_eq!(config.window.1, 1080);
}

#[test]
fn pipeline_error_messages() {
    assert_eq!(PipelineError::EmptyCatalog.message(), "No image file found");
    assert_eq!(PipelineError::Exhausted.message(), "Failed to read all of found images");
    assert_eq!(
        PipelineError::Protocol.message(),
        "Received invalid message from image buffer function"
    );
}
