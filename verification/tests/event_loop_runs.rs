use rustylock::event_loop::LoopExit;
use rustylock::event_loop::LoopStep;
use rustylock::event_loop::RawMessage;
use rustylock::event_loop::Retrieval;
use rustylock::event_loop::collect_events;
use rustylock::event_loop::loop_step;
use rustylock::events::WtsState;

fn session_message(payload: usize) -> RawMessage {
    RawMessage {
        window: 0x1234,
        message: 0x02B1,
        w_param: payload,
        l_param: 1,
        time: 1000,
        point_x: 0,
        point_y: 0,
        reserved: 0,
    }
}

#[test]
fn one_step_yields_a_recognized_event() {
    let step = loop_step(&Retrieval::Delivered(session_message(0x9)));
    assert_eq!(step, LoopStep::Yield(WtsState::RemoteControl));
}

#[test]
fn one_step_skips_an_unrecognized_code_and_does_not_stop() {
    let step = loop_step(&Retrieval::Delivered(session_message(0x99)));
    assert_eq!(step, LoopStep::Skip);
}

#[test]
fn one_step_stops_on_quit_and_on_failure() {
    assert_eq!(loop_step(&Retrieval::Quit), LoopStep::Stop);
    assert_eq!(loop_step(&Retrieval::Failed), LoopStep::Stop);
}

#[test]
fn skipped_message_preserves_arrival_order() {
    let trace = vec![
        Retrieval::Delivered(session_message(0x7)),
        Retrieval::Delivered(session_message(0x99)),
        Retrieval::Delivered(session_message(0x8)),
    ];
    let (events, exit) = collect_events(&trace);
    assert_eq!(events, vec![WtsState::Lock, WtsState::Unlock]);
    assert_eq!(exit, LoopExit::Exhausted);
}

#[test]
fn run_yields_events_then_exits_without_error_on_quit() {
    let trace = vec![
        Retrieval::Delivered(session_message(0x5)),
        Retrieval::Delivered(session_message(0x7)),
        Retrieval::Quit,
    ];
    let (events, exit) = collect_events(&trace);
    assert_eq!(events, vec![WtsState::Logon, WtsState::Lock]);
    assert_eq!(exit, LoopExit::Graceful);
}

#[test]
fn run_ends_faulted_when_retrieval_fails() {
    let trace = vec![
        Retrieval::Delivered(session_message(0x6)),
        Retrieval::Failed,
        Retrieval::Delivered(session_message(0x7)),
    ];
    let (events, exit) = collect_events(&trace);
    assert_eq!(events, vec![WtsState::Logoff]);
    assert_eq!(exit, LoopExit::Faulted);
}

#[test]
fn nothing_after_the_first_quit_is_yielded() {
    let trace = vec![
        Retrieval::Delivered(session_message(0x7)),
        Retrieval::Quit,
        Retrieval::Delivered(session_message(0x8)),
    ];
    let (events, exit) = collect_events(&trace);
    assert_eq!(events, vec![WtsState::Lock]);
    assert_eq!(exit, LoopExit::Graceful);
}

#[test]
fn empty_trace_yields_nothing() {
    let trace: Vec<Retrieval> = Vec::new();
    let (events, exit) = collect_events(&trace);
    assert!(events.is_empty());
    assert_eq!(exit, LoopExit::Exhausted);
}
