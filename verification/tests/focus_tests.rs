use focus_cwd::focus::{
    Atoms, Fault, FocusError, FocusEvent, FocusNote, FocusProgress, FocusRequest, FocusState,
    Property, WindowState, ATOM_CARDINAL, ATOM_STRING, ATOM_WINDOW, ATOM_WM_CLASS, CLASS_LENGTH,
    WINDOW_NONE,
};
use focus_cwd::wire::PropertyReply;

const ATOMS: Atoms = Atoms { active_window: 300, pid: 301, state: 302 };
const ROOT: u32 = 0x1e0;
const WINDOW: u32 = 0x0260_0007;

fn number(value: u32) -> FocusEvent {
    FocusEvent::PropertyRead(Some(PropertyReply { value_len: 1, value: value.to_le_bytes().to_vec() }))
}

fn empty() -> FocusEvent {
    FocusEvent::PropertyRead(Some(PropertyReply { value_len: 0, value: vec![] }))
}

fn raw(value_len: u32, value: &[u8]) -> FocusEvent {
    FocusEvent::PropertyRead(Some(PropertyReply { value_len, value: value.to_vec() }))
}

fn next(state: FocusState) -> FocusProgress {
    FocusProgress::Next(state)
}

fn fails(error: FocusError) -> FocusProgress {
    FocusProgress::Done(Err(error))
}

fn broken(property: Property, fault: Fault) -> FocusProgress {
    fails(FocusError::Protocol { property, fault })
}

fn run(events: Vec<FocusEvent>) -> (Vec<FocusRequest>, Option<Result<u32, FocusError>>) {
    let mut state = FocusState::new();
    let mut requests = Vec::new();
    for event in events {
        requests.push(state.request());
        match state.step(event) {
            FocusProgress::Next(following) => state = following,
            FocusProgress::Done(result) => return (requests, Some(result)),
        }
    }
    requests.push(state.request());
    (requests, None)
}

fn opening() -> Vec<FocusEvent> {
    vec![
        FocusEvent::Connected(true),
        FocusEvent::AtomInterned(Some(ATOMS.active_window)),
        FocusEvent::AtomInterned(Some(ATOMS.pid)),
        FocusEvent::AtomInterned(Some(ATOMS.state)),
        FocusEvent::RootSelected(Some(ROOT)),
        number(WINDOW),
        FocusEvent::ProcessTableOpened(true),
    ]
}

#[test]
fn visible_window_with_a_process_resolves_to_it() {
    let mut events = opening();
    events.push(number(1));
    events.push(number(4242));
    let (requests, result) = run(events);
    assert_eq!(result, Some(Ok(4242)));
    assert_eq!(
        requests,
        vec![
            FocusRequest::Connect,
            FocusRequest::InternAtom { property: Property::ActiveWindow },
            FocusRequest::InternAtom { property: Property::WmPid },
            FocusRequest::InternAtom { property: Property::WmState },
            FocusRequest::SelectRoot,
            FocusRequest::GetProperty { window: ROOT, atom: 300, kind: ATOM_WINDOW, long_length: 1 },
            FocusRequest::OpenProcessTable,
            FocusRequest::GetProperty { window: WINDOW, atom: 302, kind: 302, long_length: 1 },
            FocusRequest::GetProperty {
                window: WINDOW,
                atom: 301,
                kind: ATOM_CARDINAL,
                long_length: 1
            },
        ]
    );
}

#[test]
fn process_table_is_opened_between_window_and_process() {
    let mut events = opening();
    events.push(number(1));
    events.push(number(4242));
    let (requests, _) = run(events);
    let at = |wanted: &dyn Fn(&FocusRequest) -> bool| requests.iter().position(|r| wanted(r)).unwrap();
    let window_read = at(&|r| matches!(r, FocusRequest::GetProperty { atom: 300, .. }));
    let table_opened = at(&|r| matches!(r, FocusRequest::OpenProcessTable));
    let pid_read = at(&|r| matches!(r, FocusRequest::GetProperty { atom: 301, .. }));
    assert!(window_read < table_opened);
    assert!(table_opened < pid_read);
}

#[test]
fn predefined_atoms_have_their_protocol_numbers() {
    assert_eq!(ATOM_CARDINAL, 6);
    assert_eq!(ATOM_STRING, 31);
    assert_eq!(ATOM_WINDOW, 33);
    assert_eq!(ATOM_WM_CLASS, 67);
    assert_eq!(WINDOW_NONE, 0);
    assert_eq!(CLASS_LENGTH, 64);
}

#[test]
fn properties_are_interned_under_their_names() {
    assert_eq!(Property::ActiveWindow.name(), "_NET_ACTIVE_WINDOW");
    assert_eq!(Property::WmPid.name(), "_NET_WM_PID");
    assert_eq!(Property::WmState.name(), "WM_STATE");
    assert_eq!(Property::WmClass.name(), "WM_CLASS");
}

#[test]
fn window_states_have_their_codes() {
    assert_eq!(WindowState::Withdrawn.code(), 0);
    assert_eq!(WindowState::Normal.code(), 1);
    assert_eq!(WindowState::Iconic.code(), 3);
}

#[test]
fn failed_connection_is_a_connection_error() {
    let (requests, result) = run(vec![FocusEvent::Connected(false)]);
    assert_eq!(result, Some(Err(FocusError::Connection)));
    assert_eq!(requests, vec![FocusRequest::Connect]);
}

#[test]
fn atom_that_cannot_be_interned_is_named() {
    let state = FocusState::InterningActiveWindow;
    assert_eq!(
        state.step(FocusEvent::AtomInterned(None)),
        broken(Property::ActiveWindow, Fault::Atom)
    );
    let state = FocusState::InterningPid { active_window: 300 };
    assert_eq!(state.step(FocusEvent::AtomInterned(None)), broken(Property::WmPid, Fault::Atom));
    let state = FocusState::InterningState { active_window: 300, pid: 301 };
    assert_eq!(state.step(FocusEvent::AtomInterned(None)), broken(Property::WmState, Fault::Atom));
}

#[test]
fn missing_screen_is_a_configuration_error() {
    let state = FocusState::SelectingRoot { atoms: ATOMS };
    assert_eq!(state.step(FocusEvent::RootSelected(None)), fails(FocusError::Configuration));
}

#[test]
fn no_focused_window_is_reported_as_such() {
    let state = FocusState::ReadingActiveWindow { atoms: ATOMS, root: ROOT };
    assert_eq!(state.step(number(WINDOW_NONE)), fails(FocusError::NoFocus));
}

#[test]
fn empty_or_failed_reply_about_the_focused_window_is_a_protocol_error() {
    let state = FocusState::ReadingActiveWindow { atoms: ATOMS, root: ROOT };
    assert_eq!(state.step(empty()), broken(Property::ActiveWindow, Fault::Malformed));
    assert_eq!(
        state.step(FocusEvent::PropertyRead(None)),
        broken(Property::ActiveWindow, Fault::Request)
    );
}

#[test]
fn focused_window_leads_to_opening_the_process_table() {
    let state = FocusState::ReadingActiveWindow { atoms: ATOMS, root: ROOT };
    assert_eq!(
        state.step(number(WINDOW)),
        next(FocusState::OpeningProcessTable { atoms: ATOMS, window: WINDOW })
    );
}

#[test]
fn process_table_that_cannot_be_opened_ends_the_attempt() {
    let state = FocusState::OpeningProcessTable { atoms: ATOMS, window: WINDOW };
    assert_eq!(state.step(FocusEvent::ProcessTableOpened(false)), fails(FocusError::ProcessTable));
}

#[test]
fn window_in_any_state_but_normal_is_a_state_error() {
    let state = FocusState::ReadingState { atoms: ATOMS, window: WINDOW };
    for code in [0u32, 2, 3, 4, 255, 256, u32::MAX] {
        assert_eq!(
            state.step(number(code)),
            fails(FocusError::State { window: WINDOW, state: code })
        );
    }
    for hidden in [WindowState::Withdrawn, WindowState::Iconic] {
        assert_eq!(
            state.step(number(hidden.code())),
            fails(FocusError::State { window: WINDOW, state: hidden.code() })
        );
    }
}

#[test]
fn hidden_window_is_never_asked_for_its_process() {
    let mut events = opening();
    events.push(number(3));
    events.push(number(4242));
    let (requests, result) = run(events);
    assert_eq!(result, Some(Err(FocusError::State { window: WINDOW, state: 3 })));
    assert!(requests.iter().all(|r| !matches!(r, FocusRequest::GetProperty { atom: 301, .. })));
    assert_eq!(requests.len(), 8);
}

#[test]
fn window_without_state_is_taken_to_be_visible() {
    let state = FocusState::ReadingState { atoms: ATOMS, window: WINDOW };
    let reporting = FocusState::ReportingState { atoms: ATOMS, window: WINDOW };
    assert_eq!(state.step(empty()), next(reporting));
    assert_eq!(state.step(FocusEvent::PropertyRead(None)), next(reporting));
    assert_eq!(
        reporting.request(),
        FocusRequest::Report { note: FocusNote::StateUnknown { window: WINDOW } }
    );
    assert_eq!(
        reporting.step(FocusEvent::Reported),
        next(FocusState::ReadingPid { atoms: ATOMS, window: WINDOW })
    );
    let mut events = opening();
    events.push(empty());
    events.push(FocusEvent::Reported);
    events.push(number(77));
    assert_eq!(run(events).1, Some(Ok(77)));
}

#[test]
fn reply_with_a_count_other_than_one_is_a_protocol_error() {
    let active = FocusState::ReadingActiveWindow { atoms: ATOMS, root: ROOT };
    let state = FocusState::ReadingState { atoms: ATOMS, window: WINDOW };
    let pid = FocusState::ReadingPid { atoms: ATOMS, window: WINDOW };
    let two = [1u8, 0, 0, 0, 1, 0, 0, 0];
    for count in [2u32, 3, 64, u32::MAX] {
        assert_eq!(
            active.step(raw(count, &two)),
            broken(Property::ActiveWindow, Fault::Malformed)
        );
        assert_eq!(state.step(raw(count, &two)), broken(Property::WmState, Fault::Malformed));
        assert_eq!(pid.step(raw(count, &two)), broken(Property::WmPid, Fault::Malformed));
        assert_eq!(state.step(raw(count, &two[..4])), broken(Property::WmState, Fault::Malformed));
        assert_eq!(pid.step(raw(count, &[])), broken(Property::WmPid, Fault::Malformed));
    }
    assert_eq!(active.step(raw(0, &[])), broken(Property::ActiveWindow, Fault::Malformed));
    assert_eq!(state.step(raw(0, &two[..4])), broken(Property::WmState, Fault::Malformed));
    assert_eq!(pid.step(raw(0, &two[..4])), broken(Property::WmPid, Fault::Malformed));
}

#[test]
fn reply_of_one_item_with_the_wrong_size_is_a_protocol_error() {
    let active = FocusState::ReadingActiveWindow { atoms: ATOMS, root: ROOT };
    let state = FocusState::ReadingState { atoms: ATOMS, window: WINDOW };
    let pid = FocusState::ReadingPid { atoms: ATOMS, window: WINDOW };
    for bytes in [&[][..], &[1][..], &[1, 0, 0][..], &[1, 0, 0, 0, 0][..]] {
        assert_eq!(active.step(raw(1, bytes)), broken(Property::ActiveWindow, Fault::Malformed));
        assert_eq!(state.step(raw(1, bytes)), broken(Property::WmState, Fault::Malformed));
        assert_eq!(pid.step(raw(1, bytes)), broken(Property::WmPid, Fault::Malformed));
    }
}

#[test]
fn failed_request_for_the_process_is_a_protocol_error() {
    let pid = FocusState::ReadingPid { atoms: ATOMS, window: WINDOW };
    assert_eq!(pid.step(FocusEvent::PropertyRead(None)), broken(Property::WmPid, Fault::Request));
}

#[test]
fn window_without_process_falls_back_to_its_class() {
    let mut events = opening();
    events.push(number(1));
    events.push(empty());
    events.push(FocusEvent::Reported);
    events.push(raw(12, b"xterm\0XTerm\0"));
    let (requests, result) = run(events);
    assert_eq!(result, Some(Err(FocusError::Unimplemented { class: "xterm".to_string() })));
    assert_eq!(
        requests[9],
        FocusRequest::Report { note: FocusNote::PidMissing { window: WINDOW } }
    );
    assert_eq!(
        requests[10],
        FocusRequest::GetProperty {
            window: WINDOW,
            atom: ATOM_WM_CLASS,
            kind: ATOM_STRING,
            long_length: CLASS_LENGTH
        }
    );
}

#[test]
fn class_that_is_not_utf8_is_a_protocol_error() {
    let state = FocusState::ReadingClass { window: WINDOW };
    assert_eq!(state.step(raw(3, &[0xff, 0xfe, 0])), broken(Property::WmClass, Fault::Encoding));
    assert_eq!(
        state.step(FocusEvent::PropertyRead(None)),
        broken(Property::WmClass, Fault::Request)
    );
}

#[test]
fn empty_class_is_still_unimplemented() {
    let state = FocusState::ReadingClass { window: WINDOW };
    assert_eq!(state.step(empty()), fails(FocusError::Unimplemented { class: String::new() }));
}

#[test]
fn focus_event_of_the_wrong_kind_is_ignored() {
    let state = FocusState::new();
    assert_eq!(state.step(FocusEvent::Reported), next(FocusState::Connecting));
    assert_eq!(state.step(number(1)), next(FocusState::Connecting));
    let reading = FocusState::ReadingPid { atoms: ATOMS, window: WINDOW };
    assert_eq!(reading.step(FocusEvent::Connected(false)), next(reading));
    assert_eq!(reading.step(FocusEvent::AtomInterned(None)), next(reading));
}

#[test]
fn same_replies_resolve_the_same_twice() {
    let mut events = opening();
    events.push(number(1));
    events.push(number(31337));
    assert_eq!(run(events.clone()), run(events));
}
