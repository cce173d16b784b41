use eska_cli::lifecycle::{
    next_index_turn, project_id, refusal_code, refusal_kind, session_id, state_name, InitRequest, Lifecycle, Refusal, Route,
    Selection, StateName,
};

fn request(locale: Option<&str>, major: u32, minor: u32) -> Option<InitRequest> {
    Some(InitRequest { locale: locale.map(str::to_owned), major, minor })
}

fn nulls(names: &[&str]) -> Vec<String> {
    names.iter().map(|name| (*name).to_owned()).collect()
}

#[test]
fn only_the_handshake_is_taken_before_initialization() {
    let server = Lifecycle::new();
    assert_eq!(
        server.route("project/info", true, &nulls(&[])),
        Err(Refusal::InvalidState(StateName::Uninitialized))
    );
    assert_eq!(server.route("initialize", true, &nulls(&[])), Ok(Route::Initialize));
    assert_eq!(server.route("initialize", false, &nulls(&[])), Err(Refusal::InvalidParams));
    assert_eq!(server.route("initialize", true, &nulls(&["locale"])), Err(Refusal::InvalidParams));
}

#[test]
fn handshake_negotiates_api_one_point_one_once() {
    let mut server = Lifecycle::new();
    assert_eq!(server.initialize(request(Some("de-DE"), 1, 0)), Err(Refusal::InvalidParams));
    assert_eq!(server.initialize(request(None, 2, 0)), Err(Refusal::UnsupportedVersion));
    assert_eq!(server.initialize(request(None, 1, 2)), Err(Refusal::UnsupportedVersion));
    assert_eq!(server.initialize(None), Err(Refusal::InvalidParams));
    assert!(!server.initialized);
    assert_eq!(server.initialize(request(Some("en-US"), 1, 1)), Ok(()));
    assert!(server.initialized);
    assert_eq!(
        server.initialize(request(Some("ru-RU"), 1, 0)),
        Err(Refusal::InvalidState(StateName::Initialized))
    );
}

#[test]
fn requests_route_by_method_after_initialization() {
    let mut server = Lifecycle::new();
    server.initialize(request(None, 1, 0)).expect("handshake");
    assert_eq!(server.route("workspace/open", true, &nulls(&["start"])), Ok(Route::Open));
    assert_eq!(server.route("workspace/open", true, &nulls(&["diskCache"])), Err(Refusal::InvalidParams));
    assert_eq!(server.route("metadata/search", true, &nulls(&["other"])), Ok(Route::Metadata));
    assert_eq!(server.route("metadata/search", true, &nulls(&["limit"])), Err(Refusal::InvalidParams));
    assert_eq!(server.route("project/info", true, &nulls(&[])), Ok(Route::Info));
    assert_eq!(server.route("workspace/close", true, &nulls(&[])), Ok(Route::Close));
    assert_eq!(server.route("unknown/method", true, &nulls(&[])), Err(Refusal::MethodNotFound));
    server.shutdown();
    assert_eq!(
        server.route("initialize", true, &nulls(&[])),
        Err(Refusal::InvalidState(StateName::Closing))
    );
}

#[test]
fn workspace_opens_once_with_a_valid_selection() {
    let mut server = Lifecycle::new();
    server.initialize(request(None, 1, 1)).expect("handshake");
    assert_eq!(server.check_open(Some(false), &Selection::All), Err(Refusal::InvalidParams));
    assert_eq!(server.check_open(None, &Selection::Current), Err(Refusal::InvalidParams));
    for names in [vec![], vec!["a".to_owned(), String::new()], vec!["a".to_owned(), "a".to_owned()]] {
        assert_eq!(
            server.check_open(Some(true), &Selection::Named { names }),
            Err(Refusal::SelectionInvalid)
        );
    }
    let named = Selection::Named { names: vec!["a".to_owned(), "b".to_owned()] };
    assert_eq!(server.check_open(Some(true), &named), Ok(()));
    assert_eq!(server.publish(), Ok(1));
    assert_eq!(server.check_open(Some(true), &Selection::All), Err(Refusal::WorkspaceAlreadyOpen));
    assert_eq!(server.check_session("s1"), Ok(()));
    assert_eq!(server.check_session("s2"), Err(Refusal::UnknownSession));
    server.close();
    assert_eq!(server.check_session("s1"), Err(Refusal::UnknownSession));
    assert_eq!(server.publish(), Ok(2));
    assert_eq!(server.check_session("s1"), Err(Refusal::UnknownSession));
    assert_eq!(server.check_session("s2"), Ok(()));
}

#[test]
fn serial_numbers_run_out_instead_of_wrapping() {
    let mut server = Lifecycle { initialized: true, closing: false, session: None, serial: u64::MAX };
    assert_eq!(server.publish(), Err(Refusal::GenerationExhausted));
    assert_eq!(server.serial, u64::MAX);
    assert!(server.session.is_none());
}

#[test]
fn identifiers_and_error_codes_have_their_wire_form() {
    assert_eq!(session_id(17), "s17");
    assert_eq!(project_id(0), "p0");
    assert_eq!(refusal_code(Refusal::InvalidParams), -32602);
    assert_eq!(refusal_code(Refusal::MethodNotFound), -32601);
    assert_eq!(refusal_code(Refusal::UnknownSession), -32000);
    assert_eq!(refusal_kind(Refusal::SelectionInvalid), Some("project_open_failed"));
    assert_eq!(refusal_kind(Refusal::InvalidParams), None);
    assert_eq!(state_name(StateName::Closing), "closing");
}

#[test]
fn indexing_turns_rotate_among_projects_that_need_an_index() {
    let indexing = vec![true, false, true];
    assert_eq!(next_index_turn(0, &indexing), (Some(0), 1));
    assert_eq!(next_index_turn(1, &indexing), (Some(2), 3));
    assert_eq!(next_index_turn(3, &indexing), (Some(0), 4));
    assert_eq!(next_index_turn(5, &vec![false, false, false]), (None, 8));
    assert_eq!(next_index_turn(7, &vec![]), (None, 7));
}

#[test]
fn indexing_turn_counter_wraps_to_zero() {
    assert_eq!(next_index_turn(usize::MAX, &vec![false, true]), (Some(1), 0));
    if usize::MAX % 3 == 0 {
        // The wrap repeats project 0 within one pass, so project 2 waits for the next pass.
        assert_eq!(next_index_turn(usize::MAX, &vec![false, false, true]), (None, 2));
    }
}
