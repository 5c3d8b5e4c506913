use mapview::{
    AppState, CameraState, DecodeError, Event, GeneratorPaths, MapStore, ProcessResult, Room,
    RunError, Session, DEFAULT_ZOOM, MAX_ZOOM, MIN_ZOOM,
};

const SCENARIO: &str = r##"{"room1":{"layers":{"terrain":[["#","."],[".","&"]]}}}"##;

#[test]
fn state_machine_steps() {
    assert_eq!(AppState::Idle.next(Event::RunSucceeded), AppState::DrawTerrain);
    assert_eq!(AppState::Idle.next(Event::RunFailed), AppState::Idle);
    assert_eq!(AppState::Idle.next(Event::RenderDone), AppState::Idle);
    assert_eq!(AppState::DrawTerrain.next(Event::RenderDone), AppState::Idle);
    assert_eq!(AppState::DrawTerrain.next(Event::RunFailed), AppState::DrawTerrain);
}

#[test]
fn successful_run_draws_then_idles() {
    let mut s = Session::new();
    assert_eq!(s.state, AppState::Idle);
    let name = s.accept_output(SCENARIO).unwrap();
    assert_eq!(name, "room1");
    assert_eq!(s.state, AppState::DrawTerrain);
    assert!(s.tiles.is_empty());
    s.draw();
    assert_eq!(s.state, AppState::Idle);
    assert_eq!(s.tiles.len(), 4);
    assert_eq!(s.store.get(&"room1".to_string()).unwrap().terrain, vec![vec!['#', '.'], vec!['.', '&']]);
}

#[test]
fn failed_run_changes_nothing() {
    let mut s = Session::new();
    assert_eq!(s.accept_output("not json"), Err(RunError::Decode(DecodeError::ParseError)));
    assert_eq!(s.state, AppState::Idle);
    assert!(s.store.is_empty());
    assert!(s.store.latest().is_none());
    s.accept_output(SCENARIO).unwrap();
    s.draw();
    assert_eq!(s.accept_output("{}"), Err(RunError::Decode(DecodeError::ShapeError)));
    assert_eq!(s.state, AppState::Idle);
    assert_eq!(s.tiles.len(), 4);
    assert_eq!(*s.store.latest().unwrap().0, "room1");
}

#[test]
fn redraw_replaces_tiles() {
    let mut s = Session::new();
    s.accept_output(SCENARIO).unwrap();
    s.draw();
    let first = s.tiles.clone();
    s.draw();
    assert_eq!(s.tiles, first);
    s.accept_output(r#"{"small":{"layers":{"terrain":[["*"]]}}}"#).unwrap();
    s.draw();
    assert_eq!(s.tiles.len(), 1);
}

#[test]
fn draw_without_room_is_empty() {
    let mut s = Session::new();
    s.draw();
    assert!(s.tiles.is_empty());
    assert_eq!(s.state, AppState::Idle);
}

#[test]
fn complete_run_outcomes() {
    let mut s = Session::new();
    let err = s.complete_run(ProcessResult::Failure(SCENARIO.as_bytes().to_vec()));
    assert_eq!(err, Err(RunError::ExitFailure));
    assert!(s.store.is_empty());
    assert_eq!(s.state, AppState::Idle);
    let err = s.complete_run(ProcessResult::Success(vec![0xff, 0xfe, b'{']));
    assert_eq!(err, Err(RunError::TextDecodeFailure));
    assert_eq!(s.state, AppState::Idle);
    let ok = s.complete_run(ProcessResult::Success(SCENARIO.as_bytes().to_vec()));
    assert_eq!(ok, Ok("room1".to_string()));
    assert_eq!(s.state, AppState::DrawTerrain);
    let utf8 = r#"{"é":{"layers":{"terrain":[["é"]]}}}"#;
    let ok = s.complete_run(ProcessResult::Success(utf8.as_bytes().to_vec()));
    assert_eq!(ok, Ok("é".to_string()));
}

#[test]
fn run_request_needs_all_paths() {
    let mut p = GeneratorPaths::new();
    assert!(p.run_request().is_none());
    p.interpreter = Some("/usr/bin/python3".to_string());
    p.generator = Some("gen.py".to_string());
    assert!(p.run_request().is_none());
    p.script = Some("level.txt".to_string());
    let req = p.run_request().unwrap();
    assert_eq!(req.program, "/usr/bin/python3");
    assert_eq!(req.args, vec!["gen.py".to_string(), "-p".to_string(), "level.txt".to_string()]);
}

#[test]
fn store_overwrites_and_tracks_latest() {
    let mut store = MapStore::new();
    assert!(store.is_empty());
    store.insert("a".to_string(), Room { terrain: vec![vec!['#']] });
    store.insert("b".to_string(), Room { terrain: vec![vec!['.']] });
    assert_eq!(*store.latest().unwrap().0, "b");
    store.insert("a".to_string(), Room { terrain: vec![vec!['*']] });
    let (name, room) = store.latest().unwrap();
    assert_eq!(name, "a");
    assert_eq!(room.terrain, vec![vec!['*']]);
    assert_eq!(store.get(&"b".to_string()).unwrap().terrain, vec![vec!['.']]);
    assert!(store.get(&"c".to_string()).is_none());
    assert!(!store.is_empty());
}

#[test]
fn zoom_clamps() {
    let mut c = CameraState::new();
    assert_eq!(c.zoom, DEFAULT_ZOOM);
    c.scroll(1000);
    assert_eq!(c.zoom, 9000);
    c.scroll(-2500);
    assert_eq!(c.zoom, 11500);
    c.scroll(i64::MAX);
    assert_eq!(c.zoom, MIN_ZOOM);
    c.scroll(i64::MIN);
    assert_eq!(c.zoom, MAX_ZOOM);
    c.scroll_all(&vec![1_000_000, -3000, -1000]);
    assert_eq!(c.zoom, 5000);
    c.scroll_all(&vec![-40_000, -40_000, 100]);
    assert_eq!(c.zoom, 49_900);
    assert_eq!((c.pan_x, c.pan_y), (0, 0));
}

#[test]
fn pan_moves_against_horizontal_drag() {
    let mut c = CameraState::new();
    c.pan(5000, 2000);
    assert_eq!((c.pan_x, c.pan_y), (-5000, 2000));
    c.pan(-1000, -500);
    assert_eq!((c.pan_x, c.pan_y), (-4000, 1500));
    c.pan(i64::MAX, i64::MAX);
    assert_eq!((c.pan_x, c.pan_y), (i64::MIN, i64::MAX));
    assert_eq!(c.zoom, DEFAULT_ZOOM);
}
