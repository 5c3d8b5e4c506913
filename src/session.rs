use vstd::prelude::*;
use crate::camera::{CameraState, DEFAULT_ZOOM};
use crate::render::{grid_tiles, render, Tile};
use crate::room::{decode, decoded_text, DecodeError};
use crate::state::{next_state, AppState, Event};
use crate::store::MapStore;

verus! {

/// The three files a run needs; each is chosen by the user.
#[derive(Debug)]
pub struct GeneratorPaths {
    pub interpreter: Option<String>,
    pub generator: Option<String>,
    pub script: Option<String>,
}

/// A process to start: the program and its arguments.
#[derive(Debug)]
pub struct RunRequest {
    pub program: String,
    pub args: Vec<String>,
}

/// How a generator process ended, with the bytes of the stream that goes with
/// that end: standard output on success, standard error otherwise.
#[derive(Debug)]
pub enum ProcessResult {
    Success(Vec<u8>),
    Failure(Vec<u8>),
}

/// Why a run produced no room.
#[derive(Clone, Copy, Debug, PartialEq, Eq, Structural)]
pub enum RunError {
    /// The process could not be started.
    SpawnFailure,
    /// The process ended with a failure status.
    ExitFailure,
    /// The output is not valid UTF-8.
    TextDecodeFailure,
    /// The output text is not a room document.
    Decode(DecodeError),
}

/// The text that `bytes` encode as UTF-8, or `None` if they are not UTF-8.
pub uninterp spec fn utf8_text(bytes: Seq<u8>) -> Option<Seq<char>>;

/// Relies on String::from_utf8: the text the bytes encode, or an error
/// exactly when they are not valid UTF-8.
#[verifier::external_body]
fn text_from_utf8(bytes: Vec<u8>) -> (r: Option<String>)
    ensures
        match r {
            Some(s) => utf8_text(bytes@) == Some(s@),
            None => utf8_text(bytes@) is None,
        },
{
    String::from_utf8(bytes).ok()
}

impl GeneratorPaths {
    /// No file chosen yet.
    pub fn new() -> (r: GeneratorPaths)
        ensures
            r.interpreter is None,
            r.generator is None,
            r.script is None,
    {
        GeneratorPaths { interpreter: None, generator: None, script: None }
    }

    /// The process to start once all three files are chosen: the interpreter,
    /// given the generator, `-p` and the script.
    pub fn run_request(&self) -> (r: Option<RunRequest>)
        ensures
            match r {
                Some(req) => {
                    &&& self.interpreter is Some && self.generator is Some && self.script is Some
                    &&& req.program@ == self.interpreter->0@
                    &&& req.args@.len() == 3
                    &&& req.args@[0]@ == self.generator->0@
                    &&& req.args@[1]@ == "-p"@
                    &&& req.args@[2]@ == self.script->0@
                },
                None => self.interpreter is None || self.generator is None || self.script is None,
            },
    {
        match (&self.interpreter, &self.generator, &self.script) {
            (Some(interpreter), Some(generator), Some(script)) => {
                let mut args: Vec<String> = Vec::new();
                args.push(generator.clone());
                args.push("-p".to_owned());
                args.push(script.clone());
                Some(RunRequest { program: interpreter.clone(), args })
            },
            _ => None,
        }
    }
}

/// Everything the application keeps between ticks.
pub struct Session {
    pub paths: GeneratorPaths,
    pub store: MapStore,
    pub camera: CameraState,
    pub state: AppState,
    /// The tiles on screen: those of the last render pass.
    pub tiles: Vec<Tile>,
}

/// `after` is `before` having taken in the output `text`, with result `r`: a
/// decoded room is stored under its name and drawing is requested; a text
/// that does not decode changes nothing.
pub open spec fn took_output(
    before: Session,
    after: Session,
    text: Seq<char>,
    r: Result<String, RunError>,
) -> bool {
    match decoded_text(text) {
        Ok((name, grid)) => {
            &&& r is Ok && r->Ok_0@ == name
            &&& after.store@ == before.store@.insert(name, grid)
            &&& after.store.latest_name() == Some(name)
            &&& after.state == next_state(before.state, Event::RunSucceeded)
            &&& after.camera == before.camera
            &&& after.paths == before.paths
            &&& after.tiles == before.tiles
        },
        Err(e) => r == Err::<String, RunError>(RunError::Decode(e)) && after == before,
    }
}

impl Session {
    pub open spec fn wf(&self) -> bool {
        self.store.wf() && self.camera.wf()
    }

    /// A session with no files chosen, no rooms, nothing drawn, an idle state
    /// and a camera at the origin.
    pub fn new() -> (r: Session)
        ensures
            r.wf(),
            r.paths.interpreter is None && r.paths.generator is None && r.paths.script is None,
            r.store@ == Map::<Seq<char>, Seq<Seq<char>>>::empty(),
            r.store.latest_name() is None,
            r.camera == (CameraState { pan_x: 0, pan_y: 0, zoom: DEFAULT_ZOOM }),
            r.state == AppState::Idle,
            r.tiles@.len() == 0,
    {
        Session {
            paths: GeneratorPaths::new(),
            store: MapStore::new(),
            camera: CameraState::new(),
            state: AppState::Idle,
            tiles: Vec::new(),
        }
    }

    /// Takes in a generator's output text: decodes it, stores the room under
    /// its name and requests drawing. On a decoding error nothing changes.
    pub fn accept_output(&mut self, text: &str) -> (r: Result<String, RunError>)
        requires
            old(self).wf(),
        ensures
            final(self).wf(),
            took_output(*old(self), *final(self), text@, r),
    {
        match decode(text) {
            Ok((name, room)) => {
                let stored = name.clone();
                self.store.insert(name, room);
                self.state = self.state.next(Event::RunSucceeded);
                Ok(stored)
            },
            Err(e) => Err(RunError::Decode(e)),
        }
    }

    /// Takes in how a generator process ended. A failure status or output
    /// that is not UTF-8 is an error that changes nothing; otherwise the
    /// output text is taken in as by `accept_output`.
    pub fn complete_run(&mut self, outcome: ProcessResult) -> (r: Result<String, RunError>)
        requires
            old(self).wf(),
        ensures
            final(self).wf(),
            match outcome {
                ProcessResult::Failure(_) => r == Err::<String, RunError>(RunError::ExitFailure)
                    && *final(self) == *old(self),
                ProcessResult::Success(bytes) => match utf8_text(bytes@) {
                    None => r == Err::<String, RunError>(RunError::TextDecodeFailure)
                        && *final(self) == *old(self),
                    Some(text) => took_output(*old(self), *final(self), text, r),
                },
            },
    {
        match outcome {
            ProcessResult::Failure(_) => Err(RunError::ExitFailure),
            ProcessResult::Success(bytes) => match text_from_utf8(bytes) {
                Some(text) => self.accept_output(text.as_str()),
                None => Err(RunError::TextDecodeFailure),
            },
        }
    }

    /// One render pass: the tiles on screen become those of the latest room
    /// (none if there is no room), replacing whatever was drawn before, and
    /// the state returns to `Idle`.
    pub fn draw(&mut self)
        requires
            old(self).wf(),
        ensures
            final(self).wf(),
            final(self).tiles@ == match old(self).store.latest_name() {
                Some(name) => grid_tiles(old(self).store@[name]),
                None => Seq::<Tile>::empty(),
            },
            final(self).state == next_state(old(self).state, Event::RenderDone),
            final(self).store == old(self).store,
            final(self).camera == old(self).camera,
            final(self).paths == old(self).paths,
    {
        let tiles = match self.store.latest() {
            Some((_, room)) => render(room),
            None => Vec::new(),
        };
        self.tiles = tiles;
        self.state = self.state.next(Event::RenderDone);
    }
}

} // verus!
