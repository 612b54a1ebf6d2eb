//! The command state machine around the current pipeline and its parameters.
use vstd::prelude::*;
use crate::debounce::{Debouncer, Notice, step};
use crate::extractor::{Extraction, ExtractionError, views};
use crate::globals::Globals;
use crate::pacer::{FramePacer, interval_for};
use crate::params::{Param, merge_params, merged, param_buffer, param_bytes, param_views};
use crate::pipeline::FeedbackPair;

verus! {

/// A request to the control loop.
#[derive(Clone, Debug)]
pub enum Command {
    /// Load the shader in this file and make it current.
    Load(String),
    /// Load the active shader file again.
    Reload,
    /// Watch this file and reload it when it is written.
    Watch(String),
    /// Stop watching.
    Unwatch,
    /// Aim at this many frames per second.
    TargetFps(i16),
    /// Reset the frame index, time and mouse wheel without recompiling.
    Restart,
    /// Leave the control loop.
    Exit,
}

/// What the control loop has to do after a command.
#[derive(Clone, Debug)]
pub enum Action {
    /// Read, extract and build the shader in this file, then report the
    /// outcome with `Engine::finish_load`.
    LoadFile(String),
    /// `Reload` came with no active shader file.
    NoActiveShader,
    /// Subscribe the watcher to `path`, dropping `previous`; report success
    /// with `Engine::watch_started`.
    Subscribe { path: String, previous: Option<String> },
    /// Unsubscribe the watcher from this file.
    Unsubscribe(String),
    /// The framerate asked for is not a positive number.
    InvalidFramerate,
    /// Restart the simulation clock.
    RestartClock,
    /// Leave the control loop.
    Exit,
    /// Nothing is left to do.
    Nothing,
}

/// How an attempt to load a shader went outside the engine.
pub enum LoadOutcome<P> {
    /// The file could not be read.
    Unreadable,
    /// The file's declarations were refused.
    Invalid(ExtractionError),
    /// The graphics backend refused to build the pipeline.
    Rejected,
    /// The pipeline was built. `defaults[i]` is the `f32` bit pattern of the
    /// default of `extraction.params[i]`.
    Built { extraction: Extraction, defaults: Vec<u32>, pipeline: P },
}

/// Why a load left the engine as it was.
#[derive(Clone, Copy, Debug, PartialEq, Eq, Structural)]
pub enum LoadError {
    Unreadable,
    Extraction(ExtractionError),
    Pipeline,
}

/// The state the control loop threads through each iteration.
pub struct Engine<P> {
    /// The current compiled pipeline, once a shader has loaded.
    pub pipeline: Option<P>,
    /// The live parameters, in the parameter buffer's order.
    pub params: Vec<Param>,
    pub globals: Globals,
    /// The shader file that `Reload` loads again.
    pub active: Option<String>,
    /// The file the watcher is subscribed to.
    pub watched: Option<String>,
    pub pacer: FramePacer,
    pub debouncer: Debouncer,
    pub feedback: FeedbackPair,
    /// Set by `Exit`: the loop ends at the next iteration boundary.
    pub exit: bool,
}

/// Whether `a` names the file `b`.
pub open spec fn same_file(a: Option<String>, b: String) -> bool {
    a matches Some(x) && x@ == b@
}

impl<P> Engine<P> {
    /// An engine with no shader yet, nothing watched, and a fresh feedback pair.
    pub fn new(globals: Globals, pacer: FramePacer, debouncer: Debouncer) -> (r: Engine<P>)
        ensures
            r.pipeline is None,
            r.params@.len() == 0,
            r.globals == globals,
            r.active is None,
            r.watched is None,
            r.pacer == pacer,
            r.debouncer == debouncer,
            !r.feedback.read_second,
            !r.exit,
    {
        Engine {
            pipeline: None,
            params: Vec::new(),
            globals,
            active: None,
            watched: None,
            pacer,
            debouncer,
            feedback: FeedbackPair::new(),
            exit: false,
        }
    }

    /// Handles a command. Loading and watching only start here: their state
    /// changes once the outside work has succeeded (`finish_load`,
    /// `watch_started`).
    pub fn handle(&mut self, cmd: Command) -> (r: Action)
        ensures
            match cmd {
                Command::Load(path) => r matches Action::LoadFile(p) && p@ == path@ && *final(self)
                    == *old(self),
                Command::Reload => (match old(self).active {
                    Some(a) => r matches Action::LoadFile(p) && p@ == a@,
                    None => r matches Action::NoActiveShader,
                }) && *final(self) == *old(self),
                Command::Watch(path) => r matches Action::Subscribe { path: p, previous }
                    && p@ == path@ && previous == old(self).watched && *final(self) == *old(self),
                Command::Unwatch => (match old(self).watched {
                    Some(w) => r matches Action::Unsubscribe(p) && p@ == w@,
                    None => r matches Action::Nothing,
                }) && *final(self) == (Engine { watched: None, debouncer: Debouncer { window: old(self).debouncer.window, pending: None }, ..*old(self) }),
                Command::TargetFps(fps) => if fps > 0 {
                    r matches Action::Nothing && *final(self) == (Engine {
                        pacer: FramePacer { interval: interval_for(fps as int) as u64, ..old(self).pacer },
                        ..*old(self)
                    })
                } else {
                    r matches Action::InvalidFramerate && *final(self) == *old(self)
                },
                Command::Restart => r matches Action::RestartClock && *final(self) == (Engine {
                    globals: Globals { frame: 0, time: 0, mouse_wheel: 0, ..old(self).globals },
                    ..*old(self)
                }),
                Command::Exit => r matches Action::Exit && *final(self) == (Engine {
                    exit: true,
                    ..*old(self)
                }),
            },
    {
        match cmd {
            Command::Load(path) => Action::LoadFile(path),
            Command::Reload => match &self.active {
                Some(a) => Action::LoadFile(a.clone()),
                None => Action::NoActiveShader,
            },
            Command::Watch(path) => Action::Subscribe { path, previous: self.watched.clone() },
            Command::Unwatch => {
                let r = match &self.watched {
                    Some(w) => Action::Unsubscribe(w.clone()),
                    None => Action::Nothing,
                };
                self.watched = None;
                self.debouncer.pending = None;
                r
            },
            Command::TargetFps(fps) => {
                if self.pacer.set_target_framerate(fps) {
                    Action::Nothing
                } else {
                    Action::InvalidFramerate
                }
            },
            Command::Restart => {
                self.globals.frame = 0;
                self.globals.time = 0;
                self.globals.mouse_wheel = 0;
                Action::RestartClock
            },
            Command::Exit => {
                self.exit = true;
                Action::Exit
            },
        }
    }
}

/// The frame index after `f`: one more, wrapping to zero after `u32::MAX`.
pub open spec fn next_frame(f: u32) -> u32 {
    if f == u32::MAX {
        0
    } else {
        (f + 1) as u32
    }
}

impl<P> Engine<P> {
    /// Applies the outcome of a load. Only a built pipeline changes anything:
    /// it becomes current together with the new parameter list, the frame
    /// index and time restart at zero and `path` becomes the active file.
    /// Parameters keep their live value by name when the same file is
    /// loaded again; otherwise every parameter starts from its default. Any
    /// failure leaves the engine exactly as it was.
    pub fn finish_load(&mut self, path: String, outcome: LoadOutcome<P>) -> (r: Result<(), LoadError>)
        requires
            outcome matches LoadOutcome::Built { extraction, defaults, .. } ==> defaults@.len()
                == extraction.params@.len(),
        ensures
            match outcome {
                LoadOutcome::Unreadable => r == Err::<(), LoadError>(LoadError::Unreadable)
                    && *final(self) == *old(self),
                LoadOutcome::Invalid(e) => r == Err::<(), LoadError>(LoadError::Extraction(e))
                    && *final(self) == *old(self),
                LoadOutcome::Rejected => r == Err::<(), LoadError>(LoadError::Pipeline)
                    && *final(self) == *old(self),
                LoadOutcome::Built { extraction, defaults, pipeline } => {
                    &&& r is Ok
                    &&& final(self).pipeline == Some(pipeline)
                    &&& param_views(final(self).params@) == merged(
                        param_views(old(self).params@),
                        views(extraction.params@),
                        defaults@,
                        same_file(old(self).active, path),
                    )
                    &&& final(self).globals == (Globals { frame: 0, time: 0, ..old(self).globals })
                    &&& final(self).active == Some(path)
                    &&& final(self).watched == old(self).watched
                    &&& final(self).pacer == old(self).pacer
                    &&& final(self).debouncer == old(self).debouncer
                    &&& final(self).feedback == old(self).feedback
                    &&& final(self).exit == old(self).exit
                },
            },
    {
        match outcome {
            LoadOutcome::Unreadable => Err(LoadError::Unreadable),
            LoadOutcome::Invalid(e) => Err(LoadError::Extraction(e)),
            LoadOutcome::Rejected => Err(LoadError::Pipeline),
            LoadOutcome::Built { extraction, defaults, pipeline } => {
                let carry = match &self.active {
                    Some(a) => *a == path,
                    None => false,
                };
                let params = merge_params(&self.params, &extraction.params, &defaults, carry);
                self.pipeline = Some(pipeline);
                self.params = params;
                self.globals.frame = 0;
                self.globals.time = 0;
                self.active = Some(path);
                Ok(())
            },
        }
    }

    /// Records that the watcher is now subscribed to `path`, and only to it.
    pub fn watch_started(&mut self, path: String)
        ensures
            *final(self) == (Engine {
                watched: Some(path),
                debouncer: Debouncer { window: old(self).debouncer.window, pending: None },
                ..*old(self)
            }),
    {
        self.watched = Some(path);
        self.debouncer.pending = None;
    }

    /// Counts a completed frame: the frame index goes up by one and the
    /// feedback textures swap roles.
    pub fn frame_completed(&mut self)
        ensures
            *final(self) == (Engine {
                globals: Globals { frame: next_frame(old(self).globals.frame), ..old(self).globals },
                feedback: FeedbackPair { read_second: !old(self).feedback.read_second },
                ..*old(self)
            }),
    {
        if self.globals.frame == u32::MAX {
            self.globals.frame = 0;
        } else {
            self.globals.frame = self.globals.frame + 1;
        }
        self.feedback.swap();
    }

    /// Records a write to `path` at `now` (milliseconds); writes to any file
    /// but the watched one are ignored.
    pub fn file_written(&mut self, path: &String, now: u64)
        ensures
            same_file(old(self).watched, *path) ==> *final(self) == (Engine {
                debouncer: step(old(self).debouncer, Notice::Write(now)).0,
                ..*old(self)
            }),
            !same_file(old(self).watched, *path) ==> *final(self) == *old(self),
    {
        let watched = match &self.watched {
            Some(w) => *w == *path,
            None => false,
        };
        if watched {
            self.debouncer.write(now);
        }
    }

    /// At `now` (milliseconds), the `Load` of the watched file that the
    /// debouncer reports as due, if any.
    pub fn poll_watch(&mut self, now: u64) -> (r: Option<Command>)
        ensures
            *final(self) == (Engine {
                debouncer: step(old(self).debouncer, Notice::Poll(now)).0,
                ..*old(self)
            }),
            step(old(self).debouncer, Notice::Poll(now)).1 && old(self).watched is Some ==> (r matches Some(
                Command::Load(p),
            ) && p@ == old(self).watched->Some_0@),
            !(step(old(self).debouncer, Notice::Poll(now)).1 && old(self).watched is Some) ==> r is None,
    {
        let due = self.debouncer.poll(now);
        if !due {
            return None;
        }
        match &self.watched {
            Some(w) => Some(Command::Load(w.clone())),
            None => None,
        }
    }

    /// The parameter buffer for the current values.
    pub fn param_bytes(&self) -> (r: Vec<u8>)
        ensures
            r@ == param_buffer(param_views(self.params@)),
            r@.len() == 4 * self.params@.len(),
    {
        param_bytes(&self.params)
    }
}

} // verus!
