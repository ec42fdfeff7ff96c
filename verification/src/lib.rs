//! The engine of a hotkey-driven text generation tool.
//!
//! An activation captures context, fills a prompt template from the
//! environment, streams generated text from a process and carries out the
//! steps of the active trigger on it, one of which may go on to another
//! trigger. This crate holds the rules of all that as verified code; the
//! work on keyboard, clipboard, screen, network and subprocesses is the
//! application's, which reports what happened and is told what to do next.
//!
//! - [`settings`]: the configuration model and its validity.
//! - [`environment`]: the map of named text values.
//! - [`template`]: resolving `$KEY` in a prompt.
//! - [`generator`]: what to start for a process, and how its answers
//!   become fragments.
//! - [`delta`]: when gathered fragments are handed on as live output.
//! - [`picture`]: generated text as a picture for the clipboard.
//! - [`pipeline`]: the state machine of a run.
//! - [`cancel`]: held keys, activation and cancelling.
//! - [`text`]: the operations on text that the others share.

pub mod cancel;
pub mod delta;
pub mod environment;
pub mod generator;
pub mod picture;
pub mod pipeline;
pub mod settings;
pub mod template;
pub mod text;

pub use cancel::{CancellationController, KeyEvent};
pub use delta::DeltaBuffer;
pub use environment::Environment;
pub use generator::{GenerationPlan, Generator, GeneratorEvent, GeneratorRequest, GeneratorState};
pub use picture::{OutputError, Picture};
pub use pipeline::{Action, Event, Pipeline, RunError, RunState};
pub use settings::{
    ConfigurationError, CustomPrompt, Ollama, Platform, ProcessType, SelectionAction, Settings,
    Step, Trigger,
};
pub use template::{resolve, VariableResolutionError};
