//! Job state controller and the worker-side decisions.
//!
//! At most one recognition job is in flight at a time. The controller
//! reflects the job lifecycle (`Idle`, `Running`, `Delivered`, `Failed`) and
//! gates the user-facing actions; the presentation loop drives it with the
//! outcome of each non-blocking poll of the handoff channel. A submission
//! while a job is running is rejected outright — never queued, never
//! superseded — and every terminal outcome re-enables the trigger, so the
//! user is never stuck.

use vstd::prelude::*;
use crate::textproc::{substituted, post_process};
use crate::bitmap::RgbaBitmap;
use crate::preprocess::{
    condition, conditioned_of, conditioned_width, conditioned_height, needs_upscale, scaled_width,
    scaled_height,
};
use crate::encode::{encode_png, png_encoding, EncodeError};

verus! {

/// The presentation loop polls the handoff channel at this fixed interval,
/// in milliseconds.
pub const POLL_INTERVAL_MS: u64 = 100;

/// The engine's fixed page-segmentation mode.
pub const PAGE_SEG_MODE: u8 = 4;

/// The engine's fixed recognition mode.
pub const ENGINE_MODE: u8 = 1;

/// Lifecycle state of the one possible recognition job.
#[derive(PartialEq, Eq, Structural, Clone, Copy, Debug)]
pub enum UiState {
    Idle,
    Running,
    Delivered,
    Failed,
}

/// Why a job ended without delivering text.
#[derive(PartialEq, Eq, Structural, Clone, Copy, Debug)]
pub enum FailureReason {
    /// The engine could not be initialized.
    EngineInit,
    /// The engine rejected the image or a recognition parameter.
    EngineConfig,
    /// The engine ran but produced no usable text.
    Recognition,
    /// The worker ended without ever sending: the send half of the channel
    /// was dropped.
    Disconnected,
}

/// What the worker sends on the handoff channel: the post-processed text,
/// or the reason the job failed. Exactly one message is sent per job.
pub enum WorkerMessage {
    Text(Vec<u8>),
    Failure(FailureReason),
}

/// What one non-blocking poll of the handoff channel observed.
pub enum PollEvent {
    /// Nothing yet: the worker is still running.
    Empty,
    /// The worker's one message.
    Message(WorkerMessage),
    /// The send half was dropped without a message.
    Disconnected,
}

/// What the presentation loop must do after a poll.
#[derive(PartialEq, Eq, Structural, Clone, Copy, Debug)]
pub enum PollAction {
    /// Poll again after the interval.
    KeepPolling,
    /// Deregister the poll: the job has resolved.
    Stop,
}

/// The worker's first step: condition the captured bitmap and serialize it
/// for the engine. For every admitted capture this succeeds, and the bytes
/// are exactly the PNG encoding of the conditioned image; the error arm
/// exists for the boundary's shape — an encoding failure would be fatal to
/// the job — but no admitted input reaches it.
pub fn prepare_job(img: &RgbaBitmap) -> (r: Result<Vec<u8>, EncodeError>)
    requires
        img.wf(),
        1 <= img.width,
        1 <= img.height,
        img.width * img.height <= 0x8000_0000,
        needs_upscale(img.width as int, img.height as int) ==> scaled_width(
            img.width as int,
            img.height as int,
        ) * scaled_height(img.width as int, img.height as int) <= 0x8000_0000,
    ensures
        r is Ok,
        r matches Ok(b) ==> b@ == png_encoding(
            conditioned_of(img.pixels@, img.width as int, img.height as int),
            conditioned_width(img.width as int, img.height as int),
            conditioned_height(img.width as int, img.height as int),
        ),
        r matches Err(e) ==> e == EncodeError::EncodingFailed,
{
    proof {
        assert((img.width as int) <= (img.width as int) * (img.height as int) && (
        img.height as int) <= (img.width as int) * (img.height as int)) by (nonlinear_arith)
            requires
                1 <= (img.width as int),
                1 <= (img.height as int),
        ;
        if needs_upscale(img.width as int, img.height as int) {
            let sw = scaled_width(img.width as int, img.height as int);
            let sh = scaled_height(img.width as int, img.height as int);
            crate::preprocess::lemma_scaled_dims(img.width as int, img.height as int);
            assert(sw <= sw * sh && sh <= sw * sh) by (nonlinear_arith)
                requires
                    1 <= sw,
                    1 <= sh,
            ;
        }
    }
    let conditioned = condition(img);
    encode_png(&conditioned)
}

/// The worker's final step: fold the engine's outcome into the one message
/// to send. Recognized text gets the fixed bracket substitution; a failure
/// is passed through as the failure message.
pub fn finish_recognition(outcome: Result<Vec<u8>, FailureReason>) -> (msg: WorkerMessage)
    ensures
        outcome matches Ok(t) ==> msg matches WorkerMessage::Text(p) && p@ == substituted(t@),
        outcome matches Err(e) ==> msg == WorkerMessage::Failure(e),
{
    match outcome {
        Ok(text) => WorkerMessage::Text(post_process(&text)),
        Err(reason) => WorkerMessage::Failure(reason),
    }
}

/// The job state controller: the state machine the presentation collaborator
/// gates its actions by.
pub struct JobController {
    pub state: UiState,
    pub has_image: bool,
}

impl JobController {
    /// Well-formedness: a job lifecycle exists only around a loaded image.
    /// Every state but `Idle` is reached by submitting with an image and
    /// resolving that job, so it carries the image with it; in particular a
    /// delivered result (the copy gate) and a resolved failure always have
    /// an image behind them. Constructors establish this and every method
    /// preserves it.
    pub open spec fn wf(&self) -> bool {
        self.state != UiState::Idle ==> self.has_image
    }

    /// The trigger action is available in every state but `Running`, and
    /// only with a loaded image.
    pub open spec fn trigger_enabled(&self) -> bool {
        self.has_image && self.state != UiState::Running
    }

    /// The copy action is available only once a result was delivered.
    pub open spec fn copy_enabled(&self) -> bool {
        self.state == UiState::Delivered
    }

    /// The clear action is available whenever an image is loaded.
    pub open spec fn clear_enabled(&self) -> bool {
        self.has_image
    }

    /// Whether the presentation side may offer the trigger action now.
    pub fn can_trigger(&self) -> (b: bool)
        ensures
            b == self.trigger_enabled(),
    {
        self.has_image && !matches!(self.state, UiState::Running)
    }

    /// Whether the presentation side may offer the copy action now.
    pub fn can_copy(&self) -> (b: bool)
        ensures
            b == self.copy_enabled(),
    {
        matches!(self.state, UiState::Delivered)
    }

    /// Whether the presentation side may offer the clear action now.
    pub fn can_clear(&self) -> (b: bool)
        ensures
            b == self.clear_enabled(),
    {
        self.has_image
    }

    /// A fresh controller: no image, no job.
    pub fn new() -> (c: JobController)
        ensures
            c.wf(),
            c.state == UiState::Idle,
            !c.has_image,
    {
        JobController { state: UiState::Idle, has_image: false }
    }

    /// A bitmap was loaded from the image source; the job lifecycle is
    /// untouched.
    pub fn load_image(&mut self)
        requires
            old(self).wf(),
        ensures
            final(self).wf(),
            final(self).has_image,
            final(self).state == old(self).state,
    {
        self.has_image = true;
    }

    /// A recognition request. Accepted exactly when the trigger is enabled;
    /// while a job is `Running` the request is rejected outright and the
    /// controller is unchanged — no queueing, no supersession.
    pub fn submit(&mut self) -> (accepted: bool)
        requires
            old(self).wf(),
        ensures
            final(self).wf(),
            accepted == old(self).trigger_enabled(),
            accepted ==> final(self).state == UiState::Running && final(self).has_image == old(
                self,
            ).has_image,
            !accepted ==> *final(self) == *old(self),
    {
        if self.has_image && !matches!(self.state, UiState::Running) {
            self.state = UiState::Running;
            true
        } else {
            false
        }
    }

    /// One non-blocking poll of the handoff channel while a job runs. An
    /// empty channel keeps the poll alive and the state untouched; a
    /// message or a disconnection resolves the job, stops the poll, and
    /// re-enables the trigger.
    pub fn on_poll(&mut self, ev: &PollEvent) -> (act: PollAction)
        requires
            old(self).wf(),
            old(self).state == UiState::Running,
        ensures
            final(self).wf(),
            final(self).has_image == old(self).has_image,
            ev matches PollEvent::Empty ==> act == PollAction::KeepPolling && *final(self) == *old(
                self,
            ),
            ev matches PollEvent::Message(WorkerMessage::Text(t)) ==> act == PollAction::Stop
                && final(self).state == UiState::Delivered,
            ev matches PollEvent::Message(WorkerMessage::Failure(r)) ==> act == PollAction::Stop
                && final(self).state == UiState::Failed,
            ev matches PollEvent::Disconnected ==> act == PollAction::Stop && final(self).state
                == UiState::Failed,
            (ev is Message || ev is Disconnected) ==> final(self).state != UiState::Running
                && final(self).trigger_enabled(),
    {
        match ev {
            PollEvent::Empty => PollAction::KeepPolling,
            PollEvent::Message(m) => {
                match m {
                    WorkerMessage::Text(_) => {
                        self.state = UiState::Delivered;
                    },
                    WorkerMessage::Failure(_) => {
                        self.state = UiState::Failed;
                    },
                }
                PollAction::Stop
            },
            PollEvent::Disconnected => {
                self.state = UiState::Failed;
                PollAction::Stop
            },
        }
    }

    /// The clear action: drop the loaded image and any shown outcome.
    pub fn clear(&mut self)
        ensures
            final(self).wf(),
            final(self).state == UiState::Idle,
            !final(self).has_image,
    {
        self.state = UiState::Idle;
        self.has_image = false;
    }
}

/// A resolved job always re-enables the trigger: in no state but `Running`
/// does a loaded image leave the trigger disabled, so no terminal outcome
/// can strand the user.
pub proof fn lemma_terminal_reenables_trigger(c: JobController)
    requires
        c.has_image,
        c.state != UiState::Running,
    ensures
        c.trigger_enabled(),
{
}

} // verus!
