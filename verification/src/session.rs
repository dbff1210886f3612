//! The state of one download-and-install attempt.
//!
//! A `DownloadSession` is shared between the worker that moves the bytes and
//! the caller that may pause, resume or cancel. It performs no I/O: the
//! worker tells it what happened (the size was probed, a chunk arrived, the
//! stream ended, the archive was installed) and is told what to do next and
//! what to report. Times are milliseconds on a monotonic clock.
//!
//! ```text
//! Init -> ProbingSize -> Streaming <-> Paused -> Extracting -> Done
//!                              \          \
//!                               +----------+--> Canceled
//! any running stage --> Failed
//! ```

use vstd::prelude::*;
use crate::rate::{
    all_recent,
    eta_of,
    lemma_window_is_recent,
    rate_of,
    time_ordered,
    window_after,
    Sample,
    SlidingRateTracker,
};

verus! {

/// How long a paused worker waits before it asks again.
pub const PAUSE_POLL_MILLIS: u64 = 200;

/// Largest number of bytes asked of the stream in one read.
pub const CHUNK_BYTES: usize = 65536;

#[derive(Clone, Copy, Debug, PartialEq, Eq, Structural)]
pub enum Stage {
    Init,
    ProbingSize,
    Streaming,
    Paused,
    Extracting,
    Done,
    Canceled,
    Failed,
}

/// What the worker reports to whoever listens.
#[derive(Clone, Copy, Debug, PartialEq, Eq)]
pub enum ProgressEvent {
    Download { downloaded: u64, total: u64, eta_secs: Option<u64>, speed_bps: u64 },
    Paused { downloaded: u64, total: u64, eta_secs: Option<u64>, speed_bps: u64 },
    Extract { downloaded: u64, total: u64 },
    Done { extracted: u64 },
    Canceled,
}

/// What the worker does before the next read.
#[derive(Clone, Copy, Debug, PartialEq, Eq)]
pub enum Directive {
    /// Read the next chunk.
    Read,
    /// Report the event, wait `PAUSE_POLL_MILLIS`, then ask again.
    Wait(ProgressEvent),
    /// Delete the temporary file, report the event and stop. Not an error.
    Abort(ProgressEvent),
}

#[derive(Clone, Copy, Debug, PartialEq, Eq)]
pub enum SessionError {
    /// A session is already under way.
    AlreadyRunning,
    /// The session is not in the stage in which this can happen.
    WrongStage,
}

/// A session as contracts see it.
pub struct SessionState {
    pub stage: Stage,
    pub downloaded: u64,
    /// Size of the whole archive; zero while unknown.
    pub total: u64,
    pub samples: Seq<Sample>,
    pub paused: bool,
    pub canceled: bool,
    /// Components of the temporary file's path, while there is one.
    pub temp_path: Option<Seq<Seq<char>>>,
    pub started_at: Option<u64>,
}

/// One thing that can happen to a session.
pub enum SessionStep {
    Start { temp_path: Seq<Seq<char>>, resume_offset: u64, now: u64 },
    SizeProbed { total: u64, now: u64 },
    Checkpoint,
    Chunk { len: u64, now: u64 },
    StreamFinished,
    Installed { extracted: u64 },
    Fail,
    Pause,
    Resume,
    Cancel,
}

impl SessionState {
    pub open spec fn fresh() -> SessionState {
        SessionState {
            stage: Stage::Init,
            downloaded: 0,
            total: 0,
            samples: Seq::empty(),
            paused: false,
            canceled: false,
            temp_path: None,
            started_at: None,
        }
    }

    /// A worker is busy with this session.
    pub open spec fn is_active(self) -> bool {
        self.stage is ProbingSize || self.stage is Streaming || self.stage is Paused
            || self.stage is Extracting
    }

    pub open spec fn is_terminal(self) -> bool {
        self.stage is Done || self.stage is Canceled || self.stage is Failed
    }

    /// Bytes are flowing or held back by a pause.
    pub open spec fn is_transferring(self) -> bool {
        self.stage is Streaming || self.stage is Paused
    }

    /// What holds of a session at every moment.
    pub open spec fn wf(self) -> bool {
        &&& self.temp_path is Some <==> self.is_active()
        &&& self.started_at is None <==> self.stage is Init
        &&& if self.is_transferring() || self.stage is Extracting {
            self.samples.len() > 0 && self.samples.last().bytes == self.downloaded
        } else {
            self.samples.len() == 0
        }
    }

    /// Bytes still to come; zero when the total is unknown or passed.
    pub open spec fn remaining(self) -> u64 {
        if self.total >= self.downloaded {
            (self.total - self.downloaded) as u64
        } else {
            0
        }
    }

    /// The session without its temporary path and rate samples.
    pub open spec fn torn_down(self, stage: Stage) -> SessionState {
        SessionState { stage, temp_path: None, samples: Seq::empty(), ..self }
    }

    pub open spec fn after_start(
        self,
        temp_path: Seq<Seq<char>>,
        resume_offset: u64,
        now: u64,
    ) -> SessionState {
        if self.is_active() {
            self
        } else {
            SessionState {
                stage: Stage::ProbingSize,
                downloaded: resume_offset,
                total: 0,
                samples: Seq::empty(),
                paused: false,
                canceled: false,
                temp_path: Some(temp_path),
                started_at: Some(now),
            }
        }
    }

    pub open spec fn after_size_probed(self, total: u64, now: u64) -> SessionState {
        if self.stage is ProbingSize {
            SessionState {
                stage: Stage::Streaming,
                total,
                samples: window_after(
                    self.samples,
                    Sample { at_millis: now, bytes: self.downloaded },
                ),
                ..self
            }
        } else {
            self
        }
    }

    /// What a checkpoint tells the worker; `None` outside a transfer.
    pub open spec fn directive(self) -> Option<Directive> {
        if !self.is_transferring() {
            None
        } else if self.canceled {
            Some(Directive::Abort(ProgressEvent::Canceled))
        } else if self.paused {
            Some(Directive::Wait(self.paused_event()))
        } else {
            Some(Directive::Read)
        }
    }

    /// The report on a transfer that is held: nothing flows, and when it
    /// will be through is unknown.
    pub open spec fn paused_event(self) -> ProgressEvent {
        ProgressEvent::Paused {
            downloaded: self.downloaded,
            total: self.total,
            eta_secs: None,
            speed_bps: 0,
        }
    }

    pub open spec fn after_checkpoint(self) -> SessionState {
        if !self.is_transferring() {
            self
        } else if self.canceled {
            self.torn_down(Stage::Canceled)
        } else if self.paused {
            SessionState { stage: Stage::Paused, ..self }
        } else {
            SessionState { stage: Stage::Streaming, ..self }
        }
    }

    /// A chunk counts while the session streams and the counter can hold it.
    pub open spec fn accepts_chunk(self, len: u64) -> bool {
        self.stage is Streaming && self.downloaded + len <= u64::MAX
    }

    pub open spec fn after_chunk(self, len: u64, now: u64) -> SessionState {
        if self.accepts_chunk(len) {
            let downloaded = (self.downloaded + len) as u64;
            SessionState {
                downloaded,
                samples: window_after(self.samples, Sample { at_millis: now, bytes: downloaded }),
                ..self
            }
        } else {
            self
        }
    }

    /// The report on the transfer as it stands.
    pub open spec fn download_event(self) -> ProgressEvent {
        ProgressEvent::Download {
            downloaded: self.downloaded,
            total: self.total,
            eta_secs: match eta_of(self.samples, self.remaining()) {
                Some(secs) => Some(secs as u64),
                None => None,
            },
            speed_bps: rate_of(self.samples) as u64,
        }
    }

    pub open spec fn after_stream_finished(self) -> SessionState {
        if self.stage is Streaming {
            SessionState { stage: Stage::Extracting, ..self }
        } else {
            self
        }
    }

    /// The session after a read that gave `len` bytes: a read of nothing is
    /// the end of the stream, any other is a chunk.
    pub open spec fn after_read(self, len: u64, now: u64) -> SessionState {
        if len == 0 {
            self.after_stream_finished()
        } else {
            self.after_chunk(len, now)
        }
    }

    pub open spec fn after_installed(self) -> SessionState {
        if self.stage is Extracting {
            self.torn_down(Stage::Done)
        } else {
            self
        }
    }

    pub open spec fn after_fail(self) -> SessionState {
        if self.is_active() {
            self.torn_down(Stage::Failed)
        } else {
            self
        }
    }

    pub open spec fn with_paused(self, paused: bool) -> SessionState {
        SessionState { paused, ..self }
    }

    pub open spec fn with_cancel(self) -> SessionState {
        SessionState { canceled: true, ..self }
    }

    /// The session after `step`.
    pub open spec fn after(self, step: SessionStep) -> SessionState {
        match step {
            SessionStep::Start { temp_path, resume_offset, now } => self.after_start(
                temp_path,
                resume_offset,
                now,
            ),
            SessionStep::SizeProbed { total, now } => self.after_size_probed(total, now),
            SessionStep::Checkpoint => self.after_checkpoint(),
            SessionStep::Chunk { len, now } => self.after_chunk(len, now),
            SessionStep::StreamFinished => self.after_stream_finished(),
            SessionStep::Installed { extracted } => self.after_installed(),
            SessionStep::Fail => self.after_fail(),
            SessionStep::Pause => self.with_paused(true),
            SessionStep::Resume => self.with_paused(false),
            SessionStep::Cancel => self.with_cancel(),
        }
    }

    /// The session after each of `steps` in turn.
    pub open spec fn after_all(self, steps: Seq<SessionStep>) -> SessionState
        decreases steps.len(),
    {
        if steps.len() == 0 {
            self
        } else {
            self.after(steps[0]).after_all(steps.drop_first())
        }
    }
}

/// The sum of the lengths of the chunks among `steps`.
pub open spec fn chunk_bytes(steps: Seq<SessionStep>) -> nat
    decreases steps.len(),
{
    if steps.len() == 0 {
        0
    } else {
        chunk_bytes(steps.drop_last()) + match steps.last() {
            SessionStep::Chunk { len, .. } => len as nat,
            _ => 0nat,
        }
    }
}

pub struct DownloadSession {
    stage: Stage,
    downloaded: u64,
    total: u64,
    tracker: SlidingRateTracker,
    paused: bool,
    canceled: bool,
    temp_path: Option<Vec<String>>,
    started_at: Option<u64>,
}

impl View for DownloadSession {
    type V = SessionState;

    closed spec fn view(&self) -> SessionState {
        SessionState {
            stage: self.stage,
            downloaded: self.downloaded,
            total: self.total,
            samples: self.tracker@,
            paused: self.paused,
            canceled: self.canceled,
            temp_path: match self.temp_path {
                Some(p) => Some(p.deep_view()),
                None => None,
            },
            started_at: self.started_at,
        }
    }
}

impl DownloadSession {
    pub fn new() -> (s: Self)
        ensures
            s@ == SessionState::fresh(),
            s@.wf(),
    {
        DownloadSession {
            stage: Stage::Init,
            downloaded: 0,
            total: 0,
            tracker: SlidingRateTracker::new(),
            paused: false,
            canceled: false,
            temp_path: None,
            started_at: None,
        }
    }

    pub fn stage(&self) -> (r: Stage)
        ensures
            r == self@.stage,
    {
        self.stage
    }

    pub fn bytes_downloaded(&self) -> (r: u64)
        ensures
            r == self@.downloaded,
    {
        self.downloaded
    }

    pub fn total_bytes(&self) -> (r: u64)
        ensures
            r == self@.total,
    {
        self.total
    }

    pub fn is_paused(&self) -> (r: bool)
        ensures
            r == self@.paused,
    {
        self.paused
    }

    pub fn is_canceled(&self) -> (r: bool)
        ensures
            r == self@.canceled,
    {
        self.canceled
    }

    pub fn is_active(&self) -> (r: bool)
        ensures
            r == self@.is_active(),
    {
        self.stage == Stage::ProbingSize || self.stage == Stage::Streaming || self.stage
            == Stage::Paused || self.stage == Stage::Extracting
    }

    pub fn started_at(&self) -> (r: Option<u64>)
        ensures
            r == self@.started_at,
    {
        self.started_at
    }

    /// The temporary file's path, while the session has one.
    pub fn temp_path(&self) -> (r: Option<Vec<String>>)
        ensures
            match r {
                Some(p) => self@.temp_path == Some(p.deep_view()),
                None => self@.temp_path is None,
            },
    {
        match &self.temp_path {
            Some(p) => Some(crate::text::clone_strings(p)),
            None => None,
        }
    }

    /// Current throughput in bytes per second.
    pub fn speed_bps(&self) -> (r: u64)
        ensures
            r == rate_of(self@.samples),
    {
        self.tracker.rate()
    }

    /// Number of rate samples held.
    pub fn sample_count(&self) -> (n: usize)
        ensures
            n == self@.samples.len(),
    {
        self.tracker.len()
    }

    /// Begins an attempt that resumes at `resume_offset`, the length of what
    /// the temporary file already holds. Refused while another attempt runs.
    pub fn start(&mut self, temp_path: Vec<String>, resume_offset: u64, now: u64) -> (r: Result<
        (),
        SessionError,
    >)
        ensures
            final(self)@ == old(self)@.after_start(temp_path.deep_view(), resume_offset, now),
            old(self)@.wf() ==> final(self)@.wf(),
            r == if old(self)@.is_active() {
                Err::<(), SessionError>(SessionError::AlreadyRunning)
            } else {
                Ok(())
            },
    {
        if self.is_active() {
            return Err(SessionError::AlreadyRunning);
        }
        self.tracker.clear();
        self.stage = Stage::ProbingSize;
        self.downloaded = resume_offset;
        self.total = 0;
        self.paused = false;
        self.canceled = false;
        self.temp_path = Some(temp_path);
        self.started_at = Some(now);
        Ok(())
    }

    /// Takes the size that the probe found (zero if the server gave none)
    /// and the first rate sample; the transfer can begin.
    pub fn size_probed(&mut self, total: u64, now: u64) -> (r: Result<(), SessionError>)
        ensures
            final(self)@ == old(self)@.after_size_probed(total, now),
            old(self)@.wf() ==> final(self)@.wf(),
            r == if old(self)@.stage is ProbingSize {
                Ok::<(), SessionError>(())
            } else {
                Err(SessionError::WrongStage)
            },
    {
        if self.stage != Stage::ProbingSize {
            return Err(SessionError::WrongStage);
        }
        self.total = total;
        self.tracker.record(now, self.downloaded);
        self.stage = Stage::Streaming;
        proof {
            crate::rate::lemma_window_keeps_newest(
                old(self)@.samples,
                Sample { at_millis: now, bytes: self.downloaded },
            );
        }
        Ok(())
    }

    /// Looks at the cancel and pause flags, as the worker does before every
    /// read. A cancel wins over a pause.
    pub fn checkpoint(&mut self) -> (r: Result<Directive, SessionError>)
        ensures
            final(self)@ == old(self)@.after_checkpoint(),
            old(self)@.wf() ==> final(self)@.wf(),
            r == match old(self)@.directive() {
                Some(d) => Ok::<Directive, SessionError>(d),
                None => Err(SessionError::WrongStage),
            },
    {
        if !(self.stage == Stage::Streaming || self.stage == Stage::Paused) {
            return Err(SessionError::WrongStage);
        }
        if self.canceled {
            self.tear_down(Stage::Canceled);
            Ok(Directive::Abort(ProgressEvent::Canceled))
        } else if self.paused {
            self.stage = Stage::Paused;
            Ok(
                Directive::Wait(
                    ProgressEvent::Paused {
                        downloaded: self.downloaded,
                        total: self.total,
                        eta_secs: None,
                        speed_bps: 0,
                    },
                ),
            )
        } else {
            self.stage = Stage::Streaming;
            Ok(Directive::Read)
        }
    }

    /// Counts a chunk of `len` bytes that was appended to the temporary file
    /// and gives the progress to report.
    pub fn chunk_received(&mut self, len: u64, now: u64) -> (r: Result<ProgressEvent, SessionError>)
        requires
            old(self)@.downloaded + len <= u64::MAX,
        ensures
            final(self)@ == old(self)@.after_chunk(len, now),
            old(self)@.wf() ==> final(self)@.wf(),
            r == if old(self)@.stage is Streaming {
                Ok::<ProgressEvent, SessionError>(final(self)@.download_event())
            } else {
                Err(SessionError::WrongStage)
            },
    {
        if self.stage != Stage::Streaming {
            return Err(SessionError::WrongStage);
        }
        self.downloaded = self.downloaded + len;
        self.tracker.record(now, self.downloaded);
        proof {
            crate::rate::lemma_window_keeps_newest(
                old(self)@.samples,
                Sample { at_millis: now, bytes: self.downloaded },
            );
        }
        let speed_bps: u64 = self.tracker.rate();
        let remaining: u64 = self.total.saturating_sub(self.downloaded);
        let eta_secs = self.tracker.eta(remaining);
        Ok(
            ProgressEvent::Download {
                downloaded: self.downloaded,
                total: self.total,
                eta_secs,
                speed_bps,
            },
        )
    }

    /// The stream has ended: what was downloaded goes to the installer.
    pub fn stream_finished(&mut self) -> (r: Result<ProgressEvent, SessionError>)
        ensures
            final(self)@ == old(self)@.after_stream_finished(),
            old(self)@.wf() ==> final(self)@.wf(),
            r == if old(self)@.stage is Streaming {
                Ok::<ProgressEvent, SessionError>(ProgressEvent::Extract { downloaded: 0, total: 1 })
            } else {
                Err(SessionError::WrongStage)
            },
    {
        if self.stage != Stage::Streaming {
            return Err(SessionError::WrongStage);
        }
        self.stage = Stage::Extracting;
        Ok(ProgressEvent::Extract { downloaded: 0, total: 1 })
    }

    /// Takes what a read of the stream gave: `len` bytes that were appended
    /// to the temporary file, or nothing, which is the end of the stream.
    pub fn read_completed(&mut self, len: u64, now: u64) -> (r: Result<ProgressEvent, SessionError>)
        requires
            old(self)@.downloaded + len <= u64::MAX,
        ensures
            final(self)@ == old(self)@.after_read(len, now),
            old(self)@.wf() ==> final(self)@.wf(),
            r == if !(old(self)@.stage is Streaming) {
                Err::<ProgressEvent, SessionError>(SessionError::WrongStage)
            } else if len == 0 {
                Ok(ProgressEvent::Extract { downloaded: 0, total: 1 })
            } else {
                Ok(final(self)@.download_event())
            },
    {
        if len == 0 {
            self.stream_finished()
        } else {
            self.chunk_received(len, now)
        }
    }

    /// The installer is through with `extracted` files written: the session
    /// is done and lets go of the temporary file.
    pub fn installed(&mut self, extracted: u64) -> (r: Result<ProgressEvent, SessionError>)
        ensures
            final(self)@ == old(self)@.after_installed(),
            old(self)@.wf() ==> final(self)@.wf(),
            r == if old(self)@.stage is Extracting {
                Ok::<ProgressEvent, SessionError>(ProgressEvent::Done { extracted })
            } else {
                Err(SessionError::WrongStage)
            },
    {
        if self.stage != Stage::Extracting {
            return Err(SessionError::WrongStage);
        }
        self.tear_down(Stage::Done);
        Ok(ProgressEvent::Done { extracted })
    }

    /// The network, the file system or the archive failed: a running
    /// session ends as failed. Returns whether there was one.
    pub fn fail(&mut self) -> (was_active: bool)
        ensures
            final(self)@ == old(self)@.after_fail(),
            old(self)@.wf() ==> final(self)@.wf(),
            was_active == old(self)@.is_active(),
    {
        if self.is_active() {
            self.tear_down(Stage::Failed);
            true
        } else {
            false
        }
    }

    /// Asks the worker to hold. Takes effect at its next checkpoint.
    pub fn pause(&mut self)
        ensures
            final(self)@ == old(self)@.with_paused(true),
            old(self)@.wf() ==> final(self)@.wf(),
    {
        self.paused = true;
    }

    /// Lets a held worker go on.
    pub fn resume(&mut self)
        ensures
            final(self)@ == old(self)@.with_paused(false),
            old(self)@.wf() ==> final(self)@.wf(),
    {
        self.paused = false;
    }

    /// Asks the worker to give up. Takes effect at its next checkpoint.
    pub fn cancel(&mut self)
        ensures
            final(self)@ == old(self)@.with_cancel(),
            old(self)@.wf() ==> final(self)@.wf(),
    {
        self.canceled = true;
    }

    fn tear_down(&mut self, stage: Stage)
        ensures
            final(self)@ == old(self)@.torn_down(stage),
    {
        self.stage = stage;
        self.temp_path = None;
        self.tracker.clear();
    }
}

impl Default for DownloadSession {
    fn default() -> (s: Self)
        ensures
            s@ == SessionState::fresh(),
            s@.wf(),
    {
        DownloadSession::new()
    }
}

impl ProgressEvent {
    pub open spec fn stage_text(self) -> Seq<char> {
        match self {
            ProgressEvent::Download { .. } => "download"@,
            ProgressEvent::Paused { .. } => "paused"@,
            ProgressEvent::Extract { .. } => "extract"@,
            ProgressEvent::Done { .. } => "done"@,
            ProgressEvent::Canceled => "canceled"@,
        }
    }

    /// The name under which the event's stage is reported.
    pub fn stage_name(&self) -> (r: &'static str)
        ensures
            r@ == self.stage_text(),
    {
        match self {
            ProgressEvent::Download { .. } => "download",
            ProgressEvent::Paused { .. } => "paused",
            ProgressEvent::Extract { .. } => "extract",
            ProgressEvent::Done { .. } => "done",
            ProgressEvent::Canceled => "canceled",
        }
    }
}

impl SessionError {
    pub open spec fn text(self) -> Seq<char> {
        match self {
            SessionError::AlreadyRunning => "un téléchargement est déjà en cours"@,
            SessionError::WrongStage => "étape inattendue pour la session"@,
        }
    }

    /// The error in words, for the caller to show.
    pub fn message(&self) -> (r: &'static str)
        ensures
            r@ == self.text(),
    {
        match self {
            SessionError::AlreadyRunning => "un téléchargement est déjà en cours",
            SessionError::WrongStage => "étape inattendue pour la session",
        }
    }
}

/// A well-formed session stays well-formed whatever happens to it.
pub proof fn lemma_step_keeps_wf(s: SessionState, step: SessionStep)
    requires
        s.wf(),
    ensures
        s.after(step).wf(),
{
    match step {
        SessionStep::Chunk { len, now } => {
            if s.accepts_chunk(len) {
                crate::rate::lemma_window_keeps_newest(
                    s.samples,
                    Sample { at_millis: now, bytes: (s.downloaded + len) as u64 },
                );
            }
        },
        SessionStep::SizeProbed { total, now } => {
            crate::rate::lemma_window_keeps_newest(
                s.samples,
                Sample { at_millis: now, bytes: s.downloaded },
            );
        },
        _ => {},
    }
}

/// The probe opens the rate window: after it the window holds one sample,
/// taken at the resume offset.
pub proof fn lemma_probe_opens_window(s: SessionState, total: u64, now: u64)
    requires
        s.wf(),
        s.stage is ProbingSize,
    ensures
        s.after_size_probed(total, now).samples == seq![
            Sample { at_millis: now, bytes: s.downloaded },
        ],
        s.after_size_probed(total, now).stage is Streaming,
        s.after_size_probed(total, now).total == total,
        s.after_size_probed(total, now).downloaded == s.downloaded,
{
    let first = Sample { at_millis: now, bytes: s.downloaded };
    assert(s.samples =~= Seq::<Sample>::empty());
    assert(Seq::<Sample>::empty().push(first) == seq![first]);
    assert(crate::rate::evicted(seq![first], now) == seq![first]);
}

/// The time at which a step records a rate sample, if it records one.
pub open spec fn sample_time(step: SessionStep) -> Option<u64> {
    match step {
        SessionStep::SizeProbed { now, .. } => Some(now),
        SessionStep::Chunk { now, .. } => Some(now),
        _ => None,
    }
}

/// With a clock that never goes backwards, the rate samples of a session
/// stay in time order, and none of them is older than the window relative
/// to the newest.
pub proof fn lemma_samples_stay_recent(s: SessionState, step: SessionStep)
    requires
        time_ordered(s.samples),
        all_recent(s.samples),
        sample_time(step) matches Some(now) ==> (s.samples.len() > 0
            ==> s.samples.last().at_millis <= now),
    ensures
        time_ordered(s.after(step).samples),
        all_recent(s.after(step).samples),
{
    match step {
        SessionStep::Chunk { len, now } => {
            if s.accepts_chunk(len) {
                lemma_window_is_recent(
                    s.samples,
                    Sample { at_millis: now, bytes: (s.downloaded + len) as u64 },
                );
            }
        },
        SessionStep::SizeProbed { total, now } => {
            lemma_window_is_recent(s.samples, Sample { at_millis: now, bytes: s.downloaded });
        },
        _ => {},
    }
}

/// Within one attempt the byte count never goes down: only a new start
/// sets it afresh.
pub proof fn lemma_downloaded_never_decreases(s: SessionState, step: SessionStep)
    requires
        !(step is Start),
    ensures
        s.after(step).downloaded >= s.downloaded,
{
}

/// However a running attempt goes on, what it reports as downloaded never
/// goes down.
pub proof fn lemma_progress_is_monotone(s: SessionState, steps: Seq<SessionStep>)
    requires
        forall|i: int| 0 <= i < steps.len() ==> !(#[trigger] steps[i] is Start),
    ensures
        s.after_all(steps).downloaded >= s.downloaded,
    decreases steps.len(),
{
    if steps.len() > 0 {
        let rest = steps.drop_first();
        assert(!(steps[0] is Start));
        lemma_downloaded_never_decreases(s, steps[0]);
        assert forall|i: int| 0 <= i < rest.len() implies !(#[trigger] rest[i] is Start) by {
            assert(rest[i] == steps[i + 1]);
        }
        lemma_progress_is_monotone(s.after(steps[0]), rest);
    }
}

/// Once probed, the total stays what it is until the next attempt starts.
pub proof fn lemma_total_is_fixed(s: SessionState, step: SessionStep)
    requires
        !(step is Start),
        !(step is SizeProbed),
    ensures
        s.after(step).total == s.total,
{
}

/// Only a new start leads out of `Done`, `Canceled` or `Failed`.
pub proof fn lemma_terminal_stages_hold(s: SessionState, step: SessionStep)
    requires
        s.is_terminal(),
        !(step is Start),
    ensures
        s.after(step).stage == s.stage,
{
}

/// While an attempt runs, a second start changes nothing.
pub proof fn lemma_start_is_guarded(
    s: SessionState,
    temp_path: Seq<Seq<char>>,
    resume_offset: u64,
    now: u64,
)
    requires
        s.is_active(),
    ensures
        s.after_start(temp_path, resume_offset, now) == s,
{
}

/// Pausing, resuming and cancelling twice is the same as doing it once.
pub proof fn lemma_flags_are_idempotent(s: SessionState)
    ensures
        s.with_paused(true).with_paused(true) == s.with_paused(true),
        s.with_paused(false).with_paused(false) == s.with_paused(false),
        s.with_cancel().with_cancel() == s.with_cancel(),
{
}

/// Nothing but chunks has happened to a streaming session: its byte count
/// has grown by exactly the sum of their lengths.
pub proof fn lemma_chunks_add_up(s: SessionState, steps: Seq<SessionStep>)
    requires
        s.stage is Streaming,
        forall|i: int| 0 <= i < steps.len() ==> #[trigger] steps[i] is Chunk,
        s.downloaded + chunk_bytes(steps) <= u64::MAX,
    ensures
        s.after_all(steps).downloaded == s.downloaded + chunk_bytes(steps),
        s.after_all(steps).stage is Streaming,
        s.after_all(steps).total == s.total,
    decreases steps.len(),
{
    if steps.len() > 0 {
        let first = steps[0];
        let rest = steps.drop_first();
        lemma_chunk_bytes_split(steps);
        assert(first is Chunk);
        let next = s.after(first);
        assert forall|i: int| 0 <= i < rest.len() implies #[trigger] rest[i] is Chunk by {
            assert(rest[i] == steps[i + 1]);
        }
        lemma_chunks_add_up(next, rest);
    }
}

proof fn lemma_chunk_bytes_split(steps: Seq<SessionStep>)
    requires
        steps.len() > 0,
    ensures
        chunk_bytes(steps) == chunk_bytes(steps.drop_first()) + match steps[0] {
            SessionStep::Chunk { len, .. } => len as nat,
            _ => 0nat,
        },
    decreases steps.len(),
{
    if steps.len() == 1 {
        assert(steps.drop_last() == Seq::<SessionStep>::empty());
        assert(steps.drop_first() == Seq::<SessionStep>::empty());
        assert(steps.last() == steps[0]);
    } else {
        lemma_chunk_bytes_split(steps.drop_last());
        assert(steps.drop_last().drop_first() == steps.drop_first().drop_last());
        assert(steps.drop_last()[0] == steps[0]);
        assert(steps.drop_first().last() == steps.last());
    }
}

/// A whole transfer: a session started at `resume_offset` and probed, then
/// fed chunks, has counted the offset plus all their bytes.
pub proof fn lemma_transfer_total(
    s: SessionState,
    temp_path: Seq<Seq<char>>,
    resume_offset: u64,
    total: u64,
    now: u64,
    chunks: Seq<SessionStep>,
)
    requires
        !s.is_active(),
        forall|i: int| 0 <= i < chunks.len() ==> #[trigger] chunks[i] is Chunk,
        resume_offset + chunk_bytes(chunks) <= u64::MAX,
    ensures
        s.after_start(temp_path, resume_offset, now).after_size_probed(total, now).after_all(
            chunks,
        ).downloaded == resume_offset + chunk_bytes(chunks),
{
    lemma_chunks_add_up(
        s.after_start(temp_path, resume_offset, now).after_size_probed(total, now),
        chunks,
    );
}

/// A cancel during a transfer, streaming or paused, ends it at the next
/// checkpoint: the worker is told to abort and to report the cancellation,
/// and the session is `Canceled` and has let go of the temporary file.
pub proof fn lemma_cancel_ends_transfer(s: SessionState)
    requires
        s.is_transferring(),
    ensures
        s.with_cancel().directive() == Some(Directive::Abort(ProgressEvent::Canceled)),
        s.with_cancel().after_checkpoint().stage is Canceled,
        s.with_cancel().after_checkpoint().temp_path is None,
        s.with_cancel().after_checkpoint().samples.len() == 0,
        s.with_cancel().after_checkpoint().downloaded == s.downloaded,
{
}

/// A paused transfer waits for as long as it stays paused, and reads again
/// once resumed.
pub proof fn lemma_pause_holds_until_resumed(s: SessionState)
    requires
        s.is_transferring(),
        !s.canceled,
    ensures
        s.with_paused(true).directive() == Some(Directive::Wait(s.paused_event())),
        s.with_paused(true).after_checkpoint().stage is Paused,
        s.with_paused(true).after_checkpoint().after_checkpoint().stage is Paused,
        s.with_paused(true).after_checkpoint().with_paused(false).directive() == Some(
            Directive::Read,
        ),
        s.with_paused(true).after_checkpoint().with_paused(false).after_checkpoint().stage
            is Streaming,
{
}

} // verus!
