use vstd::prelude::*;

verus! {

/// How often, in polls of the sample channel, the writer reports the
/// channel's depth when asked to be verbose.
pub const REPORT_EVERY: u64 = 1000;

/// The sample-file format of a session: mono, 32-bit float samples at the
/// host's rate.
#[derive(Clone, Copy, Debug, PartialEq, Eq, Structural)]
pub struct WavFormat {
    pub channels: u16,
    pub sample_rate: u32,
    pub bits_per_sample: u16,
    pub float_samples: bool,
}

/// The format of every file of a session recorded at `sample_rate`.
pub fn session_wav_format(sample_rate: u32) -> (r: WavFormat)
    ensures
        r == (WavFormat { channels: 1, sample_rate, bits_per_sample: 32, float_samples: true }),
{
    WavFormat { channels: 1, sample_rate, bits_per_sample: 32, float_samples: true }
}

/// The index of the first file whose source port is `source`, if any.
pub fn file_index_for(sources: &Vec<String>, source: &str) -> (r: Option<usize>)
    ensures
        r is None <==> !sources.deep_view().contains(source@),
        r matches Some(i) ==> i < sources.len() && sources.deep_view()[i as int] == source@
            && forall|k: int| 0 <= k < i ==> sources.deep_view()[k] != source@,
{
    let mut i: usize = 0;
    while i < sources.len()
        invariant
            i <= sources.len(),
            forall|k: int| 0 <= k < i ==> sources.deep_view()[k] != source@,
        decreases sources.len() - i,
    {
        let name: &str = sources[i].as_str();
        if name.unicode_len() == source.unicode_len() && same_text(name, source) {
            assert(sources.deep_view()[i as int] == source@);
            return Some(i);
        }
        i = i + 1;
    }
    None
}

/// Whether two strings of the same length hold the same characters.
fn same_text(a: &str, b: &str) -> (r: bool)
    requires
        a@.len() == b@.len(),
    ensures
        r == (a@ == b@),
{
    let n = a.unicode_len();
    let mut i: usize = 0;
    while i < n
        invariant
            n == a@.len(),
            a@.len() == b@.len(),
            i <= n,
            forall|k: int| 0 <= k < i ==> a@[k] == b@[k],
        decreases n - i,
    {
        if a.get_char(i) != b.get_char(i) {
            return false;
        }
        i = i + 1;
    }
    assert(a@ =~= b@);
    true
}

/// What the writer does next.
#[derive(Clone, Copy, Debug, PartialEq, Eq, Structural)]
pub enum WriterAction {
    /// Poll the sample channel once, writing what comes to its file.
    Receive,
    /// Finalize the file at this index.
    Finalize(usize),
    /// Bundle the finalized files into the archive.
    Archive,
    /// The session is over.
    Done,
}

/// What one poll of the sample channel decided.
#[derive(Clone, Copy, Debug, PartialEq, Eq, Structural)]
pub struct PollOutcome {
    /// Report the channel's depth now.
    pub report: bool,
    /// Stop polling: the stop signal is set and the channel is empty.
    pub drained: bool,
}

/// The abstract state of a writer.
pub struct WriterView {
    pub n_files: nat,
    pub drained: bool,
    pub finalized: nat,
    pub archived: bool,
    pub polls: nat,
}

/// The decisions of the background writer of one session: poll until the
/// stop signal is seen with an empty channel, then finalize every file in
/// turn, then archive.
pub struct Writer {
    n_files: usize,
    drained: bool,
    finalized: usize,
    archived: bool,
    polls: u64,
}

impl View for Writer {
    type V = WriterView;

    closed spec fn view(&self) -> WriterView {
        WriterView {
            n_files: self.n_files as nat,
            drained: self.drained,
            finalized: self.finalized as nat,
            archived: self.archived,
            polls: self.polls as nat,
        }
    }
}

impl Writer {
    /// The writer's invariant: files are finalized only once the channel is
    /// drained, and the archive is made only once all of them are.
    pub open spec fn wf(&self) -> bool {
        &&& self@.finalized <= self@.n_files
        &&& self@.finalized > 0 ==> self@.drained
        &&& self@.archived ==> self@.drained && self@.finalized == self@.n_files
        &&& self@.polls < REPORT_EVERY
    }

    /// A writer for a session with `n_files` files.
    pub fn new(n_files: usize) -> (r: Writer)
        ensures
            r.wf(),
            r@ == (WriterView {
                n_files: n_files as nat,
                drained: false,
                finalized: 0,
                archived: false,
                polls: 0,
            }),
    {
        Writer { n_files, drained: false, finalized: 0, archived: false, polls: 0 }
    }

    /// What to do next.
    pub fn next_action(&self) -> (r: WriterAction)
        requires
            self.wf(),
        ensures
            r == WriterAction::Receive <==> !self@.drained,
            r matches WriterAction::Finalize(i) ==> self@.drained && i == self@.finalized && i
                < self@.n_files,
            r == WriterAction::Archive <==> (self@.drained && self@.finalized == self@.n_files
                && !self@.archived),
            r == WriterAction::Done <==> self@.archived,
            self@.drained && self@.finalized < self@.n_files ==> r == WriterAction::Finalize(
                self@.finalized as usize,
            ),
    {
        if !self.drained {
            WriterAction::Receive
        } else if self.finalized < self.n_files {
            WriterAction::Finalize(self.finalized)
        } else if !self.archived {
            WriterAction::Archive
        } else {
            WriterAction::Done
        }
    }

    /// Records one poll of the channel: `stop` is the stop signal as read
    /// after the poll, `queue_len` the number of chunks still waiting.
    pub fn after_poll(&mut self, verbose: bool, stop: bool, queue_len: usize) -> (r: PollOutcome)
        requires
            old(self).wf(),
            !old(self)@.drained,
        ensures
            final(self).wf(),
            r.report == (verbose && old(self)@.polls == 0),
            r.drained == (stop && queue_len == 0),
            final(self)@ == (WriterView {
                drained: r.drained,
                polls: ((old(self)@.polls + 1) % (REPORT_EVERY as nat)) as nat,
                ..old(self)@
            }),
    {
        let report = verbose && self.polls == 0;
        let drained = stop && queue_len == 0;
        self.polls = (self.polls + 1) % REPORT_EVERY;
        self.drained = drained;
        PollOutcome { report, drained }
    }

    /// Records that the file due for finalizing was finalized (or that its
    /// finalization failed, which does not hold back the others).
    pub fn file_finalized(&mut self)
        requires
            old(self).wf(),
            old(self)@.drained,
            old(self)@.finalized < old(self)@.n_files,
        ensures
            final(self).wf(),
            final(self)@ == (WriterView { finalized: old(self)@.finalized + 1, ..old(self)@ }),
    {
        self.finalized = self.finalized + 1;
    }

    /// Records that the archive step ran.
    pub fn archive_done(&mut self)
        requires
            old(self).wf(),
            old(self)@.drained,
            old(self)@.finalized == old(self)@.n_files,
        ensures
            final(self).wf(),
            final(self)@ == (WriterView { archived: true, ..old(self)@ }),
    {
        self.archived = true;
    }
}

/// The control code that the realtime callback hands back to the host.
#[derive(Clone, Copy, Debug, PartialEq, Eq, Structural)]
pub enum CycleControl {
    Continue,
    Quit,
}

/// The states of the realtime producer.
#[derive(Clone, Copy, Debug, PartialEq, Eq, Structural)]
pub enum ProducerPhase {
    Idle,
    Activated,
    Stopping,
    Deactivated,
}

/// The realtime producer's state machine. While activated it asks for one
/// chunk per binding each cycle, until it sees the stop signal.
#[derive(Clone, Copy, Debug, PartialEq, Eq, Structural)]
pub struct Producer {
    pub phase: ProducerPhase,
}

impl Producer {
    pub fn new() -> (r: Producer)
        ensures
            r.phase == ProducerPhase::Idle,
    {
        Producer { phase: ProducerPhase::Idle }
    }

    /// The callback is registered and the ports are connected.
    pub fn activate(&mut self)
        ensures
            old(self).phase == ProducerPhase::Idle ==> final(self).phase
                == ProducerPhase::Activated,
            old(self).phase != ProducerPhase::Idle ==> *final(self) == *old(self),
    {
        if self.phase == ProducerPhase::Idle {
            self.phase = ProducerPhase::Activated;
        }
    }

    /// One audio cycle, with the stop signal as read at its start. On
    /// `Continue` the caller enqueues one chunk per binding.
    pub fn on_cycle(&mut self, stop: bool) -> (r: CycleControl)
        ensures
            old(self).phase == ProducerPhase::Activated && !stop ==> r == CycleControl::Continue
                && *final(self) == *old(self),
            old(self).phase == ProducerPhase::Activated && stop ==> r == CycleControl::Quit
                && final(self).phase == ProducerPhase::Stopping,
            old(self).phase != ProducerPhase::Activated ==> r == CycleControl::Quit && *final(self)
                == *old(self),
    {
        match self.phase {
            ProducerPhase::Activated => {
                if stop {
                    self.phase = ProducerPhase::Stopping;
                    CycleControl::Quit
                } else {
                    CycleControl::Continue
                }
            },
            _ => CycleControl::Quit,
        }
    }

    /// The controller deactivated the realtime client.
    pub fn deactivate(&mut self)
        ensures
            final(self).phase == ProducerPhase::Deactivated,
    {
        self.phase = ProducerPhase::Deactivated;
    }
}

} // verus!
