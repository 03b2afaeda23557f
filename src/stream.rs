use vstd::prelude::*;

use crate::batch::RecordBatch;

verus! {

/// Control signals carried between processors.
#[derive(Debug, Clone, Copy, PartialEq, Eq, Structural)]
pub enum ControlSignal {
    StreamStart,
    StreamEnd,
    Flush,
    Backpressure,
    Resume,
}

/// An error travelling on a stream, with the processor that raised it and
/// when (milliseconds since the epoch).
#[derive(Debug)]
pub struct StreamError {
    pub message: String,
    pub source_name: Option<String>,
    pub timestamp_ms: Option<u64>,
}

/// The unit that flows on every channel between processors.
#[derive(Debug)]
pub enum StreamData {
    Data(RecordBatch),
    Control(ControlSignal),
    Error(StreamError),
}

/// Whether this envelope ends the stream.
pub fn is_stop_signal(stream_data: &StreamData) -> (r: bool)
    ensures
        r == (*stream_data == StreamData::Control(ControlSignal::StreamEnd)),
{
    match stream_data {
        StreamData::Control(ControlSignal::StreamEnd) => true,
        _ => false,
    }
}

/// An error envelope raised by `processor_name` at `timestamp_ms`.
pub fn create_stream_error(message: String, processor_name: &str, timestamp_ms: u64) -> (r: StreamData)
    ensures
        r is Error,
        r->Error_0.message == message,
        r->Error_0.source_name is Some,
        r->Error_0.source_name->Some_0@ == processor_name@,
        r->Error_0.timestamp_ms == Some(timestamp_ms),
{
    StreamData::Error(
        StreamError {
            message,
            source_name: Some(processor_name.to_string()),
            timestamp_ms: Some(timestamp_ms),
        },
    )
}

/// Why receiving from an input channel failed.
#[derive(Debug, Clone, Copy, PartialEq, Eq, Structural)]
pub enum ReceiveError {
    /// The receiver fell this many messages behind.
    Lagged(u64),
    /// Every sender is gone.
    Closed,
}

/// A lagging receiver asks its producers to slow down; a closed input ends
/// its stream.
pub fn handle_receive_error(error: ReceiveError) -> (r: ControlSignal)
    ensures
        error is Lagged ==> r == ControlSignal::Backpressure,
        error is Closed ==> r == ControlSignal::StreamEnd,
{
    match error {
        ReceiveError::Lagged(_) => ControlSignal::Backpressure,
        ReceiveError::Closed => ControlSignal::StreamEnd,
    }
}

pub const BASE_CHANNEL_CAPACITY: usize = 1024;

pub const PER_DOWNSTREAM_CAPACITY: usize = 256;

/// Capacity of an output channel: a base plus a share per downstream
/// reader; none when that does not fit in `usize`.
pub fn result_channel_capacity(downstream_count: usize) -> (r: Option<usize>)
    ensures
        BASE_CHANNEL_CAPACITY + downstream_count * PER_DOWNSTREAM_CAPACITY <= usize::MAX ==> r == Some(
            (BASE_CHANNEL_CAPACITY + downstream_count * PER_DOWNSTREAM_CAPACITY) as usize,
        ),
        BASE_CHANNEL_CAPACITY + downstream_count * PER_DOWNSTREAM_CAPACITY > usize::MAX ==> r is None,
{
    match downstream_count.checked_mul(PER_DOWNSTREAM_CAPACITY) {
        Some(extra) => BASE_CHANNEL_CAPACITY.checked_add(extra),
        None => None,
    }
}

/// Lifecycle of a processor.
#[derive(Debug, Clone, Copy, PartialEq, Eq, Structural)]
pub enum ProcessorPhase {
    Idle,
    Running,
    Draining,
    Terminated,
}

/// What arrived on one input of a processor.
#[derive(Debug, Clone, Copy, PartialEq, Eq, Structural)]
pub enum InputEvent {
    Data,
    Error,
    Control(ControlSignal),
}

/// What a processor puts on its output, by kind.
#[derive(Debug, Clone, Copy, PartialEq, Eq, Structural)]
pub enum OutputKind {
    Start,
    Payload,
    Signal(ControlSignal),
    End,
}

/// What the processor loop does in answer to one input event.
#[derive(Debug, Clone, Copy, PartialEq, Eq, Structural)]
pub enum Action {
    /// Send `StreamStart`.
    EmitStart,
    /// Process the data or error envelope and send what comes of it.
    Process,
    /// Send this control signal on.
    ForwardSignal(ControlSignal),
    /// Stop receiving data from the inputs until `Resume`.
    Pause,
    /// Receive from the inputs again.
    Resume,
    /// Send `StreamEnd` and stop.
    EmitEnd,
}

/// The output kind an action puts on the stream, if any.
pub open spec fn action_output(a: Action) -> Option<OutputKind> {
    match a {
        Action::EmitStart => Some(OutputKind::Start),
        Action::Process => Some(OutputKind::Payload),
        Action::ForwardSignal(s) => Some(OutputKind::Signal(s)),
        Action::EmitEnd => Some(OutputKind::End),
        _ => None,
    }
}

pub open spec fn outputs_of(actions: Seq<Action>) -> Seq<OutputKind>
    decreases actions.len(),
{
    if actions.len() == 0 {
        Seq::empty()
    } else {
        let p = outputs_of(actions.drop_last());
        match action_output(actions.last()) {
            Some(o) => p.push(o),
            None => p,
        }
    }
}

/// What a running processor does with an event, after any `StreamStart`:
/// data and errors are processed; Flush is forwarded; Backpressure and
/// Resume pause or resume the inputs and are forwarded; an upstream
/// `StreamStart` is absorbed; `StreamEnd` ends the output once every input
/// has ended.
pub open spec fn reaction(event: InputEvent, all_ended: bool) -> Seq<Action> {
    match event {
        InputEvent::Data | InputEvent::Error => seq![Action::Process],
        InputEvent::Control(ControlSignal::StreamStart) => Seq::empty(),
        InputEvent::Control(ControlSignal::StreamEnd) => if all_ended {
            seq![Action::EmitEnd]
        } else {
            Seq::empty()
        },
        InputEvent::Control(ControlSignal::Flush) => seq![Action::ForwardSignal(ControlSignal::Flush)],
        InputEvent::Control(ControlSignal::Backpressure) => seq![
            Action::Pause,
            Action::ForwardSignal(ControlSignal::Backpressure),
        ],
        InputEvent::Control(ControlSignal::Resume) => seq![
            Action::Resume,
            Action::ForwardSignal(ControlSignal::Resume),
        ],
    }
}

/// The control state of one processor with a fixed number of inputs.
pub struct ProcessorControl {
    pub phase: ProcessorPhase,
    pub paused: bool,
    pub input_ended: Vec<bool>,
    /// Everything emitted so far, by kind.
    pub log: Ghost<Seq<OutputKind>>,
}

pub open spec fn count_kind(s: Seq<OutputKind>, k: OutputKind) -> nat
    decreases s.len(),
{
    if s.len() == 0 {
        0
    } else {
        count_kind(s.drop_last(), k) + if s.last() == k {
            1nat
        } else {
            0nat
        }
    }
}

/// A well-formed output: `StreamStart` first and only there, and
/// `StreamEnd`, once emitted, the single last envelope.
pub open spec fn output_disciplined(log: Seq<OutputKind>) -> bool {
    &&& log.len() > 0 ==> log[0] == OutputKind::Start
    &&& count_kind(log, OutputKind::Start) <= 1
    &&& count_kind(log, OutputKind::End) <= 1
    &&& forall|i: int| 0 <= i < log.len() - 1 ==> log[i] != OutputKind::End
}

pub open spec fn all_true(s: Seq<bool>) -> bool {
    forall|i: int| 0 <= i < s.len() ==> #[trigger] s[i]
}

pub open spec fn opt_seq(o: Option<OutputKind>) -> Seq<OutputKind> {
    match o {
        Some(k) => seq![k],
        None => Seq::empty(),
    }
}

proof fn lemma_outputs_push(actions: Seq<Action>, a: Action)
    ensures
        outputs_of(actions.push(a)) == outputs_of(actions) + opt_seq(action_output(a)),
{
    assert(actions.push(a).drop_last() =~= actions);
    assert(actions.push(a).last() == a);
    match action_output(a) {
        Some(k) => assert(outputs_of(actions).push(k) =~= outputs_of(actions) + seq![k]),
        None => assert(outputs_of(actions) =~= outputs_of(actions) + Seq::<OutputKind>::empty()),
    }
}

proof fn lemma_count_push(s: Seq<OutputKind>, o: OutputKind, k: OutputKind)
    ensures
        count_kind(s.push(o), k) == count_kind(s, k) + if o == k {
            1nat
        } else {
            0nat
        },
{
    assert(s.push(o).drop_last() =~= s);
}

proof fn lemma_count_zero(s: Seq<OutputKind>, k: OutputKind)
    requires
        forall|i: int| 0 <= i < s.len() ==> s[i] != k,
    ensures
        count_kind(s, k) == 0,
    decreases s.len(),
{
    if s.len() > 0 {
        lemma_count_zero(s.drop_last(), k);
    }
}

/// Appending anything but `StreamStart` to a started output with no
/// `StreamEnd` yet keeps it well-formed.
proof fn lemma_disciplined_push(log: Seq<OutputKind>, o: OutputKind)
    requires
        output_disciplined(log),
        log.len() > 0,
        o != OutputKind::Start,
        forall|i: int| 0 <= i < log.len() ==> log[i] != OutputKind::End,
    ensures
        output_disciplined(log.push(o)),
        o != OutputKind::End ==> forall|i: int| 0 <= i < log.push(o).len() ==> log.push(o)[i] != OutputKind::End,
{
    lemma_count_push(log, o, OutputKind::Start);
    lemma_count_push(log, o, OutputKind::End);
    lemma_count_zero(log, OutputKind::End);
    assert(log.push(o)[0] == log[0]);
    assert forall|i: int| 0 <= i < log.push(o).len() - 1 implies log.push(o)[i] != OutputKind::End by {
        assert(log.push(o)[i] == log[i]);
    }
    if o != OutputKind::End {
        assert forall|i: int| 0 <= i < log.push(o).len() implies log.push(o)[i] != OutputKind::End by {
            if i < log.len() {
                assert(log.push(o)[i] == log[i]);
            }
        }
    }
}

impl ProcessorControl {
    /// The phase follows the log: idle before anything is emitted, and
    /// terminated exactly when `StreamEnd` has been emitted, which happens
    /// when every input has ended.
    pub open spec fn wf(&self) -> bool {
        &&& output_disciplined(self.log@)
        &&& (self.phase is Idle <==> self.log@.len() == 0)
        &&& !(self.phase is Draining)
        &&& (self.phase is Terminated <==> (self.log@.len() > 0 && self.log@.last() == OutputKind::End))
        &&& !(self.phase is Terminated) ==> forall|i: int|
            0 <= i < self.log@.len() ==> self.log@[i] != OutputKind::End
        &&& !(self.phase is Terminated) ==> !all_true(self.input_ended@)
        &&& self.input_ended@.len() > 0
    }

    pub fn new(inputs: usize) -> (r: ProcessorControl)
        requires
            inputs > 0,
        ensures
            r.wf(),
            r.phase == ProcessorPhase::Idle,
            !r.paused,
            r.input_ended@ == Seq::new(inputs as nat, |i: int| false),
            r.log@ == Seq::<OutputKind>::empty(),
    {
        let mut input_ended: Vec<bool> = Vec::new();
        let mut i: usize = 0;
        while i < inputs
            invariant
                0 <= i <= inputs,
                input_ended@ == Seq::new(i as nat, |j: int| false),
            decreases inputs - i,
        {
            input_ended.push(false);
            proof {
                assert(input_ended@ =~= Seq::new((i + 1) as nat, |j: int| false));
            }
            i += 1;
        }
        assert(!input_ended@[0]);
        ProcessorControl {
            phase: ProcessorPhase::Idle,
            paused: false,
            input_ended,
            log: Ghost(Seq::empty()),
        }
    }

    fn act(&mut self, actions: &mut Vec<Action>, a: Action)
        ensures
            final(actions)@ == old(actions)@.push(a),
            outputs_of(final(actions)@) == outputs_of(old(actions)@) + opt_seq(action_output(a)),
            final(self).log@ == old(self).log@ + opt_seq(action_output(a)),
            action_output(a) is None ==> final(self).log@ == old(self).log@,
            action_output(a) is Some ==> final(self).log@ == old(self).log@.push(action_output(a)->Some_0),
            final(self).phase == old(self).phase,
            final(self).paused == old(self).paused,
            final(self).input_ended == old(self).input_ended,
    {
        proof {
            lemma_outputs_push(actions@, a);
        }
        actions.push(a);
        proof {
            match action_output(a) {
                Some(k) => assert(self.log@ + opt_seq(action_output(a)) =~= self.log@.push(k)),
                None => assert(self.log@ + opt_seq(action_output(a)) =~= self.log@),
            }
        }
        self.log = Ghost(self.log@ + opt_seq(action_output(a)));
    }

    /// Decides what to do with one event from input `input`: `StreamStart`
    /// first when the processor is idle, then `reaction` to the event.
    /// `StreamEnd` on every input makes it emit `StreamEnd` and terminate;
    /// after that nothing more is emitted. A repeated `StreamEnd` on an
    /// input changes nothing.
    pub fn on_event(&mut self, input: usize, event: InputEvent) -> (actions: Vec<Action>)
        requires
            old(self).wf(),
            input < old(self).input_ended@.len(),
        ensures
            final(self).wf(),
            final(self).log@ == old(self).log@ + outputs_of(actions@),
            final(self).input_ended@.len() == old(self).input_ended@.len(),
            old(self).phase is Terminated ==> actions@.len() == 0 && final(self).phase is Terminated
                && final(self).input_ended@ == old(self).input_ended@,
            !(old(self).phase is Terminated) && event == InputEvent::Control(ControlSignal::StreamEnd)
                ==> final(self).input_ended@ == old(self).input_ended@.update(input as int, true) && (
            final(self).phase is Terminated <==> all_true(final(self).input_ended@)),
            old(self).input_ended@[input as int] && event == InputEvent::Control(ControlSignal::StreamEnd)
                && old(self).phase is Running ==> actions@.len() == 0 && final(self).phase
                == old(self).phase && final(self).input_ended@ == old(self).input_ended@,
            event != InputEvent::Control(ControlSignal::StreamEnd) ==> final(self).input_ended@ == old(
                self,
            ).input_ended@,
            !(old(self).phase is Terminated) ==> actions@ == (if old(self).phase is Idle {
                seq![Action::EmitStart]
            } else {
                Seq::<Action>::empty()
            }) + reaction(event, all_true(final(self).input_ended@)),
    {
        let mut actions: Vec<Action> = Vec::new();
        if matches!(self.phase, ProcessorPhase::Terminated) {
            assert(outputs_of(actions@) =~= Seq::empty());
            assert(self.log@ + Seq::<OutputKind>::empty() =~= self.log@);
            return actions;
        }
        let ghost log0 = self.log@;
        assert(outputs_of(actions@) =~= Seq::empty());
        assert(log0 + Seq::<OutputKind>::empty() =~= log0);
        if matches!(self.phase, ProcessorPhase::Idle) {
            self.act(&mut actions, Action::EmitStart);
            self.phase = ProcessorPhase::Running;
            proof {
                assert(self.log@ =~= seq![OutputKind::Start]);
                assert(Seq::<OutputKind>::empty().push(OutputKind::Start) =~= seq![OutputKind::Start]);
                lemma_count_push(Seq::empty(), OutputKind::Start, OutputKind::Start);
                lemma_count_push(Seq::empty(), OutputKind::Start, OutputKind::End);
                assert(log0 + outputs_of(actions@) =~= self.log@);
            }
        }
        let ghost log1 = self.log@;
        let ghost prefix = actions@;
        assert(prefix == (if old(self).phase is Idle {
            seq![Action::EmitStart]
        } else {
            Seq::<Action>::empty()
        }));
        assert(self.log@ == log0 + outputs_of(actions@));
        assert(log1.len() > 0);
        match event {
            InputEvent::Data | InputEvent::Error => {
                proof { lemma_disciplined_push(log1, OutputKind::Payload); }
                self.act(&mut actions, Action::Process);
            },
            InputEvent::Control(ControlSignal::StreamStart) => {},
            InputEvent::Control(ControlSignal::StreamEnd) => {
                let ghost before = self.input_ended@;
                self.input_ended.set(input, true);
                let mut all = true;
                let mut i: usize = 0;
                while i < self.input_ended.len()
                    invariant
                        0 <= i <= self.input_ended@.len(),
                        all == forall|j: int| 0 <= j < i ==> #[trigger] self.input_ended@[j],
                    decreases self.input_ended@.len() - i,
                {
                    if !self.input_ended[i] {
                        all = false;
                    }
                    i += 1;
                }
                proof {
                    if before[input as int] {
                        assert(self.input_ended@ =~= before);
                    }
                }
                if all {
                    proof { lemma_disciplined_push(log1, OutputKind::End); }
                    self.act(&mut actions, Action::EmitEnd);
                    self.phase = ProcessorPhase::Terminated;
                }
            },
            InputEvent::Control(ControlSignal::Backpressure) => {
                self.paused = true;
                self.act(&mut actions, Action::Pause);
                proof { lemma_disciplined_push(log1, OutputKind::Signal(ControlSignal::Backpressure)); }
                self.act(&mut actions, Action::ForwardSignal(ControlSignal::Backpressure));
            },
            InputEvent::Control(ControlSignal::Resume) => {
                self.paused = false;
                self.act(&mut actions, Action::Resume);
                proof { lemma_disciplined_push(log1, OutputKind::Signal(ControlSignal::Resume)); }
                self.act(&mut actions, Action::ForwardSignal(ControlSignal::Resume));
            },
            InputEvent::Control(ControlSignal::Flush) => {
                proof { lemma_disciplined_push(log1, OutputKind::Signal(ControlSignal::Flush)); }
                self.act(&mut actions, Action::ForwardSignal(ControlSignal::Flush));
            },
        }
        proof {
            assert(self.log@ =~= log0 + outputs_of(actions@));
            assert(actions@ =~= prefix + reaction(event, all_true(self.input_ended@)));
        }
        actions
    }
}

/// What a processor has emitted is always well-formed: `StreamStart`
/// first and only once, at most one `StreamEnd`, and nothing after it; once
/// terminated, the output ends with that `StreamEnd`.
pub proof fn lemma_control_discipline(pc: &ProcessorControl)
    requires
        pc.wf(),
    ensures
        output_disciplined(pc.log@),
        pc.phase is Terminated ==> pc.log@.last() == OutputKind::End && count_kind(
            pc.log@,
            OutputKind::End,
        ) == 1,
        pc.log@.len() > 0 ==> pc.log@[0] == OutputKind::Start && count_kind(pc.log@, OutputKind::Start)
            == 1,
{
    if pc.log@.len() > 0 {
        lemma_count_at_least_one(pc.log@, 0);
    }
    if pc.phase is Terminated {
        lemma_count_at_least_one(pc.log@, pc.log@.len() - 1);
    }
}

proof fn lemma_count_at_least_one(s: Seq<OutputKind>, i: int)
    requires
        0 <= i < s.len(),
    ensures
        count_kind(s, s[i]) >= 1,
    decreases s.len(),
{
    if i < s.len() - 1 {
        lemma_count_at_least_one(s.drop_last(), i);
    }
}

/// Counts reported about a running pipeline.
#[derive(Debug, Clone, Copy, PartialEq, Eq, Structural)]
pub struct PipelineStats {
    pub control_signals_sent: usize,
    pub results_available: usize,
    pub is_processing_active: bool,
}

/// Statistics from the queue lengths of a pipeline: signals waiting on its
/// control channel, results waiting for the reader, and envelopes waiting
/// inside the processing chain (processing is active while any wait there).
pub fn pipeline_stats(control_pending: usize, results_pending: usize, chain_pending: usize) -> (r: PipelineStats)
    ensures
        r.control_signals_sent == control_pending,
        r.results_available == results_pending,
        r.is_processing_active == (chain_pending > 0),
{
    PipelineStats {
        control_signals_sent: control_pending,
        results_available: results_pending,
        is_processing_active: chain_pending > 0,
    }
}

} // verus!
