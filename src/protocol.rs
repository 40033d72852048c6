//! The handshake that hands a packet to the console's interrupt handler.
//!
//! The console polls a shared command buffer once per frame. The handshake
//! saves what the buffer holds, writes the packet, waits until the handler
//! clears the header byte, writes the saved bytes back and reads them again
//! to check that nothing was lost. The decisions are made here; the caller
//! performs each returned action on the device and reports what came back.
use vstd::prelude::*;

verus! {

/// Where the handshake stands.
#[derive(Debug, Clone, Copy, PartialEq, Eq, Structural)]
pub enum Phase {
    /// Waiting for the buffer's current bytes.
    Capture,
    /// Waiting for the packet write to complete.
    Arming,
    /// Waiting for the handler to clear the header byte.
    Polling,
    /// Waiting for the saved bytes to be written back.
    Restoring,
    /// Waiting for the buffer to be read back for the final check.
    Verifying,
    /// The buffer holds its saved bytes again.
    Finished,
    /// The handshake stopped on an error.
    Failed,
}

/// Why the handshake stopped.
#[derive(Debug, Clone, Copy, PartialEq, Eq, Structural)]
pub enum InjectError {
    /// The buffer read back after the restore differs from the saved bytes.
    IntegrityMismatch,
    /// A report that does not answer the action last asked for.
    UnexpectedEvent,
}

/// What the device reported after an action.
#[derive(Debug, Clone)]
pub enum Event {
    /// The command buffer's bytes.
    CommandRead(Vec<u8>),
    /// A write to the command buffer completed.
    Written,
    /// The command buffer's header byte.
    HeaderRead(u8),
}

/// What the caller is to do next.
#[derive(Debug, Clone)]
pub enum Action {
    /// Read the whole command buffer.
    ReadCommand,
    /// Write these bytes into the command buffer.
    WriteCommand(Vec<u8>),
    /// Read the command buffer's header byte.
    ReadHeader,
    /// Nothing more: the handshake completed.
    Done,
    /// Nothing more: the handshake failed.
    Fail(InjectError),
}

/// The mathematical form of an `Event`.
pub enum EventView {
    CommandRead(Seq<u8>),
    Written,
    HeaderRead(u8),
}

/// The mathematical form of an `Action`.
pub enum ActionView {
    ReadCommand,
    WriteCommand(Seq<u8>),
    ReadHeader,
    Done,
    Fail(InjectError),
}

impl View for Event {
    type V = EventView;

    open spec fn view(&self) -> EventView {
        match self {
            Event::CommandRead(b) => EventView::CommandRead(b@),
            Event::Written => EventView::Written,
            Event::HeaderRead(h) => EventView::HeaderRead(*h),
        }
    }
}

impl View for Action {
    type V = ActionView;

    open spec fn view(&self) -> ActionView {
        match self {
            Action::ReadCommand => ActionView::ReadCommand,
            Action::WriteCommand(b) => ActionView::WriteCommand(b@),
            Action::ReadHeader => ActionView::ReadHeader,
            Action::Done => ActionView::Done,
            Action::Fail(e) => ActionView::Fail(*e),
        }
    }
}

/// The mathematical form of an `Injection`.
pub struct InjectionView {
    pub phase: Phase,
    pub packet: Seq<u8>,
    pub original: Seq<u8>,
}

/// One handshake in progress.
pub struct Injection {
    phase: Phase,
    packet: Vec<u8>,
    original: Vec<u8>,
}

impl View for Injection {
    type V = InjectionView;

    closed spec fn view(&self) -> InjectionView {
        InjectionView { phase: self.phase, packet: self.packet@, original: self.original@ }
    }
}

/// The state a handshake starts in, for a packet.
pub open spec fn initial(packet: Seq<u8>) -> InjectionView {
    InjectionView { phase: Phase::Capture, packet, original: Seq::empty() }
}

/// The next state and action after `e` arrives in state `s`.
pub open spec fn next(s: InjectionView, e: EventView) -> (InjectionView, ActionView) {
    let failed = InjectionView { phase: Phase::Failed, ..s };
    match (s.phase, e) {
        (Phase::Capture, EventView::CommandRead(bytes)) => (
            InjectionView { phase: Phase::Arming, original: bytes, ..s },
            ActionView::WriteCommand(s.packet),
        ),
        (Phase::Arming, EventView::Written) => (
            InjectionView { phase: Phase::Polling, ..s },
            ActionView::ReadHeader,
        ),
        (Phase::Polling, EventView::HeaderRead(h)) => if h == 0 {
            (InjectionView { phase: Phase::Restoring, ..s }, ActionView::WriteCommand(s.original))
        } else {
            (s, ActionView::ReadHeader)
        },
        (Phase::Restoring, EventView::Written) => (
            InjectionView { phase: Phase::Verifying, ..s },
            ActionView::ReadCommand,
        ),
        (Phase::Verifying, EventView::CommandRead(bytes)) => if bytes == s.original {
            (InjectionView { phase: Phase::Finished, ..s }, ActionView::Done)
        } else {
            (failed, ActionView::Fail(InjectError::IntegrityMismatch))
        },
        _ => (failed, ActionView::Fail(InjectError::UnexpectedEvent)),
    }
}

/// The state reached and the actions asked for when `events` arrive in
/// order, starting in state `s`.
pub open spec fn run(s: InjectionView, events: Seq<EventView>) -> (InjectionView, Seq<ActionView>)
    decreases events.len(),
{
    if events.len() == 0 {
        (s, Seq::empty())
    } else {
        let (mid, acts) = run(s, events.drop_last());
        let (after, a) = next(mid, events.last());
        (after, acts.push(a))
    }
}

proof fn lemma_run_append(s: InjectionView, a: Seq<EventView>, b: Seq<EventView>)
    ensures
        run(s, a + b) == (run(run(s, a).0, b).0, run(s, a).1 + run(run(s, a).0, b).1),
    decreases b.len(),
{
    if b.len() == 0 {
        assert(a + b =~= a);
        assert(run(s, a).1 + Seq::<ActionView>::empty() =~= run(s, a).1);
    } else {
        assert((a + b).drop_last() =~= a + b.drop_last());
        lemma_run_append(s, a, b.drop_last());
        let mid = run(s, a).0;
        assert(run(s, a).1 + run(mid, b).1 =~= (run(s, a).1 + run(mid, b.drop_last()).1).push(
            next(run(mid, b.drop_last()).0, b.last()).1,
        ));
    }
}

/// Header bytes the handler reports while it has not yet run the packet.
pub open spec fn header_reads(headers: Seq<u8>) -> Seq<EventView> {
    headers.map_values(|h: u8| EventView::HeaderRead(h))
}

proof fn lemma_run_polls(s: InjectionView, headers: Seq<u8>)
    requires
        s.phase == Phase::Polling,
        forall|k: int| 0 <= k < headers.len() ==> headers[k] != 0,
    ensures
        run(s, header_reads(headers)) == (
            s,
            Seq::new(headers.len(), |k: int| ActionView::ReadHeader),
        ),
    decreases headers.len(),
{
    if headers.len() == 0 {
        assert(header_reads(headers) =~= Seq::<EventView>::empty());
        assert(Seq::new(0, |k: int| ActionView::ReadHeader) =~= Seq::<ActionView>::empty());
    } else {
        let front = headers.drop_last();
        assert(header_reads(headers).drop_last() =~= header_reads(front));
        lemma_run_polls(s, front);
        assert(Seq::new(headers.len(), |k: int| ActionView::ReadHeader) =~= Seq::new(
            front.len(),
            |k: int| ActionView::ReadHeader,
        ).push(ActionView::ReadHeader));
    }
}

/// A handshake whose handler clears the header only after it was seen
/// non-zero `headers.len()` times asks for exactly that many further header
/// reads, then writes the saved bytes back unchanged, reads them again, and
/// finishes.
pub proof fn lemma_handshake_waits_then_restores(
    packet: Seq<u8>,
    original: Seq<u8>,
    headers: Seq<u8>,
)
    requires
        forall|k: int| 0 <= k < headers.len() ==> headers[k] != 0,
    ensures
        run(
            initial(packet),
            seq![EventView::CommandRead(original), EventView::Written] + header_reads(headers)
                + seq![
                EventView::HeaderRead(0),
                EventView::Written,
                EventView::CommandRead(original),
            ],
        ) == (
            InjectionView { phase: Phase::Finished, packet, original },
            seq![ActionView::WriteCommand(packet), ActionView::ReadHeader] + Seq::new(
                headers.len(),
                |k: int| ActionView::ReadHeader,
            ) + seq![ActionView::WriteCommand(original), ActionView::ReadCommand, ActionView::Done],
        ),
{
    let start = seq![EventView::CommandRead(original), EventView::Written];
    let polls = header_reads(headers);
    let finish = seq![
        EventView::HeaderRead(0),
        EventView::Written,
        EventView::CommandRead(original),
    ];
    let s0 = initial(packet);
    let polling = InjectionView { phase: Phase::Polling, packet, original };
    assert(start.drop_last().drop_last() =~= Seq::<EventView>::empty());
    assert(start.drop_last() =~= seq![EventView::CommandRead(original)]);
    let opening = seq![ActionView::WriteCommand(packet), ActionView::ReadHeader];
    assert(run(s0, start) == (polling, opening)) by {
        assert(run(s0, start.drop_last().drop_last()) == (s0, Seq::<ActionView>::empty()));
        assert(run(s0, start.drop_last()).1 =~= seq![ActionView::WriteCommand(packet)]);
        assert(run(s0, start).1 =~= seq![ActionView::WriteCommand(packet), ActionView::ReadHeader]);
    }
    lemma_run_polls(polling, headers);
    assert(finish.drop_last().drop_last().drop_last() =~= Seq::<EventView>::empty());
    assert(finish.drop_last().drop_last() =~= seq![EventView::HeaderRead(0)]);
    assert(finish.drop_last() =~= seq![EventView::HeaderRead(0), EventView::Written]);
    let f1 = finish.drop_last().drop_last();
    let f2 = finish.drop_last();
    assert(run(polling, f1.drop_last()) == (polling, Seq::<ActionView>::empty()));
    assert(run(polling, f1).0 == InjectionView { phase: Phase::Restoring, packet, original });
    assert(run(polling, f1).1 =~= seq![ActionView::WriteCommand(original)]);
    assert(run(polling, f2).0 == InjectionView { phase: Phase::Verifying, packet, original });
    assert(run(polling, f2).1 =~= seq![
        ActionView::WriteCommand(original),
        ActionView::ReadCommand,
    ]);
    assert(run(polling, finish).1 =~= seq![
        ActionView::WriteCommand(original),
        ActionView::ReadCommand,
        ActionView::Done,
    ]);
    assert(run(polling, finish).0 == InjectionView { phase: Phase::Finished, packet, original });
    lemma_run_append(s0, start, polls);
    lemma_run_append(s0, start + polls, finish);
    assert(run(s0, start + polls).0 == polling);
}

/// Whether two byte strings are equal.
fn same_bytes(a: &[u8], b: &[u8]) -> (r: bool)
    ensures
        r == (a@ == b@),
{
    if a.len() != b.len() {
        return false;
    }
    let mut k: usize = 0;
    while k < a.len()
        invariant
            a@.len() == b@.len(),
            k <= a@.len(),
            forall|j: int| 0 <= j < k ==> a@[j] == b@[j],
        decreases a@.len() - k,
    {
        if a[k] != b[k] {
            return false;
        }
        k = k + 1;
    }
    assert(a@ =~= b@);
    true
}

impl Injection {
    /// Starts a handshake for `packet`; the first action reads the buffer.
    pub fn begin(packet: Vec<u8>) -> (r: (Injection, Action))
        ensures
            r.0@ == initial(packet@),
            r.1@ == ActionView::ReadCommand,
    {
        (Injection { phase: Phase::Capture, packet, original: Vec::new() }, Action::ReadCommand)
    }

    /// Where the handshake stands.
    pub fn phase(&self) -> (r: Phase)
        ensures
            r == self@.phase,
    {
        self.phase
    }

    /// The buffer bytes saved before the packet was written.
    pub fn original(&self) -> (r: &Vec<u8>)
        ensures
            r@ == self@.original,
    {
        &self.original
    }

    /// Takes in what the device reported and says what to do next.
    pub fn step(&mut self, event: Event) -> (a: Action)
        ensures
            (final(self)@, a@) == next(old(self)@, event@),
    {
        match (self.phase, event) {
            (Phase::Capture, Event::CommandRead(bytes)) => {
                self.original = bytes;
                self.phase = Phase::Arming;
                Action::WriteCommand(self.packet.clone())
            },
            (Phase::Arming, Event::Written) => {
                self.phase = Phase::Polling;
                Action::ReadHeader
            },
            (Phase::Polling, Event::HeaderRead(h)) => {
                if h == 0 {
                    self.phase = Phase::Restoring;
                    Action::WriteCommand(self.original.clone())
                } else {
                    Action::ReadHeader
                }
            },
            (Phase::Restoring, Event::Written) => {
                self.phase = Phase::Verifying;
                Action::ReadCommand
            },
            (Phase::Verifying, Event::CommandRead(bytes)) => {
                if same_bytes(bytes.as_slice(), self.original.as_slice()) {
                    self.phase = Phase::Finished;
                    Action::Done
                } else {
                    self.phase = Phase::Failed;
                    Action::Fail(InjectError::IntegrityMismatch)
                }
            },
            _ => {
                self.phase = Phase::Failed;
                Action::Fail(InjectError::UnexpectedEvent)
            },
        }
    }
}

} // verus!
