//! Processes and the signals they have pending.

use vstd::prelude::*;

verus! {

/// The ID of a process; it is also its index in the process table.
pub type ProcessId = u32;

/// The ID of a user.
pub type UserId = u32;

/// The number of process slots.
pub const MAX_PROCESSES: usize = 1024;

/// A signal.
#[derive(Clone, Copy, Debug, PartialEq, Eq, Structural)]
pub enum Signal {
    /// The interrupt signal.
    Int,
}

impl Signal {
    /// The number of signals.
    pub const COUNT: usize = 1;

    /// The slot of the signal in a [`Signals`] table.
    pub fn index(self) -> (r: usize)
        ensures
            r < Signal::COUNT,
            r == signal_index(self),
    {
        match self {
            Signal::Int => 0,
        }
    }
}

/// The slot of `s` in a [`Signals`] table.
pub open spec fn signal_index(s: Signal) -> int {
    match s {
        Signal::Int => 0,
    }
}

/// Information about a received signal.
#[derive(Clone, Copy, Debug, PartialEq, Eq, Structural)]
pub struct ReceivedSignal {
    /// The process that sent the signal, or `None` when the kernel did.
    pub sent_by: Option<ProcessId>,
}

/// The signals a process has received and not yet handled, one slot per kind.
pub struct Signals {
    received: Vec<Option<ReceivedSignal>>,
}

impl View for Signals {
    type V = Seq<Option<ReceivedSignal>>;

    closed spec fn view(&self) -> Seq<Option<ReceivedSignal>> {
        self.received@
    }
}

impl Signals {
    /// No signal pending.
    pub fn new() -> (r: Self)
        ensures
            r@ == seq![None::<ReceivedSignal>],
    {
        let mut received: Vec<Option<ReceivedSignal>> = Vec::new();
        received.push(None);
        let r = Signals { received };
        assert(r@ =~= seq![None::<ReceivedSignal>]);
        r
    }

    /// Schedules `signal` for handling; returns `false`, changing nothing,
    /// when a signal of that kind is already pending.
    pub fn schedule(&mut self, signal: Signal, received_signal: ReceivedSignal) -> (r: bool)
        requires
            old(self)@.len() == Signal::COUNT,
        ensures
            final(self)@.len() == Signal::COUNT,
            r == (old(self)@[signal_index(signal)] is None),
            r ==> final(self)@ == old(self)@.update(signal_index(signal), Some(received_signal)),
            !r ==> final(self)@ == old(self)@,
    {
        let idx = signal.index();
        if self.received[idx].is_some() {
            return false;
        }
        self.received.set(idx, Some(received_signal));
        true
    }
}

/// A running process.
pub struct Process {
    /// The ID of the parent.
    pub parent: ProcessId,
    /// The signals the process has received.
    pub signals: Signals,
    /// The user that created the process.
    pub owner: UserId,
}

impl Process {
    /// Creates a process with no pending signal.
    pub fn new(parent: ProcessId, owner: UserId) -> (r: Self)
        ensures
            r.parent == parent,
            r.owner == owner,
            r.signals@ == seq![None::<ReceivedSignal>],
    {
        Process { parent, signals: Signals::new(), owner }
    }
}

/// The process table: [`MAX_PROCESSES`] slots indexed by process ID, and the
/// ID of the running process.
pub struct Processes {
    processes: Vec<Option<Process>>,
    current: ProcessId,
}

impl Processes {
    /// The number of slots.
    pub closed spec fn slot_count(&self) -> nat {
        self.processes@.len()
    }

    /// Whether slot `id` holds a process.
    pub closed spec fn occupied(&self, id: int) -> bool {
        self.processes@[id] is Some
    }

    /// The running process.
    pub closed spec fn current_spec(&self) -> ProcessId {
        self.current
    }

    /// A table whose only process is `init`, with ID 0, which is running.
    pub fn new(init: Process) -> (r: Self)
        ensures
            r.slot_count() == MAX_PROCESSES,
            r.current_spec() == 0,
            r.occupied(0),
            forall|i: int| 1 <= i < MAX_PROCESSES ==> !r.occupied(i),
    {
        let mut processes: Vec<Option<Process>> = Vec::new();
        processes.push(Some(init));
        let mut i: usize = 1;
        while i < MAX_PROCESSES
            invariant
                1 <= i <= MAX_PROCESSES,
                processes@.len() == i,
                processes@[0] is Some,
                forall|k: int| 1 <= k < i ==> processes@[k] is None,
            decreases MAX_PROCESSES - i,
        {
            processes.push(None);
            i = i + 1;
        }
        Processes { processes, current: 0 }
    }

    /// The ID of the running process.
    pub fn current(&self) -> (r: ProcessId)
        ensures
            r == self.current_spec(),
    {
        self.current
    }
}

} // verus!
