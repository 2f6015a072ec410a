//! A PL061 GPIO controller wired up as a power and a sleep button.
//!
//! A button press drives its input pin high for a short window, so that the
//! guest's `gpio-keys` driver sees a complete press and release.

use vstd::prelude::*;

use crate::devices::pl061_laws::law_kill_position;
use crate::devices::pl061_regs::{lemma_low_byte, Pl061Regs};

verus! {

/// GPIO line used as the virtual power button.
pub const GPIO_PIN_POWER_BUTTON: u32 = 3;

/// GPIO line used as the virtual sleep button.
pub const GPIO_PIN_SLEEP_BUTTON: u32 = 4;

/// Size of the PL061 MMIO register window.
pub const PL061_MMIO_SIZE: u64 = 0x1000;

/// How long a button line is held high, in milliseconds.
pub const GPIO_KEY_LATENCY_MS: u64 = 100;

/// An access by a guest to a device on the bus.
#[derive(Clone, Copy, Debug, PartialEq, Eq, Structural)]
pub struct BusAccessInfo {
    /// Guest physical address.
    pub address: u64,
    /// Offset into the device's window.
    pub offset: u64,
    /// The accessing CPU.
    pub id: usize,
}

/// A virtual button.
#[derive(Clone, Copy, Debug, PartialEq, Eq, Structural)]
pub enum Button {
    Power,
    Sleep,
}

impl Button {
    /// The GPIO line of the button.
    pub open spec fn line(self) -> u32 {
        match self {
            Button::Power => GPIO_PIN_POWER_BUTTON,
            Button::Sleep => GPIO_PIN_SLEEP_BUTTON,
        }
    }

    /// The GPIO line of the button.
    pub fn pin(self) -> (pin: u32)
        ensures
            pin == self.line(),
    {
        match self {
            Button::Power => GPIO_PIN_POWER_BUTTON,
            Button::Sleep => GPIO_PIN_SLEEP_BUTTON,
        }
    }
}

/// What the button worker waits for.
#[derive(Clone, Copy, Debug, PartialEq, Eq, Structural)]
pub enum Token {
    /// The power button was pressed.
    PowerPress,
    /// The sleep button was pressed.
    SleepPress,
    /// The power button's window is over.
    PowerRelease,
    /// The sleep button's window is over.
    SleepRelease,
    /// The worker has to stop.
    Kill,
}

/// What waiting reports of one of the worker's sources.
#[derive(Clone, Copy, Debug, PartialEq, Eq, Structural)]
pub struct TriggeredEvent {
    pub token: Token,
    /// Whether the source has something to read. If it has not, there is no event.
    pub is_readable: bool,
}

/// What the button worker has to do after an event.
#[derive(Clone, Copy, Debug, PartialEq, Eq, Structural)]
pub enum WorkerAction {
    /// Inject an edge if `edge`, then arm the button's one-shot timer.
    Press { button: Button, edge: bool, hold_ms: u64 },
    /// Inject an edge if `edge`.
    Release { button: Button, edge: bool },
    /// Stop waiting for events.
    Stop,
}

/// The registers and the action that follow an event.
pub open spec fn worker_step(regs: Pl061Regs, token: Token) -> (Pl061Regs, WorkerAction) {
    match token {
        Token::PowerPress => pressed(regs, Button::Power),
        Token::SleepPress => pressed(regs, Button::Sleep),
        Token::PowerRelease => released(regs, Button::Power),
        Token::SleepRelease => released(regs, Button::Sleep),
        Token::Kill => (regs, WorkerAction::Stop),
    }
}

/// A press drives the button's line high and starts its window.
pub open spec fn pressed(regs: Pl061Regs, button: Button) -> (Pl061Regs, WorkerAction) {
    (
        regs.after_drive(button.line(), true),
        WorkerAction::Press {
            button,
            edge: regs.drive_raises(button.line(), true),
            hold_ms: GPIO_KEY_LATENCY_MS,
        },
    )
}

/// The end of a button's window drives its line low.
pub open spec fn released(regs: Pl061Regs, button: Button) -> (Pl061Regs, WorkerAction) {
    (
        regs.after_drive(button.line(), false),
        WorkerAction::Release { button, edge: regs.drive_raises(button.line(), false) },
    )
}

/// The registers after `tokens` are handled in order, and the actions that follow them.
pub open spec fn worker_run(regs: Pl061Regs, tokens: Seq<Token>) -> (Pl061Regs, Seq<WorkerAction>)
    decreases tokens.len(),
{
    if tokens.len() == 0 {
        (regs, Seq::empty())
    } else {
        let before = worker_run(regs, tokens.drop_last());
        let step = worker_step(before.0, tokens.last());
        (step.0, before.1.push(step.1))
    }
}

/// The tokens of the readable events, in order.
pub open spec fn readable_tokens(events: Seq<TriggeredEvent>) -> Seq<Token>
    decreases events.len(),
{
    if events.len() == 0 {
        Seq::empty()
    } else if events.last().is_readable {
        readable_tokens(events.drop_last()).push(events.last().token)
    } else {
        readable_tokens(events.drop_last())
    }
}

/// Whether `event` stops the worker.
pub open spec fn is_kill(event: TriggeredEvent) -> bool {
    event.is_readable && event.token == Token::Kill
}

/// The position of the first event that stops the worker, or the number of events if
/// there is none.
pub open spec fn kill_position(events: Seq<TriggeredEvent>) -> int
    decreases events.len(),
{
    if events.len() == 0 {
        0
    } else if kill_position(events.drop_last()) < events.len() - 1 {
        kill_position(events.drop_last())
    } else if is_kill(events.last()) {
        events.len() - 1
    } else {
        events.len() as int
    }
}

/// The registers and the actions that follow what waiting reported: the readable events
/// are handled in order up to the first `Kill`, at which the worker stops.
pub open spec fn worker_batch(regs: Pl061Regs, events: Seq<TriggeredEvent>) -> (
    Pl061Regs,
    Seq<WorkerAction>,
) {
    let end = kill_position(events);
    let run = worker_run(regs, readable_tokens(events.take(end)));
    if end < events.len() {
        (run.0, run.1.push(WorkerAction::Stop))
    } else {
        run
    }
}

/// Byte `i` of `bytes`, or zero past its end.
pub open spec fn byte_or_zero(bytes: Seq<u8>, i: int) -> u8 {
    if i < bytes.len() {
        bytes[i]
    } else {
        0
    }
}

/// The little-endian value of the first four bytes of `bytes`, missing ones being
/// zero.
pub open spec fn le_value(bytes: Seq<u8>) -> u32 {
    (byte_or_zero(bytes, 0) + 0x100 * byte_or_zero(bytes, 1) + 0x1_0000 * byte_or_zero(bytes, 2)
        + 0x100_0000 * byte_or_zero(bytes, 3)) as u32
}

/// Byte `i` of the little-endian form of `value`, zero past the fourth.
pub open spec fn le_byte(value: u32, i: int) -> u8 {
    if i == 0 {
        (value % 0x100) as u8
    } else if i == 1 {
        (value / 0x100 % 0x100) as u8
    } else if i == 2 {
        (value / 0x1_0000 % 0x100) as u8
    } else if i == 3 {
        (value / 0x100_0000) as u8
    } else {
        0
    }
}

/// An emulated PL061 GPIO controller wired up as a power and a sleep button.
pub struct Pl061 {
    regs: Pl061Regs,
}

impl View for Pl061 {
    type V = Pl061Regs;

    closed spec fn view(&self) -> Pl061Regs {
        self.regs
    }
}

impl Pl061 {
    /// A device out of reset.
    pub fn new() -> (device: Pl061)
        ensures
            device@ == Pl061Regs::reset(),
    {
        Pl061 { regs: Pl061Regs::default() }
    }

    /// The device's name in diagnostics.
    pub fn debug_label(&self) -> (label: String)
        ensures
            label@ == "Pl061"@,
    {
        "Pl061".to_owned()
    }

    /// Answers a guest's read. Registers are at most 32 bits wide; bytes beyond the
    /// low four are zero.
    pub fn read(&self, info: BusAccessInfo, data: &mut [u8])
        ensures
            final(data)@ == Seq::new(
                old(data)@.len(),
                |i: int| le_byte(self@.read_value(info.offset), i),
            ),
    {
        let val: u32 = self.regs.read_reg(info.offset);
        let len: usize = data.len();
        let mut i: usize = 0;
        while i < len
            invariant
                i <= len == data@.len() == old(data)@.len(),
                val == self@.read_value(info.offset),
                forall|j: int| 0 <= j < i ==> data@[j] == le_byte(val, j),
            decreases len - i,
        {
            let byte: u8 = if i < 4 {
                proof {
                    lemma_shifted(val);
                    lemma_low_byte(val >> (i as u32 * 8) as u32);
                }
                (val >> (i as u32 * 8)) as u8
            } else {
                0
            };
            data[i] = byte;
            i = i + 1;
        }
    }

    /// Performs a guest's write of the low four bytes of `data`. Returns whether one
    /// edge has to be injected.
    pub fn write(&mut self, info: BusAccessInfo, data: &[u8]) -> (edge: bool)
        ensures
            final(self)@ == old(self)@.after_write(info.offset, le_value(data@)),
            edge == old(self)@.write_raises(info.offset, le_value(data@)),
    {
        let mut val: u32 = 0;
        let mut i: usize = 0;
        while i < data.len() && i < 4
            invariant
                i <= data@.len(),
                i <= 4,
                val == le_value(data@.take(i as int)),
                *self == *old(self),
            decreases 4 - i,
        {
            let ghost before = data@.take(i as int);
            let ghost after = data@.take(i + 1);
            proof {
                assert(forall|j: int| 0 <= j < i ==> after[j] == before[j]);
                lemma_append_byte(val, data@[i as int] as u32);
            }
            val = val | ((data[i] as u32) << (i as u32 * 8));
            i = i + 1;
        }
        assert(le_value(data@.take(i as int)) == le_value(data@));
        self.regs.write_reg(info.offset, val)
    }

    /// The event that a press of the power button signals.
    pub fn pwrbtn_evt(&self) -> (token: Token)
        ensures
            token == Token::PowerPress,
    {
        Token::PowerPress
    }

    /// The event that a press of the sleep button signals.
    pub fn slpbtn_evt(&self) -> (token: Token)
        ensures
            token == Token::SleepPress,
    {
        Token::SleepPress
    }

    /// Handles one event of the button worker.
    pub fn handle_event(&mut self, token: Token) -> (action: WorkerAction)
        ensures
            (final(self)@, action) == worker_step(old(self)@, token),
    {
        match token {
            Token::PowerPress => self.press(Button::Power),
            Token::SleepPress => self.press(Button::Sleep),
            Token::PowerRelease => self.release(Button::Power),
            Token::SleepRelease => self.release(Button::Sleep),
            Token::Kill => WorkerAction::Stop,
        }
    }

    /// Handles all that waiting reported, up to the first `Kill`: from one readable event
    /// to the next, as `next_readable` finds them. Returns what to do, in order.
    pub fn handle_events(&mut self, events: &[TriggeredEvent]) -> (actions: Vec<WorkerAction>)
        ensures
            (final(self)@, actions@) == worker_batch(old(self)@, events@),
    {
        let mut actions: Vec<WorkerAction> = Vec::new();
        let mut from: usize = 0;
        assert(events@.take(0) =~= Seq::empty());
        loop
            invariant
                from <= events@.len(),
                forall|j: int| 0 <= j < from ==> !is_kill(#[trigger] events@[j]),
                (self@, actions@) == worker_run(
                    old(self)@,
                    readable_tokens(events@.take(from as int)),
                ),
            decreases events@.len() - from,
        {
            proof {
                law_kill_position(events@);
            }
            match next_readable(events, from) {
                Some(i) => {
                    let token: Token = events[i].token;
                    proof {
                        lemma_unreadable_skipped(events@, from as int, i as int);
                        assert(events@.take(i + 1).drop_last() =~= events@.take(i as int));
                        let tokens = readable_tokens(events@.take(i as int));
                        assert(tokens.push(token).drop_last() =~= tokens);
                    }
                    actions.push(self.handle_event(token));
                    if token == Token::Kill {
                        assert(is_kill(events@[i as int]));
                        return actions;
                    }
                    from = i + 1;
                },
                None => {
                    proof {
                        lemma_unreadable_skipped(events@, from as int, events@.len() as int);
                    }
                    return actions;
                },
            }
        }
    }

    fn press(&mut self, button: Button) -> (action: WorkerAction)
        ensures
            (final(self)@, action) == pressed(old(self)@, button),
    {
        let edge: bool = self.regs.set_pin(button.pin(), true);
        WorkerAction::Press { button, edge, hold_ms: GPIO_KEY_LATENCY_MS }
    }

    fn release(&mut self, button: Button) -> (action: WorkerAction)
        ensures
            (final(self)@, action) == released(old(self)@, button),
    {
        let edge: bool = self.regs.set_pin(button.pin(), false);
        WorkerAction::Release { button, edge }
    }

    /// The state to save.
    pub fn snapshot(&self) -> (regs: Pl061Regs)
        ensures
            regs == self@,
    {
        self.regs
    }

    /// Puts back a saved state.
    pub fn restore(&mut self, regs: Pl061Regs)
        ensures
            final(self)@ == regs,
    {
        self.regs = regs;
    }
}

/// The position of the first readable event from `from` on, which the worker handles
/// next.
pub fn next_readable(events: &[TriggeredEvent], from: usize) -> (next: Option<usize>)
    ensures
        match next {
            Some(i) => {
                &&& from <= i < events@.len()
                &&& events@[i as int].is_readable
                &&& forall|j: int| from <= j < i ==> !(#[trigger] events@[j]).is_readable
            },
            None => forall|j: int|
                from <= j < events@.len() ==> !(#[trigger] events@[j]).is_readable,
        },
{
    let mut i: usize = from;
    while i < events.len()
        invariant
            from <= i,
            forall|j: int| from <= j < i && j < events@.len() ==> !(#[trigger] events@[j]).is_readable,
        decreases events@.len() - i,
    {
        if events[i].is_readable {
            return Some(i);
        }
        i = i + 1;
    }
    None
}

/// What the worker has to do once it has waited: stop if that failed, else handle the
/// events that it was told of.
pub fn after_wait(failed: bool) -> (action: Option<WorkerAction>)
    ensures
        action == if failed {
            Some(WorkerAction::Stop)
        } else {
            None
        },
{
    if failed {
        Some(WorkerAction::Stop)
    } else {
        None
    }
}

/// Events without anything to read add nothing to handle.
proof fn lemma_unreadable_skipped(events: Seq<TriggeredEvent>, from: int, to: int)
    requires
        0 <= from <= to <= events.len(),
        forall|j: int| from <= j < to ==> !(#[trigger] events[j]).is_readable,
    ensures
        readable_tokens(events.take(to)) == readable_tokens(events.take(from)),
    decreases to - from,
{
    if from < to {
        assert(events.take(to).drop_last() =~= events.take(to - 1));
        assert(events.take(to).last() == events[to - 1]);
        lemma_unreadable_skipped(events, from, to - 1);
    }
}

proof fn lemma_shifted(value: u32)
    by (bit_vector)
    ensures
        value >> 0u32 == value,
        value >> 8u32 == value / 0x100,
        value >> 16u32 == value / 0x1_0000,
        value >> 24u32 == value / 0x100_0000,
{
}

proof fn lemma_append_byte(value: u32, byte: u32)
    by (bit_vector)
    requires
        byte < 0x100,
    ensures
        value == 0 ==> value | (byte << 0u32) == byte,
        value < 0x100 ==> value | (byte << 8u32) == value + 0x100 * byte,
        value < 0x1_0000 ==> value | (byte << 16u32) == value + 0x1_0000 * byte,
        value < 0x100_0000 ==> value | (byte << 24u32) == value + 0x100_0000 * byte,
{
}

} // verus!
