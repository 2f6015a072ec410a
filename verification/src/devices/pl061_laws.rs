//! What the PL061 register file guarantees across operations.

use vstd::prelude::*;

use crate::devices::pl061::{
    byte_or_zero, is_kill, kill_position, le_byte, le_value, pressed, readable_tokens, released,
    worker_batch, worker_run, worker_step, Button, Token, TriggeredEvent, WorkerAction,
    GPIO_KEY_LATENCY_MS, PL061_MMIO_SIZE,
};
use crate::devices::pl061_regs::{
    lemma_no_edges, pin_set, register_at, Pl061Regs, Register, GPIOAFSEL, GPIODATA_END, GPIODIR,
    GPIOIBE, GPIOIC, GPIOIE, GPIOIEV, GPIOIS, GPIOMIS, GPIORIS, N_GPIOS,
};

verus! {

/// An operation on the register file.
pub enum RegisterOp {
    /// A guest's write.
    Write { offset: u64, value: u32 },
    /// A pin driven from outside.
    Drive { pin: u32, level: bool },
}

impl RegisterOp {
    /// Whether the operation is in range.
    pub open spec fn valid(self) -> bool {
        self matches RegisterOp::Drive { pin, .. } ==> pin < N_GPIOS
    }

    /// The registers after the operation.
    pub open spec fn apply(self, regs: Pl061Regs) -> Pl061Regs {
        match self {
            RegisterOp::Write { offset, value } => regs.after_write(offset, value),
            RegisterOp::Drive { pin, level } => regs.after_drive(pin, level),
        }
    }

    /// Whether the operation injects an edge.
    pub open spec fn raises(self, regs: Pl061Regs) -> bool {
        match self {
            RegisterOp::Write { offset, value } => regs.write_raises(offset, value),
            RegisterOp::Drive { pin, level } => regs.drive_raises(pin, level),
        }
    }
}

/// The registers after `ops`, in order.
pub open spec fn run(regs: Pl061Regs, ops: Seq<RegisterOp>) -> Pl061Regs
    decreases ops.len(),
{
    if ops.len() == 0 {
        regs
    } else {
        ops.last().apply(run(regs, ops.drop_last()))
    }
}

/// The number of edges that `ops` inject.
pub open spec fn edge_count(regs: Pl061Regs, ops: Seq<RegisterOp>) -> nat
    decreases ops.len(),
{
    if ops.len() == 0 {
        0
    } else {
        edge_count(regs, ops.drop_last()) + if ops.last().raises(run(regs, ops.drop_last())) {
            1nat
        } else {
            0nat
        }
    }
}

/// The number of operations among `ops` across which the masked interrupt status
/// goes from zero to nonzero.
pub open spec fn rise_count(regs: Pl061Regs, ops: Seq<RegisterOp>) -> nat
    decreases ops.len(),
{
    if ops.len() == 0 {
        0
    } else {
        rise_count(regs, ops.drop_last()) + if run(regs, ops.drop_last()).read_value(GPIOMIS) == 0
            && run(regs, ops).read_value(GPIOMIS) != 0 {
            1nat
        } else {
            0nat
        }
    }
}

/// The registers come out of reset settled.
pub proof fn law_reset_settled()
    ensures
        Pl061Regs::reset().settled(),
{
    assert((0u8 ^ 0u8) & !0u8 == 0u8) by (bit_vector);
    assert((!(0u8 ^ 0u8) & 0u8) & !0u8 == 0u8) by (bit_vector);
    assert(0u8 & 0u8 == 0u8) by (bit_vector);
}

/// Recomputing the interrupt state settles the registers, whatever they held.
pub proof fn law_update_settles(regs: Pl061Regs)
    ensures
        regs.updated().settled(),
{
    lemma_same_levels(regs.data, regs.dir);
    lemma_levels_latched(regs.istate, regs.edges(), regs.levels());
}

/// Recomputing the interrupt state of settled registers changes nothing and
/// injects nothing.
pub proof fn law_update_idempotent(regs: Pl061Regs)
    requires
        regs.settled(),
    ensures
        regs.updated() == regs,
        !regs.raises(),
{
    lemma_no_edges(regs.isense, regs.ibe | regs.at_event_level());
    lemma_nothing_to_latch(regs.istate, regs.levels());
}

/// Every operation keeps settled registers settled.
pub proof fn law_settled_kept(regs: Pl061Regs, op: RegisterOp)
    requires
        regs.settled(),
        op.valid(),
    ensures
        op.apply(regs).settled(),
{
    match op {
        RegisterOp::Write { offset, value } => {
            if let Some(stored) = regs.stored(offset, (value % 256) as u8) {
                law_update_settles(stored);
            }
        },
        RegisterOp::Drive { pin, level } => {
            law_update_settles(regs.with_level(pin, level));
        },
    }
}

/// If the interrupt is asserted exactly while the masked interrupt status is nonzero, an
/// operation keeps it so, and it injects an edge exactly if the status reads zero before
/// it and nonzero after it.
pub proof fn law_edge_on_rise(regs: Pl061Regs, op: RegisterOp)
    requires
        regs.asserted == (regs.istate & regs.im != 0),
        op.valid(),
    ensures
        op.raises(regs) <==> regs.read_value(GPIOMIS) == 0 && op.apply(regs).read_value(GPIOMIS)
            != 0,
        op.apply(regs).asserted == (op.apply(regs).istate & op.apply(regs).im != 0),
{
}

/// Any sequence of operations injects exactly one edge per rising transition of
/// the masked interrupt status, and leaves the registers settled.
pub proof fn law_one_edge_per_rise(regs: Pl061Regs, ops: Seq<RegisterOp>)
    requires
        regs.settled(),
        forall|i: int| 0 <= i < ops.len() ==> (#[trigger] ops[i]).valid(),
    ensures
        run(regs, ops).settled(),
        edge_count(regs, ops) == rise_count(regs, ops),
    decreases ops.len(),
{
    if ops.len() > 0 {
        let earlier = ops.drop_last();
        assert forall|i: int| 0 <= i < earlier.len() implies (#[trigger] earlier[i]).valid() by {
            assert(earlier[i] == ops[i]);
        }
        law_one_edge_per_rise(regs, earlier);
        assert(ops.last() == ops[ops.len() - 1]);
        law_settled_kept(run(regs, earlier), ops.last());
        law_edge_on_rise(run(regs, earlier), ops.last());
    }
}

/// The interrupt of a pin becomes pending exactly if it was pending, or the pin is
/// an edge-sensitive input on which the selected edge occurred, or it is
/// level-sensitive and at the selected level.
pub proof fn law_pin_pending(regs: Pl061Regs, pin: u32)
    requires
        pin < N_GPIOS,
    ensures
        pin_set(regs.updated().istate, pin) <==> {
            let level = pin_set(regs.data, pin);
            let selected = level == pin_set(regs.iev, pin);
            ||| pin_set(regs.istate, pin)
            ||| {
                &&& !pin_set(regs.dir, pin)
                &&& level != pin_set(regs.old_in_data, pin)
                &&& !pin_set(regs.isense, pin)
                &&& pin_set(regs.ibe, pin) || selected
            }
            ||| pin_set(regs.isense, pin) && selected
        },
{
    lemma_pin_pending(
        regs.data,
        regs.old_in_data,
        regs.dir,
        regs.isense,
        regs.ibe,
        regs.iev,
        regs.istate,
        pin,
    );
}

/// A guest's write never changes the level of an input pin, and driving a pin from
/// outside never changes the level of an output pin or of another pin.
pub proof fn law_level_ownership(regs: Pl061Regs, op: RegisterOp, other: u32)
    requires
        op.valid(),
        other < N_GPIOS,
        match op {
            RegisterOp::Write { .. } => !pin_set(regs.dir, other),
            RegisterOp::Drive { pin, .. } => pin_set(regs.dir, other) || other != pin,
        },
    ensures
        pin_set(op.apply(regs).data, other) == pin_set(regs.data, other),
{
    match op {
        RegisterOp::Write { offset, value } => {
            if let Register::Data { mask } = register_at(offset) {
                lemma_input_kept(regs.data, (value % 256) as u8, mask, regs.dir, other);
            }
        },
        RegisterOp::Drive { pin, level } => {
            if other != pin {
                lemma_other_pin_kept(regs.data, pin, other);
            }
        },
    }
}

/// Driving an input pin gives it the level asked for.
pub proof fn law_driven_level(regs: Pl061Regs, pin: u32, level: bool)
    requires
        pin < N_GPIOS,
        !pin_set(regs.dir, pin),
    ensures
        pin_set(regs.after_drive(pin, level).data, pin) == level,
{
    lemma_driven_level(regs.data, pin);
}

/// A configuration register reads back the low byte last written to it.
pub proof fn law_register_reads_back(regs: Pl061Regs, offset: u64, value: u32)
    requires
        offset == GPIODIR || offset == GPIOIS || offset == GPIOIBE || offset == GPIOIEV || offset
            == GPIOIE || offset == GPIOAFSEL,
    ensures
        regs.after_write(offset, value).read_value(offset) == value % 256,
{
}

/// A write to the data register is read back on the output pins that the address
/// selects. Of the selected pins the inputs read as before, and pins that are not
/// selected read as zero.
pub proof fn law_data_reads_back(regs: Pl061Regs, offset: u64, value: u32, pin: u32)
    requires
        offset <= GPIODATA_END,
        pin < N_GPIOS,
    ensures
        ({
            let mask = (offset / 4) as u8;
            let read = regs.after_write(offset, value).read_value(offset);
            &&& read <= 0xff
            &&& pin_set(read as u8, pin) == (pin_set(mask, pin) && if pin_set(regs.dir, pin) {
                pin_set((value % 256) as u8, pin)
            } else {
                pin_set(regs.data, pin)
            })
        }),
{
    lemma_data_reads_back(
        regs.data,
        (value % 256) as u8,
        (offset / 4) as u8,
        regs.dir,
        pin,
    );
}

/// A write to the clear register drops the pending interrupts that it names, except
/// those of level-sensitive pins still at the interrupting level, and no others.
pub proof fn law_clear(regs: Pl061Regs, value: u32, pin: u32)
    requires
        regs.settled(),
        pin < N_GPIOS,
    ensures
        pin_set(regs.after_write(GPIOIC, value).istate, pin) <==> pin_set(regs.istate, pin) && (
        !pin_set((value % 256) as u8, pin) || (pin_set(regs.isense, pin) && pin_set(regs.data, pin)
            == pin_set(regs.iev, pin))),
{
    let byte = (value % 256) as u8;
    let cleared = regs.stored(GPIOIC, byte)->0;
    lemma_no_edges(regs.isense, regs.ibe | regs.at_event_level());
    assert(cleared.edges() == 0);
    lemma_clear(regs.istate, byte, regs.data, regs.iev, regs.isense, pin);
}

/// The masked status register reads as the raw status with the masked pins removed.
pub proof fn law_masked_status(regs: Pl061Regs)
    ensures
        regs.read_value(GPIOMIS) == (regs.read_value(GPIORIS) as u8 & regs.read_value(
            GPIOIE,
        ) as u8),
{
}

/// The edge that a pin interrupts on, driven onto an edge-sensitive input, leaves its
/// interrupt pending and all others as they were. If the pin is unmasked the masked
/// status shows it, and an edge is injected unless the interrupt is already asserted.
pub proof fn law_edge_pends(regs: Pl061Regs, pin: u32, level: bool)
    requires
        regs.settled(),
        pin < N_GPIOS,
        !pin_set(regs.dir, pin),
        !pin_set(regs.isense, pin),
        pin_set(regs.data, pin) != level,
        pin_set(regs.ibe, pin) || pin_set(regs.iev, pin) == level,
    ensures
        regs.after_drive(pin, level).istate == regs.istate | (1u8 << pin),
        pin_set(regs.im, pin) ==> {
            &&& pin_set(regs.after_drive(pin, level).read_value(GPIOMIS) as u8, pin)
            &&& regs.drive_raises(pin, level) == !regs.asserted
        },
{
    lemma_edge_pends(
        regs.data,
        regs.old_in_data,
        regs.dir,
        regs.isense,
        regs.ibe,
        regs.iev,
        regs.istate,
        regs.im,
        pin,
        level,
    );
}

/// A button press and release on an unmasked input that interrupts on both edges is
/// seen in full: the press injects an edge and the pin reads high; once the guest has
/// cleared the interrupt nothing is asserted; the release injects a second edge and
/// the pin reads low again.
pub proof fn law_press_and_release(regs: Pl061Regs, pin: u32)
    requires
        regs.settled(),
        regs.istate & regs.im == 0,
        pin < N_GPIOS,
        !pin_set(regs.dir, pin),
        !pin_set(regs.isense, pin),
        !pin_set(regs.data, pin),
        pin_set(regs.ibe, pin),
        pin_set(regs.im, pin),
    ensures
        ({
            let pressed = regs.after_drive(pin, true);
            let cleared = pressed.after_write(GPIOIC, (1u8 << pin) as u32);
            let released = cleared.after_drive(pin, false);
            &&& regs.drive_raises(pin, true)
            &&& pin_set(pressed.data, pin)
            &&& pin_set(pressed.read_value(GPIOMIS) as u8, pin)
            &&& !pressed.write_raises(GPIOIC, (1u8 << pin) as u32)
            &&& cleared.read_value(GPIOMIS) == 0
            &&& cleared.drive_raises(pin, false)
            &&& !pin_set(released.data, pin)
            &&& pin_set(released.read_value(GPIOMIS) as u8, pin)
        }),
{
    let press = RegisterOp::Drive { pin, level: true };
    let clear = RegisterOp::Write { offset: GPIOIC, value: (1u8 << pin) as u32 };
    let pressed = regs.after_drive(pin, true);
    let cleared = clear.apply(pressed);
    law_edge_pends(regs, pin, true);
    law_driven_level(regs, pin, true);
    law_settled_kept(regs, press);
    law_settled_kept(pressed, clear);
    assert((((1u8 << pin) as u32) % 256) as u8 == 1u8 << pin);
    let uncleared = pressed.stored(GPIOIC, 1u8 << pin)->0;
    lemma_no_edges(pressed.isense, pressed.ibe | pressed.at_event_level());
    assert(uncleared.edges() == 0);
    lemma_pin_cleared(
        regs.istate,
        regs.im,
        pressed.isense,
        pressed.at_event_level(),
        pin,
    );
    law_edge_on_rise(pressed, clear);
    law_edge_pends(cleared, pin, false);
    law_driven_level(cleared, pin, false);
}

/// There is no register past the device's window, and there is one at its end.
pub proof fn law_registers_in_window(offset: u64)
    requires
        offset >= PL061_MMIO_SIZE,
    ensures
        register_at(offset) is Reserved,
        register_at((PL061_MMIO_SIZE - 1) as u64) !is Reserved,
{
}

/// Every register fits in a byte.
pub proof fn law_registers_are_bytes(regs: Pl061Regs, offset: u64)
    ensures
        regs.read_value(offset) <= 0xff,
{
}

/// A guest's write acts by its first byte alone, whatever its width. An empty write
/// acts as a write of zero.
pub proof fn law_bus_write_is_low_byte(regs: Pl061Regs, offset: u64, data: Seq<u8>)
    ensures
        regs.after_write(offset, le_value(data)) == regs.after_write(
            offset,
            byte_or_zero(data, 0) as u32,
        ),
        regs.write_raises(offset, le_value(data)) == regs.write_raises(
            offset,
            byte_or_zero(data, 0) as u32,
        ),
{
    assert(le_value(data) % 256 == byte_or_zero(data, 0));
}

/// Over the bus a configuration register reads back the first byte written to it,
/// followed by zeros.
pub proof fn law_bus_reads_back(regs: Pl061Regs, offset: u64, data: Seq<u8>, i: int)
    requires
        offset == GPIODIR || offset == GPIOIS || offset == GPIOIBE || offset == GPIOIEV || offset
            == GPIOIE || offset == GPIOAFSEL,
        i >= 0,
    ensures
        le_byte(regs.after_write(offset, le_value(data)).read_value(offset), i) == if i == 0 {
            byte_or_zero(data, 0)
        } else {
            0
        },
{
    law_bus_write_is_low_byte(regs, offset, data);
    law_register_reads_back(regs, offset, byte_or_zero(data, 0) as u32);
}

/// The button worker keeps the registers settled, and changes neither their
/// configuration nor the level of a line that is no button's.
pub proof fn law_worker_changes(regs: Pl061Regs, token: Token, other: u32)
    requires
        regs.settled(),
        other < N_GPIOS,
        other != Button::Power.line(),
        other != Button::Sleep.line(),
    ensures
        ({
            let after = worker_step(regs, token).0;
            &&& after.settled()
            &&& after.dir == regs.dir
            &&& after.isense == regs.isense
            &&& after.ibe == regs.ibe
            &&& after.iev == regs.iev
            &&& after.im == regs.im
            &&& after.afsel == regs.afsel
            &&& pin_set(after.data, other) == pin_set(regs.data, other)
        }),
{
    let press = token == Token::PowerPress || token == Token::SleepPress;
    let button = if token == Token::PowerPress || token == Token::PowerRelease {
        Button::Power
    } else {
        Button::Sleep
    };
    let op = RegisterOp::Drive { pin: button.line(), level: press };
    law_settled_kept(regs, op);
    law_level_ownership(regs, op, other);
}

/// Any number of worker events keep the registers settled.
pub proof fn law_worker_settled(regs: Pl061Regs, tokens: Seq<Token>)
    requires
        regs.settled(),
    ensures
        worker_run(regs, tokens).0.settled(),
    decreases tokens.len(),
{
    if tokens.len() > 0 {
        law_worker_settled(regs, tokens.drop_last());
        law_worker_changes(worker_run(regs, tokens.drop_last()).0, tokens.last(), 0);
    }
}

/// The worker stops at the first readable `Kill`, and nowhere without one.
pub proof fn law_kill_position(events: Seq<TriggeredEvent>)
    ensures
        0 <= kill_position(events) <= events.len(),
        forall|i: int| 0 <= i < kill_position(events) ==> !is_kill(#[trigger] events[i]),
        kill_position(events) < events.len() ==> is_kill(events[kill_position(events)]),
    decreases events.len(),
{
    if events.len() > 0 {
        let earlier = events.drop_last();
        law_kill_position(earlier);
        assert forall|i: int| 0 <= i < kill_position(events) implies !is_kill(
            #[trigger] events[i],
        ) by {
            if i < earlier.len() {
                assert(earlier[i] == events[i]);
            }
        }
    }
}

/// A readable `Kill` stops the worker: `Stop` is the last action and the only one of its
/// kind, and whatever waiting reports after the `Kill` has no effect.
pub proof fn law_stop_at_kill(
    regs: Pl061Regs,
    events: Seq<TriggeredEvent>,
    later: Seq<TriggeredEvent>,
    kill: int,
)
    requires
        0 <= kill < events.len(),
        is_kill(events[kill]),
    ensures
        worker_batch(regs, events + later) == worker_batch(regs, events),
        ({
            let actions = worker_batch(regs, events).1;
            &&& actions.last() == WorkerAction::Stop
            &&& forall|i: int|
                0 <= i < actions.len() - 1 ==> #[trigger] actions[i] != WorkerAction::Stop
        }),
{
    let all = events + later;
    law_kill_position(events);
    law_kill_position(all);
    let end = kill_position(events);
    assert(end < events.len());
    assert(all[end] == events[end]);
    assert(kill_position(all) == end) by {
        let other = kill_position(all);
        if other < end {
            assert(all[other] == events[other]);
        }
    }
    assert(all.take(end) =~= events.take(end));
    lemma_no_stop(regs, events.take(end));
}

/// A wait result that reports no readable `Kill` is handled in full, and does not stop
/// the worker.
pub proof fn law_no_stop_without_kill(regs: Pl061Regs, events: Seq<TriggeredEvent>)
    requires
        forall|i: int| 0 <= i < events.len() ==> !is_kill(#[trigger] events[i]),
    ensures
        worker_batch(regs, events) == worker_run(regs, readable_tokens(events)),
        ({
            let actions = worker_batch(regs, events).1;
            forall|i: int| 0 <= i < actions.len() ==> #[trigger] actions[i] != WorkerAction::Stop
        }),
{
    law_kill_position(events);
    assert(events.take(events.len() as int) =~= events);
    lemma_no_stop(regs, events);
}

/// A button on an unmasked input that interrupts on both edges is reported to the
/// guest in full: the press injects an edge and opens the button's window, and after
/// the guest has cleared the interrupt the end of the window injects another.
pub proof fn law_button_reported(regs: Pl061Regs, button: Button)
    requires
        regs.settled(),
        regs.istate & regs.im == 0,
        !pin_set(regs.dir, button.line()),
        !pin_set(regs.isense, button.line()),
        !pin_set(regs.data, button.line()),
        pin_set(regs.ibe, button.line()),
        pin_set(regs.im, button.line()),
    ensures
        ({
            let down = pressed(regs, button);
            let cleared = down.0.after_write(GPIOIC, (1u8 << button.line()) as u32);
            let up = released(cleared, button);
            &&& down.1 == WorkerAction::Press { button, edge: true, hold_ms: GPIO_KEY_LATENCY_MS }
            &&& pin_set(down.0.read_value(GPIOMIS) as u8, button.line())
            &&& cleared.read_value(GPIOMIS) == 0
            &&& up.1 == WorkerAction::Release { button, edge: true }
            &&& pin_set(down.0.data, button.line())
            &&& !pin_set(up.0.data, button.line())
        }),
{
    law_press_and_release(regs, button.line());
}

/// Events other than a readable `Kill` do not stop the worker.
proof fn lemma_no_stop(regs: Pl061Regs, events: Seq<TriggeredEvent>)
    requires
        forall|i: int| 0 <= i < events.len() ==> !is_kill(#[trigger] events[i]),
    ensures
        ({
            let actions = worker_run(regs, readable_tokens(events)).1;
            forall|i: int| 0 <= i < actions.len() ==> #[trigger] actions[i] != WorkerAction::Stop
        }),
    decreases events.len(),
{
    if events.len() > 0 {
        let earlier = events.drop_last();
        assert forall|i: int| 0 <= i < earlier.len() implies !is_kill(#[trigger] earlier[i]) by {
            assert(earlier[i] == events[i]);
        }
        lemma_no_stop(regs, earlier);
        assert(!is_kill(events.last()));
        let tokens = readable_tokens(earlier);
        assert(tokens.push(events.last().token).drop_last() =~= tokens);
    }
}

proof fn lemma_input_kept(data: u8, byte: u8, mask: u8, dir: u8, pin: u32)
    by (bit_vector)
    requires
        pin < 8,
        dir & (1u8 << pin) == 0,
    ensures
        ((data & !(mask & dir)) | (byte & (mask & dir))) & (1u8 << pin) == data & (1u8 << pin),
{
}

proof fn lemma_other_pin_kept(data: u8, pin: u32, other: u32)
    by (bit_vector)
    requires
        pin < 8,
        other < 8,
        pin != other,
    ensures
        (data | (1u8 << pin)) & (1u8 << other) == data & (1u8 << other),
        (data & !(1u8 << pin)) & (1u8 << other) == data & (1u8 << other),
{
}

proof fn lemma_driven_level(data: u8, pin: u32)
    by (bit_vector)
    requires
        pin < 8,
    ensures
        (data | (1u8 << pin)) & (1u8 << pin) != 0,
        (data & !(1u8 << pin)) & (1u8 << pin) == 0,
{
}

proof fn lemma_data_reads_back(data: u8, byte: u8, mask: u8, dir: u8, pin: u32)
    by (bit_vector)
    requires
        pin < 8,
    ensures
        ({
            let bit = 1u8 << pin;
            let read = ((data & !(mask & dir)) | (byte & (mask & dir))) & mask;
            (read & bit != 0) == (mask & bit != 0 && if dir & bit != 0 {
                byte & bit != 0
            } else {
                data & bit != 0
            })
        }),
{
}

proof fn lemma_clear(istate: u8, byte: u8, data: u8, iev: u8, isense: u8, pin: u32)
    by (bit_vector)
    requires
        pin < 8,
        (!(data ^ iev) & isense) & !istate == 0,
    ensures
        ({
            let bit = 1u8 << pin;
            let levels = !(data ^ iev) & isense;
            (((istate & !byte) | 0u8 | levels) & bit != 0) == (istate & bit != 0 && (byte & bit == 0
                || (isense & bit != 0 && (data & bit != 0) == (iev & bit != 0))))
        }),
{
}

proof fn lemma_edge_pends(
    data: u8,
    old_in_data: u8,
    dir: u8,
    isense: u8,
    ibe: u8,
    iev: u8,
    istate: u8,
    im: u8,
    pin: u32,
    level: bool,
)
    by (bit_vector)
    requires
        pin < 8,
        (old_in_data ^ data) & !dir == 0,
        (!(data ^ iev) & isense) & !istate == 0,
        dir & (1u8 << pin) == 0,
        isense & (1u8 << pin) == 0,
        (data & (1u8 << pin) != 0) != level,
        ibe & (1u8 << pin) != 0 || (iev & (1u8 << pin) != 0) == level,
    ensures
        ({
            let bit = 1u8 << pin;
            let driven = if level {
                data | bit
            } else {
                data & !bit
            };
            let at_level = !(driven ^ iev);
            let edges = ((old_in_data ^ driven) & !dir) & !isense & (ibe | at_level);
            let latched = istate | edges | (at_level & isense);
            latched == istate | bit && (im & bit != 0 ==> (latched & im) & bit != 0 && latched & im
                != 0)
        }),
{
}

proof fn lemma_pin_cleared(istate: u8, im: u8, isense: u8, at_level: u8, pin: u32)
    by (bit_vector)
    requires
        pin < 8,
        istate & im == 0,
        isense & (1u8 << pin) == 0,
        (at_level & isense) & !(istate | (1u8 << pin)) == 0,
    ensures
        ((((istate | (1u8 << pin)) & !(1u8 << pin)) | 0u8 | (at_level & isense)) & im) == 0,
{
}

proof fn lemma_same_levels(data: u8, dir: u8)
    by (bit_vector)
    ensures
        (data ^ data) & !dir == 0,
{
}

proof fn lemma_levels_latched(istate: u8, edges: u8, levels: u8)
    by (bit_vector)
    ensures
        levels & !(istate | edges | levels) == 0,
{
}

proof fn lemma_nothing_to_latch(istate: u8, levels: u8)
    by (bit_vector)
    requires
        levels & !istate == 0,
    ensures
        istate | 0u8 | levels == istate,
{
}

proof fn lemma_pin_pending(
    data: u8,
    old_in_data: u8,
    dir: u8,
    isense: u8,
    ibe: u8,
    iev: u8,
    istate: u8,
    pin: u32,
)
    by (bit_vector)
    requires
        pin < 8,
    ensures
        ({
            let mask = 1u8 << pin;
            let at_level = !(data ^ iev);
            let edges = ((old_in_data ^ data) & !dir) & !isense & (ibe | at_level);
            let latched = istate | edges | (at_level & isense);
            let level = data & mask != 0;
            let selected = level == (iev & mask != 0);
            (latched & mask != 0) == ((istate & mask != 0) || (dir & mask == 0 && level != (
            old_in_data & mask != 0) && isense & mask == 0 && (ibe & mask != 0 || selected)) || (
            isense & mask != 0 && selected))
        }),
{
}

} // verus!
