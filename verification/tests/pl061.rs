use vmm_devices::devices::pl061::{
    after_wait, next_readable, BusAccessInfo, Button, Pl061, Token, TriggeredEvent, WorkerAction,
    GPIO_KEY_LATENCY_MS, GPIO_PIN_POWER_BUTTON, GPIO_PIN_SLEEP_BUTTON, PL061_MMIO_SIZE,
};
use vmm_devices::devices::pl061_regs::{
    is_readable, is_writable, Pl061Regs, GPIOAFSEL, GPIODIR, GPIOIBE, GPIOIC, GPIOIE, GPIOIEV, GPIOIS, GPIOMIS, GPIORIS,
    PL061_AMBA_ID,
};

fn bus_addr(offset: u64) -> BusAccessInfo {
    BusAccessInfo {
        address: offset,
        offset,
        id: 0,
    }
}

fn read_byte(dev: &Pl061, offset: u64) -> u8 {
    let mut byte = [0xaau8];
    dev.read(bus_addr(offset), &mut byte);
    byte[0]
}

#[test]
fn primecell_ids_readable() {
    let dev = Pl061::new();
    // periphid bytes at 0xfe0/0xfe4/0xfe8/0xfec.
    let mut byte = [0u8];
    dev.read(bus_addr(0xfe0), &mut byte);
    assert_eq!(byte[0], 0x61);
    dev.read(bus_addr(0xff0), &mut byte);
    assert_eq!(byte[0], 0x0d);
}

#[test]
fn power_button_raises_interrupt() {
    let mut dev = Pl061::new();

    // Configure the power pin as an input with a both-edge interrupt
    // enabled, mirroring what the gpio-keys driver does.
    let mask = 1u8 << GPIO_PIN_POWER_BUTTON;
    dev.write(bus_addr(GPIOIBE), &[mask]); // both edges
    dev.write(bus_addr(GPIOIE), &[mask]); // unmask

    let token = dev.pwrbtn_evt();

    // The worker should drive the pin and assert the interrupt line.
    let action = dev.handle_event(token);
    assert!(matches!(action, WorkerAction::Press { edge: true, .. }));

    // Masked interrupt status should reflect the pending interrupt.
    let mut reg = [0u8];
    dev.read(bus_addr(GPIOMIS), &mut reg);
    assert_eq!(reg[0] & mask, mask);
}

#[test]
fn peripheral_and_cell_ids() {
    let dev = Pl061::new();
    let id = |base: u64| {
        (0..4u64).fold(0u32, |acc, i| {
            acc | (u32::from(read_byte(&dev, base + 4 * i)) << (8 * i))
        })
    };
    assert_eq!(id(0xfe0), PL061_AMBA_ID);
    assert_eq!(id(0xfe0), 0x00041061);
    assert_eq!(id(0xff0), 0xb105f00d);
    assert_eq!(id(0xfd0), 0);
    // Each byte fills its word.
    assert_eq!(read_byte(&dev, 0xfe3), 0x61);
    assert_eq!(read_byte(&dev, 0xfff), 0xb1);
}

#[test]
fn registers_out_of_reset_are_zero() {
    let regs = Pl061Regs::default();
    for offset in (0..0xfd0u64).step_by(4) {
        assert_eq!(regs.read_reg(offset), 0);
    }
    assert!(!regs.asserted);
    assert_eq!(regs, Pl061::new().snapshot());
}

#[test]
fn configuration_reads_back_low_byte() {
    for offset in [GPIODIR, GPIOIS, GPIOIBE, GPIOIEV, GPIOIE, GPIOAFSEL] {
        let mut regs = Pl061Regs::default();
        regs.write_reg(offset, 0x1234_56a5);
        assert_eq!(regs.read_reg(offset), 0xa5);
    }
}

#[test]
fn unknown_offsets_are_ignored() {
    for offset in [0x424u64, 0x402, GPIORIS, GPIOMIS, 0xfd0, 0xfff, PL061_MMIO_SIZE, u64::MAX] {
        let mut regs = Pl061Regs::default();
        regs.write_reg(GPIOIE, 0xff);
        let before = regs;
        assert!(!regs.write_reg(offset, 0xff));
        assert_eq!(regs, before);
    }
    assert_eq!(Pl061Regs::default().read_reg(GPIOIC), 0);
    assert_eq!(Pl061Regs::default().read_reg(0x424), 0);
    assert_eq!(Pl061Regs::default().read_reg(u64::MAX), 0);
}

#[test]
fn data_register_is_banked() {
    let mut regs = Pl061Regs::default();
    regs.write_reg(GPIODIR, 0x0f);
    // Only outputs that the address selects change.
    regs.write_reg(0x3ff, 0xff);
    assert_eq!(regs.read_reg(0x3fc), 0x0f);
    regs.write_reg(0x3 << 2, 0x00);
    assert_eq!(regs.read_reg(0x3fc), 0x0c);
    // Only pins that the address selects are read.
    assert_eq!(regs.read_reg(0x4 << 2), 0x04);
    assert_eq!(regs.read_reg(0), 0);
}

#[test]
fn outputs_cannot_be_driven() {
    let mut regs = Pl061Regs::default();
    regs.write_reg(GPIODIR, 0x08);
    regs.write_reg(GPIOIE, 0xff);
    regs.write_reg(GPIOIBE, 0xff);
    let before = regs;
    assert!(!regs.set_pin(3, true));
    assert_eq!(regs, before);
}

#[test]
fn wide_accesses() {
    let mut dev = Pl061::new();
    dev.write(bus_addr(GPIODIR), &[0x5a, 1, 2, 3, 4, 5, 6, 7]);
    let mut wide = [0xffu8; 8];
    dev.read(bus_addr(GPIODIR), &mut wide);
    assert_eq!(wide, [0x5a, 0, 0, 0, 0, 0, 0, 0]);
    // An empty write acts as a write of zero, an empty read does nothing.
    dev.write(bus_addr(GPIODIR), &[]);
    dev.read(bus_addr(GPIODIR), &mut []);
    assert_eq!(read_byte(&dev, GPIODIR), 0);
}

#[test]
fn single_edge_follows_event_register() {
    // Rising edges only.
    let mut regs = Pl061Regs::default();
    regs.write_reg(GPIOIEV, 0x01);
    regs.write_reg(GPIOIE, 0x01);
    assert!(regs.set_pin(0, true));
    assert!(!regs.write_reg(GPIOIC, 0x01));
    assert!(!regs.set_pin(0, false));
    assert_eq!(regs.read_reg(GPIORIS), 0);
    // Falling edges only.
    let mut regs = Pl061Regs::default();
    regs.write_reg(GPIOIE, 0x01);
    assert!(!regs.set_pin(0, true));
    assert_eq!(regs.read_reg(GPIORIS), 0);
    assert!(regs.set_pin(0, false));
    assert_eq!(regs.read_reg(GPIORIS), 0x01);
}

#[test]
fn one_edge_per_rise() {
    let mut regs = Pl061Regs::default();
    regs.write_reg(GPIOIBE, 0xff);
    regs.write_reg(GPIOIE, 0xff);
    assert!(regs.set_pin(3, true));
    // Still asserted: no second edge.
    assert!(!regs.set_pin(4, true));
    assert!(!regs.set_pin(3, false));
    assert_eq!(regs.read_reg(GPIOMIS), 0x18);
    assert!(!regs.write_reg(GPIOIC, 0x08));
    assert!(regs.asserted);
    assert!(!regs.write_reg(GPIOIC, 0x10));
    assert!(!regs.asserted);
    assert!(regs.set_pin(4, false));
}

#[test]
fn unmasking_raises() {
    let mut regs = Pl061Regs::default();
    regs.write_reg(GPIOIBE, 0x01);
    assert!(!regs.set_pin(0, true));
    assert_eq!(regs.read_reg(GPIORIS), 0x01);
    assert_eq!(regs.read_reg(GPIOMIS), 0);
    assert!(regs.write_reg(GPIOIE, 0x01));
    assert_eq!(regs.read_reg(GPIOMIS), 0x01);
    assert!(!regs.write_reg(GPIOIE, 0x00));
    assert!(regs.write_reg(GPIOIE, 0x01));
}

#[test]
fn level_interrupt_cannot_be_cleared_while_active() {
    let mut regs = Pl061Regs::default();
    regs.write_reg(GPIOIEV, 0x02);
    regs.write_reg(GPIOIS, 0x02);
    regs.write_reg(GPIOIE, 0x02);
    assert_eq!(regs.read_reg(GPIORIS), 0);
    assert!(regs.set_pin(1, true));
    assert!(!regs.write_reg(GPIOIC, 0xff));
    assert_eq!(regs.read_reg(GPIORIS), 0x02);
    assert!(!regs.set_pin(1, false));
    assert_eq!(regs.read_reg(GPIORIS), 0x02);
    assert!(!regs.write_reg(GPIOIC, 0xff));
    assert_eq!(regs.read_reg(GPIORIS), 0);
}

#[test]
fn update_is_idempotent() {
    let mut regs = Pl061Regs {
        data: 0x5a,
        old_in_data: 0x0f,
        dir: 0x11,
        isense: 0x42,
        ibe: 0x80,
        iev: 0x33,
        im: 0xff,
        istate: 0,
        afsel: 0,
        asserted: false,
    };
    assert!(regs.update());
    // Pins 2 and 6 changed; 6 is level-sensitive at the wrong level and 2 went low
    // as selected. Pin 1 is level-sensitive at its level.
    assert_eq!(regs.istate, 0x06);
    assert_eq!(regs.old_in_data, 0x5a);
    let once = regs;
    assert!(!regs.update());
    assert_eq!(regs, once);
}

#[test]
fn press_and_release_are_both_reported() {
    for (press, release, button, pin) in [
        (
            Token::PowerPress,
            Token::PowerRelease,
            Button::Power,
            GPIO_PIN_POWER_BUTTON,
        ),
        (
            Token::SleepPress,
            Token::SleepRelease,
            Button::Sleep,
            GPIO_PIN_SLEEP_BUTTON,
        ),
    ] {
        let mut dev = Pl061::new();
        let mask = 1u8 << pin;
        assert_eq!(button.pin(), pin);
        dev.write(bus_addr(GPIOIBE), &[mask]);
        dev.write(bus_addr(GPIOIE), &[mask]);
        assert_eq!(
            dev.handle_event(press),
            WorkerAction::Press {
                button,
                edge: true,
                hold_ms: GPIO_KEY_LATENCY_MS
            }
        );
        assert_eq!(read_byte(&dev, 0x3fc), mask);
        assert!(!dev.write(bus_addr(GPIOIC), &[mask]));
        assert_eq!(
            dev.handle_event(release),
            WorkerAction::Release { button, edge: true }
        );
        assert_eq!(read_byte(&dev, 0x3fc), 0);
        assert_eq!(read_byte(&dev, GPIOMIS), mask);
    }
    assert_eq!(GPIO_KEY_LATENCY_MS, 100);
}

#[test]
fn worker_stops_on_kill() {
    let mut dev = Pl061::new();
    let before = dev.snapshot();
    assert_eq!(dev.handle_event(Token::Kill), WorkerAction::Stop);
    assert_eq!(dev.snapshot(), before);
    assert_eq!(dev.pwrbtn_evt(), Token::PowerPress);
    assert_eq!(dev.slpbtn_evt(), Token::SleepPress);
}

#[test]
fn worker_stops_when_waiting_fails() {
    assert_eq!(after_wait(true), Some(WorkerAction::Stop));
    assert_eq!(after_wait(false), None);
}

#[test]
fn offsets_with_a_register() {
    for offset in [0u64, 0x3ff, GPIODIR, GPIOIS, GPIOIBE, GPIOIEV, GPIOIE, GPIOAFSEL] {
        assert!(is_readable(offset) && is_writable(offset));
    }
    for offset in [GPIORIS, GPIOMIS, 0xfd0, 0xfff] {
        assert!(is_readable(offset) && !is_writable(offset));
    }
    assert!(!is_readable(GPIOIC) && is_writable(GPIOIC));
    for offset in [0x401u64, 0x424, 0xfcf, 0x1000, u64::MAX] {
        assert!(!is_readable(offset) && !is_writable(offset));
    }
}

#[test]
fn worker_skips_unreadable_events() {
    let event = |token, is_readable| TriggeredEvent { token, is_readable };
    let events = [
        event(Token::PowerPress, false),
        event(Token::SleepPress, true),
        event(Token::PowerRelease, false),
        event(Token::Kill, true),
        event(Token::SleepRelease, false),
    ];
    assert_eq!(next_readable(&events, 0), Some(1));
    assert_eq!(next_readable(&events, 1), Some(1));
    assert_eq!(next_readable(&events, 2), Some(3));
    assert_eq!(next_readable(&events, 4), None);
    assert_eq!(next_readable(&events, 5), None);
    assert_eq!(next_readable(&events, usize::MAX), None);
    assert_eq!(next_readable(&[], 0), None);
}

#[test]
fn worker_handles_events_up_to_kill() {
    let event = |token, is_readable| TriggeredEvent { token, is_readable };
    let before_kill = [
        event(Token::Kill, false),
        event(Token::PowerPress, true),
        event(Token::SleepPress, false),
        event(Token::PowerRelease, true),
        event(Token::SleepPress, true),
    ];
    let mut events = before_kill.to_vec();
    events.push(event(Token::Kill, true));
    let up_to_kill = events.clone();
    events.push(event(Token::SleepRelease, true));
    events.push(event(Token::Kill, true));

    let set_up = || {
        let mut dev = Pl061::new();
        dev.write(bus_addr(GPIOIBE), &[0x18]);
        dev.write(bus_addr(GPIOIE), &[0x18]);
        dev
    };
    let press = |button, edge| WorkerAction::Press {
        button,
        edge,
        hold_ms: 100,
    };

    // No readable `Kill`: all is handled, and the worker goes on.
    let mut dev = set_up();
    let handled = vec![
        press(Button::Power, true),
        WorkerAction::Release {
            button: Button::Power,
            edge: false,
        },
        press(Button::Sleep, false),
    ];
    assert_eq!(dev.handle_events(&before_kill), handled);
    let after = dev.snapshot();
    assert_eq!(after.data, 0x10);
    assert_eq!(after.istate, 0x18);
    assert!(after.asserted);

    // A readable `Kill` ends the work, whatever follows it.
    let mut stopped = handled;
    stopped.push(WorkerAction::Stop);
    for batch in [&up_to_kill, &events] {
        let mut dev = set_up();
        assert_eq!(dev.handle_events(batch), stopped);
        assert_eq!(dev.snapshot(), after);
    }

    // One event at a time.
    let mut dev = set_up();
    let mut actions = Vec::new();
    let mut from = 0;
    while let Some(i) = next_readable(&events, from) {
        let action = dev.handle_event(events[i].token);
        actions.push(action);
        if action == WorkerAction::Stop {
            assert_eq!(i, 5);
            break;
        }
        from = i + 1;
    }
    assert_eq!(actions, stopped);
    assert_eq!(dev.snapshot(), after);

    let mut dev = set_up();
    assert_eq!(dev.handle_events(&[]), vec![]);
    assert_eq!(dev.snapshot(), set_up().snapshot());
}

#[test]
fn snapshot_restores() {
    let mut dev = Pl061::new();
    dev.write(bus_addr(GPIOIBE), &[0xff]);
    dev.write(bus_addr(GPIOIE), &[0x18]);
    dev.handle_event(Token::SleepPress);
    let saved = dev.snapshot();
    assert_eq!(saved.istate, 0x10);
    assert!(saved.asserted);
    let mut other = Pl061::new();
    other.restore(saved);
    assert_eq!(other.snapshot(), saved);
    assert_eq!(read_byte(&other, GPIOMIS), 0x10);
    assert_eq!(other.debug_label(), "Pl061");
}
