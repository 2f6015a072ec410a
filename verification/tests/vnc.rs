use vmm_devices::gpu_display::vnc::{
    DisplayVnc, SharedFramebuffer, VncInputEvent, VncSurface, VNC_INPUT_KEY, VNC_INPUT_NONE,
    VNC_INPUT_POINTER,
};
use vmm_devices::gpu_display::{EventDeviceKind, GpuDisplayError, GpuDisplayEvents, InputEvent};

fn display(width: u32, height: u32) -> DisplayVnc {
    DisplayVnc::new_tcp("0.0.0.0:5900", width, height, None, true)
        .ok()
        .and_then(|startup| startup.finish(true).ok())
        .unwrap()
}

fn pointer(x: i32, y: i32, button_mask: u8) -> VncInputEvent {
    VncInputEvent {
        event_type: VNC_INPUT_POINTER,
        down: 0,
        linux_keycode: 0,
        x,
        y,
        button_mask,
    }
}

fn key(linux_keycode: u16, down: u8) -> VncInputEvent {
    VncInputEvent {
        event_type: VNC_INPUT_KEY,
        down,
        linux_keycode,
        x: 0,
        y: 0,
        button_mask: 0,
    }
}

fn convert(display: &mut DisplayVnc, event: VncInputEvent) -> Option<GpuDisplayEvents> {
    assert!(display.drain_c_event(1, event));
    display.convert_next_event()
}

fn assert_contact(events: Option<GpuDisplayEvents>, id: i32, x: i32, y: i32) {
    let events = events.unwrap();
    assert_eq!(events.device_type, EventDeviceKind::Touchscreen);
    assert_eq!(
        events.events,
        vec![
            InputEvent::MultitouchSlot(0),
            InputEvent::MultitouchTrackingId(id),
            InputEvent::MultitouchAbsoluteX(x),
            InputEvent::MultitouchAbsoluteY(y),
            InputEvent::Touch(true),
        ]
    );
}

fn assert_lift(events: Option<GpuDisplayEvents>) {
    let events = events.unwrap();
    assert_eq!(events.device_type, EventDeviceKind::Touchscreen);
    assert_eq!(
        events.events,
        vec![
            InputEvent::MultitouchSlot(0),
            InputEvent::MultitouchTrackingId(-1),
            InputEvent::Touch(false),
        ]
    );
}

#[test]
fn server_configuration() {
    let startup =
        DisplayVnc::new_tcp("host:5905", 640, 0x8000_0001, Some("pw".to_owned()), true)
            .ok()
            .unwrap();
    assert_eq!(startup.config.width, 640);
    assert_eq!(startup.config.height, -0x7fff_ffff);
    assert_eq!(startup.config.port, 5905);
    assert_eq!(startup.config.password, Some(vec![b'p', b'w', 0]));
    assert!(startup.finish(true).is_ok());

    let startup = DisplayVnc::new_tcp("host", 1, 1, None, true).ok().unwrap();
    assert_eq!(startup.config.port, 5900);
    assert_eq!(startup.config.password, None);
}

#[test]
fn startup_errors() {
    let bad = Some("p\0w".to_owned());
    assert_eq!(
        DisplayVnc::new_tcp("a", 1, 1, bad.clone(), false).err(),
        Some(GpuDisplayError::CreateEvent)
    );
    assert_eq!(
        DisplayVnc::new_tcp("a", 1, 1, None, false).err(),
        Some(GpuDisplayError::CreateEvent)
    );
    assert_eq!(
        DisplayVnc::new_tcp("a", 1, 1, bad, true).err(),
        Some(GpuDisplayError::Allocate)
    );
    let startup = DisplayVnc::new_tcp("a", 1, 1, None, true).ok().unwrap();
    assert_eq!(startup.finish(false).err(), Some(GpuDisplayError::Allocate));
}

#[test]
fn keys_are_reported() {
    let mut display = display(1, 1);
    for (code, down) in [(30u16, 1u8), (30, 0), (57, 255)] {
        let events = convert(&mut display, key(code, down)).unwrap();
        assert_eq!(events.device_type, EventDeviceKind::Keyboard);
        assert_eq!(
            events.events,
            vec![InputEvent::Key {
                code,
                pressed: down != 0,
                repeat: false
            }]
        );
    }
}

#[test]
fn contact_is_put_down_dragged_and_lifted() {
    let mut display = display(1, 1);
    assert!(convert(&mut display, pointer(1, 2, 0)).is_none());
    assert_contact(convert(&mut display, pointer(3, 4, 1)), 0, 3, 4);
    assert_contact(convert(&mut display, pointer(5, 6, 1)), 0, 5, 6);
    // A key in between changes nothing.
    assert!(convert(&mut display, key(30, 1)).is_some());
    assert_contact(convert(&mut display, pointer(7, 8, 3)), 0, 7, 8);
    assert_lift(convert(&mut display, pointer(9, 9, 2)));
    assert!(convert(&mut display, pointer(9, 9, 0)).is_none());
    assert_contact(convert(&mut display, pointer(-1, -2, 5)), 1, -1, -2);
    assert_contact(convert(&mut display, pointer(0, 0, 1)), 1, 0, 0);
    assert_lift(convert(&mut display, pointer(0, 0, 0)));
    assert_contact(convert(&mut display, pointer(0, 0, 0xff)), 2, 0, 0);
}

#[test]
fn other_buttons_do_not_touch() {
    let mut display = display(1, 1);
    for mask in [2u8, 4, 0xfe, 0] {
        assert!(convert(&mut display, pointer(1, 1, mask)).is_none());
    }
}

#[test]
fn unknown_events_are_dropped() {
    let mut display = display(1, 1);
    for event_type in [0u8, 3, 255] {
        let event = VncInputEvent {
            event_type,
            ..pointer(1, 1, 1)
        };
        assert!(convert(&mut display, event).is_none());
    }
    // They did not count as a press.
    assert_contact(convert(&mut display, pointer(1, 1, 1)), 0, 1, 1);
}

#[test]
fn events_are_queued_in_order() {
    let mut display = display(1, 1);
    assert!(!display.pending_events(0));
    assert!(display.pending_events(1));
    assert!(display.pending_events(-1));
    assert!(!display.drain_c_event(VNC_INPUT_NONE, key(1, 1)));
    assert!(!display.pending_events(0));
    assert!(display.drain_c_event(1, key(10, 1)));
    assert!(display.drain_c_event(-7, key(11, 1)));
    assert!(display.pending_events(0));
    for code in [10u16, 11] {
        let events = display.convert_next_event().unwrap();
        assert_eq!(
            events.events,
            vec![InputEvent::Key {
                code,
                pressed: true,
                repeat: false
            }]
        );
    }
    assert!(display.convert_next_event().is_none());
    assert!(!display.pending_events(0));
}

#[test]
fn surface_size_defaults_to_display() {
    let mut display = display(3, 2);
    assert_eq!(display.resize_request(None, 0, 0), None);
    assert_eq!(display.resize_request(None, 3, 2), None);
    assert_eq!(display.resize_request(None, 3, 0), None);
    assert_eq!(display.resize_request(None, 5, 0), Some((5, 2)));
    assert_eq!(display.resize_request(None, 0, u32::MAX), Some((3, -1)));
    assert_eq!(display.resize_request(Some(1), 5, 5), None);
    // No resize, so its status does not matter.
    let created = display.create_surface(None, 0, 2, 1).ok().unwrap();
    assert_eq!(created.shared_fb.width, 3);
    assert_eq!(created.shared_fb.height, 2);
    assert_eq!(created.shared_fb.data, vec![0u8; 24]);
}

#[test]
fn surface_resizes_display() {
    let mut display = display(3, 2);
    let created = display.create_surface(None, 4, 0, 0).ok().unwrap();
    assert_eq!(created.shared_fb.width, 4);
    assert_eq!(created.shared_fb.data.len(), 32);
    // The display has the new size now.
    assert_eq!(display.resize_request(None, 4, 2), None);
    assert_eq!(display.resize_request(None, 3, 2), Some((3, 2)));
}

#[test]
fn surface_is_created_again() {
    let mut display = display(3, 2);
    let mut first = display.create_surface(None, 4, 1, 0).ok().unwrap();
    first.surface.framebuffer().unwrap().slice.fill(7);
    first.surface.flip(&mut first.shared_fb);
    assert_eq!(display.resize_request(None, 4, 1), None);
    // No resize, so its status does not matter.
    let second = display.create_surface(None, 4, 1, -1).ok().unwrap();
    assert_eq!(second.surface.buffer_len(), 16);
    assert_eq!(second.shared_fb.data, vec![0u8; 16]);
    assert_eq!(first.shared_fb.data, vec![7u8; 16]);
}

#[test]
fn surface_errors() {
    let mut display = display(3, 2);
    assert_eq!(
        display.create_surface(Some(0), 3, 2, 0).err(),
        Some(GpuDisplayError::Unsupported)
    );
    assert_eq!(
        display.create_surface(None, 9, 9, 1).err(),
        Some(GpuDisplayError::Allocate)
    );
    // A refused resize leaves the display as it was.
    assert_eq!(display.resize_request(None, 3, 2), None);
}

#[test]
fn frame_is_drawn_and_flipped() {
    let mut display = display(2, 2);
    let mut created = display.create_surface(None, 0, 0, 0).ok().unwrap();
    let frame: Vec<u8> = (1..=16).collect();
    let framebuffer = created.surface.framebuffer().unwrap();
    assert_eq!(framebuffer.stride, 8);
    assert_eq!(framebuffer.bytes_per_pixel, 4);
    framebuffer.slice.copy_from_slice(&frame);
    assert_eq!(created.shared_fb.data, vec![0u8; 16]);
    assert_eq!(created.surface.flip(&mut created.shared_fb), 16);
    assert_eq!(created.shared_fb.data, frame);
    assert_eq!(created.surface.flip(&mut created.shared_fb), 16);
    assert_eq!(created.shared_fb.data, frame);
}

#[test]
fn flip_copies_what_fits() {
    let mut surface = VncSurface::new(1, 1);
    surface.framebuffer().unwrap().slice.copy_from_slice(&[1, 2, 3, 4]);
    let mut large = SharedFramebuffer {
        width: 1,
        height: 1,
        data: vec![9u8; 6],
    };
    assert_eq!(surface.flip(&mut large), 4);
    assert_eq!(large.data, vec![1, 2, 3, 4, 9, 9]);
    let mut small = SharedFramebuffer {
        width: 1,
        height: 1,
        data: vec![9u8; 3],
    };
    assert_eq!(surface.flip(&mut small), 3);
    assert_eq!(small.data, vec![1, 2, 3]);
}
