use vmm_devices::gpu_display::vnc::DisplayVnc;
use vmm_devices::gpu_display::GpuDisplayError;
use vmm_devices::simplefb_display::{
    FrameAction, FrameEvent, SimplefbBridge, SimplefbDisplayParams, VncDisplayTarget, DEFAULT_FPS,
    FRAME_NANOS,
};

fn params(width: u32, height: u32, stride: u32) -> SimplefbDisplayParams {
    SimplefbDisplayParams {
        addr: 0x1_0000_0000,
        width,
        height,
        stride,
        bpp: 32,
        size: u64::from(stride) * u64::from(height),
    }
}

#[test]
fn frame_time() {
    assert_eq!(DEFAULT_FPS, 30);
    assert_eq!(FRAME_NANOS, 33_333_333);
    let bridge = SimplefbBridge::new(&params(1, 1, 4));
    let pause = |elapsed_nanos| bridge.next(FrameEvent::Presented { elapsed_nanos });
    assert_eq!(pause(0), FrameAction::Pause { nanos: 33_333_333 });
    assert_eq!(pause(33_333_332), FrameAction::Pause { nanos: 1 });
    assert_eq!(pause(33_333_333), FrameAction::Pause { nanos: 0 });
    assert_eq!(pause(u128::MAX), FrameAction::Pause { nanos: 0 });
}

#[test]
fn cycle() {
    let bridge = SimplefbBridge::new(&params(1, 1, 4));
    assert_eq!(bridge.next(FrameEvent::Begin), FrameAction::DispatchEvents);
    let read = FrameAction::ReadGuest {
        addr: 0x1_0000_0000,
    };
    let dispatched = |failed| bridge.next(FrameEvent::Dispatched { failed });
    assert_eq!(dispatched(None), read);
    assert_eq!(
        dispatched(Some(GpuDisplayError::IoError { would_block: true })),
        read
    );
    for error in [
        GpuDisplayError::IoError { would_block: false },
        GpuDisplayError::ConnectionBroken,
        GpuDisplayError::Allocate,
        GpuDisplayError::Other,
    ] {
        assert_eq!(dispatched(Some(error)), FrameAction::Stop);
    }
    assert_eq!(
        bridge.next(FrameEvent::GuestRead { readable: true }),
        FrameAction::Present
    );
    assert_eq!(
        bridge.next(FrameEvent::GuestRead { readable: false }),
        FrameAction::Stop
    );
}

#[test]
fn frame_reaches_server() {
    let params = params(2, 3, 8);
    let mut bridge = SimplefbBridge::new(&params);
    let frame: Vec<u8> = (100..124).collect();
    assert_eq!(bridge.frame_buffer(), &[0u8; 24][..]);
    bridge.frame_buffer().copy_from_slice(&frame);

    let target = VncDisplayTarget {
        addr: "127.0.0.1:5901".to_owned(),
        password: None,
    };
    let startup =
        DisplayVnc::new_tcp(&target.addr, params.width, params.height, target.password, true)
            .ok()
            .unwrap();
    assert_eq!(startup.config.port, 5901);
    let mut display = startup.finish(true).ok().unwrap();
    let mut created = display
        .create_surface(None, params.width, params.height, 0)
        .ok()
        .unwrap();
    let framebuffer = created.surface.framebuffer().unwrap();
    assert_eq!(bridge.present(framebuffer.slice), 24);
    assert_eq!(created.surface.flip(&mut created.shared_fb), 24);
    assert_eq!(created.shared_fb.data, frame);
}

#[test]
fn present_copies_what_fits() {
    let mut bridge = SimplefbBridge::new(&params(1, 2, 3));
    bridge.frame_buffer().copy_from_slice(&[1, 2, 3, 4, 5, 6]);
    let mut large = [9u8; 8];
    assert_eq!(bridge.present(&mut large), 6);
    assert_eq!(large, [1, 2, 3, 4, 5, 6, 9, 9]);
    let mut small = [9u8; 2];
    assert_eq!(bridge.present(&mut small), 2);
    assert_eq!(small, [1, 2]);
}
