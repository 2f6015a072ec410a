use vmm_devices::gpu_display::anland::{
    DisplayAnland, DisplayExternalResourceImport, ImportError, ImportRequest, QueuedBuffer,
    ReleaseRequest,
};
use vmm_devices::gpu_display::GpuDisplayError;

const DMABUF: DisplayExternalResourceImport = DisplayExternalResourceImport::Dmabuf {
    descriptor: 7,
    offset: 0,
    stride: 256,
    modifiers: 0,
    width: 64,
    height: 64,
    fourcc: 0x34325258,
};

fn display() -> DisplayAnland {
    DisplayAnland::new("/run/anland")
        .ok()
        .and_then(|startup| startup.finish(true, true).ok())
        .unwrap()
}

#[test]
fn socket_path_is_a_c_string() {
    let startup = DisplayAnland::new("/a").ok().unwrap();
    assert_eq!(startup.socket_path, vec![b'/', b'a', 0]);
    assert_eq!(
        DisplayAnland::new("/a\0b").err(),
        Some(GpuDisplayError::InvalidPath)
    );
}

#[test]
fn connection_errors() {
    let start = || DisplayAnland::new("/a").ok().unwrap();
    assert_eq!(
        start().finish(false, true).err(),
        Some(GpuDisplayError::Unsupported)
    );
    assert_eq!(
        start().finish(false, false).err(),
        Some(GpuDisplayError::Unsupported)
    );
    assert_eq!(
        start().finish(true, false).err(),
        Some(GpuDisplayError::CreateEvent)
    );
    assert_eq!(start().finish(true, true).ok().unwrap().next_import_id, 1);
}

#[test]
fn surfaces() {
    let display = display();
    assert_eq!(
        display.create_surface(5, false).err(),
        Some(GpuDisplayError::CreateSurface)
    );
    let surface = display.create_surface(5, true).ok().unwrap();
    assert_eq!(surface.surface_descriptor(), 5);
    assert!(surface.imports.is_empty());
    assert_eq!(
        surface.flip_to(9),
        QueuedBuffer {
            import_id: 9,
            fence_fd: -1
        }
    );
}

#[test]
fn imports() {
    let mut display = display();
    assert_eq!(display.import_resource(4, DMABUF, 11), Ok(()));
    assert_eq!(display.next_import_id, 5);
    assert_eq!(
        display.import_resource(8, DMABUF, 0),
        Err(ImportError::ImportFailed)
    );
    assert_eq!(
        display.import_resource(8, DisplayExternalResourceImport::Other, 1),
        Err(ImportError::NotDmabuf)
    );
    assert_eq!(
        display.import_resource(u32::MAX, DMABUF, 0),
        Err(ImportError::ImportFailed)
    );
    assert_eq!(display.next_import_id, 5);
}

#[test]
fn imports_are_for_latest_surface() {
    let mut display = display();
    let request = |display: &DisplayAnland, surface| {
        assert_eq!(
            display.import_request(DMABUF),
            Some(ImportRequest {
                surface,
                resource: DMABUF
            })
        );
        assert_eq!(
            display.release_import(3),
            ReleaseRequest {
                surface,
                import_id: 3
            }
        );
        assert_eq!(
            display.import_request(DisplayExternalResourceImport::Other),
            None
        );
    };
    request(&display, None);
    assert!(display.open_surface(8, true).is_ok());
    request(&display, Some(8));
    assert!(display.open_surface(5, true).is_ok());
    request(&display, Some(5));
    // A surface that could not be created changes nothing, nor does an import.
    assert_eq!(
        display.open_surface(6, false).err(),
        Some(GpuDisplayError::CreateSurface)
    );
    assert_eq!(display.import_resource(1, DMABUF, 1), Ok(()));
    request(&display, Some(5));
    display.record_surface(9);
    request(&display, Some(9));
    assert_eq!(display.next_import_id, 2);
}

#[test]
fn import_errors_in_words() {
    assert_eq!(
        ImportError::ImportFailed.message(),
        "anland dmabuf import failed"
    );
    assert_eq!(
        ImportError::NotDmabuf.message(),
        "anland backend only supports Dmabuf imports"
    );
}
