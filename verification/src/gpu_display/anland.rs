//! Display backend that submits rendered dmabufs directly to a native window,
//! bypassing encoding and copies by the CPU.

use std::collections::HashMap;

use vstd::prelude::*;

use crate::gpu_display::text::{c_string, c_string_of};
use crate::gpu_display::GpuDisplayError;

verus! {

/// Fence descriptor of a buffer that is ready at once.
pub const READY_NOW: i32 = -1;

/// A resource that another component shares with the display.
#[derive(Clone, Copy, Debug, PartialEq, Eq, Structural)]
pub enum DisplayExternalResourceImport {
    /// A dmabuf, and how to read it as an image.
    Dmabuf {
        descriptor: i32,
        offset: u32,
        stride: u32,
        modifiers: u64,
        width: u32,
        height: u32,
        fourcc: u32,
    },
    /// Any other kind of resource.
    Other,
}

/// Why a resource could not be imported.
#[derive(Clone, Copy, Debug, PartialEq, Eq, Structural)]
pub enum ImportError {
    /// The native window refused the dmabuf.
    ImportFailed,
    /// The resource is no dmabuf.
    NotDmabuf,
}

impl ImportError {
    /// The error in words.
    pub open spec fn text(self) -> Seq<char> {
        match self {
            ImportError::ImportFailed => "anland dmabuf import failed"@,
            ImportError::NotDmabuf => "anland backend only supports Dmabuf imports"@,
        }
    }

    /// The error in words.
    pub fn message(self) -> (message: String)
        ensures
            message@ == self.text(),
            self == ImportError::ImportFailed ==> message@ == "anland dmabuf import failed"@,
            self == ImportError::NotDmabuf ==> message@
                == "anland backend only supports Dmabuf imports"@,
    {
        match self {
            ImportError::ImportFailed => "anland dmabuf import failed".to_owned(),
            ImportError::NotDmabuf => "anland backend only supports Dmabuf imports".to_owned(),
        }
    }
}

/// A resource to import, and the surface that it is for.
#[derive(Clone, Copy, Debug, PartialEq, Eq, Structural)]
pub struct ImportRequest {
    /// The surface most recently created, if there is one.
    pub surface: Option<u32>,
    pub resource: DisplayExternalResourceImport,
}

/// An import to release, and the surface that it was for.
#[derive(Clone, Copy, Debug, PartialEq, Eq, Structural)]
pub struct ReleaseRequest {
    /// The surface most recently created, if there is one.
    pub surface: Option<u32>,
    pub import_id: u32,
}

/// A frame to submit to the native window.
#[derive(Clone, Copy, Debug, PartialEq, Eq, Structural)]
pub struct QueuedBuffer {
    /// The import that holds the frame.
    pub import_id: u32,
    /// The fence that signals that the frame is rendered, or `READY_NOW`.
    pub fence_fd: i32,
}

/// A scanout surface backed by the native window.
pub struct AnlandSurface {
    pub surface_id: u32,
    /// The empty map that `create_surface` makes: nothing is ever added, as the window
    /// itself keeps track of a surface's imports and releases them with the surface.
    pub imports: HashMap<u32, ()>,
}

impl AnlandSurface {
    /// The number by which the surface is known.
    pub fn surface_descriptor(&self) -> (descriptor: u64)
        ensures
            descriptor == self.surface_id,
    {
        self.surface_id as u64
    }

    /// The buffer to submit so that `import_id` is shown. It carries no fence, whether or
    /// not there is a release timepoint: with one GPU the barrier implied by the
    /// submission is enough.
    pub fn flip_to(&self, import_id: u32) -> (buffer: QueuedBuffer)
        ensures
            buffer == (QueuedBuffer { import_id, fence_fd: READY_NOW }),
            buffer.fence_fd == -1,
    {
        QueuedBuffer { import_id, fence_fd: READY_NOW }
    }
}

/// A display on a native window that has yet to be connected.
pub struct AnlandStartup {
    /// The socket to connect to as a C string, with its final zero byte.
    pub socket_path: Vec<u8>,
}

impl AnlandStartup {
    /// The display, where `connected` says whether the window could be had, and
    /// `event_created` whether an event could then be created.
    pub fn finish(self, connected: bool, event_created: bool) -> (display: Result<
        DisplayAnland,
        GpuDisplayError,
    >)
        ensures
            match display {
                Ok(display) => connected && event_created && display == (DisplayAnland {
                    next_import_id: 1,
                    last_surface: None,
                }),
                Err(error) => {
                    ||| !connected && error == GpuDisplayError::Unsupported
                    ||| connected && !event_created && error == GpuDisplayError::CreateEvent
                },
            },
    {
        if !connected {
            Err(GpuDisplayError::Unsupported)
        } else if !event_created {
            Err(GpuDisplayError::CreateEvent)
        } else {
            Ok(DisplayAnland { next_import_id: 1, last_surface: None })
        }
    }
}

/// The surface that imports are for after `surface_id` was created, or could not be.
pub open spec fn latest(last: Option<u32>, surface_id: u32, created: bool) -> Option<u32> {
    if created {
        Some(surface_id)
    } else {
        last
    }
}

/// The surface that imports are for after `attempts` to create surfaces, in order. An
/// attempt is a surface id and whether the surface was created.
pub open spec fn latest_of(last: Option<u32>, attempts: Seq<(u32, bool)>) -> Option<u32>
    decreases attempts.len(),
{
    if attempts.len() == 0 {
        last
    } else {
        latest(
            latest_of(last, attempts.drop_last()),
            attempts.last().0,
            attempts.last().1,
        )
    }
}

/// A display on a native window.
pub struct DisplayAnland {
    /// One past the import that last succeeded.
    pub next_import_id: u32,
    /// The surface most recently created, which imports are for.
    pub last_surface: Option<u32>,
}

impl DisplayAnland {
    /// Prepares a display on the window behind `socket_path`.
    pub fn new(socket_path: &str) -> (startup: Result<AnlandStartup, GpuDisplayError>)
        ensures
            match startup {
                Ok(startup) => Some(startup.socket_path@) == c_string_of(socket_path@),
                Err(error) => c_string_of(socket_path@) is None && error
                    == GpuDisplayError::InvalidPath,
            },
    {
        match c_string(socket_path) {
            Some(socket_path) => Ok(AnlandStartup { socket_path }),
            None => Err(GpuDisplayError::InvalidPath),
        }
    }

    /// A surface, if `created` says that the window has one.
    pub fn create_surface(&self, surface_id: u32, created: bool) -> (surface: Result<
        AnlandSurface,
        GpuDisplayError,
    >)
        ensures
            match surface {
                Ok(surface) => created && surface.surface_id == surface_id && surface.imports@
                    == Map::<u32, ()>::empty(),
                Err(error) => !created && error == GpuDisplayError::CreateSurface,
            },
    {
        if created {
            Ok(AnlandSurface { surface_id, imports: HashMap::new() })
        } else {
            Err(GpuDisplayError::CreateSurface)
        }
    }

    /// Makes `surface_id` the surface that imports are for.
    pub fn record_surface(&mut self, surface_id: u32)
        ensures
            final(self).last_surface == Some(surface_id),
            final(self).next_import_id == old(self).next_import_id,
    {
        self.last_surface = Some(surface_id);
    }

    /// A surface, if `created` says that the window has one. Imports are for it from then
    /// on.
    pub fn open_surface(&mut self, surface_id: u32, created: bool) -> (surface: Result<
        AnlandSurface,
        GpuDisplayError,
    >)
        ensures
            match surface {
                Ok(surface) => created && surface.surface_id == surface_id && surface.imports@
                    == Map::<u32, ()>::empty(),
                Err(error) => !created && error == GpuDisplayError::CreateSurface,
            },
            final(self).last_surface == latest(old(self).last_surface, surface_id, created),
            created ==> final(self).last_surface == Some(surface_id),
            !created ==> final(self).last_surface == old(self).last_surface,
            final(self).next_import_id == old(self).next_import_id,
    {
        let surface: AnlandSurface = match self.create_surface(surface_id, created) {
            Ok(surface) => surface,
            Err(error) => {
                return Err(error);
            },
        };
        self.record_surface(surface_id);
        Ok(surface)
    }

    /// What to hand to the window to import `resource`. Only a dmabuf can be imported, and
    /// it is for the surface most recently created.
    pub fn import_request(&self, resource: DisplayExternalResourceImport) -> (request: Option<
        ImportRequest,
    >)
        ensures
            request == if resource is Dmabuf {
                Some(ImportRequest { surface: self.last_surface, resource })
            } else {
                None
            },
    {
        match resource {
            DisplayExternalResourceImport::Dmabuf { .. } => Some(
                ImportRequest { surface: self.last_surface, resource },
            ),
            DisplayExternalResourceImport::Other => None,
        }
    }

    /// What to hand to the window to release an import. It is for the surface most recently
    /// created.
    pub fn release_import(&self, import_id: u32) -> (request: ReleaseRequest)
        ensures
            request == (ReleaseRequest { surface: self.last_surface, import_id }),
    {
        ReleaseRequest { surface: self.last_surface, import_id }
    }

    /// Records the import of `resource`, where `status` is what the window returned for
    /// its dmabuf: zero if it refused.
    pub fn import_resource(
        &mut self,
        import_id: u32,
        resource: DisplayExternalResourceImport,
        status: u32,
    ) -> (imported: Result<(), ImportError>)
        requires
            resource is Dmabuf && status != 0 ==> import_id < u32::MAX,
        ensures
            imported == if resource !is Dmabuf {
                Err::<(), _>(ImportError::NotDmabuf)
            } else if status == 0 {
                Err::<(), _>(ImportError::ImportFailed)
            } else {
                Ok::<(), ImportError>(())
            },
            final(self).next_import_id == if imported is Ok {
                import_id + 1
            } else {
                old(self).next_import_id as int
            },
            final(self).last_surface == old(self).last_surface,
    {
        match resource {
            DisplayExternalResourceImport::Dmabuf { .. } => {
                if status == 0 {
                    return Err(ImportError::ImportFailed);
                }
                self.next_import_id = import_id + 1;
                Ok(())
            },
            DisplayExternalResourceImport::Other => Err(ImportError::NotDmabuf),
        }
    }
}

/// Imports are for the surface of the last attempt that succeeded, whatever was tried
/// before and failed after it.
pub proof fn law_imports_are_for_latest_surface(
    last: Option<u32>,
    attempts: Seq<(u32, bool)>,
    success: int,
)
    requires
        0 <= success < attempts.len(),
        attempts[success].1,
        forall|i: int| success < i < attempts.len() ==> !(#[trigger] attempts[i]).1,
    ensures
        latest_of(last, attempts) == Some(attempts[success].0),
    decreases attempts.len(),
{
    let earlier = attempts.drop_last();
    if success < earlier.len() {
        assert(forall|i: int| 0 <= i < earlier.len() ==> earlier[i] == attempts[i]);
        assert(!attempts[attempts.len() - 1].1);
        law_imports_are_for_latest_surface(last, earlier, success);
    }
}

/// Attempts that fail leave imports for the surface that they were for.
pub proof fn law_failed_attempts_change_nothing(last: Option<u32>, attempts: Seq<(u32, bool)>)
    requires
        forall|i: int| 0 <= i < attempts.len() ==> !(#[trigger] attempts[i]).1,
    ensures
        latest_of(last, attempts) == last,
    decreases attempts.len(),
{
    if attempts.len() > 0 {
        let earlier = attempts.drop_last();
        assert(forall|i: int| 0 <= i < earlier.len() ==> earlier[i] == attempts[i]);
        assert(!attempts[attempts.len() - 1].1);
        law_failed_attempts_change_nothing(last, earlier);
    }
}

/// As long as no surface was created imports are for none.
pub proof fn law_imports_without_surface(attempts: Seq<(u32, bool)>)
    requires
        forall|i: int| 0 <= i < attempts.len() ==> !(#[trigger] attempts[i]).1,
    ensures
        latest_of(None, attempts) is None,
{
    law_failed_attempts_change_nothing(None, attempts);
}

} // verus!
