//! Verified core of a cross-platform quick-preview launcher.
//!
//! The library holds the platform-independent logic: the preview session
//! (an ordered file list with a cyclic cursor), the navigation loop that
//! turns key events into preview requests, and the path computations of
//! the toolchain discovery helpers. Platform previewers and the global
//! key hook are collaborators behind narrow interfaces.

pub mod event;
pub mod navigation;
pub mod previewer;
pub mod session;
pub mod toolchain;
