//! Safety layer between a host process and an embedded, stack-based virtual
//! machine: a scoped guard that keeps the VM's evaluation stack balanced on
//! every exit path, collector-visible references that outlive the stack, and
//! a read-only string handle built on both.

pub mod error;
pub mod guard;
pub mod handle;
pub mod reference;
pub mod vm;

pub use error::Error;
pub use guard::with_guard;
pub use handle::StringHandle;
pub use reference::ManagedReference;
pub use vm::Vm;
