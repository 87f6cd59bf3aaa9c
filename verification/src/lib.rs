//! An interactive shell that can be built into a program, to look around in
//! a sandbox from the inside: a chroot, a seccomp filter, a container. It
//! needs no external programs. It reads lines from an interface that can be
//! replaced while it runs, and dispatches them to commands from a toolbox
//! that the embedding program can extend.

pub mod builtins;
pub mod busybox;
pub mod codec;
pub mod completer;
pub mod crypto;
pub mod ctrl;
pub mod errors;
pub mod ffi;
pub mod lambda;
pub mod parser;
pub mod pattern;
pub mod plans;
pub mod shell;
pub mod text;
pub mod tls;
pub mod toolbox;

pub use crate::ctrl::Interface;
pub use crate::errors::Error;
pub use crate::shell::{Command, Shell};
pub use crate::toolbox::Toolbox;
