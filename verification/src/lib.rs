//! A DEX (Dalvik bytecode) virtual machine core: values, the object arena,
//! classes and their resolution, and the host shims for the Java library.

pub mod aes;
pub mod arith;
pub mod cipher;
pub mod civil;
pub mod class;
pub mod dex;
pub mod digest;
pub mod entry;
pub mod error;
pub mod gc;
pub mod gcm;
pub mod host;
pub mod injekt;
pub mod insn;
pub mod interp;
pub mod loader;
pub mod natives;
pub mod object;
pub mod parse;
pub mod permission;
pub mod resolve;
pub mod sig;
pub mod statics;
pub mod text;
pub mod uri;
pub mod value;
pub mod vm;
