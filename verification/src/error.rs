//! VM errors: fatal (abort run) vs throwable (normal JVM exception).

use vstd::prelude::*;

verus! {

/// A fatal VM error. Aborts the current execution run.
#[derive(Debug, Clone, PartialEq, Eq)]
pub enum JvmError {
    /// A Java exception object (arena id) was thrown and not caught.
    Uncaught(u32),
    /// DEX/class resolution problem.
    Resolution(String),
    /// Instruction decode problem.
    Decode(String),
    /// Instruction budget exhausted (infinite-loop guard).
    BudgetExceeded,
    /// Stack depth limit hit.
    StackOverflow,
    /// System.exit(code)
    Exit(i32),
    /// Everything else.
    Fatal(String),
}

/// What a native bridge can produce besides a value.
#[derive(Debug, Clone, PartialEq, Eq)]
pub enum NatErr {
    /// A Java throwable (arena object id) was raised.
    Throw(u32),
    /// VM-level failure, not a Java exception.
    Fatal(JvmError),
}

/// The VM error a native failure becomes once it leaves the native: a thrown
/// object is uncaught, a fatal error is passed on.
pub open spec fn nat_err_to_jvm(e: NatErr) -> JvmError {
    match e {
        NatErr::Throw(t) => JvmError::Uncaught(t),
        NatErr::Fatal(j) => j,
    }
}

/// The description of an error: a fixed phrase per kind, the detail
/// text after it for resolution, decode and fatal errors.
pub open spec fn error_text(e: JvmError) -> Seq<char> {
    match e {
        JvmError::Uncaught(_) => "uncaught java exception"@,
        JvmError::Resolution(m) => "resolution error: "@ + m@,
        JvmError::Decode(m) => "decode error: "@ + m@,
        JvmError::BudgetExceeded => "instruction budget exceeded"@,
        JvmError::StackOverflow => "stack overflow"@,
        JvmError::Exit(_) => "System.exit"@,
        JvmError::Fatal(m) => "fatal: "@ + m@,
    }
}

impl JvmError {
    /// Converts a native failure into the VM error it stands for.
    pub fn from_nat_err(e: NatErr) -> (r: JvmError)
        ensures
            r == nat_err_to_jvm(e),
    {
        match e {
            NatErr::Throw(t) => JvmError::Uncaught(t),
            NatErr::Fatal(j) => j,
        }
    }

    /// Human-readable description of the error, as [`error_text`] gives it.
    pub fn message(&self) -> (r: String)
        ensures
            r@ == error_text(*self),
    {
        match self {
            JvmError::Uncaught(_) => String::from_str("uncaught java exception"),
            JvmError::Resolution(m) => {
                let mut s = String::from_str("resolution error: ");
                s.append(m.as_str());
                s
            },
            JvmError::Decode(m) => {
                let mut s = String::from_str("decode error: ");
                s.append(m.as_str());
                s
            },
            JvmError::BudgetExceeded => String::from_str("instruction budget exceeded"),
            JvmError::StackOverflow => String::from_str("stack overflow"),
            JvmError::Exit(_) => String::from_str("System.exit"),
            JvmError::Fatal(m) => {
                let mut s = String::from_str("fatal: ");
                s.append(m.as_str());
                s
            },
        }
    }
}

} // verus!
