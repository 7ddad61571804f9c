//! Enrolling this process with a probe daemon: what is declared, how the daemon's
//! replies are judged, when to try again, and what a capture reports.

use vstd::prelude::*;
use vstd::string::*;

pub mod capture;
pub mod client;
pub mod worker;

verus! {

/// Runtime that a process declares.
#[derive(Clone, Copy, Debug, PartialEq, Eq, Structural)]
pub enum Runtime {
    /// Native code.
    Native,
    /// A Python interpreter.
    Python,
}

/// How a process enrolls.
#[derive(Clone, Debug, PartialEq, Eq)]
pub struct Config {
    /// Class of the application.
    pub app_class: String,
    /// Name of the application.
    pub app_name: String,
    /// Version of the application.
    pub app_version: String,
    /// Name of this instance.
    pub instance: Option<String>,
    /// Declared runtime.
    pub runtime: Runtime,
    /// Where the daemon listens, if it is to be found elsewhere than usual.
    pub socket_override: Option<String>,
}

impl Config {
    /// A native application of a class.
    pub fn new(app_class: &str) -> (c: Config)
        ensures
            c.app_class@ == app_class@,
            c.app_name@.len() == 0,
            c.app_version@.len() == 0,
            c.instance is None,
            c.runtime == Runtime::Native,
            c.socket_override is None,
    {
        Config {
            app_class: app_class.to_owned(),
            app_name: String::new(),
            app_version: String::new(),
            instance: None,
            runtime: Runtime::Native,
            socket_override: None,
        }
    }

    /// The configuration with another runtime.
    pub fn with_runtime(self, runtime: Runtime) -> (c: Config)
        ensures
            c == (Config { runtime, ..self }),
    {
        Config { runtime, ..self }
    }
}

/// Fills a buffer with random bytes: `getrandom::fill`. The buffer keeps its
/// length; which bytes it holds is left open, and so is whether the call succeeds.
#[verifier::external_body]
pub(crate) fn fill_random(buffer: &mut Vec<u8>) -> (r: Result<(), String>)
    ensures
        final(buffer)@.len() == old(buffer)@.len(),
{
    getrandom::fill(buffer.as_mut_slice()).map_err(|error| error.to_string())
}

/// A buffer of zeros.
pub(crate) fn zeros(n: usize) -> (buffer: Vec<u8>)
    ensures
        buffer@.len() == n,
        forall|i: int| 0 <= i < n ==> #[trigger] buffer@[i] == 0,
{
    let mut buffer: Vec<u8> = Vec::new();
    while buffer.len() < n
        invariant
            buffer@.len() <= n,
            forall|i: int| 0 <= i < buffer@.len() ==> #[trigger] buffer@[i] == 0,
        decreases n - buffer@.len(),
    {
        buffer.push(0);
    }
    buffer
}

} // verus!
