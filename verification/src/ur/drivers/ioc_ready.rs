//! The latch that holds the first publication of a port until the records exist.
//!
//! A port is polled before any record listens. What it publishes then is lost,
//! and a parameter that holds still afterwards is never published again. So a
//! poller waits at the latch, which the last step of the start-up opens.

use vstd::prelude::*;

verus! {

/// A latch that is shut at first, and open ever after it was opened.
#[derive(Debug, Clone, Copy, PartialEq, Eq, Structural)]
pub struct IocReady {
    pub opened: bool,
}

impl Default for IocReady {
    fn default() -> (r: IocReady)
        ensures
            !r.opened,
    {
        IocReady { opened: false }
    }
}

impl IocReady {
    /// Opens the latch.
    pub fn open(&mut self)
        ensures
            final(self).opened,
    {
        self.opened = true;
    }

    /// Whether one who comes to the latch has to wait.
    pub fn wait(&self) -> (r: bool)
        ensures
            r == !self.opened,
    {
        !self.opened
    }
}

} // verus!
