//! Server configuration values. Reading them from the environment is the
//! embedding program's concern; the library only carries them.

use vstd::prelude::*;

verus! {

/// Where the server listens and which origin it accepts.
#[derive(Debug)]
pub struct Config {
    pub server_address: String,
    pub allowed_origin: String,
}

} // verus!
