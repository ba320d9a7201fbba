use vstd::prelude::*;

verus! {

/// Port the server listens on when none is configured.
pub fn default_port() -> (port: u16)
    ensures
        port == 7600,
{
    7600
}

/// Maximum chunk size, in tokens, used when none is configured.
pub fn default_chunk_size() -> (size: usize)
    ensures
        size == 448,
{
    448
}

} // verus!
