//! The sink at the end of a chain: it takes rows and keeps nothing.
use vstd::prelude::*;

use crate::data::Data;
use crate::error::Error;

verus! {

/// A sink that takes rows and does nothing with them.
#[derive(Debug, Clone, Copy)]
pub struct EndSinkType {}

impl EndSinkType {
    /// The end sink; it reads no configuration.
    pub fn new(_config_path: &str) -> (r: EndSinkType)
        ensures
            r == (EndSinkType {}),
    {
        EndSinkType {}
    }

    /// Takes a row and leaves it as it is.
    pub fn sink_data(&self, _data: &Data) -> (r: Result<(), Error>)
        ensures
            r is Ok,
    {
        Ok(())
    }
}

} // verus!
