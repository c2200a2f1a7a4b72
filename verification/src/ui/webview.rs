//! Host of the local management page.

use crate::error::Error;
use vstd::prelude::*;

verus! {

/// Host of the management web view (no platform web view is embedded yet).
pub struct WebViewHost {}

impl WebViewHost {
    pub fn new() -> (r: Result<Self, Error>)
        ensures
            r is Ok,
    {
        Ok(WebViewHost {})
    }

    /// Starts the web view (nothing to start yet).
    pub fn start(&self) -> (r: Result<(), Error>)
        ensures
            r is Ok,
    {
        Ok(())
    }

    /// Stops the web view.
    pub fn stop(&self) -> (r: Result<(), Error>)
        ensures
            r is Ok,
    {
        Ok(())
    }
}

} // verus!
