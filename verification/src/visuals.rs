//! What shows the machine to the user between two steps.
use vstd::prelude::*;
use crate::device::Device;
use crate::error::Error;

verus! {

/// The face of the debugger.
pub trait Visuals {
    /// Prepares the screen; called once before the first step.
    fn setup(&mut self) -> Result<(), Error>;

    /// Called once after the last step.
    fn done(&mut self, device: &mut Device) -> Result<(), Error>;

    /// Returns `false` if the debugger should continue running.
    /// `true` will cause the debugger to exit.
    fn draw(&mut self, device: &mut Device) -> Result<bool, Error>;
}

/// A face that shows nothing and never asks to stop.
pub struct NoopVisuals;

impl Visuals for NoopVisuals {
    fn setup(&mut self) -> (r: Result<(), Error>)
        ensures
            r is Ok,
    {
        Ok(())
    }

    fn done(&mut self, device: &mut Device) -> (r: Result<(), Error>)
        ensures
            r is Ok,
            *final(device) == *old(device),
    {
        Ok(())
    }

    fn draw(&mut self, device: &mut Device) -> (r: Result<bool, Error>)
        ensures
            r matches Ok(exit) && !exit,
            *final(device) == *old(device),
    {
        Ok(false)
    }
}

} // verus!
