//! Export bookkeeping: at most one export runs at a time, and a running
//! export can be asked to cancel. The encoder process doing the export and
//! the thread watching it live outside the library; they consult and reset
//! this state through its operations.

use vstd::prelude::*;

verus! {

/// Shared state of the export subsystem.
pub struct ExportManager {
    /// Whether an export is currently running.
    pub is_exporting: bool,
    /// Whether the running export has been asked to stop.
    pub cancel_requested: bool,
}

impl ExportManager {
    /// A manager with no export running.
    pub fn new() -> (m: ExportManager)
        ensures
            !m.is_exporting,
            !m.cancel_requested,
    {
        ExportManager { is_exporting: false, cancel_requested: false }
    }

    /// Claim the right to run an export: fails while one is already in
    /// progress, otherwise marks an export running with a fresh cancel
    /// flag.
    pub fn begin_export(&mut self) -> (r: Result<(), String>)
        ensures
            old(self).is_exporting ==> (r matches Err(e) && e@ == "Export already in progress"@
                && *final(self) == *old(self)),
            !old(self).is_exporting ==> r is Ok && final(self).is_exporting
                && !final(self).cancel_requested,
    {
        if self.is_exporting {
            return Err("Export already in progress".to_owned());
        }
        self.is_exporting = true;
        self.cancel_requested = false;
        Ok(())
    }

    /// Ask the running export to stop: fails when none runs, otherwise
    /// raises the cancel flag for the exporting thread to observe.
    pub fn request_cancel(&mut self) -> (r: Result<(), String>)
        ensures
            !old(self).is_exporting ==> (r matches Err(e) && e@ == "No export in progress"@
                && *final(self) == *old(self)),
            old(self).is_exporting ==> r is Ok && final(self).is_exporting
                && final(self).cancel_requested,
    {
        if !self.is_exporting {
            return Err("No export in progress".to_owned());
        }
        self.cancel_requested = true;
        Ok(())
    }

    /// Record that the export finished, however it ended.
    pub fn finish_export(&mut self)
        ensures
            !final(self).is_exporting,
            final(self).cancel_requested == old(self).cancel_requested,
    {
        self.is_exporting = false;
    }
}

} // verus!
