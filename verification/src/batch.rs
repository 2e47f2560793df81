//! Execution of a download schedule, one entry at a time, tolerating
//! per-entry failure.
//!
//! The runner owns every decision of the run; the caller spawns the helper,
//! copies files and computes checksums as commanded, and reports each
//! outcome.  A helper that cannot be spawned or exits non-zero costs one
//! error and the run moves to the next entry
//! ([`lemma_batch_continues_after_failure`]); a failed copy ends the run, as
//! a filesystem fault outside the per-entry loop would.  The run concludes
//! with its total error count; zero errors is success.

use vstd::prelude::*;
use crate::schemas::Mod;

verus! {

/// What the caller is to do next.
pub enum BatchCommand {
    /// Spawn the download helper for this item and wait for it.
    Download { id: String },
    /// Copy the helper's output for this item into the collection,
    /// computing the fresh copy's checksum if asked to.
    Copy { id: String, compute_checksum: bool },
    /// The whole schedule was processed; this many entries failed.
    Finished { errors: usize },
    /// A copy failed; the run stopped with this many entries failed so far.
    Aborted { errors: usize },
}

/// How driving the helper for one entry went.
pub enum HelperResult {
    /// The helper process could not be spawned at all.
    SpawnFailed,
    /// The helper ran and exited with this code; zero is success.
    Exited(u32),
}

/// How copying one downloaded entry went.
pub enum CopyResult {
    /// The copy succeeded; the fresh copy's checksum is attached when one
    /// was commanded.
    Copied { checksum: Option<String> },
    /// The copy failed.
    CopyFailed,
}

/// Whether a helper outcome counts as success.
pub open spec fn helper_ok(outcome: HelperResult) -> bool {
    match outcome {
        HelperResult::SpawnFailed => false,
        HelperResult::Exited(code) => code == 0,
    }
}

/// Whether a computed checksum contradicts what the entry expected.  No
/// expectation, or no verification asked for, contradicts nothing.
pub open spec fn checksum_mismatch(
    entry: crate::schemas::ModView,
    verify: bool,
    got: Option<Seq<char>>,
) -> bool {
    verify && match (entry.checksum, got) {
        (Some(expected), Some(computed)) => computed != expected,
        _ => false,
    }
}

/// One download run in progress.
pub struct BatchRunner {
    /// The schedule, fixed at the start of the run.
    pub entries: Vec<Mod>,
    /// How many entries are settled; the entry at this index, if any, is
    /// the one in progress.
    pub next_index: usize,
    /// The entry in progress has downloaded and awaits its copy.
    pub copying: bool,
    /// How many entries have failed so far.
    pub errors: usize,
    /// Whether fresh copies are checksummed and compared.
    pub verify_checksums: bool,
    /// A copy failed and the run stopped.
    pub aborted: bool,
}

impl BatchRunner {
    /// The runner's invariant: the cursor stays on the schedule and at most
    /// one error was counted per settled entry.
    pub open spec fn wf(self) -> bool {
        &&& self.next_index <= self.entries@.len()
        &&& self.errors <= self.next_index
        &&& self.copying ==> self.next_index < self.entries@.len()
    }

    /// The runner after a download report: success moves the entry to its
    /// copy step, failure costs one error and settles the entry.
    pub open spec fn after_download(self, ok: bool) -> BatchRunner {
        if ok {
            BatchRunner { copying: true, ..self }
        } else {
            BatchRunner {
                errors: (self.errors + 1) as usize,
                next_index: (self.next_index + 1) as usize,
                ..self
            }
        }
    }

    /// The runner after a successful copy report: the entry settles, and a
    /// checksum mismatch costs one error.
    pub open spec fn after_copied(self, got: Option<Seq<char>>) -> BatchRunner {
        BatchRunner {
            copying: false,
            next_index: (self.next_index + 1) as usize,
            errors: if checksum_mismatch(
                self.entries@[self.next_index as int]@,
                self.verify_checksums,
                got,
            ) {
                (self.errors + 1) as usize
            } else {
                self.errors
            },
            ..self
        }
    }

    /// The runner after a failed copy report: the run stops.
    pub open spec fn after_copy_failed(self) -> BatchRunner {
        BatchRunner { aborted: true, ..self }
    }

    /// Start a run over a schedule.
    pub fn new(entries: Vec<Mod>, verify_checksums: bool) -> (r: BatchRunner)
        ensures
            r.wf(),
            r.entries == entries,
            r.next_index == 0,
            !r.copying,
            r.errors == 0,
            r.verify_checksums == verify_checksums,
            !r.aborted,
    {
        BatchRunner {
            entries,
            next_index: 0,
            copying: false,
            errors: 0,
            verify_checksums,
            aborted: false,
        }
    }

    /// What the caller is to do now.
    pub fn current_command(&self) -> (c: BatchCommand)
        requires
            self.wf(),
        ensures
            self.aborted ==> (c matches BatchCommand::Aborted { errors } && errors == self.errors),
            !self.aborted && self.next_index == self.entries@.len() ==> (c
                matches BatchCommand::Finished { errors } && errors == self.errors),
            !self.aborted && self.next_index < self.entries@.len() && !self.copying ==> (c
                matches BatchCommand::Download { id } && id@ == self.entries@[
                self.next_index as int
            ].id@),
            !self.aborted && self.next_index < self.entries@.len() && self.copying ==> (c
                matches BatchCommand::Copy { id, compute_checksum } && id@ == self.entries@[
                self.next_index as int
            ].id@ && compute_checksum == self.verify_checksums),
    {
        if self.aborted {
            BatchCommand::Aborted { errors: self.errors }
        } else if self.next_index == self.entries.len() {
            BatchCommand::Finished { errors: self.errors }
        } else if self.copying {
            BatchCommand::Copy {
                id: self.entries[self.next_index].id.clone(),
                compute_checksum: self.verify_checksums,
            }
        } else {
            BatchCommand::Download { id: self.entries[self.next_index].id.clone() }
        }
    }

    /// Report how the commanded download went.
    pub fn report_download(&mut self, outcome: HelperResult)
        requires
            old(self).wf(),
            !old(self).aborted,
            !old(self).copying,
            old(self).next_index < old(self).entries@.len(),
        ensures
            *final(self) == old(self).after_download(helper_ok(outcome)),
            final(self).wf(),
    {
        proof {
            vstd::std_specs::vec::axiom_spec_len(&self.entries);
        }
        match outcome {
            HelperResult::Exited(code) => {
                if code == 0 {
                    self.copying = true;
                } else {
                    self.errors = self.errors + 1;
                    self.next_index = self.next_index + 1;
                }
            },
            HelperResult::SpawnFailed => {
                self.errors = self.errors + 1;
                self.next_index = self.next_index + 1;
            },
        }
    }

    /// Report how the commanded copy went.
    pub fn report_copy(&mut self, outcome: CopyResult)
        requires
            old(self).wf(),
            !old(self).aborted,
            old(self).copying,
            old(self).verify_checksums ==> (outcome matches CopyResult::Copied { checksum }
                ==> checksum matches Some(_)),
        ensures
            outcome matches CopyResult::CopyFailed ==> *final(self) == old(
                self,
            ).after_copy_failed(),
            (outcome matches CopyResult::Copied { checksum } && *final(self) == old(
                self,
            ).after_copied(crate::schemas::opt_str_view(checksum))) || (outcome
                matches CopyResult::CopyFailed),
            final(self).wf(),
    {
        proof {
            vstd::std_specs::vec::axiom_spec_len(&self.entries);
        }
        match outcome {
            CopyResult::CopyFailed => {
                self.aborted = true;
            },
            CopyResult::Copied { checksum } => {
                if self.verify_checksums {
                    let entry = &self.entries[self.next_index];
                    let mismatch = match (&entry.checksum, &checksum) {
                        (Some(expected), Some(computed)) => !computed.eq(expected),
                        _ => false,
                    };
                    if mismatch {
                        self.errors = self.errors + 1;
                    }
                }
                self.copying = false;
                self.next_index = self.next_index + 1;
            },
        }
    }
}

/// Law (partial-failure tolerance): an entry whose download fails — spawn
/// failure or non-zero exit alike — costs exactly one error and nothing
/// else; the run is not aborted, every later entry is still there, and the
/// very next command is the next entry's download.
pub proof fn lemma_batch_continues_after_failure(r: BatchRunner, outcome: HelperResult)
    requires
        r.wf(),
        !r.aborted,
        !r.copying,
        r.next_index < r.entries@.len(),
        !helper_ok(outcome),
    ensures
        r.after_download(helper_ok(outcome)).wf(),
        r.after_download(helper_ok(outcome)).errors == r.errors + 1,
        r.after_download(helper_ok(outcome)).next_index == r.next_index + 1,
        r.after_download(helper_ok(outcome)).entries == r.entries,
        !r.after_download(helper_ok(outcome)).aborted,
        !r.after_download(helper_ok(outcome)).copying,
{
    vstd::std_specs::vec::axiom_spec_len(&r.entries);
}

} // verus!
