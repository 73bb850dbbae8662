//! The startup migration gate.
//!
//! Schema migrations run a single time, during process initialization,
//! before any request is served. The phase moves from `NotMigrated`
//! through `Running` to either `Migrated` or `Aborted`, and on failure
//! the startup sequence must refuse to proceed to the serving phase.

use vstd::prelude::*;

verus! {

/// Where the migration gate stands.
pub enum MigrationPhase {
    /// Startup has not reached the migration step yet.
    NotMigrated,
    /// The migration set is being applied.
    Running,
    /// Every pending migration was applied; the service may accept traffic.
    Migrated,
    /// A migration failed; startup must abort and the service never serves.
    Aborted,
}

/// The migration step of the startup sequence. The precondition of
/// [`Migrator::run`] rules out running it twice.
pub struct Migrator {
    phase: MigrationPhase,
}

impl Migrator {
    pub closed spec fn phase(&self) -> MigrationPhase {
        self.phase
    }

    /// A fresh gate, before the migration step.
    pub fn new() -> (r: Migrator)
        ensures
            r.phase() is NotMigrated,
    {
        Migrator { phase: MigrationPhase::NotMigrated }
    }

    /// Consume the outcome of applying the migration set, in its fixed
    /// order, through one pooled connection. `Ok` moves the phase
    /// to `Migrated`; `Err` moves it to `Aborted` and hands the failure
    /// text back so the startup sequence can refuse to serve.
    pub fn run(&mut self, outcome: Result<(), String>) -> (r: Result<(), String>)
        requires
            old(self).phase() is NotMigrated,
        ensures
            final(self).phase() is Migrated <==> outcome is Ok,
            final(self).phase() is Aborted <==> outcome is Err,
            match (r, outcome) {
                (Ok(()), Ok(())) => true,
                (Err(e), Err(cause)) => e@ == cause@,
                _ => false,
            },
    {
        self.phase = MigrationPhase::Running;
        match outcome {
            Ok(()) => {
                self.phase = MigrationPhase::Migrated;
                Ok(())
            },
            Err(cause) => {
                self.phase = MigrationPhase::Aborted;
                Err(cause)
            },
        }
    }
}

} // verus!
