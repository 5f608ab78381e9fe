//! How a run of an external converter ends. The converter reads its input
//! on standard input while its output is read from standard output; whatever
//! goes wrong is reported with the stage at which it went wrong, and never
//! as a shorter output.

use vstd::prelude::*;

verus! {

/// The stage at which a run of a converter failed.
#[derive(Clone, Copy, Debug, PartialEq, Eq, Structural)]
pub enum Stage {
    /// The program could not be started.
    Spawn,
    /// The program ended with a failure, or a pipe to or from it broke.
    Pipe,
    /// The output of the program could not be read as what it should be.
    Parse,
}

/// What is known of a run of a converter once it is over.
#[derive(Clone, Copy, Debug, PartialEq, Eq, Structural)]
pub struct Run {
    /// Whether the program could be started.
    pub spawned: bool,
    /// Whether all of the input could be written to the program, or the
    /// program stopped reading before the input ended.
    pub fed: bool,
    /// Whether the output could be read to its end.
    pub drained: bool,
    /// Whether the program ended with success.
    pub exit_success: bool,
    /// Whether the output could be read as what it should be; true where
    /// the output is taken as it is.
    pub parsed: bool,
}

impl Run {
    /// The stage at which the run failed, if it did.
    pub open spec fn failure(self) -> Option<Stage> {
        if !self.spawned {
            Some(Stage::Spawn)
        } else if !self.exit_success || !self.fed || !self.drained {
            Some(Stage::Pipe)
        } else if !self.parsed {
            Some(Stage::Parse)
        } else {
            None
        }
    }

    /// Decides how the run ended. The output counts only if the program
    /// could be started, took its input, gave its output to the end, ended
    /// with success, and its output could be read.
    pub fn conclude(&self) -> (r: Result<(), Stage>)
        ensures
            r == match self.failure() {
                Some(stage) => Err::<(), Stage>(stage),
                None => Ok(()),
            },
            r is Ok <==> self.spawned && self.fed && self.drained && self.exit_success
                && self.parsed,
    {
        if !self.spawned {
            Err(Stage::Spawn)
        } else if !self.exit_success || !self.fed || !self.drained {
            Err(Stage::Pipe)
        } else if !self.parsed {
            Err(Stage::Parse)
        } else {
            Ok(())
        }
    }
}

/// Whether feeding goes on after a write to the program: it stops when the
/// input has ended, when the program has stopped reading and when the reader
/// of the output has gone.
pub fn keep_feeding(input_ended: bool, write_failed: bool, output_closed: bool) -> (r: bool)
    ensures
        r == (!input_ended && !write_failed && !output_closed),
{
    !input_ended && !write_failed && !output_closed
}

} // verus!
