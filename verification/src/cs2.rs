//! The attachment to the target: resolved offsets, the type registry they
//! come from, and the patch loop that consumes them.
//!
//! - [`schema`]: the walk of the type registry.
//! - [`find_offsets`]: the resolution pipeline.
//! - [`dumper`]: the chain of fallback sources.
//! - [`offsets`]: the offset table.
//! - [`entity`]: the entity list, the local player, the categories.
//! - [`skin_changer`]: the patch loop.
//! - [`convergence`], [`protocol`], [`tick`]: what holds of the patch loop.
//! - [`name_table`]: tables keyed by names.

pub mod convergence;
pub mod dumper;
pub mod entity;
pub mod find_offsets;
pub mod name_table;
pub mod offsets;
pub mod protocol;
pub mod schema;
pub mod skin_changer;
pub mod tick;

use vstd::prelude::*;
use crate::config::SkinChangerConfig;
use crate::cs2::dumper::DumperOutput;
use crate::cs2::find_offsets::spec_find_offsets;
use crate::cs2::offsets::Offsets;
use crate::cs2::skin_changer::spec_skin_changer;
use crate::process::Process;

verus! {

/// One attachment to the target process.
pub struct CS2 {
    /// Whether the offsets were resolved for the process at hand.
    pub is_valid: bool,
    pub process: Process,
    pub offsets: Offsets,
}

impl CS2 {
    /// An attachment to no process, with an offset table of zeros.
    pub fn new() -> (r: Self)
        ensures
            !r.is_valid,
            r.process.pid == -1,
            r.process.memory@ == Map::<int, u8>::empty(),
            r.process.modules@.len() == 0,
            r.process.interfaces@.len() == 0,
            r.process.writes@.len() == 0,
            r.offsets == Offsets::zero(),
    {
        CS2 { is_valid: false, process: Process::new(-1), offsets: Offsets::default() }
    }

    /// Whether the attachment can be used: the offsets are resolved and the
    /// process is one.
    pub fn is_valid(&self) -> (r: bool)
        ensures
            r == (self.is_valid && self.process.pid > 0),
    {
        self.is_valid && self.process.is_valid()
    }

    /// Attaches to `process` and resolves the offsets for it. Without a
    /// process the attachment becomes invalid and keeps what it has. Where
    /// the pipeline fails, the process is let go: the attachment becomes
    /// invalid and holds no process. No earlier table outlives a new
    /// attachment.
    pub fn setup(&mut self, process: Option<Process>, sources: &Vec<Option<DumperOutput>>)
        ensures
            match process {
                None => {
                    &&& !final(self).is_valid
                    &&& final(self).process == old(self).process
                    &&& final(self).offsets == old(self).offsets
                },
                Some(found) => match spec_find_offsets(
                    found.memory@,
                    found.modules@,
                    found.interfaces@,
                    found.min,
                    found.max,
                    sources@,
                ) {
                    Some(offsets) => {
                        &&& final(self).is_valid
                        &&& final(self).process == found
                        &&& final(self).offsets == offsets
                    },
                    None => {
                        &&& !final(self).is_valid
                        &&& final(self).process.pid == -1
                        &&& final(self).process.memory@ == Map::<int, u8>::empty()
                        &&& final(self).process.modules@.len() == 0
                        &&& final(self).process.interfaces@.len() == 0
                        &&& final(self).process.writes@.len() == 0
                        &&& final(self).offsets == Offsets::zero()
                    },
                },
            },
    {
        let process = match process {
            Some(process) => process,
            None => {
                self.is_valid = false;
                return ;
            },
        };
        self.process = process;
        match self.find_offsets(sources) {
            Some(offsets) => {
                self.offsets = offsets;
                self.is_valid = true;
            },
            None => {
                self.process = Process::new(-1);
                self.offsets = Offsets::default();
                self.is_valid = false;
            },
        }
    }

    /// Runs one tick against the process at hand. Where the process is no
    /// longer one, the attachment becomes invalid and nothing is written.
    pub fn run(&mut self, config: &SkinChangerConfig)
        ensures
            old(self).process.pid > 0 ==> old(self).patched_to(
                final(self),
                spec_skin_changer(
                    old(self).process.target(),
                    old(self).offsets,
                    config.enabled,
                    config.skins_view(),
                ),
            ),
            old(self).process.pid <= 0 ==> {
                &&& !final(self).is_valid
                &&& final(self).process == old(self).process
                &&& final(self).offsets == old(self).offsets
            },
    {
        if !self.process.is_valid() {
            self.is_valid = false;
            return ;
        }
        self.skin_changer(config);
    }
}

} // verus!
