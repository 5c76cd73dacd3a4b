//! The per-outcome counters behind the progress display, and the scoreboard
//! counters behind its optional second line.

use crate::jobs::JobResult;
use vstd::prelude::*;

verus! {

/// Monotone counters, one per outcome, plus the scoreboard counters. The
/// display renders them; only `finish_job` and the `stride_*` transitions
/// ever change them.
#[derive(Debug, PartialEq, Eq, Structural)]
pub struct ProgressCounters {
    pub num_valid: u64,
    pub num_infeasible: u64,
    pub num_emptysolution: u64,
    pub num_invalidinstance: u64,
    pub num_syntaxerror: u64,
    pub num_systemerror: u64,
    pub num_solvererror: u64,
    pub num_timeout: u64,
    pub num_stride_instances: u64,
    pub num_stride_queued: u64,
    pub num_stride_best_known: u64,
    pub num_stride_new_best_known: u64,
    pub num_stride_no_response: u64,
    pub num_stride_suboptimal: u64,
}

impl ProgressCounters {
    /// The number of jobs counted as finished so far.
    pub open spec fn total_finished(self) -> int {
        self.num_valid + self.num_infeasible + self.num_emptysolution + self.num_invalidinstance
            + self.num_syntaxerror + self.num_systemerror + self.num_solvererror + self.num_timeout
    }

    pub fn new() -> (r: ProgressCounters)
        ensures
            r.total_finished() == 0,
            r.num_stride_instances == 0,
            r.num_stride_queued == 0,
            r.num_stride_best_known == 0,
            r.num_stride_new_best_known == 0,
            r.num_stride_no_response == 0,
            r.num_stride_suboptimal == 0,
    {
        ProgressCounters {
            num_valid: 0,
            num_infeasible: 0,
            num_emptysolution: 0,
            num_invalidinstance: 0,
            num_syntaxerror: 0,
            num_systemerror: 0,
            num_solvererror: 0,
            num_timeout: 0,
            num_stride_instances: 0,
            num_stride_queued: 0,
            num_stride_best_known: 0,
            num_stride_new_best_known: 0,
            num_stride_no_response: 0,
            num_stride_suboptimal: 0,
        }
    }

    /// Counts one finished job under its outcome: exactly the matching
    /// counter grows by one.
    pub fn finish_job(&mut self, result: JobResult)
        requires
            old(self).total_finished() < u64::MAX,
        ensures
            final(self).total_finished() == old(self).total_finished() + 1,
            final(self).num_valid == old(self).num_valid + (if result is Valid {
                1int
            } else {
                0int
            }),
            final(self).num_infeasible == old(self).num_infeasible + (if result is Infeasible {
                1int
            } else {
                0int
            }),
            final(self).num_emptysolution == old(self).num_emptysolution + (if result
                is EmptySolution {
                1int
            } else {
                0int
            }),
            final(self).num_invalidinstance == old(self).num_invalidinstance + (if result
                is InvalidInstance {
                1int
            } else {
                0int
            }),
            final(self).num_syntaxerror == old(self).num_syntaxerror + (if result is SyntaxError {
                1int
            } else {
                0int
            }),
            final(self).num_systemerror == old(self).num_systemerror + (if result is SystemError {
                1int
            } else {
                0int
            }),
            final(self).num_solvererror == old(self).num_solvererror + (if result is SolverError {
                1int
            } else {
                0int
            }),
            final(self).num_timeout == old(self).num_timeout + (if result is Timeout {
                1int
            } else {
                0int
            }),
            final(self).num_stride_instances == old(self).num_stride_instances,
            final(self).num_stride_queued == old(self).num_stride_queued,
            final(self).num_stride_best_known == old(self).num_stride_best_known,
            final(self).num_stride_new_best_known == old(self).num_stride_new_best_known,
            final(self).num_stride_no_response == old(self).num_stride_no_response,
            final(self).num_stride_suboptimal == old(self).num_stride_suboptimal,
    {
        match result {
            JobResult::Valid { .. } => {
                self.num_valid = self.num_valid + 1;
            },
            JobResult::Infeasible => {
                self.num_infeasible = self.num_infeasible + 1;
            },
            JobResult::InvalidInstance => {
                self.num_invalidinstance = self.num_invalidinstance + 1;
            },
            JobResult::SyntaxError => {
                self.num_syntaxerror = self.num_syntaxerror + 1;
            },
            JobResult::SystemError => {
                self.num_systemerror = self.num_systemerror + 1;
            },
            JobResult::SolverError => {
                self.num_solvererror = self.num_solvererror + 1;
            },
            JobResult::Timeout => {
                self.num_timeout = self.num_timeout + 1;
            },
            JobResult::EmptySolution => {
                self.num_emptysolution = self.num_emptysolution + 1;
            },
        }
    }

    /// Announces how many instances carry a digest; shown on the scoreboard
    /// line.
    pub fn set_num_stride_instance(&mut self, num_instances: u64)
        requires
            old(self).num_stride_instances == 0,
        ensures
            *final(self) == (ProgressCounters { num_stride_instances: num_instances, ..*old(self) }),
    {
        self.num_stride_instances = num_instances;
    }

    /// Counts a descriptor queued for upload.
    pub fn stride_inc_queued(&mut self)
        requires
            old(self).num_stride_queued < u64::MAX,
        ensures
            *final(self) == (ProgressCounters {
                num_stride_queued: (old(self).num_stride_queued + 1) as u64,
                ..*old(self)
            }),
    {
        self.num_stride_queued = self.num_stride_queued + 1;
    }

    /// A queued upload came back matching the best known score.
    pub fn stride_inc_best_known(&mut self)
        requires
            old(self).num_stride_queued > 0,
            old(self).num_stride_best_known < u64::MAX,
        ensures
            *final(self) == (ProgressCounters {
                num_stride_queued: (old(self).num_stride_queued - 1) as u64,
                num_stride_best_known: (old(self).num_stride_best_known + 1) as u64,
                ..*old(self)
            }),
    {
        self.num_stride_queued = self.num_stride_queued - 1;
        self.num_stride_best_known = self.num_stride_best_known + 1;
    }

    /// A queued upload beat the best known score: it counts both as a new
    /// best and as a best known.
    pub fn stride_new_best_known(&mut self)
        requires
            old(self).num_stride_queued > 1,
            old(self).num_stride_new_best_known < u64::MAX,
            old(self).num_stride_best_known < u64::MAX,
        ensures
            *final(self) == (ProgressCounters {
                num_stride_queued: (old(self).num_stride_queued - 2) as u64,
                num_stride_new_best_known: (old(self).num_stride_new_best_known + 1) as u64,
                num_stride_best_known: (old(self).num_stride_best_known + 1) as u64,
                ..*old(self)
            }),
    {
        self.num_stride_queued = self.num_stride_queued - 1;
        self.num_stride_new_best_known = self.num_stride_new_best_known + 1;
        self.stride_inc_best_known();
    }

    /// A queued upload got no answer for its digest.
    pub fn stride_inc_no_response(&mut self)
        requires
            old(self).num_stride_queued > 0,
            old(self).num_stride_no_response < u64::MAX,
        ensures
            *final(self) == (ProgressCounters {
                num_stride_queued: (old(self).num_stride_queued - 1) as u64,
                num_stride_no_response: (old(self).num_stride_no_response + 1) as u64,
                ..*old(self)
            }),
    {
        self.num_stride_queued = self.num_stride_queued - 1;
        self.num_stride_no_response = self.num_stride_no_response + 1;
    }

    /// A queued upload came back beaten by the best known score.
    pub fn stride_suboptimal(&mut self)
        requires
            old(self).num_stride_queued > 0,
            old(self).num_stride_suboptimal < u64::MAX,
        ensures
            *final(self) == (ProgressCounters {
                num_stride_queued: (old(self).num_stride_queued - 1) as u64,
                num_stride_suboptimal: (old(self).num_stride_suboptimal + 1) as u64,
                ..*old(self)
            }),
    {
        self.num_stride_queued = self.num_stride_queued - 1;
        self.num_stride_suboptimal = self.num_stride_suboptimal + 1;
    }
}

} // verus!
