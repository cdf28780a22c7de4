use vstd::prelude::*;
use crate::pipeline::checkpoint::CheckpointStrategy;
use crate::pipeline::schedule::{GpipeSchedule, OneF1BSchedule, ScheduleKind};

verus! {

/// Which pipeline schedule to run.
#[derive(Debug, Clone, Copy, PartialEq, Eq, Structural)]
pub enum ScheduleType {
    Gpipe,
    OneF1B,
}

/// The shape of a pipeline run.
#[derive(Debug, Clone, Copy, PartialEq, Eq, Structural)]
pub struct PipelineConfig {
    pub num_stages: usize,
    pub num_microbatches: usize,
    pub checkpoint_strategy: CheckpointStrategy,
    pub schedule_type: ScheduleType,
}

impl Default for PipelineConfig {
    /// One stage, one microbatch, no checkpointing, GPipe.
    fn default() -> (r: Self)
        ensures
            r == (PipelineConfig {
                num_stages: 1,
                num_microbatches: 1,
                checkpoint_strategy: CheckpointStrategy::Disabled,
                schedule_type: ScheduleType::Gpipe,
            }),
    {
        Self {
            num_stages: 1,
            num_microbatches: 1,
            checkpoint_strategy: CheckpointStrategy::Disabled,
            schedule_type: ScheduleType::Gpipe,
        }
    }
}

impl ScheduleKind {
    /// The schedule that a schedule type names.
    pub fn for_type(schedule_type: ScheduleType) -> (r: ScheduleKind)
        ensures
            r == (match schedule_type {
                ScheduleType::Gpipe => ScheduleKind::Gpipe(GpipeSchedule),
                ScheduleType::OneF1B => ScheduleKind::OneF1B(OneF1BSchedule),
            }),
    {
        match schedule_type {
            ScheduleType::Gpipe => ScheduleKind::Gpipe(GpipeSchedule),
            ScheduleType::OneF1B => ScheduleKind::OneF1B(OneF1BSchedule),
        }
    }
}

} // verus!
