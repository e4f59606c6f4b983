//! Settings for profiling query execution.
use vstd::prelude::*;

verus! {

/// Which profiling output to produce.
#[derive(Clone, Copy, Debug, PartialEq, Eq, Structural)]
pub enum ProfilingMode {
    Json,
    QueryGraph,
    Both,
}

/// What to profile, and where to write the output.
#[derive(Clone, Debug)]
pub struct ProfilingConfig {
    pub mode: ProfilingMode,
    pub output_dir: String,
    pub enable_detailed: bool,
    pub enable_optimizer_metrics: bool,
    pub enable_planner_metrics: bool,
    pub enable_physical_planner_metrics: bool,
}

impl Default for ProfilingConfig {
    /// JSON output under `profiling`, with every metric enabled.
    fn default() -> (r: ProfilingConfig)
        ensures
            r.mode == ProfilingMode::Json,
            r.output_dir@ == "profiling"@,
            r.enable_detailed,
            r.enable_optimizer_metrics,
            r.enable_planner_metrics,
            r.enable_physical_planner_metrics,
    {
        ProfilingConfig {
            mode: ProfilingMode::Json,
            output_dir: String::from_str("profiling"),
            enable_detailed: true,
            enable_optimizer_metrics: true,
            enable_planner_metrics: true,
            enable_physical_planner_metrics: true,
        }
    }
}

} // verus!
