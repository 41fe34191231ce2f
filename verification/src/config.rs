//! Configuration sections whose settings are plain values, their defaults, and the
//! structural checks on a fleet configuration.

use vstd::prelude::*;

verus! {

pub struct AgentConfig {
    pub mode: String,
    pub max_tool_calls: usize,
    pub evaluation_interval_s: u64,
    pub incident_trigger: String,
    pub cooldown_s: i64,
}

pub struct MlConfig {
    pub model_path: String,
    pub features_manifest: String,
    pub prediction_interval_s: u64,
    pub warm_up_s: usize,
    pub enabled: bool,
    pub prediction_horizons: Vec<u32>,
}

pub struct TelemetryConfig {
    pub dataset_duration_hours: u32,
    pub dataset_format: String,
    pub partition_by: String,
    pub schema_version: String,
}

pub struct ServerConfig {
    pub bind: String,
    pub port: u16,
    pub log_format: String,
}

pub fn default_gpu_count() -> (n: usize)
    ensures n == 1000,
{
    1000
}

pub fn default_gpus_per_node() -> (n: usize)
    ensures n == 8,
{
    8
}

pub fn default_gpu_model() -> (s: String)
    ensures s@ == "H100"@,
{
    String::from_str("H100")
}

pub fn default_tick_interval_ms() -> (n: u64)
    ensures n == 2000,
{
    2000
}

pub fn default_sampling_interval_s() -> (n: u64)
    ensures n == 30,
{
    30
}

pub fn default_agent_mode() -> (s: String)
    ensures s@ == "rules"@,
{
    String::from_str("rules")
}

pub fn default_max_tool_calls() -> (n: usize)
    ensures n == 10,
{
    10
}

pub fn default_eval_interval() -> (n: u64)
    ensures n == 30,
{
    30
}

pub fn default_incident_trigger() -> (s: String)
    ensures s@ == "CRITICAL"@,
{
    String::from_str("CRITICAL")
}

pub fn default_cooldown_s() -> (n: i64)
    ensures n == 300,
{
    300
}

pub fn default_max_concurrent_jobs() -> (n: usize)
    ensures n == 50,
{
    50
}

pub fn default_default_gpus_per_job() -> (n: usize)
    ensures n == 8,
{
    8
}

pub fn default_true() -> (b: bool)
    ensures b,
{
    true
}

pub fn default_prediction_interval_s() -> (n: u64)
    ensures n == 60,
{
    60
}

pub fn default_warm_up_s() -> (n: usize)
    ensures n == 900,
{
    900
}

pub fn default_horizons() -> (v: Vec<u32>)
    ensures v@ == seq![2u32, 6u32, 24u32],
{
    let mut v: Vec<u32> = Vec::new();
    v.push(2);
    v.push(6);
    v.push(24);
    v
}

pub fn default_duration_hours() -> (n: u32)
    ensures n == 168,
{
    168
}

pub fn default_dataset_format() -> (s: String)
    ensures s@ == "parquet"@,
{
    String::from_str("parquet")
}

pub fn default_partition_by() -> (s: String)
    ensures s@ == "day"@,
{
    String::from_str("day")
}

pub fn default_schema_version() -> (s: String)
    ensures s@ == "1.0"@,
{
    String::from_str("1.0")
}

pub fn default_bind() -> (s: String)
    ensures s@ == "127.0.0.1"@,
{
    String::from_str("127.0.0.1")
}

pub fn default_port() -> (n: u16)
    ensures n == 8080,
{
    8080
}

pub fn default_log_format() -> (s: String)
    ensures s@ == "json"@,
{
    String::from_str("json")
}

/// Why a configuration is refused, in the order the checks run.
#[derive(Clone, Copy, Debug, PartialEq, Eq, Structural)]
pub enum ConfigError {
    /// The seven health weights do not sum to one (within 1e-4).
    WeightsDoNotSumToOne,
    ZeroGpuCount,
    ZeroGpusPerNode,
}

/// The first check a configuration fails, if any: the weight sum (whose comparison with one
/// is made on the floating-point weights and handed in as `weights_sum_to_one`), then the
/// GPU count, then the GPUs per node.
pub open spec fn config_verdict(weights_sum_to_one: bool, gpu_count: usize, gpus_per_node: usize) -> Result<(), ConfigError> {
    if !weights_sum_to_one {
        Err(ConfigError::WeightsDoNotSumToOne)
    } else if gpu_count == 0 {
        Err(ConfigError::ZeroGpuCount)
    } else if gpus_per_node == 0 {
        Err(ConfigError::ZeroGpusPerNode)
    } else {
        Ok(())
    }
}

/// Checks a configuration: weights first, then the fleet's shape.
pub fn validate(weights_sum_to_one: bool, gpu_count: usize, gpus_per_node: usize) -> (r: Result<(), ConfigError>)
    ensures
        r == config_verdict(weights_sum_to_one, gpu_count, gpus_per_node),
{
    if !weights_sum_to_one {
        return Err(ConfigError::WeightsDoNotSumToOne);
    }
    if gpu_count == 0 {
        return Err(ConfigError::ZeroGpuCount);
    }
    if gpus_per_node == 0 {
        return Err(ConfigError::ZeroGpusPerNode);
    }
    Ok(())
}

} // verus!
