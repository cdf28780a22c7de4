use vstd::prelude::*;
use crate::precision::config::{MixedPrecisionConfig, ScalingStrategy, spec_default_mixed_precision};
use crate::topology::hybrid::MeshTorusHybrid;
use crate::training::config::{TrainingConfig, ValidationError, spec_default_training_config, spec_validate};

verus! {

/// Why a distributed runtime could not be set up.
#[derive(Debug, PartialEq, Eq)]
pub enum RuntimeError {
    /// The topology is missing or invalid; the text says which.
    Topology(String),
    /// The communication layer is missing or failed; the text says which.
    Communication(String),
    /// The pipeline could not be set up; the text says why.
    Pipeline(String),
    /// The training configuration was refused.
    Config(ValidationError),
}

/// How the loss scaler of a runtime starts. Scales are bit patterns of single-precision
/// numbers.
#[derive(Debug, Clone, Copy, PartialEq, Eq, Structural)]
pub enum LossScalerSetup {
    /// Dynamic scaling from `initial_scale_bits`, doubling after `growth_interval` clean steps.
    Dynamic { initial_scale_bits: u32, growth_interval: usize },
    /// A fixed scale.
    Static { scale_bits: u32 },
}

/// The bit pattern of the single-precision number 65536.0.
pub const DYNAMIC_INITIAL_SCALE_BITS: u32 = 0x4780_0000;

/// Clean steps after which dynamic scaling doubles the scale.
pub const DYNAMIC_GROWTH_INTERVAL: usize = 2000;

/// The bit pattern of the single-precision number 1.0.
pub const UNIT_SCALE_BITS: u32 = 0x3f80_0000;

/// Dynamic scaling starts at 65536 and grows every 2000 clean steps; delayed scaling keeps
/// the loss scale fixed at 1.
pub open spec fn spec_loss_scaler_setup(config: MixedPrecisionConfig) -> LossScalerSetup {
    match config.scaling_strategy {
        ScalingStrategy::Dynamic => LossScalerSetup::Dynamic {
            initial_scale_bits: DYNAMIC_INITIAL_SCALE_BITS,
            growth_interval: DYNAMIC_GROWTH_INTERVAL,
        },
        ScalingStrategy::Delayed { .. } => LossScalerSetup::Static { scale_bits: UNIT_SCALE_BITS },
    }
}

/// How the loss scaler of a runtime with this precision configuration starts.
pub fn loss_scaler_from_config(config: &MixedPrecisionConfig) -> (r: LossScalerSetup)
    ensures
        r == spec_loss_scaler_setup(*config),
{
    match config.scaling_strategy {
        ScalingStrategy::Dynamic => LossScalerSetup::Dynamic {
            initial_scale_bits: DYNAMIC_INITIAL_SCALE_BITS,
            growth_interval: DYNAMIC_GROWTH_INTERVAL,
        },
        ScalingStrategy::Delayed { .. } => LossScalerSetup::Static { scale_bits: UNIT_SCALE_BITS },
    }
}

/// What a runtime is built from, once the builder has checked it.
pub struct RuntimeParts<C> {
    pub topology: MeshTorusHybrid,
    pub communicator: C,
    pub precision_config: MixedPrecisionConfig,
    pub training_config: TrainingConfig,
    pub loss_scaler: LossScalerSetup,
}

/// Collects the parts of a distributed runtime; `build` checks them.
pub struct DistributedRuntimeBuilder<C> {
    topology: Option<MeshTorusHybrid>,
    communicator: Option<C>,
    precision_config: Option<MixedPrecisionConfig>,
    training_config: Option<TrainingConfig>,
}

/// The message of a missing topology.
pub open spec fn spec_missing_topology() -> Seq<char> {
    "topology is required"@
}

/// The message of a missing communicator.
pub open spec fn spec_missing_communicator() -> Seq<char> {
    "communicator is required"@
}

impl<C> DistributedRuntimeBuilder<C> {
    pub closed spec fn spec_topology(&self) -> Option<MeshTorusHybrid> {
        self.topology
    }

    pub closed spec fn spec_communicator(&self) -> Option<C> {
        self.communicator
    }

    pub closed spec fn spec_precision_config(&self) -> Option<MixedPrecisionConfig> {
        self.precision_config
    }

    pub closed spec fn spec_training_config(&self) -> Option<TrainingConfig> {
        self.training_config
    }

    /// A builder with nothing set.
    pub fn new() -> (r: Self)
        ensures
            r.spec_topology() is None,
            r.spec_communicator() is None,
            r.spec_precision_config() is None,
            r.spec_training_config() is None,
    {
        Self { topology: None, communicator: None, precision_config: None, training_config: None }
    }

    pub fn with_topology(self, topology: MeshTorusHybrid) -> (r: Self)
        ensures
            r.spec_topology() == Some(topology),
            r.spec_communicator() == self.spec_communicator(),
            r.spec_precision_config() == self.spec_precision_config(),
            r.spec_training_config() == self.spec_training_config(),
    {
        Self { topology: Some(topology), ..self }
    }

    pub fn with_communicator(self, communicator: C) -> (r: Self)
        ensures
            r.spec_topology() == self.spec_topology(),
            r.spec_communicator() == Some(communicator),
            r.spec_precision_config() == self.spec_precision_config(),
            r.spec_training_config() == self.spec_training_config(),
    {
        Self { communicator: Some(communicator), ..self }
    }

    pub fn with_precision_config(self, config: MixedPrecisionConfig) -> (r: Self)
        ensures
            r.spec_topology() == self.spec_topology(),
            r.spec_communicator() == self.spec_communicator(),
            r.spec_precision_config() == Some(config),
            r.spec_training_config() == self.spec_training_config(),
    {
        Self { precision_config: Some(config), ..self }
    }

    pub fn with_config(self, config: TrainingConfig) -> (r: Self)
        ensures
            r.spec_topology() == self.spec_topology(),
            r.spec_communicator() == self.spec_communicator(),
            r.spec_precision_config() == self.spec_precision_config(),
            r.spec_training_config() == Some(config),
    {
        Self { training_config: Some(config), ..self }
    }

    /// Checks the parts: a missing topology, then a missing communicator, then a refused
    /// training configuration are errors, in that order. A missing precision or training
    /// configuration is taken as the default.
    pub fn build(self) -> (r: Result<RuntimeParts<C>, RuntimeError>)
        ensures
            self.spec_topology() is None ==> (r matches Err(RuntimeError::Topology(m)) && m@
                == spec_missing_topology()),
            self.spec_topology() is Some && self.spec_communicator() is None ==> (r matches Err(
                RuntimeError::Communication(m),
            ) && m@ == spec_missing_communicator()),
            self.spec_topology() is Some && self.spec_communicator() is Some ==> ({
                let precision = match self.spec_precision_config() {
                    Some(p) => p,
                    None => spec_default_mixed_precision(),
                };
                let training = match self.spec_training_config() {
                    Some(t) => t,
                    None => spec_default_training_config(),
                };
                match spec_validate(training) {
                    Err(e) => r == Err::<RuntimeParts<C>, RuntimeError>(RuntimeError::Config(e)),
                    Ok(()) => r matches Ok(parts) && parts.topology == self.spec_topology()->Some_0
                        && parts.communicator == self.spec_communicator()->Some_0
                        && parts.precision_config == precision && parts.training_config == training
                        && parts.loss_scaler == spec_loss_scaler_setup(precision),
                }
            }),
    {
        let topology = match self.topology {
            Some(t) => t,
            None => {
                let m = String::from_str("topology is required");
                proof {
                    reveal_strlit("topology is required");
                }
                return Err(RuntimeError::Topology(m));
            },
        };
        let communicator = match self.communicator {
            Some(c) => c,
            None => {
                let m = String::from_str("communicator is required");
                proof {
                    reveal_strlit("communicator is required");
                }
                return Err(RuntimeError::Communication(m));
            },
        };
        let precision_config = match self.precision_config {
            Some(p) => p,
            None => MixedPrecisionConfig::default(),
        };
        let training_config = match self.training_config {
            Some(t) => t,
            None => TrainingConfig::default(),
        };
        match training_config.validate() {
            Ok(()) => {},
            Err(e) => return Err(RuntimeError::Config(e)),
        }
        let loss_scaler = loss_scaler_from_config(&precision_config);
        Ok(RuntimeParts { topology, communicator, precision_config, training_config, loss_scaler })
    }
}

impl<C> Default for DistributedRuntimeBuilder<C> {
    /// A builder with nothing set.
    fn default() -> (r: Self)
        ensures
            r.spec_topology() is None,
            r.spec_communicator() is None,
            r.spec_precision_config() is None,
            r.spec_training_config() is None,
    {
        Self::new()
    }
}

} // verus!
