//! The tunable constants of the pipeline, gathered in one validated
//! configuration value, with its defaults.

use vstd::prelude::*;

verus! {

/// Resampling spacing and relaxation weights, in milli-units.
#[derive(Clone, Copy, PartialEq, Eq, Structural, Debug)]
pub struct Config {
    /// Arc-length distance between emitted nodes during resampling.
    pub point_spacing: i64,
    /// Radius under which a later point counts as a self-collision.
    pub min_distance: i64,
    /// Small widening of the collision radius, so that points at exactly
    /// `min_distance` are caught despite rounding.
    pub collision_epsilon: i64,
    /// Weight of the along-tangent drift in the relaxation step.
    pub tangent_weight: i64,
    /// Weight of the cross-bitangent drift (negative by default).
    pub bitangent_weight: i64,
    /// Weight of the gradient-following force.
    pub gradient_weight: i64,
    /// Overall speed multiplier of the relaxation step.
    pub speed: i64,
    /// Upper bound on the simulated time of one tick, in milliseconds.
    pub max_step_ms: u64,
}

/// A rejected configuration, named by the first rule it breaks.
#[derive(Clone, Copy, PartialEq, Eq, Structural, Debug)]
pub enum ConfigError {
    /// `point_spacing` must be strictly positive.
    NonPositiveSpacing,
    /// `min_distance` must be at least `point_spacing`.
    MinDistanceBelowSpacing,
    /// `min_distance` must stay below the supported world size.
    ExcessiveMinDistance,
    /// `collision_epsilon` must lie in `[0, 1_000_000]`.
    EpsilonOutOfRange,
    /// Every force weight must lie in `[-1000, 1000]`.
    WeightOutOfRange,
    /// `speed` must lie in `[1, 1000]`.
    SpeedOutOfRange,
    /// `max_step_ms` must lie in `[1, 10_000]`.
    StepLimitOutOfRange,
    /// A scalar field's spatial scale must lie in `[1, 100_000_000]`.
    ScaleOutOfRange,
    /// A scalar field's bounding half-extents must lie in `[0, 10_000_000]`.
    ExtentOutOfRange,
}

/// All the range rules a usable configuration satisfies.
pub open spec fn config_valid(c: Config) -> bool {
    &&& 1 <= c.point_spacing
    &&& c.point_spacing <= c.min_distance
    &&& c.min_distance <= 10_000_000
    &&& 0 <= c.collision_epsilon <= 1_000_000
    &&& -1000 <= c.tangent_weight <= 1000
    &&& -1000 <= c.bitangent_weight <= 1000
    &&& -1000 <= c.gradient_weight <= 1000
    &&& 1 <= c.speed <= 1000
    &&& 1 <= c.max_step_ms <= 10_000
}

impl Config {
    /// Validate and build a configuration. Returns `Ok` exactly on the
    /// values for which every pass of the pipeline is well defined, and
    /// otherwise names the first rule broken, checked in field order.
    pub fn new(
        point_spacing: i64,
        min_distance: i64,
        collision_epsilon: i64,
        tangent_weight: i64,
        bitangent_weight: i64,
        gradient_weight: i64,
        speed: i64,
        max_step_ms: u64,
    ) -> (r: Result<Config, ConfigError>)
        ensures
            ({
                let c = Config {
                    point_spacing,
                    min_distance,
                    collision_epsilon,
                    tangent_weight,
                    bitangent_weight,
                    gradient_weight,
                    speed,
                    max_step_ms,
                };
                let spacing_ok = point_spacing >= 1;
                let min_dist_ok = min_distance >= point_spacing;
                let min_dist_small = min_distance <= 10_000_000;
                let eps_ok = 0 <= collision_epsilon <= 1_000_000;
                let weights_ok = -1000 <= tangent_weight <= 1000 && -1000 <= bitangent_weight
                    <= 1000 && -1000 <= gradient_weight <= 1000;
                let speed_ok = 1 <= speed <= 1000;
                &&& r is Ok <==> config_valid(c)
                &&& r is Ok ==> r->Ok_0 == c
                &&& !spacing_ok ==> r == Result::<Config, ConfigError>::Err(
                    ConfigError::NonPositiveSpacing,
                )
                &&& spacing_ok && !min_dist_ok ==> r == Result::<Config, ConfigError>::Err(
                    ConfigError::MinDistanceBelowSpacing,
                )
                &&& spacing_ok && min_dist_ok && !min_dist_small ==> r == Result::<
                    Config,
                    ConfigError,
                >::Err(ConfigError::ExcessiveMinDistance)
                &&& spacing_ok && min_dist_ok && min_dist_small && !eps_ok ==> r == Result::<
                    Config,
                    ConfigError,
                >::Err(ConfigError::EpsilonOutOfRange)
                &&& spacing_ok && min_dist_ok && min_dist_small && eps_ok && !weights_ok ==> r
                    == Result::<Config, ConfigError>::Err(ConfigError::WeightOutOfRange)
                &&& spacing_ok && min_dist_ok && min_dist_small && eps_ok && weights_ok
                    && !speed_ok ==> r == Result::<Config, ConfigError>::Err(
                    ConfigError::SpeedOutOfRange,
                )
                &&& spacing_ok && min_dist_ok && min_dist_small && eps_ok && weights_ok
                    && speed_ok && !(1 <= max_step_ms <= 10_000) ==> r == Result::<
                    Config,
                    ConfigError,
                >::Err(ConfigError::StepLimitOutOfRange)
            }),
    {
        if point_spacing < 1 {
            return Err(ConfigError::NonPositiveSpacing);
        }
        if min_distance < point_spacing {
            return Err(ConfigError::MinDistanceBelowSpacing);
        }
        if min_distance > 10_000_000 {
            return Err(ConfigError::ExcessiveMinDistance);
        }
        if collision_epsilon < 0 || collision_epsilon > 1_000_000 {
            return Err(ConfigError::EpsilonOutOfRange);
        }
        if tangent_weight < -1000 || tangent_weight > 1000 {
            return Err(ConfigError::WeightOutOfRange);
        }
        if bitangent_weight < -1000 || bitangent_weight > 1000 {
            return Err(ConfigError::WeightOutOfRange);
        }
        if gradient_weight < -1000 || gradient_weight > 1000 {
            return Err(ConfigError::WeightOutOfRange);
        }
        if speed < 1 || speed > 1000 {
            return Err(ConfigError::SpeedOutOfRange);
        }
        if max_step_ms < 1 || max_step_ms > 10_000 {
            return Err(ConfigError::StepLimitOutOfRange);
        }
        Ok(
            Config {
                point_spacing,
                min_distance,
                collision_epsilon,
                tangent_weight,
                bitangent_weight,
                gradient_weight,
                speed,
                max_step_ms,
            },
        )
    }
}

impl Default for Config {
    /// The default tuning: spacing 5, collision radius 15 (+0.1 epsilon)
    /// world units; weights 3 / -7 / 35; speed 3; 200 ms step cap.
    fn default() -> (r: Config)
        ensures
            r.point_spacing == 5000,
            r.min_distance == 15_000,
            r.collision_epsilon == 100,
            r.tangent_weight == 3,
            r.bitangent_weight == -7,
            r.gradient_weight == 35,
            r.speed == 3,
            r.max_step_ms == 200,
            config_valid(r),
    {
        Config {
            point_spacing: 5000,
            min_distance: 15_000,
            collision_epsilon: 100,
            tangent_weight: 3,
            bitangent_weight: -7,
            gradient_weight: 35,
            speed: 3,
            max_step_ms: 200,
        }
    }
}

} // verus!
