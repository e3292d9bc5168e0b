//! Resize configuration: filter and algorithm names and the cache size.
//!
//! The names arrive as strings from the command line or a config file. They
//! are validated up front, at startup, against the fixed sets the resampler
//! offers; an unrecognized name is a configuration error naming the valid
//! choices, never a request-time failure.

use vstd::prelude::*;

verus! {

/// The convolution filters the resampler offers.
#[derive(Clone, Copy, Debug, PartialEq, Eq, Structural)]
pub enum FilterKind {
    Lanczos3,
    Gaussian,
    CatmullRom,
    Hamming,
    Mitchell,
    Bilinear,
    Box,
}

/// The resampling algorithms, ordered slow to fast; `Nearest` ignores the
/// filter choice.
#[derive(Clone, Copy, Debug, PartialEq, Eq, Structural)]
pub enum AlgorithmKind {
    SuperSampling8x,
    SuperSampling4x,
    SuperSampling2x,
    Convolution,
    Interpolation,
    Nearest,
}

/// The filter a configuration name stands for, if any.
pub open spec fn spec_filter_of(name: Seq<char>) -> Option<FilterKind> {
    if name == "lanczos3"@ {
        Some(FilterKind::Lanczos3)
    } else if name == "gaussian"@ {
        Some(FilterKind::Gaussian)
    } else if name == "catmull-rom"@ {
        Some(FilterKind::CatmullRom)
    } else if name == "hamming"@ {
        Some(FilterKind::Hamming)
    } else if name == "mitchell"@ {
        Some(FilterKind::Mitchell)
    } else if name == "bilinear"@ {
        Some(FilterKind::Bilinear)
    } else if name == "box"@ {
        Some(FilterKind::Box)
    } else {
        None
    }
}

/// The algorithm a configuration name stands for, if any.
pub open spec fn spec_algorithm_of(name: Seq<char>) -> Option<AlgorithmKind> {
    if name == "super-sampling8x"@ {
        Some(AlgorithmKind::SuperSampling8x)
    } else if name == "super-sampling4x"@ {
        Some(AlgorithmKind::SuperSampling4x)
    } else if name == "super-sampling2x"@ {
        Some(AlgorithmKind::SuperSampling2x)
    } else if name == "convolution"@ {
        Some(AlgorithmKind::Convolution)
    } else if name == "interpolation"@ {
        Some(AlgorithmKind::Interpolation)
    } else if name == "nearest"@ {
        Some(AlgorithmKind::Nearest)
    } else {
        None
    }
}

/// The filter named by a configuration string, if the name is known.
pub fn parse_filter(name: &String) -> (r: Option<FilterKind>)
    ensures
        r == spec_filter_of(name@),
{
    if *name == "lanczos3".to_owned() {
        Some(FilterKind::Lanczos3)
    } else if *name == "gaussian".to_owned() {
        Some(FilterKind::Gaussian)
    } else if *name == "catmull-rom".to_owned() {
        Some(FilterKind::CatmullRom)
    } else if *name == "hamming".to_owned() {
        Some(FilterKind::Hamming)
    } else if *name == "mitchell".to_owned() {
        Some(FilterKind::Mitchell)
    } else if *name == "bilinear".to_owned() {
        Some(FilterKind::Bilinear)
    } else if *name == "box".to_owned() {
        Some(FilterKind::Box)
    } else {
        None
    }
}

/// The algorithm named by a configuration string, if the name is known.
pub fn parse_algorithm(name: &String) -> (r: Option<AlgorithmKind>)
    ensures
        r == spec_algorithm_of(name@),
{
    if *name == "super-sampling8x".to_owned() {
        Some(AlgorithmKind::SuperSampling8x)
    } else if *name == "super-sampling4x".to_owned() {
        Some(AlgorithmKind::SuperSampling4x)
    } else if *name == "super-sampling2x".to_owned() {
        Some(AlgorithmKind::SuperSampling2x)
    } else if *name == "convolution".to_owned() {
        Some(AlgorithmKind::Convolution)
    } else if *name == "interpolation".to_owned() {
        Some(AlgorithmKind::Interpolation)
    } else if *name == "nearest".to_owned() {
        Some(AlgorithmKind::Nearest)
    } else {
        None
    }
}

/// How images are resized and how many results stay cached.
#[derive(Debug, Clone)]
pub struct ResizeConfig {
    /// Filter name: `lanczos3`, `gaussian`, `catmull-rom`, `hamming`,
    /// `mitchell`, `bilinear` or `box`.
    pub filter_type: String,
    /// Algorithm name: `super-sampling8x`, `super-sampling4x`,
    /// `super-sampling2x`, `convolution`, `interpolation` or `nearest`.
    pub algorithm: String,
    /// Maximum cached images in memory; 0 disables caching.
    pub cache_size: usize,
}

/// A validated configuration: the parsed filter and algorithm with the
/// cache size.
#[derive(Debug, Clone, Copy)]
pub struct ResizePlan {
    pub filter: FilterKind,
    pub algorithm: AlgorithmKind,
    pub cache_size: usize,
}

/// Both configured names are known.
pub open spec fn spec_config_valid(c: &ResizeConfig) -> bool {
    spec_filter_of(c.filter_type@) is Some && spec_algorithm_of(c.algorithm@) is Some
}

impl ResizeConfig {
    /// A builder preloaded with the defaults: `lanczos3`, `interpolation`,
    /// 200 cached images.
    pub fn builder() -> (r: ResizeConfigBuilder)
        ensures
            r.filter_type matches Some(f) && f@ == "lanczos3"@,
            r.algorithm matches Some(a) && a@ == "interpolation"@,
            r.cache_size == Some(200usize),
    {
        ResizeConfigBuilder {
            filter_type: Some("lanczos3".to_owned()),
            algorithm: Some("interpolation".to_owned()),
            cache_size: Some(200),
        }
    }

    /// Validates the configured names, at startup: the parsed plan, or an
    /// error naming the unrecognized value and the valid set.
    pub fn validate(&self) -> (r: Result<ResizePlan, String>)
        ensures
            spec_config_valid(self) <==> r is Ok,
            r matches Ok(p) ==> Some(p.filter) == spec_filter_of(self.filter_type@) && Some(
                p.algorithm) == spec_algorithm_of(self.algorithm@) && p.cache_size
                == self.cache_size,
    {
        let filter = match parse_filter(&self.filter_type) {
            Some(f) => f,
            None => {
                return Err(
                    "unsupported filter type; expected one of: lanczos3, gaussian, catmull-rom, hamming, mitchell, bilinear, box".to_owned(),
                );
            },
        };
        let algorithm = match parse_algorithm(&self.algorithm) {
            Some(a) => a,
            None => {
                return Err(
                    "unsupported resize algorithm; expected one of: super-sampling8x, super-sampling4x, super-sampling2x, convolution, interpolation, nearest".to_owned(),
                );
            },
        };
        Ok(ResizePlan { filter, algorithm, cache_size: self.cache_size })
    }
}

/// Builds a [`ResizeConfig`] field by field; every field starts out at its
/// default.
#[derive(Debug, Clone)]
pub struct ResizeConfigBuilder {
    pub filter_type: Option<String>,
    pub algorithm: Option<String>,
    pub cache_size: Option<usize>,
}

impl ResizeConfigBuilder {
    /// Sets the filter name.
    pub fn filter_type(self, value: String) -> (r: Self)
        ensures
            r.filter_type matches Some(v) && v@ == value@,
            r.algorithm == self.algorithm,
            r.cache_size == self.cache_size,
    {
        ResizeConfigBuilder { filter_type: Some(value), ..self }
    }

    /// Sets the algorithm name.
    pub fn algorithm(self, value: String) -> (r: Self)
        ensures
            r.algorithm matches Some(v) && v@ == value@,
            r.filter_type == self.filter_type,
            r.cache_size == self.cache_size,
    {
        ResizeConfigBuilder { algorithm: Some(value), ..self }
    }

    /// Sets the cache size.
    pub fn cache_size(self, value: usize) -> (r: Self)
        ensures
            r.cache_size == Some(value),
            r.filter_type == self.filter_type,
            r.algorithm == self.algorithm,
    {
        ResizeConfigBuilder { cache_size: Some(value), ..self }
    }

    /// The finished configuration; an unset field is reported by name.
    pub fn build(self) -> (r: Result<ResizeConfig, String>)
        ensures
            (self.filter_type is Some && self.algorithm is Some && self.cache_size is Some)
                <==> r is Ok,
            r matches Ok(c) ==> (Some(c.filter_type) == self.filter_type && Some(c.algorithm)
                == self.algorithm && Some(c.cache_size) == self.cache_size),
    {
        let filter_type = match self.filter_type {
            Some(v) => v,
            None => {
                return Err("filter_type is not set".to_owned());
            },
        };
        let algorithm = match self.algorithm {
            Some(v) => v,
            None => {
                return Err("algorithm is not set".to_owned());
            },
        };
        let cache_size = match self.cache_size {
            Some(v) => v,
            None => {
                return Err("cache_size is not set".to_owned());
            },
        };
        Ok(ResizeConfig { filter_type, algorithm, cache_size })
    }
}

} // verus!
