//! The parameters of a fractal noise source.
//!
//! The source itself, Perlin noise summed over octaves as fractal Brownian
//! motion, computes in floating point and lives with the caller. What is kept
//! here is its configuration as plain words: the seed, the octave count, and
//! the three single-precision parameters as their IEEE 754 binary32 words.

use vstd::prelude::*;
use bracket_random::prelude::RandomNumberGenerator;
use crate::error::ConfigurationError;

verus! {

/// The largest binary32 word that is a number above zero: positive infinity.
pub const POSITIVE_WORD_MAX: u32 = 0x7F80_0000;

/// `word` is the binary32 word of a number greater than zero.
///
/// The sign bit is clear, the word is not that of zero, and it is no NaN:
/// among the words with a clear sign bit the numbers come in the order of
/// their words, from `1`, the smallest subnormal, up to positive infinity.
pub open spec fn is_positive_word(word: u32) -> bool {
    0 < word <= POSITIVE_WORD_MAX
}

/// The error with which a configuration is refused, if it is: the octave
/// count is looked at first, then the frequency.
pub open spec fn configuration_fault(frequency: u32, octaves: i32) -> Option<ConfigurationError> {
    if octaves < 1 {
        Some(ConfigurationError::OctavesBelowOne)
    } else if !is_positive_word(frequency) {
        Some(ConfigurationError::FrequencyNotPositive)
    } else {
        None
    }
}

/// `bracket_random::prelude::RandomNumberGenerator`, carried as a value of
/// which nothing is known.
#[verifier::external_type_specification]
#[verifier::external_body]
pub struct ExRandomNumberGenerator(RandomNumberGenerator);

/// `bracket_random::prelude::RandomNumberGenerator::new` makes a generator
/// and seeds it from the operating system's random source, or from the clock
/// where that source fails. Nothing is claimed of the generator.
pub assume_specification[ RandomNumberGenerator::new ]() -> (rng: RandomNumberGenerator);

/// `bracket_random::prelude::RandomNumberGenerator::next_u64` advances the
/// generator and returns its next 64 bits. Nothing is claimed of the value.
pub assume_specification[ RandomNumberGenerator::next_u64 ](
    rng: &mut RandomNumberGenerator,
) -> (word: u64);

/// The configuration of a noise source. A value of this type always has at
/// least one octave and a frequency above zero.
#[derive(Clone, Copy, Debug)]
pub struct NoiseModel {
    seed: u64,
    frequency: u32,
    lacunarity: u32,
    gain: u32,
    octaves: i32,
}

impl NoiseModel {
    /// What every noise model satisfies.
    #[verifier::type_invariant]
    pub closed spec fn wf(&self) -> bool {
        self.octaves >= 1 && is_positive_word(self.frequency)
    }

    pub closed spec fn spec_seed(&self) -> u64 {
        self.seed
    }

    pub closed spec fn spec_frequency(&self) -> u32 {
        self.frequency
    }

    pub closed spec fn spec_lacunarity(&self) -> u32 {
        self.lacunarity
    }

    pub closed spec fn spec_gain(&self) -> u32 {
        self.gain
    }

    pub closed spec fn spec_octaves(&self) -> i32 {
        self.octaves
    }

    /// Builds a model with the given seed. `frequency`, `lacunarity` and
    /// `gain` are binary32 words.
    ///
    /// The model is refused when `octaves` is below one, and otherwise when
    /// `frequency` is not above zero; in every other case it is built and
    /// holds the five values as given.
    pub fn with_seed(
        seed: u64,
        frequency: u32,
        lacunarity: u32,
        gain: u32,
        octaves: i32,
    ) -> (made: Result<NoiseModel, ConfigurationError>)
        ensures
            match made {
                Ok(model) => {
                    &&& configuration_fault(frequency, octaves) is None
                    &&& model.wf()
                    &&& model.spec_seed() == seed
                    &&& model.spec_frequency() == frequency
                    &&& model.spec_lacunarity() == lacunarity
                    &&& model.spec_gain() == gain
                    &&& model.spec_octaves() == octaves
                },
                Err(e) => configuration_fault(frequency, octaves) == Some(e),
            },
    {
        if octaves < 1 {
            Err(ConfigurationError::OctavesBelowOne)
        } else if frequency == 0 || frequency > POSITIVE_WORD_MAX {
            Err(ConfigurationError::FrequencyNotPositive)
        } else {
            Ok(NoiseModel { seed, frequency, lacunarity, gain, octaves })
        }
    }

    /// Builds a model whose seed is drawn from a freshly made random number
    /// generator. The parameters are accepted and refused as by
    /// [`NoiseModel::with_seed`]; of the seed nothing is known.
    pub fn new(
        frequency: u32,
        lacunarity: u32,
        gain: u32,
        octaves: i32,
    ) -> (made: Result<NoiseModel, ConfigurationError>)
        ensures
            match made {
                Ok(model) => {
                    &&& configuration_fault(frequency, octaves) is None
                    &&& model.wf()
                    &&& model.spec_frequency() == frequency
                    &&& model.spec_lacunarity() == lacunarity
                    &&& model.spec_gain() == gain
                    &&& model.spec_octaves() == octaves
                },
                Err(e) => configuration_fault(frequency, octaves) == Some(e),
            },
    {
        let mut rng = RandomNumberGenerator::new();
        let seed: u64 = rng.next_u64();
        NoiseModel::with_seed(seed, frequency, lacunarity, gain, octaves)
    }

    /// The seed of the noise source.
    #[verifier::when_used_as_spec(spec_seed)]
    pub fn seed(&self) -> (seed: u64)
        ensures
            seed == self.spec_seed(),
    {
        self.seed
    }

    /// The base frequency, as a binary32 word; it is above zero.
    #[verifier::when_used_as_spec(spec_frequency)]
    pub fn frequency(&self) -> (frequency: u32)
        ensures
            frequency == self.spec_frequency(),
            is_positive_word(frequency),
    {
        proof {
            use_type_invariant(self);
        }
        self.frequency
    }

    /// The factor by which the frequency grows from one octave to the next,
    /// as a binary32 word.
    #[verifier::when_used_as_spec(spec_lacunarity)]
    pub fn lacunarity(&self) -> (lacunarity: u32)
        ensures
            lacunarity == self.spec_lacunarity(),
    {
        self.lacunarity
    }

    /// The factor by which the amplitude changes from one octave to the
    /// next, as a binary32 word.
    #[verifier::when_used_as_spec(spec_gain)]
    pub fn gain(&self) -> (gain: u32)
        ensures
            gain == self.spec_gain(),
    {
        self.gain
    }

    /// The number of octaves; it is at least one.
    #[verifier::when_used_as_spec(spec_octaves)]
    pub fn octaves(&self) -> (octaves: i32)
        ensures
            octaves == self.spec_octaves(),
            octaves >= 1,
    {
        proof {
            use_type_invariant(self);
        }
        self.octaves
    }
}

} // verus!
