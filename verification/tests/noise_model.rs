use flow_field::error::ConfigurationError;
use flow_field::noise::{NoiseModel, POSITIVE_WORD_MAX};

fn word(value: f32) -> u32 {
    value.to_bits()
}

#[test]
fn with_seed_keeps_the_five_values() {
    let model = NoiseModel::with_seed(42, word(1.5), word(2.0), word(0.5), 4).unwrap();
    assert_eq!(model.seed(), 42);
    assert_eq!(f32::from_bits(model.frequency()), 1.5);
    assert_eq!(f32::from_bits(model.lacunarity()), 2.0);
    assert_eq!(f32::from_bits(model.gain()), 0.5);
    assert_eq!(model.octaves(), 4);
}

#[test]
fn one_octave_is_enough() {
    let model = NoiseModel::with_seed(0, word(0.25), word(2.0), word(0.5), 1).unwrap();
    assert_eq!(model.octaves(), 1);
}

#[test]
fn zero_octaves_are_refused() {
    let made = NoiseModel::with_seed(1, word(1.0), word(2.0), word(0.5), 0);
    assert!(matches!(made, Err(ConfigurationError::OctavesBelowOne)));
}

#[test]
fn negative_octaves_are_refused() {
    let made = NoiseModel::with_seed(1, word(1.0), word(2.0), word(0.5), -3);
    assert!(matches!(made, Err(ConfigurationError::OctavesBelowOne)));
    let least = NoiseModel::with_seed(1, word(1.0), word(2.0), word(0.5), i32::MIN);
    assert!(matches!(least, Err(ConfigurationError::OctavesBelowOne)));
}

#[test]
fn zero_frequency_is_refused() {
    let made = NoiseModel::with_seed(1, word(0.0), word(2.0), word(0.5), 3);
    assert!(matches!(made, Err(ConfigurationError::FrequencyNotPositive)));
    let negative_zero = NoiseModel::with_seed(1, word(-0.0), word(2.0), word(0.5), 3);
    assert!(matches!(negative_zero, Err(ConfigurationError::FrequencyNotPositive)));
}

#[test]
fn negative_frequency_is_refused() {
    let made = NoiseModel::with_seed(1, word(-1.0), word(2.0), word(0.5), 3);
    assert!(matches!(made, Err(ConfigurationError::FrequencyNotPositive)));
    let infinite = NoiseModel::with_seed(1, word(f32::NEG_INFINITY), word(2.0), word(0.5), 3);
    assert!(matches!(infinite, Err(ConfigurationError::FrequencyNotPositive)));
}

#[test]
fn frequency_that_is_no_number_is_refused() {
    let made = NoiseModel::with_seed(1, word(f32::NAN), word(2.0), word(0.5), 3);
    assert!(matches!(made, Err(ConfigurationError::FrequencyNotPositive)));
    let next_word = NoiseModel::with_seed(1, POSITIVE_WORD_MAX + 1, word(2.0), word(0.5), 3);
    assert!(matches!(next_word, Err(ConfigurationError::FrequencyNotPositive)));
    let negative = NoiseModel::with_seed(1, u32::MAX, word(2.0), word(0.5), 3);
    assert!(matches!(negative, Err(ConfigurationError::FrequencyNotPositive)));
}

#[test]
fn octaves_are_looked_at_before_the_frequency() {
    let made = NoiseModel::with_seed(1, word(-1.0), word(2.0), word(0.5), 0);
    assert!(matches!(made, Err(ConfigurationError::OctavesBelowOne)));
}

#[test]
fn smallest_and_largest_positive_frequencies_are_accepted() {
    let smallest = NoiseModel::with_seed(1, 1, word(2.0), word(0.5), 3).unwrap();
    assert!(f32::from_bits(smallest.frequency()) > 0.0);
    let largest = NoiseModel::with_seed(1, word(f32::INFINITY), word(2.0), word(0.5), 3).unwrap();
    assert_eq!(largest.frequency(), POSITIVE_WORD_MAX);
    assert_eq!(word(f32::INFINITY), 0x7F80_0000);
}

#[test]
fn a_frequency_is_accepted_exactly_when_it_is_above_zero() {
    let samples = vec![
        0.0f32,
        -0.0,
        1.0,
        -1.0,
        0.01,
        100.0,
        f32::MIN_POSITIVE,
        f32::MAX,
        f32::MIN,
        f32::EPSILON,
        -f32::EPSILON,
        f32::INFINITY,
        f32::NEG_INFINITY,
        f32::NAN,
        -f32::NAN,
        f32::from_bits(1),
        f32::from_bits(0x8000_0001),
    ];
    for frequency in samples {
        let made = NoiseModel::with_seed(9, word(frequency), word(2.0), word(0.5), 2);
        assert_eq!(made.is_ok(), frequency > 0.0);
    }
}

#[test]
fn lacunarity_and_gain_are_not_judged() {
    let model = NoiseModel::with_seed(5, word(1.0), word(f32::NAN), word(-7.0), 2).unwrap();
    assert_eq!(model.lacunarity(), word(f32::NAN));
    assert_eq!(model.gain(), word(-7.0));
}

#[test]
fn new_keeps_the_parameters_and_draws_a_seed() {
    let model = NoiseModel::new(word(3.0), word(2.5), word(0.75), 6).unwrap();
    assert_eq!(model.frequency(), word(3.0));
    assert_eq!(model.lacunarity(), word(2.5));
    assert_eq!(model.gain(), word(0.75));
    assert_eq!(model.octaves(), 6);
    let again = NoiseModel::with_seed(model.seed(), word(3.0), word(2.5), word(0.75), 6).unwrap();
    assert_eq!(again.seed(), model.seed());
}

#[test]
fn new_refuses_what_with_seed_refuses() {
    assert!(matches!(
        NoiseModel::new(word(1.0), word(2.0), word(0.5), 0),
        Err(ConfigurationError::OctavesBelowOne)
    ));
    assert!(matches!(
        NoiseModel::new(word(0.0), word(2.0), word(0.5), 1),
        Err(ConfigurationError::FrequencyNotPositive)
    ));
    assert!(matches!(
        NoiseModel::new(word(-2.0), word(2.0), word(0.5), -1),
        Err(ConfigurationError::OctavesBelowOne)
    ));
}
