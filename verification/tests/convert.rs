use primer::convert::{scale_named, split_reading, Scale};

#[test]
fn reading_in_celsius() {
    assert_eq!(split_reading("50/C"), Some(("50", Scale::Celsius)));
}

#[test]
fn reading_in_fahrenheit() {
    assert_eq!(split_reading("32/f"), Some(("32", Scale::Fahrenheit)));
    assert_eq!(split_reading("451/F"), Some(("451", Scale::Fahrenheit)));
}

#[test]
fn reading_in_kelvin() {
    assert_eq!(split_reading("0/k"), Some(("0", Scale::Kelvin)));
    assert_eq!(split_reading("273.15/K"), Some(("273.15", Scale::Kelvin)));
}

#[test]
fn text_without_slash_is_no_reading() {
    assert_eq!(split_reading("F90"), None);
    assert_eq!(split_reading(""), None);
}

#[test]
fn text_without_number_is_no_reading() {
    assert_eq!(split_reading("/C"), None);
    assert_eq!(split_reading("/"), None);
}

#[test]
fn unknown_units_count_as_celsius() {
    assert_eq!(split_reading("12/"), Some(("12", Scale::Celsius)));
    assert_eq!(split_reading("12/c"), Some(("12", Scale::Celsius)));
    assert_eq!(split_reading("12/ff"), Some(("12", Scale::Celsius)));
    assert_eq!(split_reading("12/Kelvin"), Some(("12", Scale::Celsius)));
}

#[test]
fn only_the_first_slash_splits() {
    assert_eq!(split_reading("1/2/F"), Some(("1", Scale::Celsius)));
    assert_eq!(split_reading("7//"), Some(("7", Scale::Celsius)));
}

#[test]
fn the_number_is_handed_back_as_written() {
    assert_eq!(split_reading("warm/F"), Some(("warm", Scale::Fahrenheit)));
    assert_eq!(split_reading(" 5 /k"), Some((" 5 ", Scale::Kelvin)));
    assert_eq!(split_reading("−4°/K"), Some(("−4°", Scale::Kelvin)));
}

#[test]
fn scale_named_by_one_letter() {
    assert_eq!(scale_named("f"), Scale::Fahrenheit);
    assert_eq!(scale_named("F"), Scale::Fahrenheit);
    assert_eq!(scale_named("k"), Scale::Kelvin);
    assert_eq!(scale_named("K"), Scale::Kelvin);
    assert_eq!(scale_named("C"), Scale::Celsius);
    assert_eq!(scale_named(""), Scale::Celsius);
    assert_eq!(scale_named("é"), Scale::Celsius);
}

/// The temperature in degrees Celsius that a written reading gives, and 0
/// where the text is no reading or its number cannot be read.
fn celsius(text: &str) -> f64 {
    match split_reading(text) {
        Some((number, scale)) => number
            .parse::<f64>()
            .map(|temp| match scale {
                Scale::Fahrenheit => (temp - 32.0) * (1.0 / (9.0 / 5.0)),
                Scale::Kelvin => temp - 273.15,
                Scale::Celsius => temp,
            })
            .unwrap_or(0.0),
        None => 0.0,
    }
}

#[test]
fn temp_from_string() {
    assert_eq!(50.0, celsius("50/C"));
}

#[test]
fn temp_from_fahreneheit_string() {
    assert_eq!(0.0, celsius("32/f"));
}

#[test]
fn default_temp_from_bad_string() {
    assert_eq!(0.0, celsius("F90"));
}

#[test]
fn temp_from_kelvin_string() {
    assert_eq!(0.0, celsius("273.15/K"));
    assert_eq!(0.0, celsius("warm/K"));
}
