use rustable::{ColorOpt, ColumnAlign};

#[test]
fn alignment_defaults_to_center() {
    assert_eq!(ColumnAlign::default(), ColumnAlign::Center);
}

#[test]
fn color_defaults_to_auto() {
    assert_eq!(ColorOpt::default(), ColorOpt::Auto);
}

#[test]
fn no_color_flag_forces_never() {
    assert_eq!(ColorOpt::Auto.unless_disabled(true), ColorOpt::Never);
    assert_eq!(ColorOpt::Always.unless_disabled(true), ColorOpt::Never);
    assert_eq!(ColorOpt::Never.unless_disabled(true), ColorOpt::Never);
}

#[test]
fn without_the_flag_the_option_stands() {
    assert_eq!(ColorOpt::Auto.unless_disabled(false), ColorOpt::Auto);
    assert_eq!(ColorOpt::Always.unless_disabled(false), ColorOpt::Always);
    assert_eq!(ColorOpt::Never.unless_disabled(false), ColorOpt::Never);
}

#[test]
fn color_option_maps_to_the_stream_choice() {
    assert_eq!(termcolor::ColorChoice::from(ColorOpt::Auto), termcolor::ColorChoice::Auto);
    assert_eq!(termcolor::ColorChoice::from(ColorOpt::Always), termcolor::ColorChoice::Always);
    assert_eq!(termcolor::ColorChoice::from(ColorOpt::Never), termcolor::ColorChoice::Never);
}
