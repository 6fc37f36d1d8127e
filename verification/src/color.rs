//! Whether output is styled.

use vstd::prelude::*;
use vstd::std_specs::convert::FromSpecImpl;

verus! {

/// Available options for controlling whether to use color in the output.
#[derive(Debug, Clone, Copy, PartialEq, Eq, Structural)]
pub enum ColorOpt {
    /// Use color if the output is a terminal.
    Auto,
    /// Always use color.
    Always,
    /// Never use color.
    Never,
}

impl Default for ColorOpt {
    fn default() -> (color: ColorOpt)
        ensures
            color == ColorOpt::Auto,
    {
        ColorOpt::Auto
    }
}

impl ColorOpt {
    /// The option in force once the flag that switches color off is taken
    /// into account: the flag forces `Never`, and without it the option stands.
    pub fn unless_disabled(self, no_color: bool) -> (color: ColorOpt)
        ensures
            color == if no_color {
                ColorOpt::Never
            } else {
                self
            },
    {
        if no_color {
            ColorOpt::Never
        } else {
            self
        }
    }
}

/// `termcolor::ColorChoice`, with its variants as `termcolor` defines them, so
/// that the conversion below is proved and not assumed.
#[verifier::external_type_specification]
pub struct ExColorChoice(termcolor::ColorChoice);

/// Each option is the stream choice of the same name.
impl From<ColorOpt> for termcolor::ColorChoice {
    fn from(value: ColorOpt) -> (choice: Self) {
        match value {
            ColorOpt::Auto => termcolor::ColorChoice::Auto,
            ColorOpt::Always => termcolor::ColorChoice::Always,
            ColorOpt::Never => termcolor::ColorChoice::Never,
        }
    }
}

impl FromSpecImpl<ColorOpt> for termcolor::ColorChoice {
    open spec fn obeys_from_spec() -> bool {
        true
    }

    open spec fn from_spec(value: ColorOpt) -> Self {
        match value {
            ColorOpt::Auto => termcolor::ColorChoice::Auto,
            ColorOpt::Always => termcolor::ColorChoice::Always,
            ColorOpt::Never => termcolor::ColorChoice::Never,
        }
    }
}

} // verus!
