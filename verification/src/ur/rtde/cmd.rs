//! The types of RTDE packages: the letters that the controller uses.

use vstd::prelude::*;

verus! {

/// To ask for a protocol version.
pub const REQUEST_PROTOCOL_VERSION: u8 = 86;

/// To ask for the controller version.
pub const GET_URCONTROL_VERSION: u8 = 118;

/// A text message.
pub const TEXT_MESSAGE: u8 = 77;

/// Data.
pub const DATA_PACKAGE: u8 = 85;

/// To set up an output recipe.
pub const CONTROL_PACKAGE_SETUP_OUTPUTS: u8 = 79;

/// To set up an input recipe.
pub const CONTROL_PACKAGE_SETUP_INPUTS: u8 = 73;

/// To start the data.
pub const CONTROL_PACKAGE_START: u8 = 83;

/// To pause the data.
pub const CONTROL_PACKAGE_PAUSE: u8 = 80;

/// Each type of package is a letter of its own.
pub proof fn law_packages_are_letters()
    ensures
        REQUEST_PROTOCOL_VERSION as char == 'V',
        GET_URCONTROL_VERSION as char == 'v',
        TEXT_MESSAGE as char == 'M',
        DATA_PACKAGE as char == 'U',
        CONTROL_PACKAGE_SETUP_OUTPUTS as char == 'O',
        CONTROL_PACKAGE_SETUP_INPUTS as char == 'I',
        CONTROL_PACKAGE_START as char == 'S',
        CONTROL_PACKAGE_PAUSE as char == 'P',
{
}

} // verus!
