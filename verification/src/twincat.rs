//! TwinCAT PLC driver: the ADS protocol, the value conversions, the link
//! grammar and the decisions of the port driver.

pub mod ads;
pub mod convert;
pub mod driver;
pub mod drvinfo;
pub mod octet;
pub mod time;
