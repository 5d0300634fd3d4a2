//! Errors raised while talking ADS.

use super::defs;
use crate::text;
use vstd::prelude::*;
use vstd::string::*;

verus! {

/// Anything that can go wrong talking ADS to a PLC.
#[derive(Debug, Clone, PartialEq, Eq)]
pub enum AdsError {
    /// The PLC or the AMS router answered with a non-zero ADS error code, in
    /// the AoE header or in the leading result word of the payload.
    Ads(u32),
    /// A frame was shorter than its layout requires.
    ShortFrame { need: usize, got: usize },
    /// The PLC returned fewer bytes than the request asked for.
    ShortRead { need: usize, got: usize },
    /// The socket failed; the text describes how.
    Io(String),
    /// No response arrived within the command timeout.
    Timeout,
    /// The client is not connected to the PLC.
    NotConnected,
}

/// The lower-case hexadecimal digit of `d`.
pub open spec fn hex_char(d: nat) -> char {
    if d < 10 {
        (48 + d) as u8 as char
    } else {
        (87 + d) as u8 as char
    }
}

/// The lower-case hexadecimal numeral of `n`, without leading zeros.
pub open spec fn hex(n: nat) -> Seq<char>
    decreases n,
{
    if n < 16 {
        seq![hex_char(n)]
    } else {
        hex(n / 16).push(hex_char(n % 16))
    }
}

/// The message of an error.
pub open spec fn error_text(e: AdsError) -> Seq<char> {
    match e {
        AdsError::Ads(c) => "ADS error 0x"@ + hex(c as nat) + " ("@ + defs::error_name(c) + ")"@,
        AdsError::ShortFrame { need, got } => "short frame: need "@ + text::decimal(need as nat)
            + " bytes, got "@ + text::decimal(got as nat),
        AdsError::ShortRead { need, got } => "short read: expected "@ + text::decimal(need as nat)
            + " bytes, PLC returned "@ + text::decimal(got as nat),
        AdsError::Io(m) => "I/O error: "@ + m@,
        AdsError::Timeout => "ADS command timed out"@,
        AdsError::NotConnected => "not connected to PLC"@,
    }
}

/// Appends the lower-case hexadecimal numeral of `v`.
pub fn push_hex(out: &mut String, v: u32)
    ensures
        final(out)@ == old(out)@ + hex(v as nat),
    decreases v,
{
    if v >= 16 {
        push_hex(out, v / 16);
    }
    let d: u8 = (v % 16) as u8;
    out.push(
        if d < 10 {
            (48 + d) as char
        } else {
            (87 + d) as char
        },
    );
    proof {
        assert(out@ =~= old(out)@ + hex(v as nat));
    }
}

impl AdsError {
    /// The ADS error code, if the PLC or the router sent one.
    pub fn code(&self) -> (r: Option<u32>)
        ensures
            r == match *self {
                AdsError::Ads(c) => Some(c),
                _ => None,
            },
    {
        match self {
            AdsError::Ads(c) => Some(*c),
            _ => None,
        }
    }

    /// The message that describes the error.
    pub fn message(&self) -> (r: String)
        ensures
            r@ == error_text(*self),
    {
        match self {
            AdsError::Ads(c) => {
                let mut out = "ADS error 0x".to_owned();
                push_hex(&mut out, *c);
                out.append(" (");
                out.append(defs::error_to_string(*c));
                out.append(")");
                out
            },
            AdsError::ShortFrame { need, got } => {
                let mut out = "short frame: need ".to_owned();
                text::push_decimal(&mut out, *need as u64);
                out.append(" bytes, got ");
                text::push_decimal(&mut out, *got as u64);
                out
            },
            AdsError::ShortRead { need, got } => {
                let mut out = "short read: expected ".to_owned();
                text::push_decimal(&mut out, *need as u64);
                out.append(" bytes, PLC returned ");
                text::push_decimal(&mut out, *got as u64);
                out
            },
            AdsError::Io(m) => {
                let mut out = "I/O error: ".to_owned();
                out.append(m.as_str());
                out
            },
            AdsError::Timeout => "ADS command timed out".to_owned(),
            AdsError::NotConnected => "not connected to PLC".to_owned(),
        }
    }
}

/// Maps a non-zero ADS status to an error; zero is success.
pub fn check(status: u32) -> (r: Result<(), AdsError>)
    ensures
        r == checked(status),
{
    if status == 0 {
        Ok(())
    } else {
        Err(AdsError::Ads(status))
    }
}

/// Zero is success, any other status the error with that code.
pub open spec fn checked(status: u32) -> Result<(), AdsError> {
    if status == 0 {
        Ok(())
    } else {
        Err(AdsError::Ads(status))
    }
}

/// The hexadecimal text of a number spells the number.
pub proof fn law_hex_spells_the_number(n: nat)
    ensures
        text::hex_value(hex(n)) == n,
        forall|i: int| 0 <= i < hex(n).len() ==> text::is_hex_digit(#[trigger] hex(n)[i]),
        hex(n).len() > 0,
        n > 0 ==> hex(n)[0] != '0',
    decreases n,
{
    if n >= 16 {
        law_hex_spells_the_number(n / 16);
        assert(hex(n).drop_last() =~= hex(n / 16));
        assert(hex(n)[0] == hex(n / 16)[0]);
        assert forall|i: int| 0 <= i < hex(n).len() implies text::is_hex_digit(
            #[trigger] hex(n)[i],
        ) by {
            if i < hex(n / 16).len() {
                assert(hex(n)[i] == hex(n / 16)[i]);
            }
        }
    } else {
        assert(hex(n).drop_last().len() == 0);
        assert(text::hex_value(hex(n).drop_last()) == 0);
    }
}

/// What each error says.
pub proof fn law_errors_say_what_failed(code: u32, need: usize, got: usize)
    ensures
        error_text(AdsError::Ads(code)) == "ADS error 0x"@ + hex(code as nat) + " ("@
            + defs::error_name(code) + ")"@,
        error_text(AdsError::ShortFrame { need, got }) == "short frame: need "@ + text::decimal(
            need as nat,
        ) + " bytes, got "@ + text::decimal(got as nat),
        error_text(AdsError::ShortRead { need, got }) == "short read: expected "@ + text::decimal(
            need as nat,
        ) + " bytes, PLC returned "@ + text::decimal(got as nat),
        error_text(AdsError::Timeout) == "ADS command timed out"@,
        error_text(AdsError::NotConnected) == "not connected to PLC"@,
        checked(0) is Ok,
        code != 0 ==> checked(code) == Err::<(), AdsError>(AdsError::Ads(code)),
{
}

} // verus!
