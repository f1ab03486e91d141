//! Where the server is: its address and its UDP port.

use crate::decimal::{decimal_number, parse_u16};
use vstd::prelude::*;

verus! {

/// The settings of a peer.
#[derive(Clone, Debug, PartialEq, Eq)]
pub struct Config {
    pub server_addr: String,
    pub server_port: u16,
}

/// Why settings could not be made of the text given.
#[derive(Clone, Copy, Debug, PartialEq, Eq, Structural)]
pub enum ConfigError {
    /// The port is not a decimal number from 0 to 65535.
    MalformedPort,
}

/// What `str::trim` makes of a text: the text without the white space at
/// its two ends.
pub uninterp spec fn trimmed(s: Seq<char>) -> Seq<char>;

/// `str::trim`, with the result in a string of its own.
#[verifier::external_body]
fn trim(s: &str) -> (t: String)
    ensures
        t@ == trimmed(s@),
{
    s.trim().to_string()
}

impl Config {
    /// The settings for an address and a port as parsed: none where the
    /// port did not parse.
    pub fn from_parts(server_addr: String, server_port: Option<u16>) -> (r: Result<
        Self,
        ConfigError,
    >)
        ensures
            match server_port {
                Some(p) => r matches Ok(c) && c.server_addr@ == server_addr@ && c.server_port == p,
                None => r matches Err(e) && e == ConfigError::MalformedPort,
            },
    {
        match server_port {
            Some(p) => Ok(Config { server_addr, server_port: p }),
            None => Err(ConfigError::MalformedPort),
        }
    }

    /// The settings spelled by two texts fixed when the program is built:
    /// the address is the first without the white space around it, the port
    /// is the number that the second spells once it is trimmed likewise.
    pub fn new_from_embed(server_addr: &str, server_port: &str) -> (r: Result<Self, ConfigError>)
        ensures
            match decimal_number(trimmed(server_port@), u16::MAX as nat) {
                Some(p) => r matches Ok(c) && c.server_addr@ == trimmed(server_addr@)
                    && c.server_port == p,
                None => r matches Err(e) && e == ConfigError::MalformedPort,
            },
    {
        let addr = trim(server_addr);
        let port_text = trim(server_port);
        let port = parse_u16(port_text.as_str());
        Self::from_parts(addr, port)
    }
}

} // verus!
