//! The server's configuration and its defaults.
use vstd::prelude::*;
use vstd::string::StringExecFns;

verus! {

/// An IP address: four bytes for IPv4, eight 16-bit groups for IPv6.
#[derive(Debug, Clone, Copy, PartialEq, Eq, Structural)]
pub enum IpAddress {
    V4(u8, u8, u8, u8),
    V6(u16, u16, u16, u16, u16, u16, u16, u16),
}

/// The server's settings.
#[derive(Debug, Clone)]
pub struct ServerConfig {
    pub ping_interval_secs: u64,
    pub timeout_secs: u64,
    pub channel_capacity: usize,
    pub max_frame_length: usize,
    pub port: u16,
    pub address: IpAddress,
    /// Where the database of logins is kept.
    pub database_path: String,
}

/// Seconds between pings, unless configured.
pub fn default_ping_interval() -> (r: u64)
    ensures
        r == 10,
{
    10
}

/// Seconds of silence after which a client is dropped, unless configured.
pub fn default_timeout() -> (r: u64)
    ensures
        r == 30,
{
    30
}

/// Capacity of the channels between the client workers and the core, unless configured.
pub fn default_channel_capacity() -> (r: usize)
    ensures
        r == 32,
{
    32
}

/// Largest frame accepted, in bytes, unless configured: one MiB.
pub fn default_max_frame_length() -> (r: usize)
    ensures
        r == 1048576,
{
    1024 * 1024
}

/// Port to listen on, unless configured.
pub fn default_port() -> (r: u16)
    ensures
        r == 6969,
{
    6969
}

/// Address to listen on, unless configured: every IPv4 interface.
pub fn default_address() -> (r: IpAddress)
    ensures
        r == IpAddress::V4(0, 0, 0, 0),
{
    IpAddress::V4(0, 0, 0, 0)
}

/// Database file, unless configured.
pub fn default_database_path() -> (r: String)
    ensures
        r@ == "chat.db"@,
{
    String::from_str("chat.db")
}

impl Default for ServerConfig {
    fn default() -> (c: Self)
        ensures
            c.ping_interval_secs == 10,
            c.timeout_secs == 30,
            c.channel_capacity == 32,
            c.max_frame_length == 1048576,
            c.port == 6969,
            c.address == IpAddress::V4(0, 0, 0, 0),
            c.database_path@ == "chat.db"@,
    {
        ServerConfig {
            ping_interval_secs: default_ping_interval(),
            timeout_secs: default_timeout(),
            channel_capacity: default_channel_capacity(),
            max_frame_length: default_max_frame_length(),
            port: default_port(),
            address: default_address(),
            database_path: default_database_path(),
        }
    }
}

} // verus!
