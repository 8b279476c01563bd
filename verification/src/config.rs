//! The defaults of the server's configuration file.
use std::time::Duration;
use vstd::prelude::*;
use vstd::string::StringExecFns;
use crate::clock::duration_secs;

verus! {

/// How long a login token lasts: 30 days, in seconds.
pub const TOKEN_DURATION_SECS: u64 = 2592000;

/// How often an idle websocket is pinged, in seconds.
pub const WS_PING_DELAY_SECS: u64 = 45;

/// How many players each leaderboard keeps.
pub const LEADERBOARD_SPAN: usize = 5;

pub fn stderr_log() -> (r: String)
    ensures
        r@ == "stderr.log"@,
{
    String::from_str("stderr.log")
}

pub fn routing_log() -> (r: String)
    ensures
        r@ == "routing.log"@,
{
    String::from_str("routing.log")
}

pub fn suspicious_security_log() -> (r: String)
    ensures
        r@ == "security.log"@,
{
    String::from_str("security.log")
}

pub fn bola_profiles_table() -> (r: String)
    ensures
        r@ == "bola_profiles"@,
{
    String::from_str("bola_profiles")
}

/// 30 days.
pub fn token_duration() -> (r: Duration)
    ensures
        duration_secs(r) == TOKEN_DURATION_SECS,
{
    Duration::from_secs(60 * 60 * 24 * 30)
}

pub fn network_port() -> (r: u16)
    ensures
        r == 10419,
{
    10419
}

pub fn stylesheet_path() -> (r: String)
    ensures
        r@ == "manglemix.css"@,
{
    String::from_str("manglemix.css")
}

pub fn invalid_path() -> (r: String)
    ensures
        r@ == "invalid.html"@,
{
    String::from_str("invalid.html")
}

pub fn success_path() -> (r: String)
    ensures
        r@ == "success.html"@,
{
    String::from_str("success.html")
}

pub fn late_path() -> (r: String)
    ensures
        r@ == "late.html"@,
{
    String::from_str("late.html")
}

pub fn certs_path() -> (r: String)
    ensures
        r@ == "https/certs.pem"@,
{
    String::from_str("https/certs.pem")
}

pub fn key_path() -> (r: String)
    ensures
        r@ == "https/key.pem"@,
{
    String::from_str("https/key.pem")
}

/// The lobby size of a hosted session where none is given.
pub fn default_lobby_size() -> (r: usize)
    ensures
        r == 4,
{
    4
}

/// The ping delay of the websocket API.
pub fn ws_ping_delay() -> (r: Duration)
    ensures
        duration_secs(r) == WS_PING_DELAY_SECS,
{
    Duration::from_secs(WS_PING_DELAY_SECS)
}

} // verus!
