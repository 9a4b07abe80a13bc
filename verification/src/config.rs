//! Server settings, held as plain values; reading them from the
//! environment and command line happens outside.

use vstd::prelude::*;

verus! {

/// Settings of one server run.
#[derive(Debug, Clone)]
pub struct ServerConfig {
    pub bind_addr: String,
    pub watchdog_timeout_ms: u64,
    pub gpio_button_pin: Option<u8>,
    pub gpio_lid_pin: Option<u8>,
    pub gpio_status_led_pin: Option<u8>,
    pub stream_audio: bool,
    pub save_request_wavs_dir: Option<String>,
}

impl ServerConfig {
    /// The default TCP bind address.
    pub fn default_bind() -> (r: String)
        ensures
            r@ == "127.0.0.1:7878"@,
    {
        "127.0.0.1:7878".to_owned()
    }
}

} // verus!
