//! What the device is handed at start-up: its network credentials and the
//! label under which it reports.

use vstd::prelude::*;

verus! {

/// Label of the one sensor, sent with every reading.
pub const SENSOR_LABEL: &'static str = "Bedroom";

/// Station-mode credentials: the network's name and its pre-shared key.
pub struct Config {
    pub wifi_ssid: &'static str,
    pub wifi_psk: &'static str,
}

impl Default for Config {
    /// Both credentials empty, as when nothing was supplied.
    fn default() -> (config: Self)
        ensures
            config.wifi_ssid@ == Seq::<char>::empty(),
            config.wifi_psk@ == Seq::<char>::empty(),
    {
        proof {
            reveal_strlit("");
        }
        let config = Config { wifi_ssid: "", wifi_psk: "" };
        assert(config.wifi_ssid@ =~= Seq::<char>::empty());
        assert(config.wifi_psk@ =~= Seq::<char>::empty());
        config
    }
}

} // verus!
