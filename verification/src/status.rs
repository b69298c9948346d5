use crate::catalog::ModemConfig;
use vstd::prelude::*;

verus! {

/// The modem's state as it last reported it, and the running counters.
#[derive(Debug)]
pub struct Status {
    /// Firmware version running on the modem.
    pub version: String,
    /// Current preset.
    pub config: ModemConfig,
    /// Maximum packet size supported.
    pub max_pkt_size: usize,
    /// Frequency configured on the modem, in hundredths of a megahertz.
    pub frequency: u32,
    /// Whether the receiving of incoming packets is switched on.
    pub rx_listener: bool,
    /// Number of receive errors.
    pub rx_bad: usize,
    /// Number of successfully received packets.
    pub rx_good: usize,
    /// Number of successfully transmitted packets.
    pub tx_good: usize,
}

impl Status {
    /// True for the status that a session starts with: version `0.0`, the
    /// medium-range preset, no frequency, the listener off and every size and
    /// counter at zero.
    pub open spec fn is_initial(&self) -> bool {
        &&& self.version@ == seq!['0', '.', '0']
        &&& self.config == ModemConfig::MediumBw125Cr45Sf128Crc
        &&& self.max_pkt_size == 0
        &&& self.frequency == 0
        &&& self.rx_listener == false
        &&& self.rx_bad == 0
        &&& self.rx_good == 0
        &&& self.tx_good == 0
    }

    /// The status that a session starts with.
    pub fn new() -> (s: Status)
        ensures
            s.is_initial(),
    {
        proof {
            reveal_strlit("0.0");
        }
        let version = String::from_str("0.0");
        assert(version@ =~= seq!['0', '.', '0']);
        Status {
            version,
            config: ModemConfig::MediumBw125Cr45Sf128Crc,
            max_pkt_size: 0,
            frequency: 0,
            rx_listener: false,
            rx_bad: 0,
            rx_good: 0,
            tx_good: 0,
        }
    }
}

impl Default for Status {
    fn default() -> (s: Status)
        ensures
            s.is_initial(),
    {
        Status::new()
    }
}

} // verus!
