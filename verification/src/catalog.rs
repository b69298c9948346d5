use crate::error::ModemError;
use vstd::prelude::*;

verus! {

/// The predefined channels of the two regional frequency plans.
#[allow(non_camel_case_types)]
#[derive(Debug, Clone, Copy, PartialEq, Eq, Structural)]
pub enum LoRaChannels {
    /// EU 868 MHz band, channel 1.
    Ch01_868,
    /// EU 868 MHz band, channel 2.
    Ch02_868,
    /// EU 868 MHz band, channel 3.
    Ch03_868,
    /// EU 868 MHz band, channel 4.
    Ch04_868,
    /// EU 868 MHz band, channel 5.
    Ch05_868,
    /// EU 868 MHz band, channel 6.
    Ch06_868,
    /// EU 868 MHz band, channel 7.
    Ch07_868,
    /// EU 868 MHz band, channel 8.
    Ch08_868,
    /// EU 868 MHz band, channel 9.
    Ch09_868,
    /// EU 868 MHz band, channel 10.
    Ch10_868,
    /// EU 868 MHz band, channel 11.
    Ch11_868,
    /// EU 868 MHz band, channel 12.
    Ch12_868,
    /// EU 868 MHz band, channel 13.
    Ch13_868,
    /// EU 868 MHz band, channel 14.
    Ch14_868,
    /// EU 868 MHz band, channel 15.
    Ch15_868,
    /// EU 868 MHz band, channel 16.
    Ch16_868,
    /// EU 868 MHz band, channel 17.
    Ch17_868,
    /// US 900 MHz band, channel 0.
    Ch00_900,
    /// US 900 MHz band, channel 1.
    Ch01_900,
    /// US 900 MHz band, channel 2.
    Ch02_900,
    /// US 900 MHz band, channel 3.
    Ch03_900,
    /// US 900 MHz band, channel 4.
    Ch04_900,
    /// US 900 MHz band, channel 5.
    Ch05_900,
    /// US 900 MHz band, channel 6.
    Ch06_900,
    /// US 900 MHz band, channel 7.
    Ch07_900,
    /// US 900 MHz band, channel 8.
    Ch08_900,
    /// US 900 MHz band, channel 9.
    Ch09_900,
    /// US 900 MHz band, channel 10.
    Ch10_900,
    /// US 900 MHz band, channel 11.
    Ch11_900,
    /// US 900 MHz band, channel 12.
    Ch12_900,
}

impl LoRaChannels {
    /// The channel's frequency in hundredths of a megahertz.
    pub open spec fn spec_value(self) -> u32 {
        match self {
            LoRaChannels::Ch01_868 => 86810u32,
            LoRaChannels::Ch02_868 => 86830u32,
            LoRaChannels::Ch03_868 => 86850u32,
            LoRaChannels::Ch04_868 => 86710u32,
            LoRaChannels::Ch05_868 => 86730u32,
            LoRaChannels::Ch06_868 => 86750u32,
            LoRaChannels::Ch07_868 => 86770u32,
            LoRaChannels::Ch08_868 => 86790u32,
            LoRaChannels::Ch09_868 => 86880u32,
            LoRaChannels::Ch10_868 => 86520u32,
            LoRaChannels::Ch11_868 => 86550u32,
            LoRaChannels::Ch12_868 => 86580u32,
            LoRaChannels::Ch13_868 => 86610u32,
            LoRaChannels::Ch14_868 => 86640u32,
            LoRaChannels::Ch15_868 => 86670u32,
            LoRaChannels::Ch16_868 => 86700u32,
            LoRaChannels::Ch17_868 => 86800u32,
            LoRaChannels::Ch00_900 => 90308u32,
            LoRaChannels::Ch01_900 => 90524u32,
            LoRaChannels::Ch02_900 => 90740u32,
            LoRaChannels::Ch03_900 => 90956u32,
            LoRaChannels::Ch04_900 => 91172u32,
            LoRaChannels::Ch05_900 => 91388u32,
            LoRaChannels::Ch06_900 => 91604u32,
            LoRaChannels::Ch07_900 => 91820u32,
            LoRaChannels::Ch08_900 => 92036u32,
            LoRaChannels::Ch09_900 => 92252u32,
            LoRaChannels::Ch10_900 => 92468u32,
            LoRaChannels::Ch11_900 => 92684u32,
            LoRaChannels::Ch12_900 => 91500u32,
        }
    }

    /// The channel's frequency in hundredths of a megahertz: 86810 stands for
    /// 868.10 MHz.
    #[verifier::when_used_as_spec(spec_value)]
    pub fn value(self) -> (v: u32)
        ensures
            v == self.spec_value(),
    {
        match self {
            LoRaChannels::Ch01_868 => 86810,
            LoRaChannels::Ch02_868 => 86830,
            LoRaChannels::Ch03_868 => 86850,
            LoRaChannels::Ch04_868 => 86710,
            LoRaChannels::Ch05_868 => 86730,
            LoRaChannels::Ch06_868 => 86750,
            LoRaChannels::Ch07_868 => 86770,
            LoRaChannels::Ch08_868 => 86790,
            LoRaChannels::Ch09_868 => 86880,
            LoRaChannels::Ch10_868 => 86520,
            LoRaChannels::Ch11_868 => 86550,
            LoRaChannels::Ch12_868 => 86580,
            LoRaChannels::Ch13_868 => 86610,
            LoRaChannels::Ch14_868 => 86640,
            LoRaChannels::Ch15_868 => 86670,
            LoRaChannels::Ch16_868 => 86700,
            LoRaChannels::Ch17_868 => 86800,
            LoRaChannels::Ch00_900 => 90308,
            LoRaChannels::Ch01_900 => 90524,
            LoRaChannels::Ch02_900 => 90740,
            LoRaChannels::Ch03_900 => 90956,
            LoRaChannels::Ch04_900 => 91172,
            LoRaChannels::Ch05_900 => 91388,
            LoRaChannels::Ch06_900 => 91604,
            LoRaChannels::Ch07_900 => 91820,
            LoRaChannels::Ch08_900 => 92036,
            LoRaChannels::Ch09_900 => 92252,
            LoRaChannels::Ch10_900 => 92468,
            LoRaChannels::Ch11_900 => 92684,
            LoRaChannels::Ch12_900 => 91500,
        }
    }
}

/// The modem's preset configurations.
#[derive(Debug, Clone, Copy, PartialEq, Eq, Structural)]
pub enum ModemConfig {
    /// Medium range, the default: bandwidth 125 kHz, coding rate 4/5,
    /// spreading factor 128, CRC on.
    MediumBw125Cr45Sf128Crc,
    /// Fast transmission, short range: bandwidth 500 kHz, coding rate 4/5,
    /// spreading factor 128, CRC on.
    FastShortBw500Cr45Sf128Crc,
    /// Slow transmission, long range: bandwidth 31.25 kHz, coding rate 4/8,
    /// spreading factor 512, CRC on.
    SlowLongBw3125Cr48Sf512Crc,
    /// Slow transmission, long range: bandwidth 125 kHz, coding rate 4/8,
    /// spreading factor 4096, CRC on.
    SlowLongBw125Cr48Sf4096Crc,
}

impl ModemConfig {
    /// The code by which the modem knows the preset.
    pub open spec fn spec_code(self) -> usize {
        match self {
            ModemConfig::MediumBw125Cr45Sf128Crc => 0,
            ModemConfig::FastShortBw500Cr45Sf128Crc => 1,
            ModemConfig::SlowLongBw3125Cr48Sf512Crc => 2,
            ModemConfig::SlowLongBw125Cr48Sf4096Crc => 3,
        }
    }

    /// The preset that a code stands for, if it stands for one.
    pub open spec fn spec_from_code(value: usize) -> Option<ModemConfig> {
        if value == 0 {
            Some(ModemConfig::MediumBw125Cr45Sf128Crc)
        } else if value == 1 {
            Some(ModemConfig::FastShortBw500Cr45Sf128Crc)
        } else if value == 2 {
            Some(ModemConfig::SlowLongBw3125Cr48Sf512Crc)
        } else if value == 3 {
            Some(ModemConfig::SlowLongBw125Cr48Sf4096Crc)
        } else {
            None
        }
    }

    /// The code by which the modem knows the preset.
    #[verifier::when_used_as_spec(spec_code)]
    pub fn code(self) -> (c: usize)
        ensures
            c == self.spec_code(),
            c <= 3,
    {
        match self {
            ModemConfig::MediumBw125Cr45Sf128Crc => 0,
            ModemConfig::FastShortBw500Cr45Sf128Crc => 1,
            ModemConfig::SlowLongBw3125Cr48Sf512Crc => 2,
            ModemConfig::SlowLongBw125Cr48Sf4096Crc => 3,
        }
    }

    /// Looks a preset up by its code. Every code above 3 is refused.
    pub fn from_code(value: usize) -> (r: Result<ModemConfig, ModemError>)
        ensures
            r == match Self::spec_from_code(value) {
                Some(config) => Ok::<ModemConfig, ModemError>(config),
                None => Err::<ModemConfig, ModemError>(ModemError::UnknownConfigCode),
            },
            r is Ok <==> value <= 3,
            r is Ok ==> r.unwrap().spec_code() == value,
    {
        match value {
            0 => Ok(ModemConfig::MediumBw125Cr45Sf128Crc),
            1 => Ok(ModemConfig::FastShortBw500Cr45Sf128Crc),
            2 => Ok(ModemConfig::SlowLongBw3125Cr48Sf512Crc),
            3 => Ok(ModemConfig::SlowLongBw125Cr48Sf4096Crc),
            _ => Err(ModemError::UnknownConfigCode),
        }
    }

    /// Code and lookup are inverse to each other: every preset is found again
    /// under its own code, and a code that is found is the code of what was
    /// found.
    pub proof fn lemma_code_round_trip(config: ModemConfig, value: usize)
        ensures
            Self::spec_from_code(config.spec_code()) == Some(config),
            Self::spec_from_code(value) is Some <==> value <= 3,
            Self::spec_from_code(value) is Some ==> Self::spec_from_code(value).unwrap().spec_code()
                == value,
    {
    }
}

impl TryFrom<usize> for ModemConfig {
    type Error = ModemError;

    /// Looks a preset up by its code, as `from_code` does.
    fn try_from(value: usize) -> (r: Result<ModemConfig, ModemError>) {
        ModemConfig::from_code(value)
    }
}

impl vstd::std_specs::convert::TryFromSpecImpl<usize> for ModemConfig {
    open spec fn obeys_try_from_spec() -> bool {
        true
    }

    open spec fn try_from_spec(value: usize) -> Result<ModemConfig, ModemError> {
        match ModemConfig::spec_from_code(value) {
            Some(config) => Ok(config),
            None => Err(ModemError::UnknownConfigCode),
        }
    }
}

} // verus!
