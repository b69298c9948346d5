use rf95modem::{LoRaChannels, ModemConfig, ModemError};

#[test]
fn codes_zero_to_three_are_the_presets() {
    assert_eq!(ModemConfig::from_code(0), Ok(ModemConfig::MediumBw125Cr45Sf128Crc));
    assert_eq!(ModemConfig::from_code(1), Ok(ModemConfig::FastShortBw500Cr45Sf128Crc));
    assert_eq!(ModemConfig::from_code(2), Ok(ModemConfig::SlowLongBw3125Cr48Sf512Crc));
    assert_eq!(ModemConfig::from_code(3), Ok(ModemConfig::SlowLongBw125Cr48Sf4096Crc));
}

#[test]
fn other_codes_are_unknown() {
    assert_eq!(ModemConfig::from_code(4), Err(ModemError::UnknownConfigCode));
    assert_eq!(ModemConfig::from_code(usize::MAX), Err(ModemError::UnknownConfigCode));
    assert_eq!(ModemConfig::from_code((-1isize) as usize), Err(ModemError::UnknownConfigCode));
}

#[test]
fn try_from_looks_up_as_from_code_does() {
    assert_eq!(ModemConfig::try_from(0usize), Ok(ModemConfig::MediumBw125Cr45Sf128Crc));
    assert_eq!(ModemConfig::try_from(3usize), Ok(ModemConfig::SlowLongBw125Cr48Sf4096Crc));
    assert_eq!(ModemConfig::try_from(4usize), Err(ModemError::UnknownConfigCode));
}

#[test]
fn presets_have_their_codes() {
    assert_eq!(ModemConfig::MediumBw125Cr45Sf128Crc.code(), 0);
    assert_eq!(ModemConfig::FastShortBw500Cr45Sf128Crc.code(), 1);
    assert_eq!(ModemConfig::SlowLongBw3125Cr48Sf512Crc.code(), 2);
    assert_eq!(ModemConfig::SlowLongBw125Cr48Sf4096Crc.code(), 3);
}

#[test]
fn code_and_lookup_undo_each_other() {
    for code in 0..4usize {
        assert_eq!(ModemConfig::from_code(code).unwrap().code(), code);
    }
}

#[test]
fn channel_values_are_hundredths_of_megahertz() {
    assert_eq!(LoRaChannels::Ch01_868.value(), 86810);
    assert_eq!(LoRaChannels::Ch00_900.value(), 90308);
    assert_eq!(LoRaChannels::Ch01_868.value() as f32 / 100.0, 868.10);
    assert_eq!(LoRaChannels::Ch00_900.value() as f32 / 100.0, 903.08);
}

#[test]
fn every_channel_has_its_value() {
    let table = [
        (LoRaChannels::Ch01_868, 86810),
        (LoRaChannels::Ch02_868, 86830),
        (LoRaChannels::Ch03_868, 86850),
        (LoRaChannels::Ch04_868, 86710),
        (LoRaChannels::Ch05_868, 86730),
        (LoRaChannels::Ch06_868, 86750),
        (LoRaChannels::Ch07_868, 86770),
        (LoRaChannels::Ch08_868, 86790),
        (LoRaChannels::Ch09_868, 86880),
        (LoRaChannels::Ch10_868, 86520),
        (LoRaChannels::Ch11_868, 86550),
        (LoRaChannels::Ch12_868, 86580),
        (LoRaChannels::Ch13_868, 86610),
        (LoRaChannels::Ch14_868, 86640),
        (LoRaChannels::Ch15_868, 86670),
        (LoRaChannels::Ch16_868, 86700),
        (LoRaChannels::Ch17_868, 86800),
        (LoRaChannels::Ch00_900, 90308),
        (LoRaChannels::Ch01_900, 90524),
        (LoRaChannels::Ch02_900, 90740),
        (LoRaChannels::Ch03_900, 90956),
        (LoRaChannels::Ch04_900, 91172),
        (LoRaChannels::Ch05_900, 91388),
        (LoRaChannels::Ch06_900, 91604),
        (LoRaChannels::Ch07_900, 91820),
        (LoRaChannels::Ch08_900, 92036),
        (LoRaChannels::Ch09_900, 92252),
        (LoRaChannels::Ch10_900, 92468),
        (LoRaChannels::Ch11_900, 92684),
        (LoRaChannels::Ch12_900, 91500),
    ];
    assert_eq!(table.len(), 30);
    for (channel, value) in table {
        assert_eq!(channel.value(), value);
    }
}

#[test]
fn errors_say_what_went_wrong() {
    assert_eq!(ModemError::MalformedLine.message(), "output from modem has unexpected length!");
    assert_eq!(ModemError::LengthMismatch.message(), "payload length not matching actual payload!");
    assert_eq!(ModemError::UnknownConfigCode.message(), "Unknown modem config code!");
    let all = [
        ModemError::Decode,
        ModemError::MalformedLine,
        ModemError::InvalidField,
        ModemError::InvalidPayload,
        ModemError::LengthMismatch,
        ModemError::UnknownConfigCode,
        ModemError::Io,
    ];
    for (i, a) in all.iter().enumerate() {
        for (j, b) in all.iter().enumerate() {
            assert_eq!(a.message() == b.message(), i == j);
        }
    }
}
