use rf95modem::{ModemConfig, Status};

#[test]
fn fresh_status_has_the_defaults() {
    let status = Status::new();
    assert_eq!(status.version, "0.0");
    assert_eq!(status.config, ModemConfig::MediumBw125Cr45Sf128Crc);
    assert_eq!(status.max_pkt_size, 0);
    assert_eq!(status.frequency, 0);
    assert!(!status.rx_listener);
    assert_eq!(status.rx_bad, 0);
    assert_eq!(status.rx_good, 0);
    assert_eq!(status.tx_good, 0);
}

#[test]
fn default_status_is_the_fresh_one() {
    let status = Status::default();
    assert_eq!(status.version, "0.0");
    assert_eq!(status.config, ModemConfig::MediumBw125Cr45Sf128Crc);
    assert_eq!(status.max_pkt_size, 0);
    assert_eq!(status.frequency, 0);
    assert!(!status.rx_listener);
    assert_eq!((status.rx_bad, status.rx_good, status.tx_good), (0, 0, 0));
}
