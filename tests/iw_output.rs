use radioscope::iw::{channel_from_info, supported_channels, wiphy_from_info};

const INFO: &str = "Interface wlan1mon\n\tifindex 5\n\twdev 0x1\n\taddr 00:11:22:33:44:55\n\ttype monitor\n\twiphy 1\n\tchannel 6 (2437 MHz), width: 20 MHz (no HT), center1: 2437 MHz\n\ttxpower 20.00 dBm\n";

#[test]
fn channel_line_is_found() {
    assert_eq!(channel_from_info(INFO.as_bytes()), Some(6));
    assert_eq!(channel_from_info(b"  channel +149 (5745 MHz)"), Some(149));
    assert_eq!(channel_from_info(b"channel x\nchannel 11\n"), Some(11));
    assert_eq!(channel_from_info(b"channel 70000\n"), None);
    assert_eq!(channel_from_info(b"channels 6\n"), None);
    assert_eq!(channel_from_info(b""), None);
}

#[test]
fn wiphy_line_is_found() {
    assert_eq!(wiphy_from_info(INFO.as_bytes()), Some(b"1".to_vec()));
    assert_eq!(wiphy_from_info(b"  wiphy  12  \r\n"), Some(b"12".to_vec()));
    assert_eq!(wiphy_from_info(b"type managed\n"), None);
}

const PHY: &str = "Wiphy phy1\n\tBand 1:\n\t\tFrequencies:\n\t\t\t* 2412 MHz [1] (20.0 dBm)\n\t\t\t* 2417.0 MHz [2] (20.0 dBm)\n\t\t\t* 2484 MHz [14] (disabled)\n\tBand 2:\n\t\tFrequencies:\n\t\t\t* 5180 MHz [36] (23.0 dBm)\n\t\t\t* 5745 MHz [149] (No IR, DISABLED)\n\t\t\t* 5955 MHz [ 153 ] (20.0 dBm)\n\t\t\t* 6115 MHz [33] (20.0 dBm)\n\t\t\t* 5200 MHz\n";

#[test]
fn supported_channels_by_band() {
    let (c24, c5) = supported_channels(PHY.as_bytes());
    let a: Vec<(u16, bool)> = c24.iter().map(|c| (c.channel, c.enabled)).collect();
    let b: Vec<(u16, bool)> = c5.iter().map(|c| (c.channel, c.enabled)).collect();
    assert_eq!(a, vec![(1, true), (2, true), (14, false)]);
    assert_eq!(b, vec![(36, true), (149, false), (153, true)]);
}

#[test]
fn later_lines_override_and_default_band() {
    let (c24, c5) = supported_channels(b"* 2412 MHz [1] (disabled)\n* 2412 MHz [1] (20 dBm)\n");
    assert_eq!(c24.len(), 1);
    assert!(c24[0].enabled);
    assert!(c5.is_empty());
    let (c24, c5) = supported_channels(b"* 5180 MHz [36] x\n");
    assert_eq!(c24.len(), 14);
    assert!(c24.iter().enumerate().all(|(i, c)| c.channel == i as u16 + 1 && !c.enabled));
    assert_eq!(c5.len(), 1);
}
