use canopen::config::AppConfig;
use canopen::logging::LogEvent;
use canopen::logging::log_event_record;
use canopen::text::i64_to_dec;
use canopen::text::parse_u64_radix;
use canopen::text::str_eq;
use canopen::text::u32_to_hex;
use canopen::text::u32_to_hex_lower;
use canopen::text::u64_to_dec;

#[test]
fn decimal_rendering() {
    assert_eq!(u64_to_dec(0), "0");
    assert_eq!(u64_to_dec(7), "7");
    assert_eq!(u64_to_dec(4660), "4660");
    assert_eq!(u64_to_dec(u64::MAX), "18446744073709551615");
    assert_eq!(i64_to_dec(0), "0");
    assert_eq!(i64_to_dec(-1), "-1");
    assert_eq!(i64_to_dec(i64::MIN), "-9223372036854775808");
}

#[test]
fn hexadecimal_rendering() {
    assert_eq!(u32_to_hex(0x1234, 4), "1234");
    assert_eq!(u32_to_hex(0x1A, 2), "1A");
    assert_eq!(u32_to_hex(0x06020000, 8), "06020000");
    assert_eq!(u32_to_hex(0xF, 4), "000F");
    assert_eq!(u32_to_hex_lower(0x1A00, 4), "1a00");
}

#[test]
fn number_parsing() {
    assert_eq!(parse_u64_radix("0", 10), Some(0));
    assert_eq!(parse_u64_radix("4660", 10), Some(4660));
    assert_eq!(parse_u64_radix("+17", 10), Some(17));
    assert_eq!(parse_u64_radix("", 10), None);
    assert_eq!(parse_u64_radix("+", 10), None);
    assert_eq!(parse_u64_radix("12x", 10), None);
    assert_eq!(parse_u64_radix("18446744073709551615", 10), Some(u64::MAX));
    assert_eq!(parse_u64_radix("18446744073709551616", 10), None);
    assert_eq!(parse_u64_radix("1A00", 16), Some(0x1A00));
    assert_eq!(parse_u64_radix("1a00", 16), Some(0x1A00));
    assert_eq!(parse_u64_radix("g", 16), None);
    assert!(str_eq("same", "same"));
    assert!(!str_eq("same", "Same"));
    assert!(!str_eq("same", "sam"));
}

#[test]
fn log_records_per_event() {
    let (kind, address, value, message) = log_event_record(&LogEvent::SdoData {
        index: 0x2000,
        sub_index: 1,
        value: "42".to_string(),
    });
    assert_eq!(kind, "SDO_DATA");
    assert_eq!(address, "2000:01");
    assert_eq!(value, "42");
    assert_eq!(message, "");

    let (kind, address, value, message) = log_event_record(&LogEvent::SdoError {
        index: 0x1000,
        sub_index: 0,
        error: "SDO request timeout".to_string(),
    });
    assert_eq!(kind, "SDO_ERROR");
    assert_eq!(address, "1000:00");
    assert_eq!(value, "");
    assert_eq!(message, "SDO request timeout");

    let (kind, address, value, _) = log_event_record(&LogEvent::TpdoData {
        tpdo_number: 1,
        values: vec![
            ("Temp".to_string(), "21.5".to_string()),
            ("Status".to_string(), "49".to_string()),
        ],
    });
    assert_eq!(kind, "TPDO_DATA");
    assert_eq!(address, "TPDO1");
    assert_eq!(value, "Temp=21.5, Status=49");

    let (kind, _, value, _) = log_event_record(&LogEvent::ConnectionStatus(true));
    assert_eq!(kind, "CONNECTION_STATUS");
    assert_eq!(value, "Connected");
    let (_, _, value, _) = log_event_record(&LogEvent::ConnectionStatus(false));
    assert_eq!(value, "Disconnected");
    let (kind, _, _, message) = log_event_record(&LogEvent::ConnectionFailed("down".to_string()));
    assert_eq!(kind, "CONNECTION_FAILED");
    assert_eq!(message, "down");
}

#[test]
fn app_config_defaults_and_log_directory() {
    let config = AppConfig::default();
    assert_eq!(config.can_interface, "");
    assert_eq!(config.node_id, 1);
    assert!(config.eds_file_path.is_none());
    assert!(config.enable_logging);
    assert!(config.log_directory.is_none());

    assert_eq!(
        config.get_log_directory(Some("/var/log/canopen".to_string())),
        Some("/var/log/canopen".to_string())
    );
    assert_eq!(config.get_log_directory(None), None);

    let configured = AppConfig { log_directory: Some("/tmp/logs".to_string()), ..AppConfig::default() };
    assert_eq!(
        configured.get_log_directory(Some("/var/log/canopen".to_string())),
        Some("/tmp/logs".to_string())
    );
}
