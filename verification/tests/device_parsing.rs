use adb_client::device::AdbDevice;
use adb_client::device_info::AdbDeviceInfo;
use adb_client::server::{
    devices_from_response, select_active_device, AdbServer, AdbServerError,
};

#[test]
fn test_device_info_parsing() {
    let string: &str = &"serial\tdevice k1:v1 k2:v2";

    let testserial: String = "serial".to_string();
    let testinfo: Vec<(String, String)> = vec![
        ("k1".to_string(), "v1".to_string()),
        ("k2".to_string(), "v2".to_string()),
    ];

    let devinfo = AdbDeviceInfo::parse_info(string);

    assert_eq!(devinfo, Some(AdbDeviceInfo::new(testserial, testinfo)));
}

#[test]
fn parse_offline_line_is_discarded() {
    assert!(AdbDeviceInfo::parse_info("serial\toffline").is_none());
}

#[test]
fn parse_unauthorized_line_is_discarded() {
    assert!(AdbDeviceInfo::parse_info("serial\tunauthorized").is_none());
}

#[test]
fn parse_missing_state_is_discarded() {
    assert!(AdbDeviceInfo::parse_info("serial").is_none());
    assert!(AdbDeviceInfo::parse_info("").is_none());
}

#[test]
fn parse_drops_token_without_colon() {
    let d = AdbDeviceInfo::parse_info("serial\tdevice badtoken").unwrap();
    assert_eq!(d.get_serial_number(), "serial");
    assert!(d.get_info().is_empty());
}

#[test]
fn parse_drops_token_with_two_colons() {
    let d = AdbDeviceInfo::parse_info("serial\tdevice a:b:c").unwrap();
    assert_eq!(d.get_serial_number(), "serial");
    assert!(d.get_info().is_empty());
}

#[test]
fn parse_orders_attributes_by_key() {
    let d = AdbDeviceInfo::parse_info("s\tdevice b:2 a:1").unwrap();
    assert_eq!(
        d.get_info(),
        vec![("a".to_string(), "1".to_string()), ("b".to_string(), "2".to_string())]
    );
}

#[test]
fn parse_repeated_key_keeps_last_value() {
    let d = AdbDeviceInfo::parse_info("s\tdevice k:1 k:2").unwrap();
    assert_eq!(d.get_info(), vec![("k".to_string(), "2".to_string())]);
}

#[test]
fn parse_keeps_empty_key_or_value() {
    let d = AdbDeviceInfo::parse_info("s\tdevice k: :v").unwrap();
    assert_eq!(
        d.get_info(),
        vec![("".to_string(), "v".to_string()), ("k".to_string(), "".to_string())]
    );
}

#[test]
fn new_collects_pairs_like_a_map() {
    let a = AdbDeviceInfo::new(
        "s".to_string(),
        vec![
            ("b".to_string(), "2".to_string()),
            ("a".to_string(), "1".to_string()),
            ("b".to_string(), "3".to_string()),
        ],
    );
    assert_eq!(
        a.get_info(),
        vec![("a".to_string(), "1".to_string()), ("b".to_string(), "3".to_string())]
    );
}

#[test]
fn record_equality_is_by_serial_and_attributes() {
    let a = AdbDeviceInfo::new("s".to_string(), vec![("k".to_string(), "v".to_string())]);
    let b = AdbDeviceInfo::new("s".to_string(), vec![("k".to_string(), "v".to_string())]);
    let c = AdbDeviceInfo::new("s".to_string(), vec![("k".to_string(), "w".to_string())]);
    let d = AdbDeviceInfo::new("t".to_string(), vec![("k".to_string(), "v".to_string())]);
    assert_eq!(a, b);
    assert_ne!(a, c);
    assert_ne!(a, d);
}

#[test]
fn devices_from_response_keeps_listing_order() {
    let out = devices_from_response("s1\tdevice\ns2\toffline\ns3\tdevice k:v\n");
    assert_eq!(out.len(), 2);
    assert_eq!(out[0].get_serial_number(), "s1");
    assert_eq!(out[1].get_serial_number(), "s3");
    assert_eq!(out[1].get_info(), vec![("k".to_string(), "v".to_string())]);
}

#[test]
fn devices_from_response_strips_carriage_returns() {
    let out = devices_from_response("s1\tdevice\r\n");
    assert_eq!(out.len(), 1);
    assert_eq!(out[0].get_serial_number(), "s1");
}

#[test]
fn active_device_on_empty_pool_is_no_devices() {
    let r = select_active_device(Vec::new());
    assert!(matches!(r, Err(AdbServerError::NoDevices)));
}

#[test]
fn active_device_is_the_first_listed() {
    let pool = devices_from_response("s1\tdevice\ns2\tdevice\n");
    let first = select_active_device(pool).unwrap();
    assert_eq!(first.get_serial_number(), "s1");
}

#[test]
fn server_default_is_localhost_5037_with_two_second_timeouts() {
    let s = AdbServer::default();
    assert_eq!(s.host, [127, 0, 0, 1]);
    assert_eq!(s.port, 5037);
    assert_eq!(s.read_timeout_ms, Some(2000));
    assert_eq!(s.write_timeout_ms, Some(2000));
}

#[test]
fn server_new_keeps_its_parameters() {
    let s = AdbServer::new([10, 0, 0, 2], 5038, 1500, 2500).unwrap();
    assert_eq!(s.host, [10, 0, 0, 2]);
    assert_eq!(s.port, 5038);
    assert_eq!(s.read_timeout_ms, Some(1500));
    assert_eq!(s.write_timeout_ms, Some(2500));
}

#[test]
fn device_binds_serial_to_server() {
    let s = AdbServer::default();
    let d = AdbDevice::new("serial".to_string(), s).unwrap();
    assert_eq!(d.get_serial_number(), "serial");
    assert_eq!(d.host().port, 5037);
}
