use m8_updater::serial::{
    filter_to_m8_serial_ports, get_usb_port_info, is_m8_serial_port, is_usb_serial_port,
    serial_interface_port, SerialPortInfo, UsbPortInfo, BAUD_RATE, DIRTYWAVE_VENDOR_ID,
    ENABLE_DISPLAY_COMMAND, MANUFACTURER_NAME, MODEL_2_PRODUCT_ID, PRODUCT_NAME,
};
use m8_updater::tycmd::{stops_after, tycmd_arguments, InvokeTyCmd, TycmdProvider, TYCMD_SIDECAR};

fn port(name: &str, usb: Option<(u16, u16)>) -> SerialPortInfo {
    SerialPortInfo { port_name: name.into(), usb: usb.map(|(vid, pid)| UsbPortInfo { vid, pid }) }
}

#[test]
fn usb_identity_is_read_of_call_out_ports() {
    let m8 = port("/dev/cu.usbmodem1", Some((5824, 1162)));
    assert_eq!(get_usb_port_info(&m8), Some(UsbPortInfo { vid: 5824, pid: 1162 }));
    assert!(is_usb_serial_port(&m8));
    assert!(is_m8_serial_port(&m8));
    let tty = port("/dev/tty.usbmodem1", Some((5824, 1162)));
    assert_eq!(get_usb_port_info(&tty), None);
    assert!(!is_usb_serial_port(&tty));
    assert!(!is_m8_serial_port(&tty));
    let plain = port("/dev/cu.Bluetooth", None);
    assert_eq!(get_usb_port_info(&plain), None);
    assert!(!is_m8_serial_port(&plain));
    let other = port("/dev/cu.usbserial", Some((5824, 1163)));
    assert!(is_usb_serial_port(&other));
    assert!(!is_m8_serial_port(&other));
    assert!(!is_m8_serial_port(&port("/dev/cu.usbserial", Some((5825, 1162)))));
}

#[test]
fn only_instrument_ports_are_kept_in_order() {
    let ports = vec![
        port("/dev/cu.a", Some((5824, 1162))),
        port("/dev/cu.b", Some((1, 2))),
        port("/dev/tty.c", Some((5824, 1162))),
        port("/dev/cu.d", None),
        port("/dev/cu.e", Some((5824, 1162))),
    ];
    let kept = filter_to_m8_serial_ports(ports);
    assert_eq!(
        kept,
        vec![port("/dev/cu.a", Some((5824, 1162))), port("/dev/cu.e", Some((5824, 1162)))]
    );
    assert!(filter_to_m8_serial_ports(vec![]).is_empty());
}

#[test]
fn constants_of_the_instrument() {
    assert_eq!(MANUFACTURER_NAME, "DirtyWave");
    assert_eq!(PRODUCT_NAME, "M8");
    assert_eq!(DIRTYWAVE_VENDOR_ID, 5824);
    assert_eq!(MODEL_2_PRODUCT_ID, 1162);
    assert_eq!(BAUD_RATE, 115_200);
    assert_eq!(ENABLE_DISPLAY_COMMAND, b'E');
    assert_eq!(TYCMD_SIDECAR, "tycmd");
}

#[test]
fn the_serial_line_is_the_first_interface_named_serial() {
    let interfaces = vec![
        vec!["RawHID".to_string(), "/dev/hid0".to_string()],
        vec!["Serial".to_string(), "/dev/cu.usbmodem1".to_string()],
        vec!["Serial".to_string(), "/dev/cu.usbmodem2".to_string()],
    ];
    assert_eq!(serial_interface_port(&interfaces), Some("/dev/cu.usbmodem1".to_string()));
    assert_eq!(serial_interface_port(&vec![]), None);
    assert_eq!(serial_interface_port(&vec![vec![], vec!["serial".to_string(), "x".to_string()]]), None);
    let bare = vec![vec!["Serial".to_string()], vec!["Serial".to_string(), "/dev/x".to_string()]];
    assert_eq!(serial_interface_port(&bare), None);
}

#[test]
fn the_tool_is_asked_to_list_or_to_watch() {
    assert_eq!(tycmd_arguments(InvokeTyCmd::List), vec!["list", "--verbose", "--output", "json"]);
    assert_eq!(
        tycmd_arguments(InvokeTyCmd::Watch),
        vec!["list", "--verbose", "--watch", "--output", "json"]
    );
    assert!(stops_after(InvokeTyCmd::List, true));
    assert!(!stops_after(InvokeTyCmd::List, false));
    assert!(!stops_after(InvokeTyCmd::Watch, true));
    assert!(!stops_after(InvokeTyCmd::Watch, false));
    assert_eq!(TycmdProvider.startup_commands(), vec![InvokeTyCmd::List, InvokeTyCmd::Watch]);
    assert_eq!(TycmdProvider::default(), TycmdProvider);
}
