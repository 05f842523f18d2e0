//! Serial ports as the operating system lists them, and the choice of the
//! ports that belong to the instrument.

use vstd::prelude::*;
use vstd::string::*;
use crate::text::{contains, has_infix, same_text};

verus! {

/// The manufacturer that the instrument reports.
pub const MANUFACTURER_NAME: &'static str = "DirtyWave";

/// The product that the instrument reports.
pub const PRODUCT_NAME: &'static str = "M8";

/// The USB vendor ID of the instrument.
pub const DIRTYWAVE_VENDOR_ID: u16 = 5824;

/// The USB product ID of the instrument.
pub const MODEL_2_PRODUCT_ID: u16 = 1162;

/// The speed of the instrument's serial line, in bits per second.
pub const BAUD_RATE: u32 = 115_200;

/// How long a read of the serial line waits, in milliseconds.
pub const READ_TIMEOUT_MS: u64 = 10;

/// The command byte that asks the instrument to send its display.
pub const ENABLE_DISPLAY_COMMAND: u8 = 0x45;

/// The name of the interface that is the instrument's serial line.
pub const SERIAL_INTERFACE: &'static str = "Serial";

/// The USB identity of a port.
#[derive(Debug, Clone, Copy, PartialEq, Eq, Structural)]
pub struct UsbPortInfo {
    /// Vendor ID.
    pub vid: u16,
    /// Product ID.
    pub pid: u16,
}

/// What is read of a serial port: its name and, for a USB port, its USB
/// identity.
#[derive(Debug, PartialEq, Eq)]
pub struct SerialPortInfo {
    pub port_name: String,
    pub usb: Option<UsbPortInfo>,
}

/// The mathematical value of a serial port.
pub struct SerialPortView {
    pub port_name: Seq<char>,
    pub usb: Option<UsbPortInfo>,
}

impl View for SerialPortInfo {
    type V = SerialPortView;

    open spec fn view(&self) -> SerialPortView {
        SerialPortView { port_name: self.port_name@, usb: self.usb }
    }
}

/// The USB identity of a call-out port: that of a USB port whose name holds
/// `cu`.
pub open spec fn usb_identity(port: SerialPortView) -> Option<UsbPortInfo> {
    if has_infix(port.port_name, "cu"@) {
        port.usb
    } else {
        None
    }
}

/// Whether a port is the serial line of an instrument: a call-out USB port
/// with the instrument's vendor and product IDs.
pub open spec fn is_m8_port(port: SerialPortView) -> bool {
    match usb_identity(port) {
        Some(usb) => usb.vid == DIRTYWAVE_VENDOR_ID && usb.pid == MODEL_2_PRODUCT_ID,
        None => false,
    }
}

/// The ports of a list that are serial lines of an instrument, in order.
pub open spec fn m8_ports(ports: Seq<SerialPortView>) -> Seq<SerialPortView>
    decreases ports.len(),
{
    if ports.len() == 0 {
        Seq::empty()
    } else if is_m8_port(ports[0]) {
        seq![ports[0]] + m8_ports(ports.drop_first())
    } else {
        m8_ports(ports.drop_first())
    }
}

/// The views of a list of ports.
pub open spec fn ports_view(ports: Seq<SerialPortInfo>) -> Seq<SerialPortView> {
    Seq::new(ports.len(), |i: int| ports[i]@)
}

/// The USB identity of a port, where it is a call-out USB port.
pub fn get_usb_port_info(port: &SerialPortInfo) -> (usb: Option<UsbPortInfo>)
    ensures
        usb == usb_identity(port@),
{
    if contains(port.port_name.as_str(), "cu") {
        port.usb
    } else {
        None
    }
}

/// Whether a port is a call-out USB port.
pub fn is_usb_serial_port(port: &SerialPortInfo) -> (r: bool)
    ensures
        r == usb_identity(port@).is_some(),
{
    get_usb_port_info(port).is_some()
}

/// Whether a port is the serial line of an instrument.
pub fn is_m8_serial_port(port: &SerialPortInfo) -> (r: bool)
    ensures
        r == is_m8_port(port@),
{
    match get_usb_port_info(port) {
        Some(usb) => usb.vid == DIRTYWAVE_VENDOR_ID && usb.pid == MODEL_2_PRODUCT_ID,
        None => false,
    }
}

/// Keeps the ports that are serial lines of an instrument, in their order.
pub fn filter_to_m8_serial_ports(ports: Vec<SerialPortInfo>) -> (kept: Vec<SerialPortInfo>)
    ensures
        ports_view(kept@) == m8_ports(ports_view(ports@)),
{
    let mut rest = ports;
    let mut kept: Vec<SerialPortInfo> = Vec::new();
    assert(ports_view(kept@) + m8_ports(ports_view(rest@)) =~= m8_ports(ports_view(ports@)));
    while rest.len() > 0
        invariant
            ports_view(kept@) + m8_ports(ports_view(rest@)) == m8_ports(ports_view(ports@)),
        decreases rest.len(),
    {
        let ghost before = ports_view(rest@);
        let ghost found = ports_view(kept@);
        let port = rest.remove(0);
        assert(port@ == before[0]);
        assert(ports_view(rest@) =~= before.drop_first());
        if is_m8_serial_port(&port) {
            kept.push(port);
            assert(ports_view(kept@) =~= found + seq![before[0]]);
            assert(found + (seq![before[0]] + m8_ports(before.drop_first())) =~= ports_view(kept@)
                + m8_ports(before.drop_first()));
        }
    }
    assert(ports_view(kept@) + m8_ports(ports_view(rest@)) =~= ports_view(kept@));
    kept
}

/// The port of the first interface that is named as the serial line, where
/// that interface names a port.
pub open spec fn serial_port_of(interfaces: Seq<Seq<Seq<char>>>) -> Option<Seq<char>>
    decreases interfaces.len(),
{
    if interfaces.len() == 0 {
        None
    } else if interfaces[0].len() > 0 && interfaces[0][0] == SERIAL_INTERFACE@ {
        if interfaces[0].len() > 1 {
            Some(interfaces[0][1])
        } else {
            None
        }
    } else {
        serial_port_of(interfaces.drop_first())
    }
}

/// Finds the port of a device's serial line among its interfaces, each of
/// them a pair of a name and a port.
pub fn serial_interface_port(interfaces: &Vec<Vec<String>>) -> (port: Option<String>)
    ensures
        match port {
            Some(p) => serial_port_of(interfaces.deep_view()) == Some(p@),
            None => serial_port_of(interfaces.deep_view()) is None,
        },
{
    let mut i: usize = 0;
    assert(interfaces.deep_view().skip(0) =~= interfaces.deep_view());
    while i < interfaces.len()
        invariant
            i <= interfaces.len(),
            serial_port_of(interfaces.deep_view()) == serial_port_of(
                interfaces.deep_view().skip(i as int),
            ),
        decreases interfaces.len() - i,
    {
        let ghost rest = interfaces.deep_view().skip(i as int);
        assert(rest[0] == interfaces@[i as int].deep_view());
        assert(rest.drop_first() =~= interfaces.deep_view().skip(i + 1));
        let interface = &interfaces[i];
        if interface.len() > 0 && same_text(interface[0].as_str(), SERIAL_INTERFACE) {
            assert(rest[0][0] == interface@[0]@);
            if interface.len() > 1 {
                assert(rest[0][1] == interface@[1]@);
                return Some(interface[1].clone());
            } else {
                return None;
            }
        }
        if interface.len() > 0 {
            assert(rest[0][0] == interface@[0]@);
        }
        i = i + 1;
    }
    None
}

} // verus!
