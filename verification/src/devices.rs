//! Serial device registry: enumeration and the records the rest of the
//! system consumes.

use vstd::prelude::*;

verus! {

/// A device as the runner lists it; missing USB metadata shows as `--`.
#[derive(Debug, Clone)]
pub struct Device {
    pub path: String,
    pub vendor: String,
    pub product: String,
    pub usb: String,
}

impl Device {
    pub fn path(&self) -> (r: &String)
        ensures
            r == &self.path,
    {
        &self.path
    }

    pub fn vendor(&self) -> (r: &String)
        ensures
            r == &self.vendor,
    {
        &self.vendor
    }

    pub fn product(&self) -> (r: &String)
        ensures
            r == &self.product,
    {
        &self.product
    }

    pub fn usb(&self) -> (r: &String)
        ensures
            r == &self.usb,
    {
        &self.usb
    }

    /// Assemble a device from enumerated fields, `--` standing in for
    /// whatever the enumerator could not tell.
    pub fn from_parts(
        path: String,
        vendor: Option<String>,
        product: Option<String>,
        usb: Option<String>,
    ) -> (r: Device)
        ensures
            r.path == path,
            match vendor {
                Some(v) => r.vendor == v,
                None => r.vendor@ == placeholder_view(),
            },
            match product {
                Some(v) => r.product == v,
                None => r.product@ == placeholder_view(),
            },
            match usb {
                Some(v) => r.usb == v,
                None => r.usb@ == placeholder_view(),
            },
    {
        Device {
            path,
            vendor: unwrap_or_placeholder(vendor),
            product: unwrap_or_placeholder(product),
            usb: unwrap_or_placeholder(usb),
        }
    }
}

/// The stand-in text for missing metadata.
pub open spec fn placeholder_view() -> Seq<char> {
    "--"@
}

/// The field's value, or `--` when the enumerator had none.
fn unwrap_or_placeholder(v: Option<String>) -> (r: String)
    ensures
        match v {
            Some(s) => r == s,
            None => r@ == placeholder_view(),
        },
{
    match v {
        Some(s) => s,
        None => placeholder(),
    }
}

/// The `--` placeholder.
fn placeholder() -> (r: String)
    ensures
        r@ == placeholder_view(),
{
    let r = String::from_str("--");
    r
}

/// Every serial device the host enumerates, with `--` where USB
/// metadata is missing.
pub fn list_devices() -> (r: Vec<Device>) {
    let infos = list_serial_info();
    let mut out: Vec<Device> = Vec::new();
    let n = infos.len();
    let mut rest = infos;
    let mut i: usize = 0;
    while i < n
        invariant
            0 <= i <= n,
            out@.len() == i,
            rest@.len() == n - i,
        decreases n - i,
    {
        let (path, vendor, product, usb) = rest.remove(0);
        out.push(Device::from_parts(path, vendor, product, usb));
        i = i + 1;
    }
    out
}

/// A device as the node reports it over the wire: all-string fields,
/// except the numeric USB identifiers.
#[derive(Debug, Clone)]
pub struct DeviceInfoRecord {
    pub port_name: String,
    pub vendor_id: u32,
    pub product_id: u32,
    pub serial_number: String,
    pub manufacturer: String,
    pub product: String,
}

/// What the wire record of one enumerated port holds: a USB port
/// carries its identifiers and whatever strings were present (absent
/// ones as empty strings); any other port carries only its name.
pub open spec fn spec_record_of_port(
    port: (String, Option<(u16, u16, Option<String>, Option<String>, Option<String>)>),
    r: DeviceInfoRecord,
) -> bool {
    &&& r.port_name@ == port.0@
    &&& match port.1 {
        Some(u) => r.vendor_id == u.0 as u32 && r.product_id == u.1 as u32 && (match u.2 {
            Some(s) => r.serial_number@ == s@,
            None => r.serial_number@.len() == 0,
        }) && (match u.3 {
            Some(s) => r.manufacturer@ == s@,
            None => r.manufacturer@.len() == 0,
        }) && (match u.4 {
            Some(s) => r.product@ == s@,
            None => r.product@.len() == 0,
        }),
        None => r.vendor_id == 0 && r.product_id == 0 && r.serial_number@.len() == 0
            && r.manufacturer@.len() == 0 && r.product@.len() == 0,
    }
}

/// Build the wire record for one enumerated port.
pub fn device_record_from_port(
    port_name: String,
    usb: Option<(u16, u16, Option<String>, Option<String>, Option<String>)>,
) -> (r: DeviceInfoRecord)
    ensures
        spec_record_of_port((port_name, usb), r),
        r.port_name == port_name,
{
    match usb {
        Some((vid, pid, serial, manufacturer, product)) => DeviceInfoRecord {
            port_name,
            vendor_id: vid as u32,
            product_id: pid as u32,
            serial_number: unwrap_or_empty(serial),
            manufacturer: unwrap_or_empty(manufacturer),
            product: unwrap_or_empty(product),
        },
        None => DeviceInfoRecord {
            port_name,
            vendor_id: 0,
            product_id: 0,
            serial_number: String::new(),
            manufacturer: String::new(),
            product: String::new(),
        },
    }
}

/// The field's value, or an empty string.
fn unwrap_or_empty(v: Option<String>) -> (r: String)
    ensures
        match v {
            Some(s) => r == s,
            None => r@.len() == 0,
        },
{
    match v {
        Some(s) => s,
        None => String::new(),
    }
}

/// Wire records for every enumerated port, one per port in order.
pub fn device_records_from_ports(
    ports: Vec<(String, Option<(u16, u16, Option<String>, Option<String>, Option<String>)>)>,
) -> (r: Vec<DeviceInfoRecord>)
    ensures
        r@.len() == ports@.len(),
        forall|k: int|
            0 <= k < r@.len() ==> spec_record_of_port(ports@[k], #[trigger] r@[k]),
{
    let ghost gports = ports@;
    let mut out: Vec<DeviceInfoRecord> = Vec::new();
    let mut i: usize = 0;
    let n = ports.len();
    let mut rest = ports;
    proof {
        assert(rest@ =~= gports.skip(0));
    }
    while i < n
        invariant
            0 <= i <= n == gports.len(),
            out@.len() == i,
            rest@ == gports.skip(i as int),
            forall|k: int|
                0 <= k < i ==> spec_record_of_port(gports[k], #[trigger] out@[k]),
        decreases n - i,
    {
        proof {
            assert(rest@[0] == gports[i as int]);
        }
        let (name, usb) = rest.remove(0);
        out.push(device_record_from_port(name, usb));
        proof {
            assert(rest@ =~= gports.skip(i + 1));
        }
        i = i + 1;
    }
    out
}

/// Relies on `serial_enumerator::get_serial_list` to enumerate serial
/// devices; each is converted to its name, vendor, product, and a
/// `vid:pid` text where USB information exists.  What the host reports
/// is environmental, so nothing is assumed of the values.
#[verifier::external_body]
fn list_serial_info() -> (r: Vec<(String, Option<String>, Option<String>, Option<String>)>) {
    serial_enumerator::get_serial_list()
        .into_iter()
        .map(|info| {
            let usb = info.usb_info.map(|u| format!("{}:{}", u.vid, u.pid));
            (info.name, info.vendor, info.product, usb)
        })
        .collect()
}

/// Relies on `serialport::available_ports` to enumerate ports; each is
/// converted to its name and, for USB ports, the identifiers and
/// descriptive strings.  Enumeration is environmental, so nothing is
/// assumed of the values; a failing enumeration yields no ports.
#[verifier::external_body]
pub fn available_ports_info() -> (r: Vec<
    (String, Option<(u16, u16, Option<String>, Option<String>, Option<String>)>),
>) {
    serialport::available_ports()
        .unwrap_or_default()
        .into_iter()
        .map(|p| {
            let usb = match p.port_type {
                serialport::SerialPortType::UsbPort(u) => Some(
                    (u.vid, u.pid, u.serial_number, u.manufacturer, u.product),
                ),
                _ => None,
            };
            (p.port_name, usb)
        })
        .collect()
}

} // verus!
