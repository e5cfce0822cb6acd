//! Serial port descriptions as plain values, and the selection rules that
//! pick the download, log and command ports of a module among them.

use vstd::prelude::*;

verus! {

/// USB identity of a serial port.
#[derive(Clone, Copy, PartialEq, Eq, Structural, Debug)]
pub struct UsbPortInfo {
    pub vid: u16,
    pub pid: u16,
    /// USB interface number (bInterfaceNumber), when the platform reports it.
    pub interface: Option<u8>,
}

/// Kind of a serial port.
#[derive(Clone, Copy, PartialEq, Eq, Structural, Debug)]
pub enum SerialPortType {
    UsbPort(UsbPortInfo),
    PciPort,
    BluetoothPort,
    Unknown,
}

/// One enumerated serial port.
#[derive(Clone, Debug)]
pub struct SerialPortInfo {
    pub port_name: String,
    pub port_type: SerialPortType,
}

/// `i` is the first index of `s` whose element satisfies `p`.
pub open spec fn is_first<T>(s: Seq<T>, i: int, p: spec_fn(T) -> bool) -> bool {
    &&& 0 <= i < s.len()
    &&& p(s[i])
    &&& forall|j: int| 0 <= j < i ==> !p(#[trigger] s[j])
}

/// No element of `s` satisfies `p`.
pub open spec fn none_match<T>(s: Seq<T>, p: spec_fn(T) -> bool) -> bool {
    forall|j: int| 0 <= j < s.len() ==> !p(#[trigger] s[j])
}

/// The port is a USB port with the given identity.
pub open spec fn usb_is(t: SerialPortType, vid: u16, pid: u16) -> bool {
    match t {
        SerialPortType::UsbPort(u) => u.vid == vid && u.pid == pid,
        _ => false,
    }
}

/// The port is a USB port with the given identity and interface number.
pub open spec fn usb_is_at(t: SerialPortType, vid: u16, pid: u16, iface: u8) -> bool {
    match t {
        SerialPortType::UsbPort(u) => u.vid == vid && u.pid == pid && u.interface == Some(iface),
        _ => false,
    }
}

/// Is `t` a USB port with this VID/PID?
pub fn port_type_is(t: &SerialPortType, vid: u16, pid: u16) -> (r: bool)
    ensures
        r == usb_is(*t, vid, pid),
{
    match t {
        SerialPortType::UsbPort(u) => u.vid == vid && u.pid == pid,
        _ => false,
    }
}

/// Is `t` a USB port with this VID/PID on interface `iface`?
pub fn port_type_is_at(t: &SerialPortType, vid: u16, pid: u16, iface: u8) -> (r: bool)
    ensures
        r == usb_is_at(*t, vid, pid, iface),
{
    match t {
        SerialPortType::UsbPort(u) => {
            let at = match u.interface {
                Some(n) => n == iface,
                None => false,
            };
            u.vid == vid && u.pid == pid && at
        },
        _ => false,
    }
}

/// The name of the first port with this USB VID/PID.
pub fn find_port_by_vid_pid(ports: &[SerialPortInfo], vid: u16, pid: u16) -> (r: Option<String>)
    ensures
        match r {
            Some(name) => exists|i: int|
                is_first(ports@, i, |p: SerialPortInfo| usb_is(p.port_type, vid, pid))
                    && name@ == #[trigger] ports@[i].port_name@,
            None => none_match(ports@, |p: SerialPortInfo| usb_is(p.port_type, vid, pid)),
        },
{
    let ghost pred = |p: SerialPortInfo| usb_is(p.port_type, vid, pid);
    let mut i: usize = 0;
    while i < ports.len()
        invariant
            i <= ports@.len(),
            pred == (|p: SerialPortInfo| usb_is(p.port_type, vid, pid)),
            forall|j: int| 0 <= j < i ==> !pred(#[trigger] ports@[j]),
        decreases ports@.len() - i,
    {
        if port_type_is(&ports[i].port_type, vid, pid) {
            let name = ports[i].port_name.clone();
            assert(is_first(ports@, i as int, pred));
            assert(name@ == ports@[i as int].port_name@);
            return Some(name);
        }
        i = i + 1;
    }
    None
}

/// The first port with this VID/PID on interface `iface`; when none
/// reports that interface, the first port with this VID/PID at all.
pub fn find_port_by_interface(ports: &[SerialPortInfo], vid: u16, pid: u16, iface: u8) -> (r: Option<String>)
    ensures
        match r {
            Some(name) => (exists|i: int|
                is_first(ports@, i, |p: SerialPortInfo| usb_is_at(p.port_type, vid, pid, iface))
                    && name@ == #[trigger] ports@[i].port_name@) || (none_match(
                ports@,
                |p: SerialPortInfo| usb_is_at(p.port_type, vid, pid, iface),
            ) && exists|i: int|
                is_first(ports@, i, |p: SerialPortInfo| usb_is(p.port_type, vid, pid))
                    && name@ == #[trigger] ports@[i].port_name@),
            None => none_match(ports@, |p: SerialPortInfo| usb_is(p.port_type, vid, pid)),
        },
{
    let ghost exact = |p: SerialPortInfo| usb_is_at(p.port_type, vid, pid, iface);
    let mut i: usize = 0;
    while i < ports.len()
        invariant
            i <= ports@.len(),
            exact == (|p: SerialPortInfo| usb_is_at(p.port_type, vid, pid, iface)),
            forall|j: int| 0 <= j < i ==> !exact(#[trigger] ports@[j]),
        decreases ports@.len() - i,
    {
        if port_type_is_at(&ports[i].port_type, vid, pid, iface) {
            let name = ports[i].port_name.clone();
            assert(is_first(ports@, i as int, exact));
            assert(name@ == ports@[i as int].port_name@);
            return Some(name);
        }
        i = i + 1;
    }
    let r = find_port_by_vid_pid(ports, vid, pid);
    proof {
        if r is None {
            assert forall|j: int| 0 <= j < ports@.len() implies !exact(#[trigger] ports@[j]) by {}
        }
    }
    r
}


/// Which ports to pick: a USB vendor id, one of two product ids, and
/// optionally an interface number.
#[derive(Clone, Copy, PartialEq, Eq, Structural, Debug)]
pub struct PortFilter {
    pub vid: u16,
    pub pid: u16,
    pub alt_pid: u16,
    pub interface: Option<u8>,
}

/// `f` accepts a port of kind `t`.
pub open spec fn filter_accepts(f: PortFilter, t: SerialPortType) -> bool {
    match t {
        SerialPortType::UsbPort(u) => u.vid == f.vid && (u.pid == f.pid || u.pid == f.alt_pid) && match f.interface {
            Some(n) => u.interface == Some(n),
            None => true,
        },
        _ => false,
    }
}

/// The names of the ports `f` accepts, in enumeration order.
pub open spec fn names_where(ports: Seq<SerialPortInfo>, f: PortFilter) -> Seq<Seq<char>>
    decreases ports.len(),
{
    if ports.len() == 0 {
        seq![]
    } else if filter_accepts(f, ports.last().port_type) {
        names_where(ports.drop_last(), f).push(ports.last().port_name@)
    } else {
        names_where(ports.drop_last(), f)
    }
}

/// The views of a list of names.
pub open spec fn name_views(v: Seq<String>) -> Seq<Seq<char>> {
    v.map_values(|s: String| s@)
}

/// Does `f` accept a port of kind `t`?
pub fn accepts(f: &PortFilter, t: &SerialPortType) -> (r: bool)
    ensures
        r == filter_accepts(*f, *t),
{
    match t {
        SerialPortType::UsbPort(u) => {
            let iface_ok = match f.interface {
                Some(n) => match u.interface {
                    Some(m) => m == n,
                    None => false,
                },
                None => true,
            };
            u.vid == f.vid && (u.pid == f.pid || u.pid == f.alt_pid) && iface_ok
        },
        _ => false,
    }
}

/// The names of the ports `f` accepts, in enumeration order.
pub fn port_names_where(ports: &[SerialPortInfo], f: PortFilter) -> (r: Vec<String>)
    ensures
        name_views(r@) == names_where(ports@, f),
{
    let mut r: Vec<String> = Vec::new();
    let mut i: usize = 0;
    while i < ports.len()
        invariant
            i <= ports@.len(),
            name_views(r@) == names_where(ports@.subrange(0, i as int), f),
        decreases ports@.len() - i,
    {
        let ghost pre = ports@.subrange(0, i as int + 1);
        assert(pre.drop_last() =~= ports@.subrange(0, i as int));
        assert(pre.last() == ports@[i as int]);
        if accepts(&f, &ports[i].port_type) {
            let name = ports[i].port_name.clone();
            let ghost before = r@;
            r.push(name);
            assert(name_views(r@) =~= name_views(before).push(name@));
        }
        i = i + 1;
    }
    assert(ports@.subrange(0, ports@.len() as int) =~= ports@);
    r
}

/// Is there a port named `name` that `f` accepts?
pub fn has_port_named(ports: &[SerialPortInfo], name: &str, f: PortFilter) -> (r: bool)
    ensures
        r == exists|i: int|
            0 <= i < ports@.len() && #[trigger] ports@[i].port_name@ == name@ && filter_accepts(
                f,
                ports@[i].port_type,
            ),
{
    let key = name.to_owned();
    let mut i: usize = 0;
    while i < ports.len()
        invariant
            i <= ports@.len(),
            key@ == name@,
            forall|j: int|
                0 <= j < i ==> !(#[trigger] ports@[j].port_name@ == name@ && filter_accepts(f, ports@[j].port_type)),
        decreases ports@.len() - i,
    {
        if ports[i].port_name == key && accepts(&f, &ports[i].port_type) {
            return true;
        }
        i = i + 1;
    }
    false
}

} // verus!
