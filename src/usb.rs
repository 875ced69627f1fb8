//! Finding the target device among the entries of the USB device tree.
//!
//! The tree is handed over as a list of entries, each with what its `uevent` and
//! `devnum` files held. The first entry whose `uevent` names the target identity
//! becomes the discovered device; entries whose identity is missing, unreadable or
//! malformed are skipped.
use vstd::prelude::*;
use crate::text::{
    chars_of, digit_value, find, find_exec, lines_of, parse_u16_hex, parse_u8_dec,
    parse_unsigned, split_lines, starts_with, starts_with_exec, trim, trim_chars, views,
};
use vstd::slice::slice_subrange;

verus! {

/// What reading one file of a device entry gave.
#[derive(Debug, Clone)]
pub enum FileContent {
    /// The file does not exist.
    Absent,
    /// The file exists but could not be read.
    Unreadable,
    /// The file's text.
    Text(String),
}

/// One entry of the device tree.
#[derive(Debug, Clone)]
pub struct DeviceEntry {
    /// The entry's name, such as `1-2` or `usb1`.
    pub name: String,
    /// The entry's path in the device tree.
    pub sys_path: String,
    /// The `uevent` identity descriptor.
    pub uevent: FileContent,
    /// The `devnum` device address file.
    pub devnum: FileContent,
}

/// A device found in the tree.
#[derive(Debug, Clone)]
pub struct USBDevice {
    pub bus: u8,
    pub device: u8,
    pub vendor_id: u16,
    pub product_id: u16,
    pub sys_path: String,
}

/// Why the search stopped without an answer.
#[derive(PartialEq, Eq, Structural, Debug, Clone, Copy)]
pub enum LocateError {
    /// The matching entry's `devnum` file exists but could not be read.
    DevnumUnreadable,
    /// The matching entry's `devnum` file does not hold a number from 0 to 255.
    DevnumInvalid,
}

pub open spec fn product_prefix() -> Seq<char> {
    "PRODUCT="@
}

pub open spec fn slash() -> Seq<char> {
    "/"@
}

/// The first line of `ls` that starts with `PRODUCT=`.
pub open spec fn product_line(ls: Seq<Seq<char>>) -> Option<Seq<char>>
    decreases ls.len(),
{
    if ls.len() == 0 {
        None
    } else if starts_with(ls[0], product_prefix()) {
        Some(ls[0])
    } else {
        product_line(ls.drop_first())
    }
}

/// The vendor and product of a line `PRODUCT=<vendor>/<product>/<version>`, both
/// hexadecimal; `None` where the line has fewer than two fields or either is malformed.
pub open spec fn product_fields(line: Seq<char>) -> Option<(u16, u16)> {
    let rest = line.subrange(product_prefix().len() as int, line.len() as int);
    match find(rest, slash()) {
        None => None,
        Some(i) => {
            let after = rest.subrange(i + 1, rest.len() as int);
            let second = match find(after, slash()) {
                Some(j) => after.subrange(0, j),
                None => after,
            };
            let a = parse_unsigned(rest.subrange(0, i), 16, 0xffff);
            let b = parse_unsigned(second, 16, 0xffff);
            if a is Some && b is Some {
                Some((a->0 as u16, b->0 as u16))
            } else {
                None
            }
        },
    }
}

/// The identity that a `uevent` file gives: that of its first `PRODUCT=` line.
pub open spec fn uevent_identity(content: Seq<char>) -> Option<(u16, u16)> {
    match product_line(lines_of(content)) {
        Some(l) => product_fields(l),
        None => None,
    }
}

/// The identity that an entry's `uevent` file gives, if it was read.
pub open spec fn entry_identity(e: DeviceEntry) -> Option<(u16, u16)> {
    match e.uevent {
        FileContent::Text(s) => uevent_identity(s@),
        _ => None,
    }
}

/// The entry carries the identity `vendor_id:product_id`.
pub open spec fn decisive(e: DeviceEntry, vendor_id: u16, product_id: u16) -> bool {
    entry_identity(e) == Some((vendor_id, product_id))
}

/// The first entry at or after `i` that carries the identity.
pub open spec fn first_decisive(entries: Seq<DeviceEntry>, i: int, vendor_id: u16, product_id: u16) -> Option<int>
    decreases entries.len() - i,
{
    if i < 0 || i >= entries.len() {
        None
    } else if decisive(entries[i], vendor_id, product_id) {
        Some(i)
    } else {
        first_decisive(entries, i + 1, vendor_id, product_id)
    }
}

/// The bus number read from an entry name: the number after `usb` in `usbN` (0 if it
/// is not one), else the entry's first character as a decimal digit (0 if it is not one).
pub open spec fn bus_number(name: Seq<char>) -> u8 {
    if starts_with(name, "usb"@) {
        match parse_unsigned(name.subrange(3, name.len() as int), 10, 255) {
            Some(n) => n as u8,
            None => 0,
        }
    } else if name.len() > 0 && digit_value(name[0]) < 10 {
        digit_value(name[0]) as u8
    } else {
        0
    }
}

/// The device address that a `devnum` file gives: 0 when there is no such file.
pub open spec fn device_number(devnum: FileContent) -> Result<u8, LocateError> {
    match devnum {
        FileContent::Absent => Ok(0),
        FileContent::Unreadable => Err(LocateError::DevnumUnreadable),
        FileContent::Text(s) => match parse_unsigned(trim(s@), 10, 255) {
            Some(n) => Ok(n as u8),
            None => Err(LocateError::DevnumInvalid),
        },
    }
}

/// `r` is the device that entry `e` describes with identity `vendor_id:product_id`.
pub open spec fn describes(r: Result<Option<USBDevice>, LocateError>, e: DeviceEntry, vendor_id: u16, product_id: u16) -> bool {
    match device_number(e.devnum) {
        Err(err) => r == Err::<Option<USBDevice>, LocateError>(err),
        Ok(n) => r is Ok && r->Ok_0 is Some && {
            let d = r->Ok_0->0;
            &&& d.bus == bus_number(e.name@)
            &&& d.device == n
            &&& d.vendor_id == vendor_id
            &&& d.product_id == product_id
            &&& d.sys_path@ == e.sys_path@
        },
    }
}

/// Reads the identity from the text of a `uevent` file.
pub fn parse_uevent_identity(content: &str) -> (r: Option<(u16, u16)>)
    ensures
        r == uevent_identity(content@),
{
    let text = chars_of(content);
    let lines = split_lines(text.as_slice());
    let prefix = chars_of("PRODUCT=");
    let ghost all = lines_of(content@);
    let mut i: usize = 0;
    assert(all.subrange(0, all.len() as int) =~= all);
    while i < lines.len()
        invariant
            views(lines@) == all,
            all == lines_of(content@),
            i <= lines@.len(),
            prefix@ == product_prefix(),
            product_line(all) == product_line(all.subrange(i as int, all.len() as int)),
        decreases lines.len() - i,
    {
        let line = lines[i].as_slice();
        assert(line@ == all[i as int]);
        assert(all.subrange(i as int, all.len() as int).drop_first() =~= all.subrange(i + 1, all.len() as int));
        assert(all.subrange(i as int, all.len() as int)[0] == all[i as int]);
        if starts_with_exec(line, prefix.as_slice()) {
            return product_fields_exec(line);
        }
        i = i + 1;
    }
    assert(all.subrange(i as int, all.len() as int) =~= Seq::<Seq<char>>::empty());
    None
}

fn product_fields_exec(line: &[char]) -> (r: Option<(u16, u16)>)
    requires
        starts_with(line@, product_prefix()),
    ensures
        r == product_fields(line@),
{
    proof {
        reveal_strlit("PRODUCT=");
        reveal_strlit("/");
    }
    let sep = chars_of("/");
    let n = line.len();
    let rest = slice_subrange(line, 8, n);
    let rn = rest.len();
    match find_exec(rest, sep.as_slice()) {
        None => None,
        Some(i) => {
            let after = slice_subrange(rest, i + 1, rn);
            let second = match find_exec(after, sep.as_slice()) {
                Some(j) => slice_subrange(after, 0, j),
                None => after,
            };
            let a = parse_u16_hex(slice_subrange(rest, 0, i));
            let b = parse_u16_hex(second);
            match (a, b) {
                (Some(x), Some(y)) => Some((x, y)),
                _ => None,
            }
        },
    }
}

pub struct USBDeviceManager;

impl USBDeviceManager {
    pub fn new() -> Self {
        USBDeviceManager
    }

    /// The bus number that an entry name gives.
    pub fn bus_from_name(&self, name: &str) -> (r: u8)
        ensures
            r == bus_number(name@),
    {
        proof {
            reveal_strlit("usb");
        }
        let c = chars_of(name);
        let usb = chars_of("usb");
        let n = c.len();
        if starts_with_exec(c.as_slice(), usb.as_slice()) {
            match parse_u8_dec(slice_subrange(c.as_slice(), 3, n)) {
                Some(b) => b,
                None => 0,
            }
        } else if n > 0 && crate::text::digit_value_exec(c[0]) < 10 {
            crate::text::digit_value_exec(c[0]) as u8
        } else {
            0
        }
    }

    /// The device address that a `devnum` file gives.
    pub fn get_device_number(&self, devnum: &FileContent) -> (r: Result<u8, LocateError>)
        ensures
            r == device_number(*devnum),
    {
        match devnum {
            FileContent::Absent => Ok(0),
            FileContent::Unreadable => Err(LocateError::DevnumUnreadable),
            FileContent::Text(s) => {
                let c = chars_of(s.as_str());
                match parse_u8_dec(trim_chars(c.as_slice())) {
                    Some(n) => Ok(n),
                    None => Err(LocateError::DevnumInvalid),
                }
            },
        }
    }

    /// The device that `entry` describes, known to have identity `vendor_id:product_id`.
    pub fn create_usb_device(&self, entry: &DeviceEntry, vendor_id: u16, product_id: u16) -> (r: Result<Option<USBDevice>, LocateError>)
        ensures
            describes(r, *entry, vendor_id, product_id),
    {
        let bus = self.bus_from_name(entry.name.as_str());
        let device = match self.get_device_number(&entry.devnum) {
            Ok(n) => n,
            Err(e) => return Err(e),
        };
        let sys_path = String::from_str(entry.sys_path.as_str());
        Ok(Some(USBDevice { bus, device, vendor_id, product_id, sys_path }))
    }

    /// The device that `entry` gives if it carries the identity `target_vendor:target_product`.
    pub fn check_device_by_uevent(&self, entry: &DeviceEntry, target_vendor: u16, target_product: u16) -> (r: Result<Option<USBDevice>, LocateError>)
        ensures
            decisive(*entry, target_vendor, target_product) ==> describes(r, *entry, target_vendor, target_product),
            !decisive(*entry, target_vendor, target_product) ==> r == Ok::<Option<USBDevice>, LocateError>(None),
    {
        match &entry.uevent {
            FileContent::Absent | FileContent::Unreadable => Ok(None),
            FileContent::Text(s) => {
                match parse_uevent_identity(s.as_str()) {
                    Some((v, p)) => {
                        if v == target_vendor && p == target_product {
                            self.create_usb_device(entry, v, p)
                        } else {
                            Ok(None)
                        }
                    },
                    None => Ok(None),
                }
            },
        }
    }

    /// Searches the entries in order and returns the first device with identity
    /// `vendor_id:product_id`; `Ok(None)` when no entry carries it.
    pub fn find_device(&self, entries: &Vec<DeviceEntry>, vendor_id: u16, product_id: u16) -> (r: Result<Option<USBDevice>, LocateError>)
        ensures
            match first_decisive(entries@, 0, vendor_id, product_id) {
                None => r == Ok::<Option<USBDevice>, LocateError>(None),
                Some(k) => describes(r, entries@[k], vendor_id, product_id),
            },
    {
        let mut i: usize = 0;
        while i < entries.len()
            invariant
                i <= entries@.len(),
                first_decisive(entries@, 0, vendor_id, product_id) == first_decisive(entries@, i as int, vendor_id, product_id),
            decreases entries.len() - i,
        {
            let found = self.check_device_by_uevent(&entries[i], vendor_id, product_id);
            match found {
                Ok(None) => {},
                _ => {
                    return found;
                },
            }
            i = i + 1;
        }
        Ok(None)
    }
}

proof fn lemma_no_match_from(entries: Seq<DeviceEntry>, vendor_id: u16, product_id: u16, i: int)
    requires
        0 <= i,
        forall|k: int| 0 <= k < entries.len() ==> entry_identity(#[trigger] entries[k]) != Some((vendor_id, product_id)),
    ensures
        first_decisive(entries, i, vendor_id, product_id) is None,
    decreases entries.len() - i,
{
    if i < entries.len() {
        assert(entry_identity(entries[i]) != Some((vendor_id, product_id)));
        lemma_no_match_from(entries, vendor_id, product_id, i + 1);
    }
}

/// A device tree in which no entry carries the target identity yields "not found"
/// (`find_device` returns `Ok(None)`), never an error.
pub proof fn lemma_no_matching_entry_not_found(entries: Seq<DeviceEntry>, vendor_id: u16, product_id: u16)
    requires
        forall|k: int| 0 <= k < entries.len() ==> entry_identity(#[trigger] entries[k]) != Some((vendor_id, product_id)),
    ensures
        first_decisive(entries, 0, vendor_id, product_id) is None,
{
    lemma_no_match_from(entries, vendor_id, product_id, 0);
}

} // verus!
