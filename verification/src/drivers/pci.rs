//! The devices on the PCI bus: what the words of the configuration space
//! say, and which driver a device gets.

use vstd::prelude::*;

verus! {

/// The vendor code of a slot without a device.
pub const NO_DEVICE: u16 = 0xFFFF;

pub const MASS_STORAGE: u8 = 0x01;

pub const SERIAL_BUS: u8 = 0x0C;

pub const IDE: u8 = 0x01;

pub const SATA: u8 = 0x06;

pub const USB: u8 = 0x03;

pub const AHCI: u8 = 0x01;

pub const UHCI: u8 = 0x00;

pub const OHCI: u8 = 0x10;

pub const EHCI: u8 = 0x20;

pub const XHCI: u8 = 0x30;

pub const REALTEK: u16 = 0x10EC;

pub const INTEL: u16 = 0x8086;

pub const RTL8139: u16 = 0x8139;

pub const GBE_82540EM: u16 = 0x100E;

pub const AC97_82801AA: u16 = 0x2415;

pub const AC97_ICH4: u16 = 0x24C5;

pub const INTELHDA_ICH6: u16 = 0x2668;

/// What identifies a device.
#[derive(Clone, Copy, Debug, PartialEq, Eq, Structural)]
pub struct PciDevice {
    pub class_id: u8,
    pub subclass_id: u8,
    pub interface_id: u8,
    pub vendor_code: u16,
    pub device_code: u16,
}

/// The driver of a device.
#[derive(Clone, Copy, Debug, PartialEq, Eq, Structural)]
pub enum Driver {
    Ide,
    Ahci,
    Uhci,
    Ohci,
    Ehci,
    Xhci,
    Rtl8139,
    Intel8254x,
    Ac97,
    IntelHda,
    /// No driver knows the device.
    Unknown,
}

/// The device that the first word `id` and the third word `class` of a
/// configuration space describe; none where the slot is empty.
pub open spec fn spec_device(id: u32, class: u32) -> Option<PciDevice> {
    if id & 0xFFFF == 0xFFFF {
        None
    } else {
        Some(
            PciDevice {
                class_id: ((class >> 24) & 0xFF) as u8,
                subclass_id: ((class >> 16) & 0xFF) as u8,
                interface_id: ((class >> 8) & 0xFF) as u8,
                vendor_code: (id & 0xFFFF) as u16,
                device_code: ((id >> 16) & 0xFFFF) as u16,
            },
        )
    }
}

/// The driver of `device`: the class of the device decides first, then
/// its vendor and device codes.
pub open spec fn spec_driver(device: PciDevice) -> Driver {
    if device.class_id == MASS_STORAGE && device.subclass_id == IDE {
        Driver::Ide
    } else if device.class_id == MASS_STORAGE && device.subclass_id == SATA && device.interface_id
        == AHCI {
        Driver::Ahci
    } else if device.class_id == SERIAL_BUS && device.subclass_id == USB && device.interface_id
        == UHCI {
        Driver::Uhci
    } else if device.class_id == SERIAL_BUS && device.subclass_id == USB && device.interface_id
        == OHCI {
        Driver::Ohci
    } else if device.class_id == SERIAL_BUS && device.subclass_id == USB && device.interface_id
        == EHCI {
        Driver::Ehci
    } else if device.class_id == SERIAL_BUS && device.subclass_id == USB && device.interface_id
        == XHCI {
        Driver::Xhci
    } else if device.vendor_code == REALTEK && device.device_code == RTL8139 {
        Driver::Rtl8139
    } else if device.vendor_code == INTEL && device.device_code == GBE_82540EM {
        Driver::Intel8254x
    } else if device.vendor_code == INTEL && (device.device_code == AC97_82801AA
        || device.device_code == AC97_ICH4) {
        Driver::Ac97
    } else if device.vendor_code == INTEL && device.device_code == INTELHDA_ICH6 {
        Driver::IntelHda
    } else {
        Driver::Unknown
    }
}

/// Reads the device out of the first and the third word of its
/// configuration space.
pub fn pci_init(id: u32, class: u32) -> (r: Option<PciDevice>)
    ensures
        r == spec_device(id, class),
{
    if id & 0xFFFF == 0xFFFF {
        None
    } else {
        let class_id: u32 = (class >> 24) & 0xFF;
        let subclass_id: u32 = (class >> 16) & 0xFF;
        let interface_id: u32 = (class >> 8) & 0xFF;
        let vendor_code: u32 = id & 0xFFFF;
        let device_code: u32 = (id >> 16) & 0xFFFF;
        assert(class_id <= 0xFF && subclass_id <= 0xFF && interface_id <= 0xFF && vendor_code
            <= 0xFFFF && device_code <= 0xFFFF) by (bit_vector)
            requires
                class_id == (class >> 24) & 0xFF,
                subclass_id == (class >> 16) & 0xFF,
                interface_id == (class >> 8) & 0xFF,
                vendor_code == id & 0xFFFF,
                device_code == (id >> 16) & 0xFFFF,
        ;
        Some(
            PciDevice {
                class_id: class_id as u8,
                subclass_id: subclass_id as u8,
                interface_id: interface_id as u8,
                vendor_code: vendor_code as u16,
                device_code: device_code as u16,
            },
        )
    }
}

/// Tells which driver `device` gets.
pub fn pci_device(device: PciDevice) -> (driver: Driver)
    ensures
        driver == spec_driver(device),
{
    if device.class_id == MASS_STORAGE && device.subclass_id == IDE {
        Driver::Ide
    } else if device.class_id == MASS_STORAGE && device.subclass_id == SATA && device.interface_id
        == AHCI {
        Driver::Ahci
    } else if device.class_id == SERIAL_BUS && device.subclass_id == USB {
        if device.interface_id == UHCI {
            Driver::Uhci
        } else if device.interface_id == OHCI {
            Driver::Ohci
        } else if device.interface_id == EHCI {
            Driver::Ehci
        } else if device.interface_id == XHCI {
            Driver::Xhci
        } else {
            by_code(device.vendor_code, device.device_code)
        }
    } else {
        by_code(device.vendor_code, device.device_code)
    }
}

/// The driver for the vendor and device codes.
fn by_code(vendor_code: u16, device_code: u16) -> (driver: Driver)
    ensures
        driver == if vendor_code == REALTEK && device_code == RTL8139 {
            Driver::Rtl8139
        } else if vendor_code == INTEL && device_code == GBE_82540EM {
            Driver::Intel8254x
        } else if vendor_code == INTEL && (device_code == AC97_82801AA || device_code == AC97_ICH4) {
            Driver::Ac97
        } else if vendor_code == INTEL && device_code == INTELHDA_ICH6 {
            Driver::IntelHda
        } else {
            Driver::Unknown
        },
{
    if vendor_code == REALTEK && device_code == RTL8139 {
        Driver::Rtl8139
    } else if vendor_code == INTEL && device_code == GBE_82540EM {
        Driver::Intel8254x
    } else if vendor_code == INTEL && (device_code == AC97_82801AA || device_code == AC97_ICH4) {
        Driver::Ac97
    } else if vendor_code == INTEL && device_code == INTELHDA_ICH6 {
        Driver::IntelHda
    } else {
        Driver::Unknown
    }
}

} // verus!
