use redox_kernel::drivers::pci::{pci_device, pci_init, Driver, PciDevice};
use redox_kernel::error::{Error, EINVAL};
use redox_kernel::schemes::env::{
    EnvListResource, EnvResource, EnvScheme, EnvVar, EnvVariableResource,
};
use redox_kernel::schemes::kscheme::KScheme;
use redox_kernel::schemes::resource::ResourceSeek;
use redox_kernel::schemes::url::Url;

fn device(class_id: u8, subclass_id: u8, interface_id: u8, vendor_code: u16, device_code: u16) -> PciDevice {
    PciDevice { class_id, subclass_id, interface_id, vendor_code, device_code }
}

#[test]
fn the_words_of_the_configuration_space() {
    assert_eq!(
        pci_init(0x8139_10EC, 0x0200_00AB),
        Some(device(0x02, 0x00, 0x00, 0x10EC, 0x8139))
    );
    assert_eq!(
        pci_init(0x2922_8086, 0x0106_0102),
        Some(device(0x01, 0x06, 0x01, 0x8086, 0x2922))
    );
    assert_eq!(pci_init(0xFFFF_FFFF, 0xFFFF_FFFF), None);
    assert_eq!(pci_init(0x1234_FFFF, 0), None);
    assert_eq!(pci_init(0xFFFF_0000, 0), Some(device(0, 0, 0, 0, 0xFFFF)));
}

#[test]
fn the_class_of_a_device_decides_first() {
    assert_eq!(pci_device(device(0x01, 0x01, 0x80, 0x8086, 0x7010)), Driver::Ide);
    assert_eq!(pci_device(device(0x01, 0x06, 0x01, 0x8086, 0x2922)), Driver::Ahci);
    assert_eq!(pci_device(device(0x01, 0x06, 0x00, 0x8086, 0x2922)), Driver::Unknown);
    assert_eq!(pci_device(device(0x0C, 0x03, 0x00, 0, 0)), Driver::Uhci);
    assert_eq!(pci_device(device(0x0C, 0x03, 0x10, 0, 0)), Driver::Ohci);
    assert_eq!(pci_device(device(0x0C, 0x03, 0x20, 0, 0)), Driver::Ehci);
    assert_eq!(pci_device(device(0x0C, 0x03, 0x30, 0, 0)), Driver::Xhci);
    assert_eq!(pci_device(device(0x0C, 0x03, 0x40, 0, 0)), Driver::Unknown);
    // A disk of the network vendor is a disk.
    assert_eq!(pci_device(device(0x01, 0x01, 0x00, 0x10EC, 0x8139)), Driver::Ide);
}

#[test]
fn the_codes_of_a_device_decide_next() {
    assert_eq!(pci_device(device(0x02, 0x00, 0x00, 0x10EC, 0x8139)), Driver::Rtl8139);
    assert_eq!(pci_device(device(0x02, 0x00, 0x00, 0x8086, 0x100E)), Driver::Intel8254x);
    assert_eq!(pci_device(device(0x04, 0x01, 0x00, 0x8086, 0x2415)), Driver::Ac97);
    assert_eq!(pci_device(device(0x04, 0x01, 0x00, 0x8086, 0x24C5)), Driver::Ac97);
    assert_eq!(pci_device(device(0x04, 0x03, 0x00, 0x8086, 0x2668)), Driver::IntelHda);
    assert_eq!(pci_device(device(0x0C, 0x03, 0x77, 0x8086, 0x2668)), Driver::IntelHda);
    assert_eq!(pci_device(device(0x02, 0x00, 0x00, 0x10EC, 0x100E)), Driver::Unknown);
    assert_eq!(pci_device(device(0x06, 0x00, 0x00, 0x8086, 0x1237)), Driver::Unknown);
}

fn vars() -> Vec<EnvVar> {
    vec![
        EnvVar { name: b"HOME".to_vec(), value: b"/home".to_vec() },
        EnvVar { name: b"X".to_vec(), value: b"".to_vec() },
        EnvVar { name: b"PATH".to_vec(), value: b"/bin".to_vec() },
    ]
}

#[test]
fn env_open_tells_the_list_from_a_variable() {
    let mut scheme = EnvScheme;
    assert_eq!(scheme.scheme(), b"env".to_vec());
    assert_eq!(
        scheme.open(&Url::from_str("env:"), 0),
        Ok(EnvResource::List(EnvListResource { pos: 0 }))
    );
    assert_eq!(
        scheme.open(&Url::from_str("env"), 0),
        Ok(EnvResource::List(EnvListResource { pos: 0 }))
    );
    assert_eq!(
        scheme.open(&Url::from_str("env:HOME"), 0),
        Ok(EnvResource::Variable(EnvVariableResource { name: b"HOME".to_vec(), pos: 0 }))
    );
    assert_eq!(
        scheme.open(&Url::from_str("env:a:b"), 0),
        Ok(EnvResource::Variable(EnvVariableResource { name: b"a:b".to_vec(), pos: 0 }))
    );
    assert_eq!(scheme.open(&Url::from_str("env:A=B"), 0), Err(Error::new(EINVAL)));
    assert_eq!(scheme.open(&Url::from_str("env:="), 0), Err(Error::new(EINVAL)));
    assert_eq!(EnvScheme::resource(b"x=y:HOME"), EnvScheme::resource(b"env:HOME"));
}

#[test]
fn env_list_is_one_variable_to_a_line() {
    assert_eq!(EnvListResource::get_list_str(&vars()), b"HOME=/home\nX=\nPATH=/bin".to_vec());
    assert_eq!(EnvListResource::get_list_str(&vec![]), Vec::<u8>::new());
    let one = vec![EnvVar { name: b"A".to_vec(), value: b"1".to_vec() }];
    assert_eq!(EnvListResource::get_list_str(&one), b"A=1".to_vec());
}

#[test]
fn env_list_reads_and_seeks() {
    let vars = vars();
    let mut list = EnvListResource { pos: 0 };
    let mut buf = [0u8; 8];
    assert_eq!(list.read(&vars, &mut buf), Ok(8));
    assert_eq!(&buf, b"HOME=/ho");
    assert_eq!(list.pos, 8);
    assert_eq!(list.seek(&vars, ResourceSeek::End(-4)), Ok(19));
    assert_eq!(list.read(&vars, &mut buf), Ok(4));
    assert_eq!(&buf[..4], b"/bin");
    assert_eq!(list.read(&vars, &mut buf), Ok(0));
    assert_eq!(list.seek(&vars, ResourceSeek::Current(-3)), Ok(20));
    assert_eq!(list.seek(&vars, ResourceSeek::Start(100)), Ok(100));
    assert_eq!(list.read(&vars, &mut buf), Ok(0));
    assert_eq!(list.pos, 100);
    // The position is not held inside the list.
    assert_eq!(list.seek(&vars, ResourceSeek::Start(0)), Ok(0));
    assert_eq!(list.seek(&vars, ResourceSeek::Current(-1)), Ok(usize::MAX));
    assert_eq!(list.seek(&vars, ResourceSeek::Current(2)), Ok(1));
    assert_eq!(list.dup(), Ok(EnvListResource { pos: 0 }));
}

#[test]
fn env_variable_reads_and_seeks() {
    let mut var = EnvVariableResource { name: b"HOME".to_vec(), pos: 0 };
    let mut buf = [0u8; 3];
    assert_eq!(var.read(b"/home", &mut buf), Ok(3));
    assert_eq!(&buf, b"/ho");
    assert_eq!(var.read(b"/home", &mut buf), Ok(2));
    assert_eq!(&buf[..2], b"me");
    assert_eq!(var.read(b"/home", &mut buf), Ok(0));
    assert_eq!(var.seek(5, ResourceSeek::End(-5)), Ok(0));
    assert_eq!(var.seek(5, ResourceSeek::End(1)), Ok(6));
    assert_eq!(var.read(b"/home", &mut buf), Ok(0));
    assert_eq!(var.pos, 6);
    let copy = var.dup().unwrap();
    assert_eq!(copy, EnvVariableResource { name: b"HOME".to_vec(), pos: 0 });
}
