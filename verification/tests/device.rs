use smart_home::device::SmartDevice;

#[test]
fn device_new() {
    let desc = String::from("some desc");
    let device = SmartDevice::new(desc.clone());

    assert_eq!(device.desc, desc);
}

#[test]
fn device_keeps_description_verbatim() {
    let device = SmartDevice::new(String::from("  Mixed Case\t\n"));
    assert_eq!(device.desc, "  Mixed Case\t\n");

    let empty = SmartDevice::new(String::new());
    assert_eq!(empty.desc, "");
}

#[test]
fn device_equality_is_by_description() {
    let a = SmartDevice::new(String::from("lamp"));
    let b = SmartDevice::new(String::from("lamp"));
    let c = SmartDevice::new(String::from("Lamp"));

    assert_eq!(a, b);
    assert_ne!(a, c);
    assert_eq!(a.clone(), a);
}
