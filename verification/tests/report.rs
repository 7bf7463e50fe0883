use smart_home::device::SmartDevice;
use smart_home::home::SmartHome;
use smart_home::report::{get_report, Report, SmartHomeReport};
use smart_home::room::Room;
use std::io::{BufWriter, Write};
use std::str;

fn sample_home() -> SmartHome {
    let mut kitchen = Room::new(String::from("Kitchen"));
    kitchen.add_device(String::from("thermometer"), SmartDevice::new(String::from("Precise")));

    let mut living = Room::new(String::from("Living room"));
    living.add_device(String::from("humidifier"), SmartDevice::new(String::from("Damp")));
    living.add_device(String::from("purifier"), SmartDevice::new(String::from("Clean air")));

    let mut home = SmartHome::new(String::from("H"));
    home.add_room(String::from("kitchen"), kitchen);
    home.add_room(String::from("living"), living);
    home
}

fn printed<R: SmartHomeReport>(report: &R) -> String {
    let mut bytes = Vec::new();
    report.print(&mut bytes);
    String::from_utf8(bytes).unwrap()
}

#[test]
fn report_new() {
    let home = SmartHome::new(String::from("some smart home"));
    let report = Report::new(home.clone());

    assert_eq!(report.home, home);
}

#[test]
fn get_state_by_id() {
    let mut room = Room::new(String::from("some room"));

    let device_desc = String::from("some device");
    let device = SmartDevice::new(device_desc.clone());
    let device_id = String::from("some device");
    room.add_device(device_id.clone(), device);

    let mut home = SmartHome::new(String::from("home"));
    let room_id = String::from("room");
    home.add_room(room_id.clone(), room);
    let report = Report::new(home);

    let device_state = report.get_state_by_id(room_id.clone(), device_id);
    assert_eq!(device_state, Some(device_desc));

    let wrong_device_state = report.get_state_by_id(room_id, String::from("wrong device id"));
    assert_eq!(wrong_device_state, None);
}

#[test]
fn print() {
    let mut room = Room::new(String::from("some room"));

    let device_desc = String::from("some device");
    let device = SmartDevice::new(device_desc.clone());
    let device_id = String::from("some device");
    room.add_device(device_id.clone(), device);

    let mut home = SmartHome::new(String::from("home"));
    let room_id = String::from("room");
    home.add_room(room_id.clone(), room);

    let report = Report::new(home);

    let mut rendered = Vec::new();
    report.print(&mut rendered);
    let mut buffer = BufWriter::new(Vec::new());
    buffer.write_all(&rendered).unwrap();
    let result = str::from_utf8(buffer.buffer()).unwrap();

    assert_eq!(result.contains(&device_desc), true);
}

#[test]
fn end_to_end() {
    let report = get_report(sample_home());

    assert_eq!(
        report.get_state_by_id(String::from("kitchen"), String::from("thermometer")),
        Some(String::from("Precise"))
    );
    assert_eq!(
        report.get_state_by_id(String::from("kitchen"), String::from("missing")),
        None
    );
    assert_eq!(
        report.get_state_by_id(String::from("missing"), String::from("thermometer")),
        None
    );

    let text = printed(&report);
    assert!(text.contains("Precise"));
    assert!(text.contains("Damp"));
    assert!(text.contains("Clean air"));
    assert!(text.starts_with("Smart house information\nHouse: H\n"));
}

#[test]
fn print_gives_the_exact_text() {
    let report = Report::new(sample_home());

    let expected = "Smart house information\n\
                    House: H\n\
                    \troom: kitchen\n\
                    \tdevices: \n\
                    \t\tthermometer\n\
                    \t\tdevice info: Precise\n\
                    \n\
                    \troom: living\n\
                    \tdevices: \n\
                    \t\thumidifier\n\
                    \t\tdevice info: Damp\n\
                    \t\tpurifier\n\
                    \t\tdevice info: Clean air\n\
                    \n";
    assert_eq!(printed(&report), expected);
}

#[test]
fn print_appends_to_what_the_writer_holds() {
    let report = Report::new(SmartHome::new(String::from("H")));

    let mut bytes = b"before\n".to_vec();
    report.print(&mut bytes);
    report.print(&mut bytes);

    assert_eq!(
        String::from_utf8(bytes).unwrap(),
        "before\nSmart house information\nHouse: H\nSmart house information\nHouse: H\n"
    );
}

#[test]
fn print_names_rooms_by_key_not_by_description() {
    let mut home = SmartHome::new(String::from("H"));
    home.add_room(String::from("key"), Room::new(String::from("the description")));
    let text = printed(&Report::new(home));

    assert!(text.contains("\troom: key\n"));
    assert!(!text.contains("the description"));
}

#[test]
fn print_empty_room() {
    let mut home = SmartHome::new(String::from("H"));
    home.add_room(String::from("attic"), Room::new(String::from("Attic")));
    let text = printed(&Report::new(home));

    assert_eq!(
        text,
        "Smart house information\nHouse: H\n\troom: attic\n\tdevices not found\n"
    );
    assert!(!text.contains("devices:"));
}

#[test]
fn print_empty_room_among_others() {
    let mut hall = Room::new(String::from("Hall"));
    hall.add_device(String::from("lamp"), SmartDevice::new(String::from("bright")));

    let mut home = SmartHome::new(String::from("H"));
    home.add_room(String::from("attic"), Room::new(String::from("Attic")));
    home.add_room(String::from("hall"), hall);
    home.add_room(String::from("cellar"), Room::new(String::from("Cellar")));
    let text = printed(&Report::new(home));

    assert_eq!(
        text,
        "Smart house information\nHouse: H\n\
         \troom: attic\n\tdevices not found\n\
         \troom: hall\n\tdevices: \n\t\tlamp\n\t\tdevice info: bright\n\n\
         \troom: cellar\n\tdevices not found\n"
    );
}

#[test]
fn print_home_without_rooms() {
    let text = printed(&Report::new(SmartHome::new(String::new())));
    assert_eq!(text, "Smart house information\nHouse: \n");
}

#[test]
fn print_writes_utf8() {
    let mut room = Room::new(String::from("Küche"));
    room.add_device(String::from("ole\u{301}"), SmartDevice::new(String::from("温度計 🌡")));
    let mut home = SmartHome::new(String::from("Haus am Fluß"));
    home.add_room(String::from("küche"), room);
    let report = Report::new(home);

    let mut bytes = Vec::new();
    report.print(&mut bytes);

    let expected = "Smart house information\nHouse: Haus am Fluß\n\
                    \troom: küche\n\tdevices: \n\
                    \t\tole\u{301}\n\t\tdevice info: 温度計 🌡\n\n";
    assert_eq!(bytes, expected.as_bytes());
    assert_eq!(
        report.get_state_by_id(String::from("küche"), String::from("ole\u{301}")),
        Some(String::from("温度計 🌡"))
    );
    assert_eq!(
        report.get_state_by_id(String::from("küche"), String::from("ol\u{e9}")),
        None
    );
}

#[test]
fn lookup_misses() {
    let report = Report::new(sample_home());

    for device in ["thermometer", "humidifier", "purifier", "", "missing"] {
        assert_eq!(
            report.get_state_by_id(String::from("garage"), String::from(device)),
            None
        );
        assert_eq!(
            report.get_state_by_id(String::new(), String::from(device)),
            None
        );
    }
    assert_eq!(
        report.get_state_by_id(String::from("kitchen"), String::from("humidifier")),
        None
    );
    assert_eq!(
        report.get_state_by_id(String::from("living"), String::from("thermometer")),
        None
    );
    assert_eq!(
        report.get_state_by_id(String::from("Kitchen"), String::from("thermometer")),
        None
    );
    assert_eq!(
        report.get_state_by_id(String::from("kitchen"), String::from("thermo")),
        None
    );
}

#[test]
fn lookup_hits_whatever_else_is_there() {
    let mut home = sample_home();
    let before = Report::new(home.clone());
    assert_eq!(
        before.get_state_by_id(String::from("living"), String::from("purifier")),
        Some(String::from("Clean air"))
    );

    let mut garage = Room::new(String::from("Garage"));
    garage.add_device(String::from("purifier"), SmartDevice::new(String::from("Other")));
    home.add_room(String::from("garage"), garage);
    let mut kitchen = Room::new(String::from("New kitchen"));
    kitchen.add_device(String::from("purifier"), SmartDevice::new(String::from("Third")));
    home.add_room(String::from("kitchen"), kitchen);
    let after = Report::new(home);

    assert_eq!(
        after.get_state_by_id(String::from("living"), String::from("purifier")),
        Some(String::from("Clean air"))
    );
    assert_eq!(
        after.get_state_by_id(String::from("living"), String::from("humidifier")),
        Some(String::from("Damp"))
    );
    assert_eq!(
        after.get_state_by_id(String::from("garage"), String::from("purifier")),
        Some(String::from("Other"))
    );
    assert_eq!(
        after.get_state_by_id(String::from("kitchen"), String::from("purifier")),
        Some(String::from("Third"))
    );
    assert_eq!(
        after.get_state_by_id(String::from("kitchen"), String::from("thermometer")),
        None
    );
}

#[test]
fn report_is_a_snapshot() {
    let mut home = sample_home();
    let report = get_report(home.clone());
    home.add_room(String::from("garage"), Room::new(String::from("Garage")));

    assert!(!printed(&report).contains("garage"));
    assert!(printed(&Report::new(home)).contains("\troom: garage\n"));
}

#[test]
fn get_report_reports_on_the_home() {
    let home = sample_home();
    let made = get_report(home.clone());
    let direct = Report::new(home);

    assert_eq!(printed(&made), printed(&direct));
    assert_eq!(
        made.get_state_by_id(String::from("living"), String::from("humidifier")),
        direct.get_state_by_id(String::from("living"), String::from("humidifier"))
    );
}

#[test]
fn print_holds_every_description() {
    let home = sample_home();
    let text = printed(&Report::new(home.clone()));

    for (room_name, room) in home.rooms.as_slice() {
        assert!(text.contains(&format!("\troom: {}\n", room_name)));
        for (device_name, device) in room.devices.as_slice() {
            assert!(text.contains(&device.desc));
            assert!(text.contains(&format!(
                "\t\t{}\n\t\tdevice info: {}\n",
                device_name, device.desc
            )));
        }
    }
}
