use smart_home::device::SmartDevice;
use smart_home::home::SmartHome;
use smart_home::name_map::NameMap;
use smart_home::room::Room;
use std::collections::HashMap;

fn rooms_of(map: &NameMap<Room>) -> HashMap<String, Room> {
    map.as_slice().iter().cloned().collect()
}

#[test]
fn home_new() {
    let desc = String::from("some desc");
    let home = SmartHome::new(desc.clone());

    assert_eq!(home.desc, desc);
    assert_eq!(rooms_of(&home.rooms), HashMap::new());
}

#[test]
fn add_room() {
    let mut home = SmartHome::new(String::from("some desc"));

    assert_eq!(home.rooms.len(), 0);

    let room_id = String::from("room");
    let room = Room::new(String::from("room desc"));
    home.add_room(room_id.clone(), room.clone());

    let another_room_id = String::from("another room");
    let another_room = Room::new(String::from("another room desc"));
    home.add_room(another_room_id.clone(), another_room.clone());

    assert_eq!(
        rooms_of(&home.rooms),
        HashMap::from([(room_id, room), (another_room_id, another_room)])
    );
}

#[test]
fn list_rooms() {
    let mut home = SmartHome::new(String::from("some desc"));

    let room = Room::new(String::from("room desc"));
    let another_room = Room::new(String::from("another room desc"));

    home.add_room(String::from("room"), room.clone());
    home.add_room(String::from("another room"), another_room.clone());

    let mut rooms = home.list_rooms();
    rooms.sort_by(|a, b| a.desc.cmp(&b.desc));
    assert_eq!(rooms, vec![&another_room, &room]);
}

#[test]
fn add_room_twice_keeps_the_second() {
    let mut home = SmartHome::new(String::from("home"));
    home.add_room(String::from("a"), Room::new(String::from("first")));
    home.add_room(String::from("b"), Room::new(String::from("other")));
    assert_eq!(home.rooms.len(), 2);

    home.add_room(String::from("a"), Room::new(String::from("second")));

    assert_eq!(home.rooms.len(), 2);
    assert_eq!(
        home.rooms.get(&String::from("a")),
        Some(&Room::new(String::from("second")))
    );
    let listed: Vec<&str> = home.list_rooms().iter().map(|r| r.desc.as_str()).collect();
    assert_eq!(listed, vec!["second", "other"]);
}

#[test]
fn list_rooms_of_empty_home() {
    let home = SmartHome::new(String::new());
    assert_eq!(home.desc, "");
    assert!(home.list_rooms().is_empty());
    assert!(home.rooms.is_empty());
}

#[test]
fn home_equality_ignores_the_order_of_rooms() {
    let mut kitchen = Room::new(String::from("kitchen"));
    kitchen.add_device(String::from("t"), SmartDevice::new(String::from("thermometer")));
    let hall = Room::new(String::from("hall"));

    let mut a = SmartHome::new(String::from("home"));
    a.add_room(String::from("k"), kitchen.clone());
    a.add_room(String::from("h"), hall.clone());

    let mut b = SmartHome::new(String::from("home"));
    b.add_room(String::from("h"), hall.clone());
    b.add_room(String::from("k"), kitchen.clone());

    assert_eq!(a, b);
    assert_eq!(a.clone(), a);

    let mut c = SmartHome::new(String::from("home"));
    c.add_room(String::from("h"), hall.clone());
    c.add_room(String::from("k"), hall.clone());
    assert_ne!(a, c);

    let mut d = SmartHome::new(String::from("house"));
    d.add_room(String::from("k"), kitchen);
    d.add_room(String::from("h"), hall);
    assert_ne!(a, d);
}
