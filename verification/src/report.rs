use crate::device::SmartDevice;
use crate::home::{HomeView, SmartHome};
use crate::name_map::{as_map, lemma_views_of, names_of, position, NameMap};
use crate::room::{Room, RoomView};
use crate::text::{
    lemma_encode_utf8_concat, lemma_occurs_in_encoded, lemma_occurs_in_flatten,
    lemma_occurs_in_itself, lemma_occurs_in_middle, lemma_occurs_in_trans, lemma_occurs_in_wider,
    occurs_in,
};
use vstd::prelude::*;
use vstd::utf8::encode_utf8;

verus! {

/// The two lines that the report gives to one device: its name, and its
/// description.
pub open spec fn device_text(name: Seq<char>, desc: Seq<char>) -> Seq<char> {
    "\t\t"@ + name + "\n"@ + "\t\t"@ + "device info: "@ + desc + "\n"@
}

/// The lines of all the devices, one device after the other.
pub open spec fn devices_text(devices: Seq<(Seq<char>, Seq<char>)>) -> Seq<char> {
    devices.map_values(|d: (Seq<char>, Seq<char>)| device_text(d.0, d.1)).flatten()
}

/// The lines that the report gives to one room: the name under which the
/// home holds it, then either the line that says that it has no devices, or
/// the heading of its devices, their lines, and an empty line.
pub open spec fn room_text(name: Seq<char>, room: RoomView) -> Seq<char> {
    "\troom: "@ + name + "\n"@ + if room.devices.len() == 0 {
        "\tdevices not found\n"@
    } else {
        "\tdevices: \n"@ + devices_text(room.devices) + "\n"@
    }
}

/// The lines of all the rooms, one room after the other.
pub open spec fn rooms_text(rooms: Seq<(Seq<char>, RoomView)>) -> Seq<char> {
    rooms.map_values(|r: (Seq<char>, RoomView)| room_text(r.0, r.1)).flatten()
}

/// The whole report on a home: the heading, the line that names the home by
/// its description, and the lines of its rooms.
pub open spec fn home_text(home: HomeView) -> Seq<char> {
    "Smart house information\n"@ + "House: "@ + home.desc + "\n"@ + rooms_text(home.rooms)
}

/// What the report says of the device that stands under `device` in the room
/// that stands under `room`: its description, or nothing where the home has
/// no such room or the room no such device.
pub open spec fn device_state(home: HomeView, room: Seq<char>, device: Seq<char>) -> Option<
    Seq<char>,
> {
    match home.room(room) {
        Some(found) => found.device(device),
        None => None,
    }
}

/// Nothing is reported of a device whose room the home does not hold,
/// whatever the device's name, nor of a device that its room does not hold;
/// and of every other device something is.
pub proof fn lemma_state_absent(home: HomeView, room: Seq<char>, device: Seq<char>)
    ensures
        !as_map(home.rooms).contains_key(room) ==> device_state(home, room, device) is None,
        as_map(home.rooms).contains_key(room) && !as_map(
            as_map(home.rooms)[room].devices,
        ).contains_key(device) ==> device_state(home, room, device) is None,
        device_state(home, room, device) is None <==> !(as_map(home.rooms).contains_key(room)
            && as_map(as_map(home.rooms)[room].devices).contains_key(device)),
{
}

/// Of a device that its room holds, in a room that the home holds, the
/// description is reported, as it stands there.
pub proof fn lemma_state_present(home: HomeView, room: Seq<char>, device: Seq<char>)
    requires
        as_map(home.rooms).contains_key(room),
        as_map(as_map(home.rooms)[room].devices).contains_key(device),
    ensures
        device_state(home, room, device) == Some(
            as_map(as_map(home.rooms)[room].devices)[device],
        ),
{
}

/// What is reported of a device does not depend on the other rooms: a room
/// put under another name changes nothing of it.
pub proof fn lemma_state_ignores_other_rooms(
    home: HomeView,
    other: Seq<char>,
    added: RoomView,
    room: Seq<char>,
    device: Seq<char>,
)
    requires
        home.wf(),
        other != room,
    ensures
        device_state(home.with_room(other, added), room, device) == device_state(
            home,
            room,
            device,
        ),
{
    home.lemma_with_room(other, added);
}

/// What is reported of a device does not depend on the other devices of its
/// room: a device put into the room under another name changes nothing of
/// it.
pub proof fn lemma_state_ignores_other_devices(
    home: HomeView,
    room: Seq<char>,
    other: Seq<char>,
    added: Seq<char>,
    device: Seq<char>,
)
    requires
        home.wf(),
        home.room(room) is Some,
        home.room(room)->0.wf(),
        other != device,
    ensures
        device_state(
            home.with_room(room, home.room(room)->0.with_device(other, added)),
            room,
            device,
        ) == device_state(home, room, device),
{
    let found = home.room(room)->0;
    found.lemma_with_device(other, added);
    home.lemma_with_room(room, found.with_device(other, added));
}

/// The lines of a device hold its name and its description.
pub proof fn lemma_device_text_holds(name: Seq<char>, desc: Seq<char>)
    ensures
        occurs_in(name, device_text(name, desc)),
        occurs_in(desc, device_text(name, desc)),
{
    lemma_occurs_in_middle("\t\t"@, name, "\n"@ + "\t\t"@ + "device info: "@ + desc + "\n"@);
    assert("\t\t"@ + name + ("\n"@ + "\t\t"@ + "device info: "@ + desc + "\n"@) =~= device_text(
        name,
        desc,
    ));
    lemma_occurs_in_middle("\t\t"@ + name + "\n"@ + "\t\t"@ + "device info: "@, desc, "\n"@);
}

/// The lines of a room hold the name under which the home holds it, and the
/// lines of each of its devices.
pub proof fn lemma_room_text_holds(name: Seq<char>, room: RoomView, i: int)
    requires
        0 <= i < room.devices.len(),
    ensures
        occurs_in(name, room_text(name, room)),
        occurs_in(device_text(room.devices[i].0, room.devices[i].1), room_text(name, room)),
{
    let blocks = room.devices.map_values(|d: (Seq<char>, Seq<char>)| device_text(d.0, d.1));
    let block = device_text(room.devices[i].0, room.devices[i].1);
    lemma_occurs_in_itself(block);
    lemma_occurs_in_flatten(block, blocks, i);
    lemma_occurs_in_wider(
        block,
        "\troom: "@ + name + "\n"@ + "\tdevices: \n"@,
        devices_text(room.devices),
        "\n"@,
    );
    assert("\troom: "@ + name + "\n"@ + "\tdevices: \n"@ + devices_text(room.devices) + "\n"@
        =~= room_text(name, room));
    lemma_occurs_in_middle(
        "\troom: "@,
        name,
        "\n"@ + "\tdevices: \n"@ + devices_text(room.devices) + "\n"@,
    );
    assert("\troom: "@ + name + ("\n"@ + "\tdevices: \n"@ + devices_text(room.devices) + "\n"@)
        =~= room_text(name, room));
}

/// The report holds the description of the home, and the lines of each of
/// its rooms.
pub proof fn lemma_home_text_holds(home: HomeView, i: int)
    requires
        0 <= i < home.rooms.len(),
    ensures
        occurs_in(home.desc, home_text(home)),
        occurs_in(room_text(home.rooms[i].0, home.rooms[i].1), home_text(home)),
{
    let blocks = home.rooms.map_values(|r: (Seq<char>, RoomView)| room_text(r.0, r.1));
    let block = room_text(home.rooms[i].0, home.rooms[i].1);
    lemma_occurs_in_itself(block);
    lemma_occurs_in_flatten(block, blocks, i);
    lemma_occurs_in_wider(
        block,
        "Smart house information\n"@ + "House: "@ + home.desc + "\n"@,
        rooms_text(home.rooms),
        Seq::empty(),
    );
    lemma_occurs_in_middle(
        "Smart house information\n"@ + "House: "@,
        home.desc,
        "\n"@ + rooms_text(home.rooms),
    );
    assert("Smart house information\n"@ + "House: "@ + home.desc + ("\n"@ + rooms_text(
        home.rooms,
    )) =~= home_text(home));
}

/// The report holds the description of every device of every room, and the
/// bytes that are written hold the bytes of that description.
pub proof fn lemma_text_holds_device(home: HomeView, i: int, j: int)
    requires
        0 <= i < home.rooms.len(),
        0 <= j < home.rooms[i].1.devices.len(),
    ensures
        occurs_in(home.rooms[i].1.devices[j].1, home_text(home)),
        occurs_in(
            encode_utf8(home.rooms[i].1.devices[j].1),
            encode_utf8(home_text(home)),
        ),
{
    let room = home.rooms[i];
    let device = room.1.devices[j];
    lemma_device_text_holds(device.0, device.1);
    lemma_room_text_holds(room.0, room.1, j);
    lemma_home_text_holds(home, i);
    lemma_occurs_in_trans(device.1, device_text(device.0, device.1), room_text(room.0, room.1));
    lemma_occurs_in_trans(device.1, room_text(room.0, room.1), home_text(home));
    lemma_occurs_in_encoded(device.1, home_text(home));
}

/// Whatever is reported of a device stands in the text of the report, and
/// its bytes stand in the bytes that are written.
pub proof fn lemma_text_holds_state(home: HomeView, room: Seq<char>, device: Seq<char>)
    requires
        device_state(home, room, device) is Some,
    ensures
        occurs_in(device_state(home, room, device)->0, home_text(home)),
        occurs_in(
            encode_utf8(device_state(home, room, device)->0),
            encode_utf8(home_text(home)),
        ),
{
    let i = position(home.rooms, room);
    let devices = home.rooms[i].1.devices;
    let j = position(devices, device);
    lemma_text_holds_device(home, i, j);
}

/// A room without devices is reported by two lines, its name and the line
/// that says that it has none; a room with devices never has that line in
/// the place of its devices.
pub proof fn lemma_empty_room_text(name: Seq<char>, room: RoomView)
    ensures
        room.devices.len() == 0 ==> room_text(name, room) == "\troom: "@ + name + "\n"@
            + "\tdevices not found\n"@,
        room.devices.len() > 0 ==> room_text(name, room) == "\troom: "@ + name + "\n"@
            + "\tdevices: \n"@ + devices_text(room.devices) + "\n"@,
        room.devices.len() == 0 <==> as_map(room.devices).dom() == Set::<Seq<char>>::empty(),
{
    if room.devices.len() > 0 {
        assert(names_of(room.devices)[0] == room.devices[0].0);
        assert(as_map(room.devices).contains_key(room.devices[0].0));
    } else {
        assert(as_map(room.devices).dom() =~= Set::<Seq<char>>::empty());
    }
}

/// What a report can do, whatever holds the data behind it: write itself out
/// byte by byte, always the same bytes, and say how the device with a given
/// name in the room with a given name is described.
pub trait SmartHomeReport {
    /// The bytes that make up the report.
    spec fn rendering(&self) -> Seq<u8>;

    /// What the report says of the device that stands under `device` in the
    /// room that stands under `room`; nothing, where it knows no such device.
    spec fn state_of(&self, room: Seq<char>, device: Seq<char>) -> Option<Seq<char>>;

    /// Writes the report to the end of `writer`.
    fn print(&self, writer: &mut Vec<u8>)
        ensures
            final(writer)@ == old(writer)@ + self.rendering(),
    ;

    /// The description of the device `device_name` of the room `room_name`,
    /// if there is such a device.
    fn get_state_by_id(&self, room_name: String, device_name: String) -> (found: Option<String>)
        ensures
            match found {
                Some(desc) => self.state_of(room_name@, device_name@) == Some(desc@),
                None => self.state_of(room_name@, device_name@) is None,
            },
    ;
}

/// The report on a home that it owns.
pub struct Report {
    pub home: SmartHome,
}

impl View for Report {
    type V = HomeView;

    /// A report is the home that it reports on.
    open spec fn view(&self) -> HomeView {
        self.home@
    }
}

impl Report {
    /// Makes the report on `home`.
    pub fn new(home: SmartHome) -> (report: Self)
        ensures
            report.home == home,
            report@ == home@,
    {
        Self { home }
    }
}

/// Writes `text` to the end of `writer`, as UTF-8.
fn write_text(writer: &mut Vec<u8>, text: &str)
    ensures
        final(writer)@ == old(writer)@ + encode_utf8(text@),
{
    writer.extend_from_slice(text.as_bytes());
}

/// Writes the lines of one device.
fn write_device(writer: &mut Vec<u8>, name: &String, device: &SmartDevice)
    ensures
        final(writer)@ == old(writer)@ + encode_utf8(device_text(name@, device@)),
{
    write_text(writer, "\t\t");
    write_text(writer, name.as_str());
    write_text(writer, "\n");
    write_text(writer, "\t\t");
    write_text(writer, "device info: ");
    write_text(writer, device.desc.as_str());
    write_text(writer, "\n");
    proof {
        let indent = "\t\t"@;
        let end = "\n"@;
        let label = "device info: "@;
        lemma_encode_utf8_concat(indent, name@);
        lemma_encode_utf8_concat(indent + name@, end);
        lemma_encode_utf8_concat(indent + name@ + end, indent);
        lemma_encode_utf8_concat(indent + name@ + end + indent, label);
        lemma_encode_utf8_concat(indent + name@ + end + indent + label, device@);
        lemma_encode_utf8_concat(indent + name@ + end + indent + label + device@, end);
    }
}

/// Writes the lines of all the devices, in the order in which they are
/// walked.
fn write_devices(writer: &mut Vec<u8>, devices: &NameMap<SmartDevice>)
    ensures
        final(writer)@ == old(writer)@ + encode_utf8(devices_text(devices@)),
{
    let ghost start = writer@;
    let ghost blocks = devices@.map_values(|d: (Seq<char>, Seq<char>)| device_text(d.0, d.1));
    let entries = devices.as_slice();
    for i in 0..entries.len()
        invariant
            entries@.map_values(|e: (String, SmartDevice)| (e.0@, e.1)) == devices.entries(),
            blocks == devices@.map_values(|d: (Seq<char>, Seq<char>)| device_text(d.0, d.1)),
            writer@ == start + encode_utf8(blocks.take(i as int).flatten()),
    {
        let ghost done = blocks.take(i as int);
        write_device(writer, &entries[i].0, &entries[i].1);
        proof {
            assert(blocks.take(i + 1) =~= done.push(blocks[i as int]));
            done.lemma_flatten_push(blocks[i as int]);
            lemma_encode_utf8_concat(done.flatten(), blocks[i as int]);
        }
    }
    assert(blocks.take(entries.len() as int) =~= blocks);
}

/// Writes the lines of one room.
fn write_room(writer: &mut Vec<u8>, name: &String, room: &Room)
    ensures
        final(writer)@ == old(writer)@ + encode_utf8(room_text(name@, room@)),
{
    let ghost head = "\troom: "@ + name@ + "\n"@;
    write_text(writer, "\troom: ");
    write_text(writer, name.as_str());
    write_text(writer, "\n");
    proof {
        lemma_encode_utf8_concat("\troom: "@, name@);
        lemma_encode_utf8_concat("\troom: "@ + name@, "\n"@);
    }
    if room.devices.is_empty() {
        write_text(writer, "\tdevices not found\n");
        proof {
            lemma_encode_utf8_concat(head, "\tdevices not found\n"@);
        }
    } else {
        write_text(writer, "\tdevices: \n");
        write_devices(writer, &room.devices);
        write_text(writer, "\n");
        proof {
            let heading = "\tdevices: \n"@;
            let lines = devices_text(room@.devices);
            lemma_encode_utf8_concat(heading, lines);
            lemma_encode_utf8_concat(heading + lines, "\n"@);
            lemma_encode_utf8_concat(head, heading + lines + "\n"@);
        }
    }
}

/// Writes the lines of all the rooms, in the order in which they are walked.
fn write_rooms(writer: &mut Vec<u8>, rooms: &NameMap<Room>)
    ensures
        final(writer)@ == old(writer)@ + encode_utf8(rooms_text(rooms@)),
{
    let ghost start = writer@;
    let ghost blocks = rooms@.map_values(|r: (Seq<char>, RoomView)| room_text(r.0, r.1));
    let entries = rooms.as_slice();
    for i in 0..entries.len()
        invariant
            entries@.map_values(|e: (String, Room)| (e.0@, e.1)) == rooms.entries(),
            blocks == rooms@.map_values(|r: (Seq<char>, RoomView)| room_text(r.0, r.1)),
            writer@ == start + encode_utf8(blocks.take(i as int).flatten()),
    {
        let ghost done = blocks.take(i as int);
        write_room(writer, &entries[i].0, &entries[i].1);
        proof {
            assert(blocks.take(i + 1) =~= done.push(blocks[i as int]));
            done.lemma_flatten_push(blocks[i as int]);
            lemma_encode_utf8_concat(done.flatten(), blocks[i as int]);
        }
    }
    assert(blocks.take(entries.len() as int) =~= blocks);
}

impl SmartHomeReport for Report {
    /// The text of the report on the home, as UTF-8.
    open spec fn rendering(&self) -> Seq<u8> {
        encode_utf8(home_text(self@))
    }

    /// The description that the device has in the home.
    open spec fn state_of(&self, room: Seq<char>, device: Seq<char>) -> Option<Seq<char>> {
        device_state(self@, room, device)
    }

    fn print(&self, writer: &mut Vec<u8>) {
        write_text(writer, "Smart house information\n");
        write_text(writer, "House: ");
        write_text(writer, self.home.desc.as_str());
        write_text(writer, "\n");
        write_rooms(writer, &self.home.rooms);
        proof {
            let heading = "Smart house information\n"@;
            let label = "House: "@;
            let desc = self.home.desc@;
            let end = "\n"@;
            let rooms = rooms_text(self.home@.rooms);
            lemma_encode_utf8_concat(heading, label);
            lemma_encode_utf8_concat(heading + label, desc);
            lemma_encode_utf8_concat(heading + label + desc, end);
            lemma_encode_utf8_concat(heading + label + desc + end, rooms);
        }
    }

    fn get_state_by_id(&self, room_name: String, device_name: String) -> (found: Option<String>) {
        proof {
            lemma_views_of(self.home.rooms.entries());
        }
        match self.home.rooms.get(&room_name) {
            Some(room) => {
                proof {
                    lemma_views_of(room.devices.entries());
                }
                match room.devices.get(&device_name) {
                    Some(device) => Some(device.desc.clone()),
                    None => None,
                }
            },
            None => None,
        }
    }
}

/// Makes the report on `home`: it writes the text of that home, and says of
/// each device what the home holds of it.
pub fn get_report(home: SmartHome) -> (report: impl SmartHomeReport)
    ensures
        report.rendering() == encode_utf8(home_text(home@)),
        forall|room: Seq<char>, device: Seq<char>| #[trigger]
            report.state_of(room, device) == device_state(home@, room, device),
{
    Report::new(home)
}

} // verus!
