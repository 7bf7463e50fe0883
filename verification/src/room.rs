use crate::device::SmartDevice;
use crate::name_map::{
    as_map, distinct_names, lemma_put, lemma_put_twice, lemma_put_views, lemma_views_of, names_of,
    put, NameMap,
};
use vstd::prelude::*;
use vstd::std_specs::cmp::PartialEqSpec;

verus! {

/// The model of a room: its description, and its devices by name in the
/// order in which they are walked, each device as its description.
pub struct RoomView {
    pub desc: Seq<char>,
    pub devices: Seq<(Seq<char>, Seq<char>)>,
}

impl RoomView {
    /// No device name stands twice.
    pub open spec fn wf(self) -> bool {
        distinct_names(self.devices)
    }

    /// The description of the device under `name`, if the room has one.
    pub open spec fn device(self, name: Seq<char>) -> Option<Seq<char>> {
        if as_map(self.devices).contains_key(name) {
            Some(as_map(self.devices)[name])
        } else {
            None
        }
    }

    /// The two rooms have the same description and the same devices under
    /// the same names, in whatever order.
    pub open spec fn same_as(self, other: RoomView) -> bool {
        &&& self.desc == other.desc
        &&& as_map(self.devices) == as_map(other.devices)
    }

    /// The room after a device described by `desc` has been put into it
    /// under `name`.
    pub open spec fn with_device(self, name: Seq<char>, desc: Seq<char>) -> RoomView {
        RoomView { desc: self.desc, devices: put(self.devices, name, desc) }
    }

    /// A device put into the room is found under its name, and every other
    /// name gives what it gave before. The room has one device more if the
    /// name is new, and as many as before if it is not.
    pub proof fn lemma_with_device(self, name: Seq<char>, desc: Seq<char>)
        requires
            self.wf(),
        ensures
            self.with_device(name, desc).wf(),
            self.with_device(name, desc).device(name) == Some(desc),
            forall|other: Seq<char>|
                other != name ==> #[trigger] self.with_device(name, desc).device(other)
                    == self.device(other),
            self.with_device(name, desc).devices.len() == if self.device(name) is Some {
                self.devices.len()
            } else {
                self.devices.len() + 1
            },
    {
        lemma_put(self.devices, name, desc);
    }

    /// Of two devices put under one name, one after the other, only the
    /// second is found there, and the second has not made the room larger.
    pub proof fn lemma_device_overwritten(
        self,
        name: Seq<char>,
        first: Seq<char>,
        second: Seq<char>,
    )
        requires
            self.wf(),
        ensures
            self.with_device(name, first).with_device(name, second).device(name) == Some(second),
            self.with_device(name, first).with_device(name, second).devices.len()
                == self.with_device(name, first).devices.len(),
            as_map(self.with_device(name, first).with_device(name, second).devices).len()
                == as_map(self.with_device(name, first).devices).len(),
            self.with_device(name, first).with_device(name, second) == self.with_device(
                name,
                second,
            ),
    {
        lemma_put_twice(self.devices, name, first, second);
    }
}

/// A room of the home: a description, and devices under their names.
#[derive(Debug)]
pub struct Room {
    pub desc: String,
    pub devices: NameMap<SmartDevice>,
}

impl View for Room {
    type V = RoomView;

    open spec fn view(&self) -> RoomView {
        RoomView { desc: self.desc@, devices: self.devices@ }
    }
}

impl Room {
    /// Makes a room with the given description and no device.
    pub fn new(name: String) -> (room: Room)
        ensures
            room.desc == name,
            room@ == (RoomView { desc: name@, devices: Seq::empty() }),
            room@.wf(),
    {
        let room = Room { desc: name, devices: NameMap::new() };
        assert(room@.devices =~= Seq::empty());
        room
    }

    /// Puts `device` into the room under `name`. A device that stood under
    /// that name is replaced.
    pub fn add_device(&mut self, name: String, device: SmartDevice)
        ensures
            final(self).desc == old(self).desc,
            final(self).devices.entries() == put(old(self).devices.entries(), name@, device),
            final(self)@ == old(self)@.with_device(name@, device@),
            final(self)@.wf(),
    {
        proof {
            lemma_put_views(self.devices.entries(), name@, device);
        }
        self.devices.insert(name, device);
        proof {
            use_type_invariant(&self.devices);
            lemma_views_of(self.devices.entries());
        }
    }

    /// The devices of the room, in the order in which they are walked.
    pub fn list_devices(&self) -> (devices: Vec<&SmartDevice>)
        ensures
            devices@.len() == self@.devices.len(),
            forall|i: int|
                0 <= i < devices@.len() ==> *(#[trigger] devices@[i])
                    == self.devices.entries()[i].1,
            forall|i: int|
                0 <= i < devices@.len() ==> (#[trigger] devices@[i])@ == self@.devices[i].1,
    {
        self.devices.values()
    }
}

impl Clone for Room {
    /// A room with the same view.
    fn clone(&self) -> (copy: Self)
        ensures
            copy@ == self@,
    {
        let copy = Room { desc: self.desc.clone(), devices: self.devices.clone() };
        assert forall|i: int| 0 <= i < self@.devices.len() implies copy@.devices[i]
            == self@.devices[i] by {
            assert(names_of(copy.devices.entries())[i] == names_of(self.devices.entries())[i]);
        }
        assert(copy@.devices =~= self@.devices);
        copy
    }
}

impl PartialEq for Room {
    /// Two rooms are equal when their descriptions are, and they hold equal
    /// devices under the same names, in whatever order.
    fn eq(&self, other: &Self) -> (equal: bool) {
        proof {
            lemma_views_of(self.devices.entries());
            lemma_views_of(other.devices.entries());
            if self.devices.eq_spec(&other.devices) {
                assert(as_map(self@.devices) =~= as_map(other@.devices));
            }
        }
        self.desc == other.desc && self.devices == other.devices
    }
}

impl vstd::std_specs::cmp::PartialEqSpecImpl for Room {
    open spec fn obeys_eq_spec() -> bool {
        true
    }

    open spec fn eq_spec(&self, other: &Self) -> bool {
        self@.same_as(other@)
    }
}

} // verus!
