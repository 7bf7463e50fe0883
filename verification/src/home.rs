use crate::name_map::{
    as_map, distinct_names, lemma_put, lemma_put_twice, lemma_put_views, lemma_views_of, names_of,
    put, NameMap,
};
use crate::room::{Room, RoomView};
use vstd::prelude::*;

verus! {

/// The model of a home: its description, and its rooms by name in the order
/// in which they are walked.
pub struct HomeView {
    pub desc: Seq<char>,
    pub rooms: Seq<(Seq<char>, RoomView)>,
}

impl HomeView {
    /// No room name stands twice.
    pub open spec fn wf(self) -> bool {
        distinct_names(self.rooms)
    }

    /// The room under `name`, if the home has one.
    pub open spec fn room(self, name: Seq<char>) -> Option<RoomView> {
        if as_map(self.rooms).contains_key(name) {
            Some(as_map(self.rooms)[name])
        } else {
            None
        }
    }

    /// The two homes have the same description and, under the same names,
    /// rooms that are the same, in whatever order.
    pub open spec fn same_as(self, other: HomeView) -> bool {
        &&& self.desc == other.desc
        &&& as_map(self.rooms).dom() == as_map(other.rooms).dom()
        &&& forall|name: Seq<char>| #[trigger]
            as_map(self.rooms).contains_key(name) ==> as_map(self.rooms)[name].same_as(
                as_map(other.rooms)[name],
            )
    }

    /// The home after `room` has been put into it under `name`.
    pub open spec fn with_room(self, name: Seq<char>, room: RoomView) -> HomeView {
        HomeView { desc: self.desc, rooms: put(self.rooms, name, room) }
    }

    /// A room put into the home is found under its name, and every other
    /// name gives what it gave before. The home has one room more if the
    /// name is new, and as many as before if it is not.
    pub proof fn lemma_with_room(self, name: Seq<char>, room: RoomView)
        requires
            self.wf(),
        ensures
            self.with_room(name, room).wf(),
            self.with_room(name, room).room(name) == Some(room),
            forall|other: Seq<char>|
                other != name ==> #[trigger] self.with_room(name, room).room(other) == self.room(
                    other,
                ),
            self.with_room(name, room).rooms.len() == if self.room(name) is Some {
                self.rooms.len()
            } else {
                self.rooms.len() + 1
            },
    {
        lemma_put(self.rooms, name, room);
    }

    /// Of two rooms put under one name, one after the other, only the second
    /// is found there, and the second has not made the home larger.
    pub proof fn lemma_room_overwritten(self, name: Seq<char>, first: RoomView, second: RoomView)
        requires
            self.wf(),
        ensures
            self.with_room(name, first).with_room(name, second).room(name) == Some(second),
            self.with_room(name, first).with_room(name, second).rooms.len() == self.with_room(
                name,
                first,
            ).rooms.len(),
            as_map(self.with_room(name, first).with_room(name, second).rooms).len() == as_map(
                self.with_room(name, first).rooms,
            ).len(),
            self.with_room(name, first).with_room(name, second) == self.with_room(name, second),
    {
        lemma_put_twice(self.rooms, name, first, second);
    }
}

/// A home: a description, and rooms under their names.
#[derive(Debug)]
pub struct SmartHome {
    pub desc: String,
    pub rooms: NameMap<Room>,
}

impl View for SmartHome {
    type V = HomeView;

    open spec fn view(&self) -> HomeView {
        HomeView { desc: self.desc@, rooms: self.rooms@ }
    }
}

impl SmartHome {
    /// Makes a home with the given description and no room.
    pub fn new(name: String) -> (home: SmartHome)
        ensures
            home.desc == name,
            home@ == (HomeView { desc: name@, rooms: Seq::empty() }),
            home@.wf(),
    {
        let home = SmartHome { desc: name, rooms: NameMap::new() };
        assert(home@.rooms =~= Seq::empty());
        home
    }

    /// Puts `room` into the home under `name`. A room that stood under that
    /// name is replaced.
    pub fn add_room(&mut self, name: String, room: Room)
        ensures
            final(self).desc == old(self).desc,
            final(self).rooms.entries() == put(old(self).rooms.entries(), name@, room),
            final(self)@ == old(self)@.with_room(name@, room@),
            final(self)@.wf(),
    {
        proof {
            lemma_put_views(self.rooms.entries(), name@, room);
        }
        self.rooms.insert(name, room);
        proof {
            use_type_invariant(&self.rooms);
            lemma_views_of(self.rooms.entries());
        }
    }

    /// The rooms of the home, in the order in which they are walked.
    pub fn list_rooms(&self) -> (rooms: Vec<&Room>)
        ensures
            rooms@.len() == self@.rooms.len(),
            forall|i: int|
                0 <= i < rooms@.len() ==> *(#[trigger] rooms@[i]) == self.rooms.entries()[i].1,
            forall|i: int| 0 <= i < rooms@.len() ==> (#[trigger] rooms@[i])@ == self@.rooms[i].1,
    {
        self.rooms.values()
    }
}

impl Clone for SmartHome {
    /// A home with the same view.
    fn clone(&self) -> (copy: Self)
        ensures
            copy@ == self@,
    {
        let copy = SmartHome { desc: self.desc.clone(), rooms: self.rooms.clone() };
        assert forall|i: int| 0 <= i < self@.rooms.len() implies copy@.rooms[i]
            == self@.rooms[i] by {
            assert(names_of(copy.rooms.entries())[i] == names_of(self.rooms.entries())[i]);
        }
        assert(copy@.rooms =~= self@.rooms);
        copy
    }
}

impl PartialEq for SmartHome {
    /// Two homes are equal when their descriptions are, and they hold equal
    /// rooms under the same names, in whatever order.
    fn eq(&self, other: &Self) -> (equal: bool) {
        proof {
            lemma_views_of(self.rooms.entries());
            lemma_views_of(other.rooms.entries());
        }
        self.desc == other.desc && self.rooms == other.rooms
    }
}

impl vstd::std_specs::cmp::PartialEqSpecImpl for SmartHome {
    open spec fn obeys_eq_spec() -> bool {
        true
    }

    open spec fn eq_spec(&self, other: &Self) -> bool {
        self@.same_as(other@)
    }
}

} // verus!
