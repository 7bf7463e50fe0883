//! A small smart-home inventory: a home holds rooms, a room holds devices,
//! and a report renders the whole as text and looks a device up by the names
//! of its room and of the device.

pub mod device;
pub mod home;
pub mod name_map;
pub mod report;
pub mod room;
pub mod text;
