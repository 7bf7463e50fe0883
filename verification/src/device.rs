use vstd::prelude::*;

verus! {

/// A device of the home. It is described by a free text and never changes.
#[derive(Debug)]
pub struct SmartDevice {
    pub desc: String,
}

impl View for SmartDevice {
    type V = Seq<char>;

    /// A device is its description.
    open spec fn view(&self) -> Seq<char> {
        self.desc@
    }
}

impl SmartDevice {
    /// Makes a device with the given description, taken as it is.
    pub fn new(desc: String) -> (device: SmartDevice)
        ensures
            device.desc == desc,
            device@ == desc@,
    {
        SmartDevice { desc }
    }
}

impl Clone for SmartDevice {
    /// A device with the same description.
    fn clone(&self) -> (copy: Self)
        ensures
            copy == *self,
    {
        SmartDevice { desc: self.desc.clone() }
    }
}

impl PartialEq for SmartDevice {
    /// Two devices are equal when their descriptions are.
    fn eq(&self, other: &Self) -> (equal: bool) {
        self.desc == other.desc
    }
}

impl vstd::std_specs::cmp::PartialEqSpecImpl for SmartDevice {
    open spec fn obeys_eq_spec() -> bool {
        true
    }

    open spec fn eq_spec(&self, other: &Self) -> bool {
        self@ == other@
    }
}

} // verus!
