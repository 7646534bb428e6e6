//! The inventory: one record per compute instance, as one listing of the
//! provider showed it.

use vstd::prelude::*;

verus! {

/// Where an instance stands in its life cycle.
#[derive(Clone, Copy, Debug, PartialEq, Eq, Structural)]
pub enum InstanceState {
    Pending,
    Running,
    ShuttingDown,
    Terminated,
    Stopping,
    Stopped,
    Unknown,
}

/// One instance of the inventory. The id is the only stable key; a name
/// may be empty, and several instances may share it.
#[derive(Clone, Debug, PartialEq, Eq)]
pub struct InstanceRecord {
    pub id: String,
    pub name: String,
    pub public_ip: Option<String>,
    pub state: InstanceState,
    pub group: Option<String>,
}

/// What an [`InstanceRecord`] holds, as plain values.
pub struct RecordView {
    pub id: Seq<char>,
    pub name: Seq<char>,
    pub public_ip: Option<Seq<char>>,
    pub state: InstanceState,
    pub group: Option<Seq<char>>,
}

impl View for InstanceRecord {
    type V = RecordView;

    open spec fn view(&self) -> RecordView {
        RecordView {
            id: self.id@,
            name: self.name@,
            public_ip: self.public_ip.deep_view(),
            state: self.state,
            group: self.group.deep_view(),
        }
    }
}

impl DeepView for InstanceRecord {
    type V = RecordView;

    open spec fn deep_view(&self) -> RecordView {
        self@
    }
}

/// A copy of an optional string.
pub fn copy_optional(text: &Option<String>) -> (r: Option<String>)
    ensures
        r == *text,
{
    match text {
        Some(s) => Some(s.clone()),
        None => None,
    }
}

impl InstanceRecord {
    /// A copy of the record.
    pub fn duplicate(&self) -> (r: InstanceRecord)
        ensures
            r == *self,
    {
        InstanceRecord {
            id: self.id.clone(),
            name: self.name.clone(),
            public_ip: copy_optional(&self.public_ip),
            state: self.state,
            group: copy_optional(&self.group),
        }
    }
}

} // verus!
