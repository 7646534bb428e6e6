//! Building the inventory from what one listing of the provider returned.
//!
//! The listing comes in reservations, each with any number of instances
//! (none is allowed), and each instance with any number of tags. Nothing in
//! it is required to be present: what is missing reads as empty or unknown.

use crate::instance::{copy_optional, InstanceRecord, InstanceState, RecordView};
use crate::text::same_text;
use vstd::prelude::*;

verus! {

/// A key/value label on an instance, as the provider gave it.
#[derive(Clone, Debug, PartialEq, Eq)]
pub struct RawTag {
    pub key: Option<String>,
    pub value: Option<String>,
}

/// What a [`RawTag`] holds, as plain values.
pub struct TagView {
    pub key: Option<Seq<char>>,
    pub value: Option<Seq<char>>,
}

impl View for RawTag {
    type V = TagView;

    open spec fn view(&self) -> TagView {
        TagView { key: self.key.deep_view(), value: self.value.deep_view() }
    }
}

impl DeepView for RawTag {
    type V = TagView;

    open spec fn deep_view(&self) -> TagView {
        self@
    }
}

/// One instance of a listing, as the provider gave it.
#[derive(Clone, Debug, PartialEq, Eq)]
pub struct RawInstance {
    pub instance_id: Option<String>,
    pub tags: Vec<RawTag>,
    pub public_ip: Option<String>,
    /// The provider's word for the state, such as `running`.
    pub state_name: Option<String>,
}

/// What a [`RawInstance`] holds, as plain values.
pub struct RawInstanceView {
    pub instance_id: Option<Seq<char>>,
    pub tags: Seq<TagView>,
    pub public_ip: Option<Seq<char>>,
    pub state_name: Option<Seq<char>>,
}

impl View for RawInstance {
    type V = RawInstanceView;

    open spec fn view(&self) -> RawInstanceView {
        RawInstanceView {
            instance_id: self.instance_id.deep_view(),
            tags: self.tags.deep_view(),
            public_ip: self.public_ip.deep_view(),
            state_name: self.state_name.deep_view(),
        }
    }
}

impl DeepView for RawInstance {
    type V = RawInstanceView;

    open spec fn deep_view(&self) -> RawInstanceView {
        self@
    }
}

/// The listing could not be had; the reason is the provider's.
#[derive(Clone, Debug, PartialEq, Eq)]
pub struct ProviderUnavailable {
    pub reason: String,
}

/// The tag key that carries an instance's display name.
pub open spec fn name_key() -> Seq<char> {
    "Name"@
}

/// The tag key that carries an instance's group.
pub open spec fn group_key() -> Seq<char> {
    "Group"@
}

/// The text, or the empty text where there is none.
pub open spec fn text_or_empty(text: Option<Seq<char>>) -> Seq<char> {
    match text {
        Some(s) => s,
        None => Seq::empty(),
    }
}

/// The value of the last tag with this key (empty where that tag has no
/// value); `None` where no tag has the key.
pub open spec fn tag_value(tags: Seq<TagView>, key: Seq<char>) -> Option<Seq<char>>
    decreases tags.len(),
{
    if tags.len() == 0 {
        None
    } else if tags.last().key == Some(key) {
        Some(text_or_empty(tags.last().value))
    } else {
        tag_value(tags.drop_last(), key)
    }
}

/// The state that the provider's word stands for. Matching is exact; any
/// other word is `Unknown`.
pub open spec fn state_named(word: Seq<char>) -> InstanceState {
    if word == "pending"@ {
        InstanceState::Pending
    } else if word == "running"@ {
        InstanceState::Running
    } else if word == "shutting-down"@ {
        InstanceState::ShuttingDown
    } else if word == "terminated"@ {
        InstanceState::Terminated
    } else if word == "stopping"@ {
        InstanceState::Stopping
    } else if word == "stopped"@ {
        InstanceState::Stopped
    } else {
        InstanceState::Unknown
    }
}

/// The record of one listed instance.
pub open spec fn record_of(raw: RawInstanceView) -> RecordView {
    RecordView {
        id: text_or_empty(raw.instance_id),
        name: text_or_empty(tag_value(raw.tags, name_key())),
        public_ip: raw.public_ip,
        state: match raw.state_name {
            Some(word) => state_named(word),
            None => InstanceState::Unknown,
        },
        group: tag_value(raw.tags, group_key()),
    }
}

/// The records of these instances, in their order.
pub open spec fn records_of(instances: Seq<RawInstanceView>) -> Seq<RecordView> {
    instances.map_values(|raw: RawInstanceView| record_of(raw))
}

/// The records of all listed instances, reservation by reservation, in the
/// order of the listing.
pub open spec fn inventory_of(reservations: Seq<Seq<RawInstanceView>>) -> Seq<RecordView> {
    records_of(reservations.flatten())
}

/// The value of the last tag with the key `key`, if any tag has it.
pub fn lookup_tag(tags: &Vec<RawTag>, key: &str) -> (found: Option<String>)
    ensures
        found.deep_view() == tag_value(tags.deep_view(), key@),
{
    let mut found: Option<String> = None;
    let mut i: usize = 0;
    while i < tags.len()
        invariant
            i <= tags.len(),
            found.deep_view() == tag_value(tags.deep_view().take(i as int), key@),
        decreases tags.len() - i,
    {
        proof {
            let next = tags.deep_view().take(i + 1);
            assert(next.drop_last() =~= tags.deep_view().take(i as int));
            assert(next.last() == tags[i as int]@);
        }
        let tag = &tags[i];
        let hit = match &tag.key {
            Some(k) => same_text(k.as_str(), key),
            None => false,
        };
        if hit {
            found = match &tag.value {
                Some(v) => Some(v.clone()),
                None => Some(String::new()),
            };
        }
        i = i + 1;
    }
    assert(tags.deep_view().take(tags.len() as int) =~= tags.deep_view());
    found
}

impl InstanceState {
    /// The state that the provider's word stands for.
    pub fn from_provider_word(word: &str) -> (state: InstanceState)
        ensures
            state == state_named(word@),
    {
        if same_text(word, "pending") {
            InstanceState::Pending
        } else if same_text(word, "running") {
            InstanceState::Running
        } else if same_text(word, "shutting-down") {
            InstanceState::ShuttingDown
        } else if same_text(word, "terminated") {
            InstanceState::Terminated
        } else if same_text(word, "stopping") {
            InstanceState::Stopping
        } else if same_text(word, "stopped") {
            InstanceState::Stopped
        } else {
            InstanceState::Unknown
        }
    }
}

/// The record of one listed instance: its name and group read from its
/// tags, its state from the provider's word.
pub fn build_record(raw: &RawInstance) -> (record: InstanceRecord)
    ensures
        record@ == record_of(raw@),
{
    let id = match &raw.instance_id {
        Some(s) => s.clone(),
        None => String::new(),
    };
    let name = match lookup_tag(&raw.tags, "Name") {
        Some(s) => s,
        None => String::new(),
    };
    let state = match &raw.state_name {
        Some(word) => InstanceState::from_provider_word(word.as_str()),
        None => InstanceState::Unknown,
    };
    let group = lookup_tag(&raw.tags, "Group");
    InstanceRecord { id, name, public_ip: copy_optional(&raw.public_ip), state, group }
}

/// The inventory that a listing amounts to: one record per instance, in
/// the order of the listing. A reservation without instances adds nothing.
pub fn build_inventory(reservations: &Vec<Vec<RawInstance>>) -> (inventory: Vec<InstanceRecord>)
    ensures
        inventory.deep_view() == inventory_of(reservations.deep_view()),
{
    let ghost all = reservations.deep_view();
    let mut inventory: Vec<InstanceRecord> = Vec::new();
    let mut i: usize = 0;
    proof {
        assert(all.take(0) =~= Seq::<Seq<RawInstanceView>>::empty());
        assert(inventory.deep_view() =~= inventory_of(all.take(0)));
    }
    while i < reservations.len()
        invariant
            i <= reservations.len(),
            all == reservations.deep_view(),
            inventory.deep_view() == inventory_of(all.take(i as int)),
        decreases reservations.len() - i,
    {
        let instances = &reservations[i];
        let ghost before = inventory.deep_view();
        let ghost these = instances.deep_view();
        let mut j: usize = 0;
        proof {
            assert(these == all[i as int]);
            assert(inventory.deep_view() =~= before + records_of(these.take(0)));
        }
        while j < instances.len()
            invariant
                j <= instances.len(),
                these == instances.deep_view(),
                inventory.deep_view() == before + records_of(these.take(j as int)),
            decreases instances.len() - j,
        {
            let record = build_record(&instances[j]);
            let ghost sofar = inventory.deep_view();
            inventory.push(record);
            proof {
                assert(record@ == record_of(these[j as int]));
                assert(inventory.deep_view() =~= sofar.push(record@));
                assert(these.take(j + 1) =~= these.take(j as int).push(these[j as int]));
                assert(inventory.deep_view() =~= before + records_of(these.take(j + 1)));
            }
            j = j + 1;
        }
        proof {
            assert(these.take(these.len() as int) =~= these);
            assert(all.take(i + 1) =~= all.take(i as int).push(these));
            all.take(i as int).lemma_flatten_push(these);
            assert(inventory.deep_view() =~= inventory_of(all.take(i + 1)));
        }
        i = i + 1;
    }
    assert(all.take(all.len() as int) =~= all);
    inventory
}

/// The inventory for this run, from the outcome of the one listing call: a
/// listing gives its inventory, a failed call is reported as it is, with
/// the reason it gave. There is no second attempt.
pub fn inventory_from_listing(listing: &Result<Vec<Vec<RawInstance>>, String>) -> (r: Result<
    Vec<InstanceRecord>,
    ProviderUnavailable,
>)
    ensures
        match *listing {
            Ok(reservations) => r is Ok && r->Ok_0.deep_view() == inventory_of(
                reservations.deep_view(),
            ),
            Err(reason) => r is Err && r->Err_0.reason@ == reason@,
        },
{
    match listing {
        Ok(reservations) => Ok(build_inventory(reservations)),
        Err(reason) => Err(ProviderUnavailable { reason: reason.clone() }),
    }
}

} // verus!
