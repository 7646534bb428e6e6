use ec2_connect::directory::{
    build_inventory, build_record, inventory_from_listing, lookup_tag, ProviderUnavailable,
    RawInstance, RawTag,
};
use ec2_connect::instance::{InstanceRecord, InstanceState};

fn tag(key: &str, value: &str) -> RawTag {
    RawTag {
        key: Some(key.to_string()),
        value: Some(value.to_string()),
    }
}

fn raw(id: &str, tags: Vec<RawTag>, ip: Option<&str>, state: Option<&str>) -> RawInstance {
    RawInstance {
        instance_id: Some(id.to_string()),
        tags,
        public_ip: ip.map(|s| s.to_string()),
        state_name: state.map(|s| s.to_string()),
    }
}

#[test]
fn record_reads_name_and_group_from_tags() {
    let instance = raw(
        "i-1",
        vec![tag("Owner", "ops"), tag("Name", "web-a"), tag("Group", "web")],
        Some("203.0.113.7"),
        Some("running"),
    );
    assert_eq!(
        build_record(&instance),
        InstanceRecord {
            id: "i-1".to_string(),
            name: "web-a".to_string(),
            public_ip: Some("203.0.113.7".to_string()),
            state: InstanceState::Running,
            group: Some("web".to_string()),
        }
    );
}

#[test]
fn instance_without_tags_has_empty_name_and_no_group() {
    let instance = raw("i-1", Vec::new(), None, Some("stopped"));
    assert_eq!(
        build_record(&instance),
        InstanceRecord {
            id: "i-1".to_string(),
            name: "".to_string(),
            public_ip: None,
            state: InstanceState::Stopped,
            group: None,
        }
    );
}

#[test]
fn instance_with_nothing_present_is_tolerated() {
    let instance = RawInstance {
        instance_id: None,
        tags: vec![RawTag {
            key: None,
            value: None,
        }],
        public_ip: None,
        state_name: None,
    };
    assert_eq!(
        build_record(&instance),
        InstanceRecord {
            id: "".to_string(),
            name: "".to_string(),
            public_ip: None,
            state: InstanceState::Unknown,
            group: None,
        }
    );
}

#[test]
fn last_tag_of_a_key_wins() {
    let tags = vec![tag("Name", "old"), tag("Group", "g"), tag("Name", "new")];
    assert_eq!(lookup_tag(&tags, "Name"), Some("new".to_string()));
    assert_eq!(lookup_tag(&tags, "Group"), Some("g".to_string()));
    assert_eq!(lookup_tag(&tags, "name"), None);
    assert_eq!(lookup_tag(&tags, "Nam"), None);
    assert_eq!(lookup_tag(&Vec::new(), "Name"), None);
}

#[test]
fn tag_without_value_reads_as_empty() {
    let tags = vec![
        tag("Name", "web"),
        RawTag {
            key: Some("Name".to_string()),
            value: None,
        },
    ];
    assert_eq!(lookup_tag(&tags, "Name"), Some("".to_string()));
}

#[test]
fn provider_words_map_to_states() {
    assert_eq!(
        InstanceState::from_provider_word("pending"),
        InstanceState::Pending
    );
    assert_eq!(
        InstanceState::from_provider_word("running"),
        InstanceState::Running
    );
    assert_eq!(
        InstanceState::from_provider_word("shutting-down"),
        InstanceState::ShuttingDown
    );
    assert_eq!(
        InstanceState::from_provider_word("terminated"),
        InstanceState::Terminated
    );
    assert_eq!(
        InstanceState::from_provider_word("stopping"),
        InstanceState::Stopping
    );
    assert_eq!(
        InstanceState::from_provider_word("stopped"),
        InstanceState::Stopped
    );
    assert_eq!(
        InstanceState::from_provider_word("Running"),
        InstanceState::Unknown
    );
    assert_eq!(
        InstanceState::from_provider_word("rebooting"),
        InstanceState::Unknown
    );
    assert_eq!(InstanceState::from_provider_word(""), InstanceState::Unknown);
}

#[test]
fn inventory_flattens_reservations_in_order() {
    let listing = vec![
        vec![
            raw("i-1", vec![tag("Name", "a")], None, Some("running")),
            raw("i-2", vec![tag("Name", "b")], None, Some("stopped")),
        ],
        Vec::new(),
        vec![raw("i-3", vec![tag("Name", "c")], None, Some("pending"))],
    ];
    let inventory = build_inventory(&listing);
    let ids: Vec<&str> = inventory.iter().map(|r| r.id.as_str()).collect();
    assert_eq!(ids, vec!["i-1", "i-2", "i-3"]);
    let names: Vec<&str> = inventory.iter().map(|r| r.name.as_str()).collect();
    assert_eq!(names, vec!["a", "b", "c"]);
    assert_eq!(inventory[2].state, InstanceState::Pending);
}

#[test]
fn inventory_of_empty_listing_is_empty() {
    assert_eq!(build_inventory(&Vec::new()), Vec::new());
    assert_eq!(build_inventory(&vec![Vec::new(), Vec::new()]), Vec::new());
}

#[test]
fn failed_listing_is_provider_unavailable() {
    let listing: Result<Vec<Vec<RawInstance>>, String> = Err("timed out".to_string());
    assert_eq!(
        inventory_from_listing(&listing),
        Err(ProviderUnavailable {
            reason: "timed out".to_string()
        })
    );
}

#[test]
fn listing_gives_its_inventory() {
    let listing: Result<Vec<Vec<RawInstance>>, String> = Ok(vec![vec![raw(
        "i-1",
        vec![tag("Name", "a"), tag("Group", "g")],
        Some("198.51.100.1"),
        Some("running"),
    )]]);
    assert_eq!(
        inventory_from_listing(&listing),
        Ok(vec![InstanceRecord {
            id: "i-1".to_string(),
            name: "a".to_string(),
            public_ip: Some("198.51.100.1".to_string()),
            state: InstanceState::Running,
            group: Some("g".to_string()),
        }])
    );
}
