use ec2_connect::command::{prepare, Command, Prepared};
use ec2_connect::dispatch::{OperationResult, Outcome, SkipReason, Transition};
use ec2_connect::failure::exit_code;
use ec2_connect::instance::{InstanceRecord, InstanceState};
use ec2_connect::present::{
    describe_error, describe_reason, or_placeholder, render_header, render_result,
    render_results, render_row, render_table, state_label, ADDRESS_WIDTH, ID_WIDTH, NAME_WIDTH,
};
use ec2_connect::resolve::ResolutionError;
use ec2_connect::text::{chars_of, comes_before, join, push_padded, same_text};

const HEADER: &str = "Instance ID              Instance Name       IP Address     Status";

fn result(name: &str, outcome: Outcome) -> OperationResult {
    OperationResult {
        instance_id: "i-1".to_string(),
        instance_name: name.to_string(),
        requested_transition: Transition::Stop,
        outcome,
    }
}

#[test]
fn list_on_empty_directory_prints_header_row_only() {
    let lines = render_table(&Vec::new());
    assert_eq!(lines, vec![HEADER.to_string()]);
    match prepare(&Command::List, &Vec::new()) {
        Ok(Prepared::Report(shown)) => assert_eq!(shown, vec![HEADER.to_string()]),
        other => panic!("list gave {:?}", other),
    }
    assert_eq!(exit_code(&Ok(())), 0);
}

#[test]
fn header_has_fixed_columns() {
    assert_eq!(ID_WIDTH, 25);
    assert_eq!(NAME_WIDTH, 20);
    assert_eq!(ADDRESS_WIDTH, 15);
    let header = render_header();
    assert_eq!(header, HEADER);
    assert_eq!(header.len(), 25 + 20 + 15 + 6);
    assert_eq!(
        header,
        format!(
            "{:25}{:20}{:15}{}",
            "Instance ID", "Instance Name", "IP Address", "Status"
        )
    );
}

#[test]
fn row_pads_each_cell_to_its_column() {
    let record = InstanceRecord {
        id: "i-0123456789abcdef0".to_string(),
        name: "web-a".to_string(),
        public_ip: Some("203.0.113.7".to_string()),
        state: InstanceState::Running,
        group: None,
    };
    assert_eq!(
        render_row(&record),
        "i-0123456789abcdef0      web-a               203.0.113.7    Running"
    );
}

#[test]
fn row_shows_placeholder_for_empty_and_absent_fields() {
    let record = InstanceRecord {
        id: "".to_string(),
        name: "".to_string(),
        public_ip: None,
        state: InstanceState::Unknown,
        group: None,
    };
    assert_eq!(
        render_row(&record),
        format!("{:25}{:20}{:15}{}", "Unknown", "Unknown", "Unknown", "Unknown")
    );
    let blank_ip = InstanceRecord {
        id: "i-1".to_string(),
        name: "a".to_string(),
        public_ip: Some("".to_string()),
        state: InstanceState::Stopped,
        group: None,
    };
    assert_eq!(
        render_row(&blank_ip),
        format!("{:25}{:20}{:15}{}", "i-1", "a", "Unknown", "Stopped")
    );
}

#[test]
fn row_keeps_a_cell_wider_than_its_column() {
    let record = InstanceRecord {
        id: "i-1".to_string(),
        name: "a-name-longer-than-twenty-characters".to_string(),
        public_ip: None,
        state: InstanceState::Pending,
        group: None,
    };
    assert_eq!(
        render_row(&record),
        format!(
            "{:25}{}{:15}{}",
            "i-1", "a-name-longer-than-twenty-characters", "Unknown", "Pending"
        )
    );
}

#[test]
fn table_has_one_row_per_record_in_order() {
    let directory = vec![
        InstanceRecord {
            id: "i-2".to_string(),
            name: "b".to_string(),
            public_ip: None,
            state: InstanceState::Stopped,
            group: None,
        },
        InstanceRecord {
            id: "i-1".to_string(),
            name: "a".to_string(),
            public_ip: Some("10.0.0.1".to_string()),
            state: InstanceState::Running,
            group: Some("g".to_string()),
        },
    ];
    let lines = render_table(&directory);
    assert_eq!(lines.len(), 3);
    assert_eq!(lines[0], HEADER);
    assert_eq!(lines[1], render_row(&directory[0]));
    assert_eq!(lines[2], render_row(&directory[1]));
    assert_eq!(
        lines[2],
        format!("{:25}{:20}{:15}{}", "i-1", "a", "10.0.0.1", "Running")
    );
}

#[test]
fn state_labels() {
    assert_eq!(state_label(InstanceState::Pending), "Pending");
    assert_eq!(state_label(InstanceState::Running), "Running");
    assert_eq!(state_label(InstanceState::ShuttingDown), "ShuttingDown");
    assert_eq!(state_label(InstanceState::Terminated), "Terminated");
    assert_eq!(state_label(InstanceState::Stopping), "Stopping");
    assert_eq!(state_label(InstanceState::Stopped), "Stopped");
    assert_eq!(state_label(InstanceState::Unknown), "Unknown");
}

#[test]
fn placeholder_stands_for_empty_text_only() {
    assert_eq!(or_placeholder(""), "Unknown");
    assert_eq!(or_placeholder(" "), " ");
    assert_eq!(or_placeholder("web"), "web");
}

#[test]
fn result_lines_for_each_outcome() {
    assert_eq!(
        render_result(&result("web-a", Outcome::Succeeded)),
        "web-a: Succeeded"
    );
    assert_eq!(
        render_result(&result("web-a", Outcome::Failed("access denied".to_string()))),
        "web-a: Failed: access denied"
    );
    assert_eq!(
        render_result(&result(
            "web-b",
            Outcome::Skipped(SkipReason::Unresolved(ResolutionError::NotFound(
                "web-b".to_string()
            )))
        )),
        "web-b: Skipped: no instance named web-b"
    );
    assert_eq!(
        render_result(&result(
            "web-a",
            Outcome::Skipped(SkipReason::NotEligible(InstanceState::Stopped))
        )),
        "web-a: Skipped: instance is Stopped"
    );
    assert_eq!(
        render_result(&result("", Outcome::Succeeded)),
        "Unknown: Succeeded"
    );
}

#[test]
fn report_has_one_line_per_result_in_order() {
    let results = vec![
        result("a", Outcome::Succeeded),
        result("b", Outcome::Failed("no".to_string())),
        result(
            "c",
            Outcome::Skipped(SkipReason::NotEligible(InstanceState::Running)),
        ),
    ];
    assert_eq!(
        render_results(&results),
        vec![
            "a: Succeeded".to_string(),
            "b: Failed: no".to_string(),
            "c: Skipped: instance is Running".to_string()
        ]
    );
    assert_eq!(render_results(&Vec::new()), Vec::<String>::new());
}

#[test]
fn error_sentences() {
    assert_eq!(
        describe_error(&ResolutionError::NotFound("web".to_string())),
        "no instance named web"
    );
    assert_eq!(
        describe_error(&ResolutionError::AmbiguousName(
            "web".to_string(),
            vec!["i-1".to_string(), "i-2".to_string(), "i-3".to_string()]
        )),
        "several instances named web: i-1, i-2, i-3"
    );
    assert_eq!(
        describe_error(&ResolutionError::GroupNotFound("front".to_string())),
        "no group named front"
    );
    assert_eq!(
        describe_error(&ResolutionError::NoAddress("web".to_string())),
        "no address to connect to for web"
    );
    assert_eq!(
        describe_error(&ResolutionError::NotFound("".to_string())),
        "no instance named Unknown"
    );
    assert_eq!(
        describe_reason(&SkipReason::NotEligible(InstanceState::ShuttingDown)),
        "instance is ShuttingDown"
    );
    assert_eq!(
        describe_reason(&SkipReason::Unresolved(ResolutionError::GroupNotFound(
            "g".to_string()
        ))),
        "no group named g"
    );
}

#[test]
fn padding_reaches_the_width_and_never_cuts() {
    let mut line = String::from(">");
    push_padded(&mut line, "ab", 5);
    assert_eq!(line, ">ab   ");
    push_padded(&mut line, "abcdef", 3);
    assert_eq!(line, ">ab   abcdef");
    push_padded(&mut line, "", 2);
    assert_eq!(line, ">ab   abcdef  ");
    push_padded(&mut line, "xy", 2);
    assert_eq!(line, ">ab   abcdef  xy");
    push_padded(&mut line, "z", 0);
    assert_eq!(line, ">ab   abcdef  xyz");
}

#[test]
fn padding_counts_characters_not_bytes() {
    let mut line = String::new();
    push_padded(&mut line, "é", 3);
    assert_eq!(line, "é  ");
    assert_eq!(line, format!("{:3}", "é"));
}

#[test]
fn join_puts_the_separator_between_parts() {
    assert_eq!(join(&Vec::new(), ", "), "");
    assert_eq!(join(&vec!["a".to_string()], ", "), "a");
    assert_eq!(
        join(&vec!["a".to_string(), "".to_string(), "c".to_string()], ", "),
        "a, , c"
    );
    assert_eq!(join(&vec!["".to_string(), "b".to_string()], "-"), "-b");
}

#[test]
fn dictionary_order_of_strings() {
    assert!(comes_before("a", "b"));
    assert!(!comes_before("b", "a"));
    assert!(!comes_before("a", "a"));
    assert!(comes_before("", "a"));
    assert!(!comes_before("a", ""));
    assert!(!comes_before("", ""));
    assert!(comes_before("web", "web-a"));
    assert!(comes_before("web-a", "web-b"));
    assert!(comes_before("B", "a"));
    assert!(comes_before("web-10", "web-9"));
    assert!(comes_before("z", "é"));
    let words = ["", "B", "a", "ab", "b", "web", "web-a", "é", "日本"];
    for x in words {
        for y in words {
            assert_eq!(comes_before(x, y), x < y);
        }
    }
}

#[test]
fn same_text_is_equality_of_characters() {
    assert!(same_text("", ""));
    assert!(same_text("web-a", "web-a"));
    assert!(!same_text("web-a", "web-b"));
    assert!(!same_text("web", "web-a"));
    assert!(!same_text("web-a", "web"));
    assert!(!same_text("Web", "web"));
    assert_eq!(chars_of("aé日"), vec!['a', 'é', '日']);
    assert_eq!(chars_of(""), Vec::<char>::new());
}
