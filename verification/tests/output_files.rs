use ics_builder::changestatus::Changetype;
use ics_builder::datetime::DateTime;
use ics_builder::events::EventEntry;
use ics_builder::generate_ics::{generate_ics, EventStatus, SoonToBeIcsEvent};
use ics_builder::output_files::{
    all_remove_rest, build_calendar, contains_text, enrich, event_group_names, find_details,
    get_existing_files, ics_filename, one, one_internal, prefix_of_user, tidy, Buildresult,
    FileOperation,
};
use ics_builder::changestatus::Changestatus;
use ics_builder::userconfig::{Change, Chat, EventDetails, Subscription, Userconfig, UserconfigFile};

fn names(list: &[&str]) -> Vec<String> {
    list.iter().map(|s| (*s).to_owned()).collect()
}

fn subscription(name: &str, alert: Option<u16>, notes: Option<&str>) -> Subscription {
    Subscription {
        name: name.to_owned(),
        details: EventDetails {
            alert_minutes_before: alert,
            notes: notes.map(str::to_owned),
        },
    }
}

fn content() -> UserconfigFile {
    UserconfigFile {
        chat: Chat {
            id: 133766642,
            first_name: "Peter".to_owned(),
        },
        config: Userconfig {
            calendarfile_suffix: "123qwe".to_owned(),
            changes: Vec::new(),
            events: vec![subscription("BTI1-TI", Some(10), None)],
            removed_events: None,
        },
    }
}

fn entry(name: &str, day: u32, hour: u32) -> EventEntry {
    EventEntry {
        name: name.to_owned(),
        location: "1060".to_owned(),
        description: "Dozent: HTM".to_owned(),
        start_time: DateTime::from_ymd_hms_opt(2022, 1, day, hour, 40, 0).unwrap(),
        end_time: DateTime::from_ymd_hms_opt(2022, 1, day, hour + 1, 0, 0).unwrap(),
    }
}

fn event(name: &str, day: u32, hour: u32, alert: Option<u16>) -> SoonToBeIcsEvent {
    SoonToBeIcsEvent {
        name: name.to_owned(),
        pretty_name: name.to_owned(),
        status: EventStatus::Confirmed,
        start_time: DateTime::from_ymd_hms_opt(2022, 1, day, hour, 40, 0).unwrap(),
        end_time: DateTime::from_ymd_hms_opt(2022, 1, day, hour + 1, 0, 0).unwrap(),
        alert_minutes_before: alert,
        description: "Dozent: HTM".to_owned(),
        location: "1060".to_owned(),
    }
}

const TARGET: &str = "133766642-123qwe.ics";

fn expected_document() -> String {
    generate_ics(
        "Peter",
        &vec![
            event("BTI1-TI", 13, 11, Some(10)),
            event("BTI1-TI", 14, 9, Some(10)),
        ],
    )
}

fn entries() -> Vec<EventEntry> {
    vec![entry("BTI1-TI", 14, 9), entry("BTI1-TI", 13, 11)]
}

#[test]
fn file_names_are_id_suffix_and_ending() {
    assert_eq!(ics_filename(133766642, "123qwe"), TARGET);
    assert_eq!(ics_filename(0, ""), "0-.ics");
    assert_eq!(ics_filename(-42, "x"), "-42-x.ics");
    assert_eq!(
        ics_filename(i64::MIN, "x"),
        "-9223372036854775808-x.ics"
    );
    assert_eq!(
        ics_filename(i64::MAX, "x"),
        "9223372036854775807-x.ics"
    );
    assert_eq!(prefix_of_user(133766642), "133766642-");
    assert_eq!(prefix_of_user(-7), "-7-");
}

#[test]
fn existing_files_are_those_with_the_prefix() {
    let files = names(&["12-a.ics", "123-b.ics", "12-c.ics", "x12-d.ics", "12"]);
    assert_eq!(
        get_existing_files(&files, "12-"),
        names(&["12-a.ics", "12-c.ics"])
    );
    assert_eq!(get_existing_files(&files, ""), files);
    assert_eq!(get_existing_files(&files, "13-"), Vec::<String>::new());
    assert_eq!(get_existing_files(&Vec::new(), "12-"), Vec::<String>::new());
}

#[test]
fn one_file_with_another_name_is_renamed() {
    let (operations, changetype) = tidy(names(&["133766642-old.ics"]), TARGET);
    assert_eq!(
        operations,
        vec![FileOperation::Rename {
            from: "133766642-old.ics".to_owned(),
            to: TARGET.to_owned()
        }]
    );
    assert_eq!(changetype, Changetype::Moved);
}

#[test]
fn one_file_with_the_right_name_is_left_alone() {
    let (operations, changetype) = tidy(names(&[TARGET]), TARGET);
    assert_eq!(operations, Vec::new());
    assert_eq!(changetype, Changetype::Same);
    let (operations, changetype) = tidy(Vec::new(), TARGET);
    assert_eq!(operations, Vec::new());
    assert_eq!(changetype, Changetype::Same);
}

#[test]
fn several_files_are_all_removed() {
    let (operations, changetype) = tidy(names(&["133766642-old.ics", TARGET]), TARGET);
    assert_eq!(
        operations,
        vec![
            FileOperation::Remove {
                name: "133766642-old.ics".to_owned()
            },
            FileOperation::Remove {
                name: TARGET.to_owned()
            }
        ]
    );
    assert_eq!(changetype, Changetype::Removed);
}

#[test]
fn no_events_and_a_file_is_removed() {
    let files = names(&["1-x.ics", TARGET]);
    let plan = one_internal(content(), &files, Vec::new(), Some("old".to_owned()));
    assert_eq!(
        plan.operations,
        vec![FileOperation::Remove {
            name: TARGET.to_owned()
        }]
    );
    let result = plan.result.unwrap();
    assert_eq!(result.changestatus.changetype, Changetype::Removed);
    assert_eq!(result.changestatus.name, "Peter");
    assert_eq!(result.filename, TARGET);
}

#[test]
fn no_events_and_a_file_of_another_name_is_renamed_then_removed() {
    let files = names(&["133766642-old.ics"]);
    let plan = one_internal(content(), &files, Vec::new(), None);
    assert_eq!(
        plan.operations,
        vec![
            FileOperation::Rename {
                from: "133766642-old.ics".to_owned(),
                to: TARGET.to_owned()
            },
            FileOperation::Remove {
                name: TARGET.to_owned()
            }
        ]
    );
    assert_eq!(
        plan.result.unwrap().changestatus.changetype,
        Changetype::Removed
    );
}

#[test]
fn no_events_and_no_file_is_skipped() {
    let files = names(&["1-x.ics"]);
    let plan = one_internal(content(), &files, Vec::new(), None);
    assert_eq!(plan.operations, Vec::new());
    let result = plan.result.unwrap();
    assert_eq!(result.changestatus.changetype, Changetype::Skipped);
    assert_eq!(result.filename, TARGET);
}

#[test]
fn no_events_and_several_files_is_skipped_after_cleanup() {
    let files = names(&["133766642-a.ics", "133766642-b.ics"]);
    let plan = one_internal(content(), &files, Vec::new(), None);
    assert_eq!(
        plan.operations,
        vec![
            FileOperation::Remove {
                name: "133766642-a.ics".to_owned()
            },
            FileOperation::Remove {
                name: "133766642-b.ics".to_owned()
            }
        ]
    );
    assert_eq!(
        plan.result.unwrap().changestatus.changetype,
        Changetype::Skipped
    );
}

#[test]
fn changed_document_is_written() {
    let files = names(&[TARGET]);
    let plan = one_internal(content(), &files, entries(), Some("old".to_owned()));
    assert_eq!(
        plan.operations,
        vec![FileOperation::Write {
            name: TARGET.to_owned(),
            content: expected_document()
        }]
    );
    assert_eq!(
        plan.result.unwrap().changestatus.changetype,
        Changetype::Changed
    );
}

#[test]
fn same_document_is_not_written() {
    let files = names(&[TARGET]);
    let plan = one_internal(content(), &files, entries(), Some(expected_document()));
    assert_eq!(plan.operations, Vec::new());
    assert_eq!(
        plan.result.unwrap().changestatus.changetype,
        Changetype::Same
    );
}

#[test]
fn same_document_under_another_name_is_moved() {
    let files = names(&["133766642-old.ics"]);
    let plan = one_internal(content(), &files, entries(), Some(expected_document()));
    assert_eq!(
        plan.operations,
        vec![FileOperation::Rename {
            from: "133766642-old.ics".to_owned(),
            to: TARGET.to_owned()
        }]
    );
    assert_eq!(
        plan.result.unwrap().changestatus.changetype,
        Changetype::Moved
    );
}

#[test]
fn changed_document_under_another_name_is_renamed_and_written() {
    let files = names(&["133766642-old.ics"]);
    let plan = one_internal(content(), &files, entries(), Some("old".to_owned()));
    assert_eq!(
        plan.operations,
        vec![
            FileOperation::Rename {
                from: "133766642-old.ics".to_owned(),
                to: TARGET.to_owned()
            },
            FileOperation::Write {
                name: TARGET.to_owned(),
                content: expected_document()
            }
        ]
    );
    assert_eq!(
        plan.result.unwrap().changestatus.changetype,
        Changetype::Changed
    );
}

#[test]
fn missing_file_is_added() {
    let plan = one_internal(content(), &Vec::new(), entries(), None);
    assert_eq!(
        plan.operations,
        vec![FileOperation::Write {
            name: TARGET.to_owned(),
            content: expected_document()
        }]
    );
    assert_eq!(
        plan.result.unwrap().changestatus.changetype,
        Changetype::Added
    );
}

#[test]
fn unreadable_file_is_added() {
    let files = names(&[TARGET]);
    let plan = one_internal(content(), &files, entries(), None);
    assert_eq!(
        plan.operations,
        vec![FileOperation::Write {
            name: TARGET.to_owned(),
            content: expected_document()
        }]
    );
    assert_eq!(
        plan.result.unwrap().changestatus.changetype,
        Changetype::Added
    );
}

#[test]
fn several_files_are_removed_and_the_document_added() {
    let files = names(&["133766642-a.ics", TARGET]);
    let plan = one_internal(content(), &files, entries(), Some(expected_document()));
    assert_eq!(
        plan.operations,
        vec![
            FileOperation::Remove {
                name: "133766642-a.ics".to_owned()
            },
            FileOperation::Remove {
                name: TARGET.to_owned()
            },
            FileOperation::Write {
                name: TARGET.to_owned(),
                content: expected_document()
            }
        ]
    );
    assert_eq!(
        plan.result.unwrap().changestatus.changetype,
        Changetype::Added
    );
}

fn addition_without_end() -> Change {
    Change {
        add: Some(true),
        name: "Tree".to_owned(),
        date: "2020-12-20T22:04".to_owned(),
        remove: None,
        namesuffix: None,
        starttime: None,
        endtime: None,
        room: None,
    }
}

#[test]
fn failed_build_keeps_the_cleanup_and_writes_nothing() {
    let mut content = content();
    content.config.changes.push(addition_without_end());
    let files = names(&["133766642-old.ics"]);
    let plan = one_internal(content, &files, entries(), Some("old".to_owned()));
    assert_eq!(
        plan.operations,
        vec![FileOperation::Rename {
            from: "133766642-old.ics".to_owned(),
            to: TARGET.to_owned()
        }]
    );
    assert_eq!(
        plan.result.unwrap_err(),
        "failed to apply changes: change add has no end_time specified"
    );
}

#[test]
fn failure_names_the_recipient() {
    let mut content = content();
    content.config.changes.push(addition_without_end());
    let (operations, result) = one(content, &Vec::new(), entries(), None);
    assert_eq!(operations, Vec::new());
    assert_eq!(
        result.unwrap_err(),
        "Failed to build calendar for 133766642: failed to apply changes: change add has no end_time specified"
    );
}

#[test]
fn unknown_removal_policy_fails_the_build() {
    let mut content = content();
    content.config.removed_events = Some("wha".to_owned());
    let result = build_calendar(content, vec![event("BTI1-TI", 13, 11, None)]);
    assert_eq!(
        result.unwrap_err(),
        "failed to apply changes: could not parse removed events wha"
    );
}

#[test]
fn one_gives_the_status_of_the_plan() {
    let (operations, result) = one(content(), &Vec::new(), entries(), None);
    assert_eq!(operations.len(), 1);
    let status = result.unwrap();
    assert_eq!(status.name, "Peter");
    assert_eq!(status.changetype, Changetype::Added);
}

#[test]
fn changes_come_before_details_and_sorting() {
    let mut content = content();
    content.config.removed_events = Some("removed".to_owned());
    content.config.changes.push(Change {
        add: None,
        name: "BTI1-TI".to_owned(),
        // 10:40 in universal time is 11:40 in Berlin in January
        date: "2022-01-13T10:40".to_owned(),
        remove: Some(true),
        namesuffix: None,
        starttime: None,
        endtime: None,
        room: None,
    });
    let result = build_calendar(
        content,
        vec![event("BTI1-TI", 14, 9, None), event("BTI1-TI", 13, 11, None)],
    );
    assert_eq!(
        result.unwrap(),
        generate_ics("Peter", &vec![event("BTI1-TI", 14, 9, Some(10))])
    );
}

#[test]
fn details_are_those_of_the_first_subscription_of_the_name() {
    let subscriptions = vec![
        subscription("A", Some(1), None),
        subscription("B", Some(2), Some("two")),
        subscription("A", Some(3), None),
    ];
    assert_eq!(
        find_details(&subscriptions, "A"),
        Some(&subscriptions[0].details)
    );
    assert_eq!(
        find_details(&subscriptions, "B"),
        Some(&subscriptions[1].details)
    );
    assert_eq!(find_details(&subscriptions, "C"), None);
    assert_eq!(find_details(&Vec::new(), "A"), None);
}

#[test]
fn events_without_details_stay_as_they_are() {
    let subscriptions = vec![subscription("B", Some(2), Some("two"))];
    let mut events = vec![event("A", 1, 1, Some(5)), event("B", 1, 1, Some(5))];
    enrich(&mut events, &subscriptions);
    assert_eq!(events[0], event("A", 1, 1, Some(5)));
    assert_eq!(events[1].alert_minutes_before, Some(2));
    assert_eq!(events[1].description, "Dozent: HTM\n\ntwo");
}

#[test]
fn groups_are_loaded_in_the_order_of_their_names() {
    let mut config = content().config;
    config.events = vec![
        subscription("b", None, None),
        subscription("B", None, None),
        subscription("a/1", None, None),
        subscription("a", None, None),
        subscription("", None, None),
    ];
    assert_eq!(event_group_names(&config), names(&["", "B", "a", "a/1", "b"]));
    config.events = Vec::new();
    assert_eq!(event_group_names(&config), Vec::<String>::new());
}

fn built(name: &str, changetype: Changetype, filename: &str) -> Buildresult {
    Buildresult {
        changestatus: Changestatus {
            name: name.to_owned(),
            changetype,
        },
        filename: filename.to_owned(),
    }
}

#[test]
fn files_of_no_build_are_removed() {
    let results = vec![
        built("Peter", Changetype::Same, "1-a.ics"),
        built("Mary", Changetype::Skipped, "2-b.ics"),
    ];
    let files = names(&["9-z.ics", "1-a.ics", "3-c.ics"]);
    let (operations, changes) = all_remove_rest(results, &files);
    assert_eq!(
        operations,
        vec![
            FileOperation::Remove {
                name: "9-z.ics".to_owned()
            },
            FileOperation::Remove {
                name: "3-c.ics".to_owned()
            }
        ]
    );
    let shown: Vec<(String, Changetype)> = changes
        .into_iter()
        .map(|c| (c.name, c.changetype))
        .collect();
    assert_eq!(
        shown,
        vec![
            ("Peter".to_owned(), Changetype::Same),
            ("Mary".to_owned(), Changetype::Skipped),
            ("9-z.ics".to_owned(), Changetype::Removed),
            ("3-c.ics".to_owned(), Changetype::Removed),
        ]
    );
}

#[test]
fn nothing_is_removed_where_every_file_was_built() {
    let results = vec![built("Peter", Changetype::Added, "1-a.ics")];
    let (operations, changes) = all_remove_rest(results, &names(&["1-a.ics"]));
    assert_eq!(operations, Vec::new());
    assert_eq!(changes.len(), 1);
    let (operations, changes) = all_remove_rest(Vec::new(), &Vec::new());
    assert_eq!(operations, Vec::new());
    assert_eq!(changes.len(), 0);
}

#[test]
fn lists_are_searched_for_the_whole_name() {
    let list = names(&["1-a.ics", "2-b.ics"]);
    assert!(contains_text(&list, "2-b.ics"));
    assert!(!contains_text(&list, "2-b"));
    assert!(!contains_text(&list, ""));
    assert!(!contains_text(&Vec::new(), "1-a.ics"));
}
