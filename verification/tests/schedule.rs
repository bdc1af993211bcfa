use ics_builder::schedule::{rebuilds, Rebuild};
use ics_builder::userconfigs::{get_existing_files, FOLDER};

fn names(list: &[&str]) -> Vec<String> {
    list.iter().map(|s| (*s).to_owned()).collect()
}

#[test]
fn event_changes_call_for_one_build_of_everything() {
    assert_eq!(
        rebuilds(&names(&["a.json", "b.json"]), Vec::new()),
        vec![Rebuild::All]
    );
}

#[test]
fn configuration_changes_call_for_one_build_each() {
    assert_eq!(
        rebuilds(&Vec::new(), names(&["2.json", "1.json", "2.json"])),
        vec![
            Rebuild::One("2.json".to_owned()),
            Rebuild::One("1.json".to_owned()),
            Rebuild::One("2.json".to_owned())
        ]
    );
}

#[test]
fn everything_is_built_before_single_recipients() {
    assert_eq!(
        rebuilds(&names(&["a.json"]), names(&["1.json"])),
        vec![Rebuild::All, Rebuild::One("1.json".to_owned())]
    );
    assert_eq!(rebuilds(&Vec::new(), Vec::new()), Vec::new());
}

#[test]
fn configurations_are_the_json_files() {
    assert_eq!(
        get_existing_files(&names(&["1.json", "notes.txt", ".json", "2.json.bak", "3.json"])),
        names(&["1.json", ".json", "3.json"])
    );
    assert_eq!(get_existing_files(&Vec::new()), Vec::<String>::new());
    assert_eq!(FOLDER, "userconfig");
}
