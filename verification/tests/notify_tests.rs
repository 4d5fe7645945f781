use empede::decode::{DecodeStep, ResponseDecoder};
use empede::notify::{changed_systems, idle_command, watched_subsystems};

#[test]
fn watched_subsystems_cover_the_known_set() {
    let systems = watched_subsystems();
    assert_eq!(
        systems,
        vec![
            "playlist".to_string(),
            "player".to_string(),
            "database".to_string(),
            "options".to_string(),
        ]
    );
}

#[test]
fn idle_command_joins_subsystems_with_spaces() {
    assert_eq!(
        idle_command(&watched_subsystems()),
        "idle playlist player database options"
    );
}

#[test]
fn idle_command_with_one_subsystem() {
    assert_eq!(idle_command(&vec!["player".to_string()]), "idle player");
}

#[test]
fn idle_command_with_none_keeps_the_bare_prefix() {
    assert_eq!(idle_command(&Vec::new()), "idle ");
}

#[test]
fn changed_systems_keeps_order_and_duplicates() {
    let mut dec = ResponseDecoder::new();
    let lines: Vec<String> = vec![
        "changed: player".to_string(),
        "changed: playlist".to_string(),
        "changed: player".to_string(),
        "OK".to_string(),
    ];
    assert!(matches!(dec.run(&lines), DecodeStep::Complete));
    let result = dec.finish();
    let changed = changed_systems(&result);
    assert_eq!(
        changed,
        vec!["player".to_string(), "playlist".to_string(), "player".to_string()]
    );
}

#[test]
fn changed_systems_ignores_other_keys() {
    let mut dec = ResponseDecoder::new();
    let lines: Vec<String> = vec!["noise: player".to_string(), "OK".to_string()];
    assert!(matches!(dec.run(&lines), DecodeStep::Complete));
    let result = dec.finish();
    assert!(changed_systems(&result).is_empty());
}

#[test]
fn changed_systems_may_be_empty() {
    let mut dec = ResponseDecoder::new();
    let lines: Vec<String> = vec!["OK".to_string()];
    assert!(matches!(dec.run(&lines), DecodeStep::Complete));
    let result = dec.finish();
    assert!(changed_systems(&result).is_empty());
}
