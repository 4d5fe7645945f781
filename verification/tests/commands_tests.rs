use empede::commands::{
    add_command, add_pos_command, albumart_command, artwork_fallback_needed, binarylimit_command,
    chunk_request, delete_command, deleteid_command, handshake_commands, lsinfo_command,
    move_command, password_command, queue_post_plan, readpicture_command, resolve_artwork,
    toggle_command,
};
use empede::error::MpdError;
use empede::result::CommandResult;

fn status_of(pairs: &[(&str, &str)]) -> empede::result::PropertyMap {
    let props: Vec<(String, String)> =
        pairs.iter().map(|(k, v)| (k.to_string(), v.to_string())).collect();
    CommandResult::new(props).into_hashmap()
}

#[test]
fn add_quotes_and_escapes_the_path() {
    assert_eq!(add_command("albums/a b.mp3"), "add \"albums/a b.mp3\"");
    assert_eq!(add_command("we \"rock\".mp3"), "add \"we \\\"rock\\\".mp3\"");
}

#[test]
fn add_pos_quotes_both_arguments() {
    assert_eq!(add_pos_command("x.mp3", "+0"), "add \"x.mp3\" \"+0\"");
}

#[test]
fn lsinfo_quotes_the_path() {
    assert_eq!(lsinfo_command("Music/It's Here"), "lsinfo \"Music/It\\'s Here\"");
}

#[test]
fn artwork_commands_quote_the_path() {
    assert_eq!(albumart_command("a.mp3"), "albumart \"a.mp3\"");
    assert_eq!(readpicture_command("a.mp3"), "readpicture \"a.mp3\"");
}

#[test]
fn chunk_request_appends_the_offset() {
    assert_eq!(chunk_request("albumart \"a.mp3\"", 0), "albumart \"a.mp3\" 0");
    assert_eq!(chunk_request("albumart \"a.mp3\"", 3072), "albumart \"a.mp3\" 3072");
}

#[test]
fn deleteid_renders_the_id() {
    assert_eq!(deleteid_command(42), "deleteid 42");
}

#[test]
fn delete_without_id_clears_the_queue() {
    assert_eq!(delete_command(Some(7)), "deleteid 7");
    assert_eq!(delete_command(None), "clear");
}

#[test]
fn move_renders_both_positions() {
    assert_eq!(move_command(3, 0), "move 3 0");
}

#[test]
fn password_is_quoted() {
    assert_eq!(password_command("opensesame"), "password \"opensesame\"");
}

#[test]
fn binarylimit_requests_one_mebibyte() {
    assert_eq!(binarylimit_command(), "binarylimit 1048576");
}

#[test]
fn handshake_without_password_negotiates_limit_only() {
    let plan = handshake_commands("");
    assert_eq!(plan, vec!["binarylimit 1048576".to_string()]);
}

#[test]
fn handshake_with_password_authenticates_first() {
    let plan = handshake_commands("opensesame");
    assert_eq!(
        plan,
        vec![
            "password \"opensesame\"".to_string(),
            "binarylimit 1048576".to_string(),
        ]
    );
}

#[test]
fn toggle_inverts_the_reported_value() {
    let on = status_of(&[("random", "1")]);
    assert_eq!(toggle_command("random", &on), "random 0");
    let off = status_of(&[("random", "0")]);
    assert_eq!(toggle_command("random", &off), "random 1");
}

#[test]
fn toggle_twice_restores_the_setting() {
    // Two toggles in succession bring the setting back to its
    // original value.
    let original = "1";
    let first = status_of(&[("random", original)]);
    let cmd1 = toggle_command("random", &first);
    let written1 = cmd1.strip_prefix("random ").unwrap().to_string();
    let second = status_of(&[("random", written1.as_str())]);
    let cmd2 = toggle_command("random", &second);
    let written2 = cmd2.strip_prefix("random ").unwrap();
    assert_eq!(written2, original);
}

#[test]
fn queue_plan_orders_clear_add_play() {
    assert_eq!(
        queue_post_plan("a.mp3", true, false, true),
        vec![
            "clear".to_string(),
            "add \"a.mp3\"".to_string(),
            "play".to_string(),
        ]
    );
}

#[test]
fn queue_plan_add_only() {
    assert_eq!(queue_post_plan("a.mp3", false, false, false), vec!["add \"a.mp3\"".to_string()]);
}

#[test]
fn queue_plan_next_inserts_at_front() {
    assert_eq!(
        queue_post_plan("a.mp3", false, true, false),
        vec!["add \"a.mp3\" \"+0\"".to_string()]
    );
}

#[test]
fn artwork_not_found_twice_is_not_found() {
    // No artwork and no embedded picture: the caller sees not-found,
    // not a connection error and not an empty payload.
    let r = resolve_artwork(Err(MpdError::NotFound), Err(MpdError::NotFound));
    assert!(matches!(r, Err(MpdError::NotFound)));
}

#[test]
fn artwork_primary_success_wins() {
    let r = resolve_artwork(Ok(vec![1u8, 2u8]), Err(MpdError::NotFound));
    match r {
        Ok(b) => assert_eq!(b, vec![1u8, 2u8]),
        Err(_) => panic!("the primary fetch succeeded"),
    }
}

#[test]
fn artwork_fallback_fills_in() {
    let r = resolve_artwork(Err(MpdError::NotFound), Ok(vec![9u8]));
    match r {
        Ok(b) => assert_eq!(b, vec![9u8]),
        Err(_) => panic!("the fallback fetch succeeded"),
    }
}

#[test]
fn artwork_connection_error_is_not_masked() {
    let r = resolve_artwork(Err(MpdError::Connection), Ok(vec![9u8]));
    assert!(matches!(r, Err(MpdError::Connection)));
}

#[test]
fn artwork_fallback_runs_only_after_not_found() {
    assert!(artwork_fallback_needed(&Err(MpdError::NotFound)));
    assert!(!artwork_fallback_needed(&Ok(vec![1u8])));
    assert!(!artwork_fallback_needed(&Err(MpdError::Connection)));
}
