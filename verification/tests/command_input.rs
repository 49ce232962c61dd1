use music_player::app::{App, Mode, PlayStyle};
use music_player::commands::{process_command, CommandAction};
use music_player::file_ops::{Audio, DirectoryItem};
use music_player::handler::{handle_event, volume_down, volume_up, AppAction, InputEvent};
use music_player::music::Music;

fn track(path: &str) -> Music {
    Music::new(
        path,
        Audio {
            artist: String::new(),
            title: String::new(),
            album: String::new(),
            duration: 60,
        },
    )
}

fn app_with_queue(paths: &[&str]) -> App {
    let mut app = App::new("/music", 10);
    for p in paths {
        app.add_music_to_list(Ok(track(p)));
    }
    app
}

fn queue_paths(app: &App) -> Vec<String> {
    app.play_music_list.iter().map(|m| m.path.clone()).collect()
}

#[test]
fn remove_second_of_three() {
    let mut app = app_with_queue(&["/m/a", "/m/b", "/m/c"]);
    process_command(&mut app, "remove 2".to_string());
    assert_eq!(queue_paths(&app), vec!["/m/a", "/m/c"]);
    assert_eq!(app.error, None);
}

#[test]
fn remove_first_and_third_of_three() {
    let mut app = app_with_queue(&["/m/a", "/m/b", "/m/c"]);
    process_command(&mut app, "remove 1 3".to_string());
    assert_eq!(queue_paths(&app), vec!["/m/b"]);
}

#[test]
fn remove_parses_case_insensitively_and_with_colon_prefix() {
    let mut app = app_with_queue(&["/m/a", "/m/b"]);
    process_command(&mut app, ":RM 1".to_string());
    assert_eq!(queue_paths(&app), vec!["/m/b"]);
}

#[test]
fn remove_accepts_a_plus_sign() {
    let mut app = app_with_queue(&["/m/a", "/m/b"]);
    process_command(&mut app, "remove +2".to_string());
    assert_eq!(queue_paths(&app), vec!["/m/a"]);
}

#[test]
fn remove_zero_is_silently_ignored() {
    let mut app = app_with_queue(&["/m/a", "/m/b"]);
    process_command(&mut app, "remove 0".to_string());
    assert_eq!(queue_paths(&app), vec!["/m/a", "/m/b"]);
    assert_eq!(app.error, None);
}

#[test]
fn remove_bad_token_reports_but_valid_ones_still_apply() {
    let mut app = app_with_queue(&["/m/a", "/m/b", "/m/c"]);
    process_command(&mut app, "remove x 2".to_string());
    assert_eq!(queue_paths(&app), vec!["/m/a", "/m/c"]);
    assert_eq!(app.error, Some("It must be a positive integer".to_string()));
}

#[test]
fn remove_value_too_large_to_fit_is_a_bad_token() {
    let mut app = app_with_queue(&["/m/a"]);
    process_command(&mut app, "remove 99999999999999999999999".to_string());
    assert_eq!(queue_paths(&app), vec!["/m/a"]);
    assert_eq!(app.error, Some("It must be a positive integer".to_string()));
}

#[test]
fn unknown_command_only_sets_the_error() {
    let mut app = app_with_queue(&["/m/a", "/m/b"]);
    app.set_play_style(PlayStyle::SingleCycle);
    process_command(&mut app, "bogus".to_string());
    assert_eq!(queue_paths(&app), vec!["/m/a", "/m/b"]);
    assert!(matches!(app.play_style, PlayStyle::SingleCycle));
    assert_eq!(app.error, Some("Not a command".to_string()));
}

#[test]
fn empty_command_is_unknown() {
    let mut app = app_with_queue(&["/m/a"]);
    process_command(&mut app, "   ".to_string());
    assert_eq!(app.error, Some("Not a command".to_string()));
}

#[test]
fn clear_empties_the_queue() {
    let mut app = app_with_queue(&["/m/a", "/m/b"]);
    let r = process_command(&mut app, "cls".to_string());
    assert!(matches!(r, CommandAction::Nothing));
    assert!(app.play_music_list.is_empty());
}

#[test]
fn order_and_singlecycle_set_the_play_style() {
    let mut app = App::new("/music", 10);
    process_command(&mut app, "sc".to_string());
    assert!(matches!(app.play_style, PlayStyle::SingleCycle));
    process_command(&mut app, "order".to_string());
    assert!(matches!(app.play_style, PlayStyle::PlayOrder));
}

#[test]
fn next_hands_back_the_advance_action() {
    let mut app = App::new("/music", 10);
    let r = process_command(&mut app, "n".to_string());
    assert!(matches!(r, CommandAction::PlayNext));
}

#[test]
fn all_hands_back_the_listed_files_in_order() {
    let mut app = App::new("/music", 10);
    app.populate_files(Ok(vec![
        DirectoryItem::File("/music/b.mp3".to_string()),
        DirectoryItem::Directory("/music/sub".to_string()),
        DirectoryItem::File("/music/a.mp3".to_string()),
    ]));
    let r = process_command(&mut app, "all".to_string());
    match r {
        CommandAction::LoadAll(paths) => {
            assert_eq!(paths, vec!["/music/a.mp3".to_string(), "/music/b.mp3".to_string()]);
        }
        _ => panic!("expected the whole listing to be loaded"),
    }
}

#[test]
fn command_moves_the_selection_one_step_up() {
    let mut app = App::new("/music", 10);
    app.populate_files(Ok(vec![
        DirectoryItem::File("/music/a.mp3".to_string()),
        DirectoryItem::File("/music/b.mp3".to_string()),
        DirectoryItem::File("/music/c.mp3".to_string()),
    ]));
    app.move_select_bottom();
    process_command(&mut app, "order".to_string());
    assert_eq!(app.selection_index, Some(1));
}

#[test]
fn entering_search_mode_seeds_the_buffer() {
    let mut app = App::new("/music", 10);
    let r = handle_event(&mut app, InputEvent::Char('|'));
    assert!(matches!(r, AppAction::Nothing));
    assert_eq!(app.mode, Mode::Search);
    assert_eq!(app.search_buffer, vec!['|']);
}

#[test]
fn search_characters_append_and_backspace_spares_the_sentinel() {
    let mut app = App::new("/music", 10);
    handle_event(&mut app, InputEvent::Char('|'));
    handle_event(&mut app, InputEvent::Char('a'));
    handle_event(&mut app, InputEvent::Char('b'));
    assert_eq!(app.search_buffer, vec!['|', 'a', 'b']);
    handle_event(&mut app, InputEvent::Backspace);
    assert_eq!(app.search_buffer, vec!['|', 'a']);
    handle_event(&mut app, InputEvent::Backspace);
    handle_event(&mut app, InputEvent::Backspace);
    handle_event(&mut app, InputEvent::Backspace);
    assert_eq!(app.search_buffer, vec!['|']);
}

#[test]
fn submitting_a_search_returns_the_trimmed_filter() {
    let mut app = App::new("/music", 10);
    handle_event(&mut app, InputEvent::Char('|'));
    for c in "abba ".chars() {
        handle_event(&mut app, InputEvent::Char(c));
    }
    let r = handle_event(&mut app, InputEvent::Enter);
    match r {
        AppAction::RelistFiltered(f) => assert_eq!(f, "abba"),
        _ => panic!("expected a filtered relist"),
    }
    assert_eq!(app.mode, Mode::Browse);
}

#[test]
fn cancelling_a_search_discards_the_buffer_and_relists() {
    let mut app = App::new("/music", 10);
    handle_event(&mut app, InputEvent::Char('|'));
    handle_event(&mut app, InputEvent::Char('x'));
    let r = handle_event(&mut app, InputEvent::Esc);
    assert!(matches!(r, AppAction::Relist));
    assert_eq!(app.mode, Mode::Browse);
    assert!(app.search_buffer.is_empty());
}

#[test]
fn entering_command_mode_and_submitting_runs_the_command() {
    let mut app = app_with_queue(&["/m/a", "/m/b"]);
    handle_event(&mut app, InputEvent::Char(':'));
    assert_eq!(app.mode, Mode::Command);
    assert_eq!(app.command_buffer, vec![':']);
    for c in "clear".chars() {
        handle_event(&mut app, InputEvent::Char(c));
    }
    let r = handle_event(&mut app, InputEvent::Enter);
    match r {
        AppAction::RunCommand(act) => assert!(matches!(act, CommandAction::Nothing)),
        _ => panic!("expected a command to run"),
    }
    assert_eq!(app.mode, Mode::Browse);
    assert!(app.command_buffer.is_empty());
    assert!(app.play_music_list.is_empty());
}

#[test]
fn browse_keys_map_to_their_actions() {
    let mut app = App::new("/music", 10);
    assert!(matches!(handle_event(&mut app, InputEvent::Char('q')), AppAction::Quit));
    assert!(matches!(handle_event(&mut app, InputEvent::Char('l')), AppAction::OpenFolder));
    assert!(matches!(handle_event(&mut app, InputEvent::Char('h')), AppAction::GoBack));
    assert!(matches!(handle_event(&mut app, InputEvent::Char(' ')), AppAction::TogglePause));
    assert!(matches!(handle_event(&mut app, InputEvent::Char('-')), AppAction::VolumeDown));
    assert!(matches!(handle_event(&mut app, InputEvent::Char('=')), AppAction::VolumeUp));
    assert!(matches!(handle_event(&mut app, InputEvent::Char('z')), AppAction::Nothing));
}

#[test]
fn enter_on_a_file_asks_for_its_load() {
    let mut app = App::new("/music", 10);
    app.populate_files(Ok(vec![DirectoryItem::File("/music/a.mp3".to_string())]));
    let r = handle_event(&mut app, InputEvent::Enter);
    match r {
        AppAction::LoadMusic(p) => assert_eq!(p, "/music/a.mp3"),
        _ => panic!("expected a load request"),
    }
}

#[test]
fn enter_on_a_directory_reports_it() {
    let mut app = App::new("/music", 10);
    app.populate_files(Ok(vec![DirectoryItem::Directory("/music/sub".to_string())]));
    let r = handle_event(&mut app, InputEvent::Enter);
    assert!(matches!(r, AppAction::Nothing));
    assert_eq!(app.error, Some("Is a directory".to_string()));
}

#[test]
fn each_event_clears_the_previous_error() {
    let mut app = App::new("/music", 10);
    app.populate_files(Err("boom".to_string()));
    assert_eq!(app.error, Some("boom".to_string()));
    handle_event(&mut app, InputEvent::Char('j'));
    assert_eq!(app.error, None);
}

#[test]
fn volume_steps_clamp_to_their_range() {
    assert_eq!(volume_up(100), 105);
    assert_eq!(volume_up(123), 125);
    assert_eq!(volume_up(125), 125);
    assert_eq!(volume_down(100), 95);
    assert_eq!(volume_down(3), 0);
    assert_eq!(volume_down(0), 0);
}

#[test]
fn remove_repeats_an_index_against_the_shrunken_queue() {
    // the indices are applied highest first, one after the other, so a
    // repeated index strikes two neighbouring entries
    let mut app = app_with_queue(&["/m/a", "/m/b", "/m/c"]);
    process_command(&mut app, "remove 2 2".to_string());
    assert_eq!(queue_paths(&app), vec!["/m/a"]);
}
