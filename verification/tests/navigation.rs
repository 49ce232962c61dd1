use music_player::app::App;
use music_player::display::Display;
use music_player::file_ops::DirectoryItem;
use music_player::utils::split_path_to_name;

fn listing() -> Vec<DirectoryItem> {
    vec![
        DirectoryItem::File("/music/b.mp3".to_string()),
        DirectoryItem::Directory("/music/singles".to_string()),
        DirectoryItem::File("/music/a.mp3".to_string()),
        DirectoryItem::Directory("/music/albums".to_string()),
        DirectoryItem::File("/music/c.mp3".to_string()),
    ]
}

fn populated_app() -> App {
    let mut app = App::new("/music", 10);
    app.populate_files(Ok(listing()));
    app
}

#[test]
fn listing_sorts_directories_before_files_then_lexicographic() {
    let app = populated_app();
    let expected = vec![
        DirectoryItem::Directory("/music/albums".to_string()),
        DirectoryItem::Directory("/music/singles".to_string()),
        DirectoryItem::File("/music/a.mp3".to_string()),
        DirectoryItem::File("/music/b.mp3".to_string()),
        DirectoryItem::File("/music/c.mp3".to_string()),
    ];
    assert_eq!(app.directory_contents, expected);
    assert_eq!(app.selection_index, Some(0));
}

#[test]
fn moves_stay_in_bounds() {
    let mut app = populated_app();
    app.move_select_down(3);
    assert_eq!(app.selection_index, Some(3));
    app.move_select_down(100);
    assert_eq!(app.selection_index, Some(4));
    app.move_select_up(1);
    assert_eq!(app.selection_index, Some(3));
    app.move_select_up(50);
    assert_eq!(app.selection_index, Some(0));
    app.move_select_bottom();
    assert_eq!(app.selection_index, Some(4));
    app.move_select_top();
    assert_eq!(app.selection_index, Some(0));
}

#[test]
fn empty_listing_navigation_is_a_no_op() {
    let mut app = App::new("/music", 10);
    app.populate_files(Ok(Vec::new()));
    assert_eq!(app.selection_index, None);
    app.move_select_down(1);
    app.move_select_up(1);
    app.move_select_top();
    app.move_select_bottom();
    app.next_page();
    app.previous_page();
    assert_eq!(app.selection_index, None);
    assert!(app.directory_contents.is_empty());
}

#[test]
fn pagination_for_height_three_and_seven_entries() {
    let d = Display::new(3, 7, 5);
    assert_eq!(d.page, (2, 3));
    assert_eq!(d.from, 3);
    assert_eq!(d.to, 6);
}

#[test]
fn pagination_treats_zero_height_as_one() {
    let d = Display::new(0, 4, 2);
    assert_eq!(d.page, (3, 4));
    assert_eq!(d.from, 2);
    assert_eq!(d.to, 3);
}

#[test]
fn page_jumps_move_to_page_boundaries() {
    let mut app = populated_app();
    app.update_window_height(2);
    // five entries, height two: pages are [0,1], [2,3], [4].
    app.next_page();
    assert_eq!(app.selection_index, Some(2));
    app.next_page();
    assert_eq!(app.selection_index, Some(4));
    app.next_page();
    assert_eq!(app.selection_index, Some(4));
    app.previous_page();
    assert_eq!(app.selection_index, Some(2));
    app.previous_page();
    assert_eq!(app.selection_index, Some(0));
    app.previous_page();
    assert_eq!(app.selection_index, Some(0));
}

#[test]
fn search_filter_keeps_matching_names_only() {
    let mut app = App::new("/music", 10);
    app.populate_search_file("a", Ok(listing()));
    let expected = vec![
        DirectoryItem::Directory("/music/albums".to_string()),
        DirectoryItem::File("/music/a.mp3".to_string()),
    ];
    assert_eq!(app.directory_contents, expected);
}

#[test]
fn failed_listing_sets_error_and_changes_nothing_else() {
    let mut app = populated_app();
    let before = app.directory_contents.clone();
    app.populate_files(Err("permission denied".to_string()));
    assert_eq!(app.error, Some("permission denied".to_string()));
    assert_eq!(app.directory_contents, before);
}

#[test]
fn enter_directory_failure_restores_everything() {
    let mut app = populated_app();
    // the selection starts on the first entry, a directory
    let dir_before = app.current_directory.clone();
    let listing_before = app.directory_contents.clone();
    let selection_before = app.selection_index;
    assert_eq!(
        app.open_folder_request(),
        Some("/music/albums".to_string())
    );
    app.open_folder(Err("unreadable".to_string()));
    assert_eq!(app.current_directory, dir_before);
    assert_eq!(app.directory_contents, listing_before);
    assert_eq!(app.selection_index, selection_before);
    assert_eq!(app.error, Some("unreadable".to_string()));
}

#[test]
fn enter_directory_success_moves_and_relists() {
    let mut app = populated_app();
    app.open_folder(Ok(vec![DirectoryItem::File("/music/albums/x.mp3".to_string())]));
    assert_eq!(app.current_directory, "/music/albums".to_string());
    assert_eq!(
        app.directory_contents,
        vec![DirectoryItem::File("/music/albums/x.mp3".to_string())]
    );
    assert_eq!(app.selection_index, Some(0));
}

#[test]
fn open_folder_request_on_file_is_none() {
    let mut app = populated_app();
    app.move_select_bottom();
    assert_eq!(app.open_folder_request(), None);
}

#[test]
fn back_stops_at_the_music_database_root() {
    let mut app = populated_app();
    assert_eq!(app.back_request("/music"), None);
    app.open_folder(Ok(Vec::new()));
    assert_eq!(app.current_directory, "/music/albums".to_string());
    assert_eq!(app.back_request("/music"), Some("/music".to_string()));
    app.back_previous_folder("/music", Ok(listing()));
    assert_eq!(app.current_directory, "/music".to_string());
    assert_eq!(app.selection_index, Some(0));
}

#[test]
fn back_failure_keeps_the_current_directory() {
    let mut app = populated_app();
    app.open_folder(Ok(Vec::new()));
    let here = app.current_directory.clone();
    app.back_previous_folder("/music", Err("gone".to_string()));
    assert_eq!(app.current_directory, here);
    assert_eq!(app.error, Some("gone".to_string()));
}

#[test]
fn split_path_takes_the_name_after_the_last_slash() {
    assert_eq!(split_path_to_name("/music/albums/song.mp3"), "song.mp3");
    assert_eq!(split_path_to_name("song.mp3"), "song.mp3");
    assert_eq!(split_path_to_name("/music/"), "");
}
