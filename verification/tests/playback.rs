use music_player::app::{App, PlayStyle};
use music_player::file_ops::Audio;
use music_player::music::Music;

fn track(path: &str) -> Music {
    Music::new(
        path,
        Audio {
            artist: "artist".to_string(),
            title: "title".to_string(),
            album: "album".to_string(),
            duration: 180,
        },
    )
}

fn app_with_queue(paths: &[&str]) -> App {
    let mut app = App::new("/music", 10);
    for p in paths {
        app.add_music_to_list(Ok(track(p)));
    }
    app
}

#[test]
fn new_track_starts_at_zero_with_no_segment() {
    let m = track("/music/one.flac.bak");
    assert_eq!(m.name, "one");
    assert_eq!(m.path, "/music/one.flac.bak");
    assert_eq!(m.play_position, 0);
    assert_eq!(m.total_duration, 180);
    assert_eq!(m.start_time, None);
}

#[test]
fn failed_load_goes_to_the_error_slot() {
    let mut app = App::new("/music", 10);
    app.add_music_to_list(Err("bad tag".to_string()));
    assert_eq!(app.error, Some("bad tag".to_string()));
    assert!(app.play_music_list.is_empty());
}

#[test]
fn batch_add_skips_failures_and_keeps_the_rest() {
    let mut app = App::new("/music", 10);
    app.add_all_music_to_list(vec![
        Ok(track("/music/a.mp3")),
        Err("first".to_string()),
        Ok(track("/music/b.mp3")),
        Err("second".to_string()),
    ]);
    let names: Vec<&str> = app.play_music_list.iter().map(|m| m.path.as_str()).collect();
    assert_eq!(names, vec!["/music/a.mp3", "/music/b.mp3"]);
    assert_eq!(app.error, Some("second".to_string()));
}

#[test]
fn play_next_pulls_the_front_of_the_queue() {
    let mut app = app_with_queue(&["/music/a.mp3", "/music/b.mp3"]);
    assert_eq!(app.next_music_path(), Some("/music/a.mp3".to_string()));
    app.play_next_music(7, Some(Ok(())));
    let playing = app.playing_music.clone().unwrap();
    assert_eq!(playing.path, "/music/a.mp3");
    assert_eq!(playing.start_time, Some(7));
    assert_eq!(app.play_music_list.len(), 1);
    assert_eq!(app.play_music_list[0].path, "/music/b.mp3");
}

#[test]
fn play_next_on_empty_queue_goes_idle() {
    let mut app = app_with_queue(&["/music/a.mp3"]);
    app.play_next_music(0, Some(Ok(())));
    assert!(app.playing_music.is_some());
    app.play_next_music(5, None);
    assert_eq!(app.playing_music, None);
}

#[test]
fn decode_failure_keeps_the_queue_and_reports() {
    let mut app = app_with_queue(&["/music/a.mp3"]);
    app.play_next_music(0, Some(Err("cannot decode".to_string())));
    assert_eq!(app.playing_music, None);
    assert_eq!(app.play_music_list.len(), 1);
    assert_eq!(app.error, Some("cannot decode".to_string()));
}

#[test]
fn tick_recomputes_position_from_the_anchor() {
    let mut app = app_with_queue(&["/music/a.mp3"]);
    app.play_next_music(100, Some(Ok(())));
    app.check_music_list(130, false, false, None);
    assert_eq!(app.playing_music.as_ref().unwrap().play_position, 30);
}

#[test]
fn tick_leaves_position_alone_while_paused() {
    let mut app = app_with_queue(&["/music/a.mp3"]);
    app.play_next_music(100, Some(Ok(())));
    app.check_music_list(130, false, false, None);
    app.check_music_list(170, false, true, None);
    assert_eq!(app.playing_music.as_ref().unwrap().play_position, 30);
}

#[test]
fn pause_then_resume_keeps_the_position() {
    let mut app = app_with_queue(&["/music/a.mp3"]);
    app.play_next_music(0, Some(Ok(())));
    app.check_music_list(30, false, false, None);
    assert_eq!(app.playing_music.as_ref().unwrap().play_position, 30);
    // pause at 30, resume at the same instant: nothing may move
    let resume = app.stop_or_start_play(30, false);
    assert!(!resume);
    assert_eq!(app.playing_music.as_ref().unwrap().play_position, 30);
    let resume = app.stop_or_start_play(30, true);
    assert!(resume);
    assert_eq!(app.playing_music.as_ref().unwrap().play_position, 30);
    // the rebased anchor keeps later ticks consistent
    assert_eq!(app.playing_music.as_ref().unwrap().start_time, Some(0));
    app.check_music_list(45, false, false, None);
    assert_eq!(app.playing_music.as_ref().unwrap().play_position, 45);
}

#[test]
fn resume_after_a_real_pause_rebases_the_anchor() {
    let mut app = app_with_queue(&["/music/a.mp3"]);
    app.play_next_music(0, Some(Ok(())));
    app.check_music_list(30, false, false, None);
    app.stop_or_start_play(30, false);
    // one minute passes while paused
    let resume = app.stop_or_start_play(90, true);
    assert!(resume);
    assert_eq!(app.playing_music.as_ref().unwrap().start_time, Some(60));
    app.check_music_list(100, false, false, None);
    assert_eq!(app.playing_music.as_ref().unwrap().play_position, 40);
}

#[test]
fn single_cycle_repeats_the_playing_track_and_keeps_the_queue() {
    let mut app = app_with_queue(&["/music/a.mp3", "/music/b.mp3"]);
    app.play_next_music(0, Some(Ok(())));
    app.set_play_style(PlayStyle::SingleCycle);
    app.check_music_list(50, false, false, None);
    assert_eq!(app.playing_music.as_ref().unwrap().play_position, 50);
    // the sink drains: the same track is fed again from zero
    assert_eq!(app.music_to_feed(true), Some("/music/a.mp3".to_string()));
    app.check_music_list(60, true, false, Some(Ok(())));
    let playing = app.playing_music.clone().unwrap();
    assert_eq!(playing.path, "/music/a.mp3");
    assert_eq!(playing.play_position, 0);
    assert_eq!(playing.start_time, Some(60));
    assert_eq!(app.play_music_list.len(), 1);
    assert_eq!(app.play_music_list[0].path, "/music/b.mp3");
}

#[test]
fn play_order_advances_to_the_next_queued_track() {
    let mut app = app_with_queue(&["/music/a.mp3", "/music/b.mp3"]);
    app.play_next_music(0, Some(Ok(())));
    assert_eq!(app.music_to_feed(true), Some("/music/b.mp3".to_string()));
    assert_eq!(app.music_to_feed(false), None);
    app.check_music_list(9, true, false, Some(Ok(())));
    assert_eq!(app.playing_music.as_ref().unwrap().path, "/music/b.mp3");
    assert_eq!(app.playing_music.as_ref().unwrap().play_position, 0);
    assert!(app.play_music_list.is_empty());
}

#[test]
fn single_cycle_with_nothing_playing_falls_back_to_the_queue() {
    let mut app = app_with_queue(&["/music/a.mp3"]);
    app.set_play_style(PlayStyle::SingleCycle);
    assert_eq!(app.music_to_feed(true), Some("/music/a.mp3".to_string()));
    app.check_music_list(3, true, false, Some(Ok(())));
    assert_eq!(app.playing_music.as_ref().unwrap().path, "/music/a.mp3");
}

#[test]
fn shuffle_keeps_exactly_the_queued_tracks() {
    let paths = [
        "/music/a.mp3",
        "/music/b.mp3",
        "/music/c.mp3",
        "/music/d.mp3",
        "/music/e.mp3",
    ];
    let mut app = app_with_queue(&paths);
    app.shuffle_playlist();
    assert_eq!(app.play_music_list.len(), 5);
    let mut after: Vec<String> = app.play_music_list.iter().map(|m| m.path.clone()).collect();
    after.sort();
    let mut expected: Vec<String> = paths.iter().map(|p| p.to_string()).collect();
    expected.sort();
    assert_eq!(after, expected);
}

#[test]
fn remove_by_indices_ignores_out_of_range() {
    let mut app = app_with_queue(&["/music/a.mp3", "/music/b.mp3", "/music/c.mp3"]);
    app.remove_play_list_by_id(vec![1, 7]);
    let names: Vec<&str> = app.play_music_list.iter().map(|m| m.path.as_str()).collect();
    assert_eq!(names, vec!["/music/a.mp3", "/music/c.mp3"]);
}

#[test]
fn clear_keeps_the_playing_track() {
    let mut app = app_with_queue(&["/music/a.mp3", "/music/b.mp3"]);
    app.play_next_music(0, Some(Ok(())));
    app.clear_play_music_list();
    assert!(app.play_music_list.is_empty());
    assert_eq!(app.playing_music.as_ref().unwrap().path, "/music/a.mp3");
}

#[test]
fn a_name_without_a_dot_is_kept_whole() {
    let m = track("/music/noext");
    assert_eq!(m.name, "noext");
}
