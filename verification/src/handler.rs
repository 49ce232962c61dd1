//! Input dispatch: one decoded input event per cycle is routed by the live
//! mode to the engine.  Pure effects — cursor moves, buffer edits, mode
//! switches, command dispatch — happen right here; everything that needs a
//! collaborator (listing a directory, loading a track, touching the sink)
//! comes back as an [`AppAction`] for the caller to carry out.

use vstd::prelude::*;
use crate::app::{App, Mode};
use crate::commands::{command_effect, CommandAction};
use crate::utils::trim_ws;

verus! {

/// One decoded input event: a typed character, the two arrow keys the
/// browser uses, enter, backspace or escape.
#[derive(PartialEq, Eq, Structural, Clone, Copy, Debug)]
pub enum InputEvent {
    Char(char),
    Up,
    Down,
    Enter,
    Backspace,
    Esc,
}

/// What the caller still has to do after an event was handled: stop the
/// main loop, relist the current directory (plain or filtered), enter or
/// leave a directory, load one file's metadata, drive the sink, or carry
/// out a command's outside work and then relist.
pub enum AppAction {
    Nothing,
    Quit,
    Relist,
    RelistFiltered(String),
    OpenFolder,
    GoBack,
    LoadMusic(String),
    TogglePause,
    VolumeUp,
    VolumeDown,
    RunCommand(CommandAction),
}

/// A character the browser treats as a key of its own.
pub open spec fn browse_key(c: char) -> bool {
    c == 'q' || c == 'g' || c == 'G' || c == 'j' || c == 'J' || c == 'k' || c == 'K' || c == 'n'
        || c == 'N' || c == 'l' || c == 'h' || c == ' ' || c == '-' || c == '=' || c == '+'
        || c == '|' || c == ':'
}

/// `app` after the error slot's one-frame visibility ends: every event
/// clears it before anything else happens.
pub open spec fn cleared(app: App) -> App {
    App { error: Option::<String>::None, ..app }
}

/// The filter a submitted search runs: the buffer, whitespace-trimmed,
/// with its leading filter-prefix character removed.
pub open spec fn search_filter(buffer: Seq<char>) -> Seq<char> {
    if trim_ws(buffer).len() > 0 {
        trim_ws(buffer).drop_first()
    } else {
        trim_ws(buffer)
    }
}

/// Routes one input event.  The error slot is cleared first, then the
/// event acts on the live mode: in Browse the keys move the cursor, start
/// playback control, or enter Search or Command mode, each of which seeds
/// its buffer with its prefix character; in Search and Command, characters
/// and backspace edit the buffer (never its prefix), enter submits and
/// escape cancels back to browsing.
pub fn handle_event(app: &mut App, ev: InputEvent) -> (r: AppAction)
    requires
        old(app).wf(),
    ensures
        final(app).wf(),
        old(app).mode == Mode::Browse ==> match ev {
            InputEvent::Char(c) => {
                &&& c == 'q' ==> *final(app) == cleared(*old(app)) && r is Quit
                &&& c == 'g' ==> *final(app) == cleared(*old(app)).move_top_spec() && r
                    is Nothing
                &&& c == 'G' ==> *final(app) == cleared(*old(app)).move_bottom_spec() && r
                    is Nothing
                &&& c == 'k' ==> *final(app) == cleared(*old(app)).move_up_spec(1) && r
                    is Nothing
                &&& c == 'K' ==> *final(app) == cleared(*old(app)).move_up_spec(5) && r
                    is Nothing
                &&& c == 'j' ==> *final(app) == cleared(*old(app)).move_down_spec(1) && r
                    is Nothing
                &&& c == 'J' ==> *final(app) == cleared(*old(app)).move_down_spec(5) && r
                    is Nothing
                &&& c == 'n' ==> *final(app) == cleared(*old(app)).next_page_spec() && r
                    is Nothing
                &&& c == 'N' ==> *final(app) == cleared(*old(app)).previous_page_spec() && r
                    is Nothing
                &&& c == 'l' ==> *final(app) == cleared(*old(app)) && r is OpenFolder
                &&& c == 'h' ==> *final(app) == cleared(*old(app)) && r is GoBack
                &&& c == ' ' ==> *final(app) == cleared(*old(app)) && r is TogglePause
                &&& c == '-' ==> *final(app) == cleared(*old(app)) && r is VolumeDown
                &&& (c == '=' || c == '+') ==> *final(app) == cleared(*old(app)) && r
                    is VolumeUp
                &&& c == '|' ==> {
                    &&& *final(app) == (App {
                        mode: Mode::Search,
                        search_buffer: final(app).search_buffer,
                        error: None,
                        ..*old(app)
                    })
                    &&& final(app).search_buffer@ == seq!['|']
                    &&& r is Nothing
                }
                &&& c == ':' ==> {
                    &&& *final(app) == (App {
                        mode: Mode::Command,
                        command_buffer: final(app).command_buffer,
                        error: None,
                        ..*old(app)
                    })
                    &&& final(app).command_buffer@ == seq![':']
                    &&& r is Nothing
                }
                &&& !browse_key(c) ==> *final(app) == cleared(*old(app)) && r is Nothing
            },
            InputEvent::Up => *final(app) == cleared(*old(app)).move_up_spec(1) && r is Nothing,
            InputEvent::Down => *final(app) == cleared(*old(app)).move_down_spec(1) && r
                is Nothing,
            InputEvent::Enter => match old(app).selection_index {
                Some(i) => if old(app).directory_contents@[i as int].is_directory() {
                    &&& *final(app) == (App { error: final(app).error, ..*old(app) })
                    &&& (final(app).error matches Some(e) && e@ == "Is a directory"@)
                    &&& r is Nothing
                } else {
                    &&& *final(app) == cleared(*old(app))
                    &&& (r matches AppAction::LoadMusic(p) && p@ == old(
                        app,
                    ).directory_contents@[i as int].path_spec())
                },
                None => *final(app) == cleared(*old(app)) && r is Nothing,
            },
            InputEvent::Backspace => *final(app) == cleared(*old(app)) && r is Nothing,
            InputEvent::Esc => {
                &&& *final(app) == (App {
                    search_buffer: final(app).search_buffer,
                    error: None,
                    ..*old(app)
                })
                &&& final(app).search_buffer@.len() == 0
                &&& r is Relist
            },
        },
        old(app).mode == Mode::Search ==> match ev {
            InputEvent::Char(c) => {
                &&& *final(app) == (App {
                    search_buffer: final(app).search_buffer,
                    error: None,
                    ..*old(app)
                })
                &&& final(app).search_buffer@ == old(app).search_buffer@.push(c)
                &&& r is Nothing
            },
            InputEvent::Enter => {
                &&& *final(app) == (App { mode: Mode::Browse, error: None, ..*old(app) })
                &&& (r matches AppAction::RelistFiltered(f) && f@ == search_filter(
                    old(app).search_buffer@,
                ))
            },
            InputEvent::Backspace => {
                &&& *final(app) == (App {
                    search_buffer: final(app).search_buffer,
                    error: None,
                    ..*old(app)
                })
                &&& final(app).search_buffer@ == if old(app).search_buffer@.len() > 1 {
                    old(app).search_buffer@.drop_last()
                } else {
                    old(app).search_buffer@
                }
                &&& r is Nothing
            },
            InputEvent::Esc => {
                &&& *final(app) == (App {
                    mode: Mode::Browse,
                    search_buffer: final(app).search_buffer,
                    error: None,
                    ..*old(app)
                })
                &&& final(app).search_buffer@.len() == 0
                &&& r is Relist
            },
            _ => *final(app) == cleared(*old(app)) && r is Nothing,
        },
        old(app).mode == Mode::Command ==> match ev {
            InputEvent::Char(c) => {
                &&& *final(app) == (App {
                    command_buffer: final(app).command_buffer,
                    error: None,
                    ..*old(app)
                })
                &&& final(app).command_buffer@ == old(app).command_buffer@.push(c)
                &&& r is Nothing
            },
            InputEvent::Enter => {
                &&& final(app).command_buffer@.len() == 0
                &&& final(app).mode == Mode::Browse
                &&& (r matches AppAction::RunCommand(act) && command_effect(
                    App {
                        command_buffer: final(app).command_buffer,
                        mode: Mode::Browse,
                        error: None,
                        ..*old(app)
                    },
                    *final(app),
                    old(app).command_buffer@,
                    act,
                ))
            },
            InputEvent::Backspace => {
                &&& *final(app) == (App {
                    command_buffer: final(app).command_buffer,
                    error: None,
                    ..*old(app)
                })
                &&& final(app).command_buffer@ == if old(app).command_buffer@.len() > 1 {
                    old(app).command_buffer@.drop_last()
                } else {
                    old(app).command_buffer@
                }
                &&& r is Nothing
            },
            InputEvent::Esc => {
                &&& *final(app) == (App {
                    mode: Mode::Browse,
                    command_buffer: final(app).command_buffer,
                    error: None,
                    ..*old(app)
                })
                &&& final(app).command_buffer@.len() == 0
                &&& r is Nothing
            },
            _ => *final(app) == cleared(*old(app)) && r is Nothing,
        },
{
    app.error = None;
    match app.mode {
        Mode::Browse => match ev {
            InputEvent::Char(c) => {
                if c == 'q' {
                    AppAction::Quit
                } else if c == 'g' {
                    app.move_select_top();
                    AppAction::Nothing
                } else if c == 'G' {
                    app.move_select_bottom();
                    AppAction::Nothing
                } else if c == 'k' {
                    app.move_select_up(1);
                    AppAction::Nothing
                } else if c == 'K' {
                    app.move_select_up(5);
                    AppAction::Nothing
                } else if c == 'j' {
                    app.move_select_down(1);
                    AppAction::Nothing
                } else if c == 'J' {
                    app.move_select_down(5);
                    AppAction::Nothing
                } else if c == 'n' {
                    app.next_page();
                    AppAction::Nothing
                } else if c == 'N' {
                    app.previous_page();
                    AppAction::Nothing
                } else if c == 'l' {
                    AppAction::OpenFolder
                } else if c == 'h' {
                    AppAction::GoBack
                } else if c == ' ' {
                    AppAction::TogglePause
                } else if c == '-' {
                    AppAction::VolumeDown
                } else if c == '=' || c == '+' {
                    AppAction::VolumeUp
                } else if c == '|' {
                    app.set_mode(Mode::Search);
                    let mut seeded: Vec<char> = Vec::new();
                    seeded.push('|');
                    proof {
                        assert(seeded@ =~= seq!['|']);
                    }
                    app.search_buffer = seeded;
                    AppAction::Nothing
                } else if c == ':' {
                    app.set_mode(Mode::Command);
                    let mut seeded: Vec<char> = Vec::new();
                    seeded.push(':');
                    proof {
                        assert(seeded@ =~= seq![':']);
                    }
                    app.command_buffer = seeded;
                    AppAction::Nothing
                } else {
                    AppAction::Nothing
                }
            },
            InputEvent::Up => {
                app.move_select_up(1);
                AppAction::Nothing
            },
            InputEvent::Down => {
                app.move_select_down(1);
                AppAction::Nothing
            },
            InputEvent::Enter => {
                match app.get_selected_directory_item() {
                    Some(item) => match item {
                        crate::file_ops::DirectoryItem::File(path) => AppAction::LoadMusic(path),
                        crate::file_ops::DirectoryItem::Directory(_) => {
                            app.error = Some("Is a directory".to_owned());
                            AppAction::Nothing
                        },
                    },
                    None => AppAction::Nothing,
                }
            },
            InputEvent::Backspace => AppAction::Nothing,
            InputEvent::Esc => {
                app.search_buffer = Vec::new();
                AppAction::Relist
            },
        },
        Mode::Search => match ev {
            InputEvent::Char(c) => {
                app.add_to_search_buffer(c);
                AppAction::Nothing
            },
            InputEvent::Enter => {
                let astrict = app.execute_search();
                AppAction::RelistFiltered(astrict)
            },
            InputEvent::Backspace => {
                if app.search_buffer.len() > 1 {
                    let n = app.search_buffer.len();
                    app.search_buffer.truncate(n - 1);
                    proof {
                        assert(old(app).search_buffer@.subrange(
                            0,
                            old(app).search_buffer@.len() - 1,
                        ) =~= old(app).search_buffer@.drop_last());
                    }
                }
                AppAction::Nothing
            },
            InputEvent::Esc => {
                app.set_mode(Mode::Browse);
                app.search_buffer = Vec::new();
                AppAction::Relist
            },
            _ => AppAction::Nothing,
        },
        Mode::Command => match ev {
            InputEvent::Char(c) => {
                app.add_to_command_buffer(c);
                AppAction::Nothing
            },
            InputEvent::Enter => {
                let act = app.execute_command();
                AppAction::RunCommand(act)
            },
            InputEvent::Backspace => {
                if app.command_buffer.len() > 1 {
                    let n = app.command_buffer.len();
                    app.command_buffer.truncate(n - 1);
                    proof {
                        assert(old(app).command_buffer@.subrange(
                            0,
                            old(app).command_buffer@.len() - 1,
                        ) =~= old(app).command_buffer@.drop_last());
                    }
                }
                AppAction::Nothing
            },
            InputEvent::Esc => {
                app.set_mode(Mode::Browse);
                app.command_buffer = Vec::new();
                AppAction::Nothing
            },
            _ => AppAction::Nothing,
        },
    }
}

/// One step louder: the sink gain in hundredths, raised by five, never
/// past the 125% ceiling.
pub fn volume_up(v: u32) -> (r: u32)
    ensures
        r == if v + 5 <= 125 {
            v + 5
        } else {
            125
        },
{
    if v < 120 {
        v + 5
    } else {
        125
    }
}

/// One step quieter: the sink gain in hundredths, lowered by five,
/// stopping at silence.
pub fn volume_down(v: u32) -> (r: u32)
    ensures
        r == if v >= 5 {
            v - 5
        } else {
            0
        },
{
    if v >= 5 {
        v - 5
    } else {
        0
    }
}

} // verus!
