//! The application state engine: current directory and listing, selection
//! cursor, mode machine buffers, play queue and now-playing track.
//!
//! The engine never performs input, output or audio work itself.  Listing a
//! directory, loading a track's metadata and feeding the sink are done by
//! collaborators, which hand the engine their results as plain values; the
//! engine's methods say exactly what each outcome does to the state.

use vstd::prelude::*;
use vstd::string::StringExecFns;
use rand::prelude::SliceRandom;
use crate::display::{effective_height, page_of, total_pages};
use crate::file_ops::{filter_listing, sort_listing, sorted_listing, DirectoryItem};
use crate::music::{anchored_at, position_at, Music};
use crate::utils::{
    chars_to_string, parent_dir, parent_dir_of, str_eq, trim_ws, trimmed_string,
};

verus! {

/// Which input mode is live: browsing the listing, editing the search
/// filter, or editing a command.
#[derive(PartialEq, Eq, Structural, Clone, Copy, Debug)]
pub enum Mode {
    Browse,
    Search,
    Command,
}

/// What plays when the sink drains: the next queued track, or the same
/// track again from the start.
#[derive(PartialEq, Eq, Structural, Clone, Copy, Debug)]
pub enum PlayStyle {
    PlayOrder,
    SingleCycle,
}

/// The whole engine state.
pub struct App {
    pub selection_index: Option<usize>,
    pub current_directory: String,
    pub directory_contents: Vec<DirectoryItem>,
    pub search_buffer: Vec<char>,
    pub command_buffer: Vec<char>,
    pub error: Option<String>,
    pub window_height: usize,
    pub play_music_list: Vec<Music>,
    pub playing_music: Option<Music>,
    pub mode: Mode,
    pub play_style: PlayStyle,
}

impl App {
    /// The number of listing entries.
    pub open spec fn listing_len(self) -> int {
        self.directory_contents@.len() as int
    }

    /// The state invariant: the selection exists exactly when the listing
    /// is non-empty and then stays inside it; the now-playing track always
    /// carries its segment anchor; queued tracks never do.
    pub open spec fn wf(self) -> bool {
        &&& match self.selection_index {
            Some(i) => i < self.listing_len(),
            None => self.listing_len() == 0,
        }
        &&& match self.playing_music {
            Some(m) => m.start_time is Some,
            None => true,
        }
        &&& forall|i: int|
            0 <= i < self.play_music_list@.len() ==> (#[trigger] self.play_music_list@[i]).start_time is None
    }

    /// A fresh engine: browsing the given directory with nothing listed,
    /// queued or playing yet.
    pub fn new(music_database: &str, window_height: usize) -> (app: App)
        ensures
            app.selection_index is None,
            app.current_directory@ == music_database@,
            app.directory_contents@.len() == 0,
            app.search_buffer@.len() == 0,
            app.command_buffer@.len() == 0,
            app.error is None,
            app.window_height == window_height,
            app.play_music_list@.len() == 0,
            app.playing_music is None,
            app.mode == Mode::Browse,
            app.play_style == PlayStyle::PlayOrder,
            app.wf(),
    {
        App {
            selection_index: None,
            current_directory: String::from_str(music_database),
            directory_contents: Vec::new(),
            search_buffer: Vec::new(),
            command_buffer: Vec::new(),
            error: None,
            window_height,
            play_music_list: Vec::new(),
            playing_music: None,
            mode: Mode::Browse,
            play_style: PlayStyle::PlayOrder,
        }
    }

    /// Switches the live input mode.
    pub fn set_mode(&mut self, mode: Mode)
        ensures
            *final(self) == (App { mode, ..*old(self) }),
    {
        self.mode = mode;
    }

    /// Switches the play style.
    pub fn set_play_style(&mut self, style: PlayStyle)
        ensures
            *final(self) == (App { play_style: style, ..*old(self) }),
    {
        self.play_style = style;
    }

    /// Appends one typed character to the search buffer.
    pub fn add_to_search_buffer(&mut self, c: char)
        ensures
            *final(self) == (App {
                search_buffer: final(self).search_buffer,
                ..*old(self)
            }),
            final(self).search_buffer@ == old(self).search_buffer@.push(c),
    {
        self.search_buffer.push(c);
    }

    /// Appends one typed character to the command buffer.
    pub fn add_to_command_buffer(&mut self, c: char)
        ensures
            *final(self) == (App {
                command_buffer: final(self).command_buffer,
                ..*old(self)
            }),
            final(self).command_buffer@ == old(self).command_buffer@.push(c),
    {
        self.command_buffer.push(c);
    }

    /// Records the viewport height the renderer reports.
    pub fn update_window_height(&mut self, height: usize)
        ensures
            *final(self) == (App { window_height: height, ..*old(self) }),
    {
        self.window_height = height;
    }

    /// Installs a freshly listed set of entries: sorts it into display
    /// order and resets the selection to the top, or to nothing when the
    /// listing is empty.
    fn install_listing(&mut self, items: Vec<DirectoryItem>)
        requires
            old(self).wf(),
        ensures
            *final(self) == (App {
                directory_contents: final(self).directory_contents,
                selection_index: final(self).selection_index,
                ..*old(self)
            }),
            sorted_listing(final(self).directory_contents@),
            final(self).directory_contents@.to_multiset() == items@.to_multiset(),
            final(self).selection_index == if items@.len() == 0 {
                Option::<usize>::None
            } else {
                Option::<usize>::Some(0usize)
            },
            final(self).wf(),
    {
        let ghost given = items@;
        let mut items = items;
        sort_listing(&mut items);
        proof {
            vstd::seq_lib::to_multiset_len(given);
            vstd::seq_lib::to_multiset_len(items@);
        }
        let n = items.len();
        self.directory_contents = items;
        if n == 0 {
            self.selection_index = None;
        } else {
            self.selection_index = Some(0);
        }
    }

    /// Replaces the listing with the lister's result for the current
    /// directory: entries are sorted into display order and the selection
    /// returns to the top; a failed listing only records the error.
    pub fn populate_files(&mut self, raw: Result<Vec<DirectoryItem>, String>)
        requires
            old(self).wf(),
        ensures
            final(self).wf(),
            match raw {
                Ok(items) => {
                    &&& *final(self) == (App {
                        directory_contents: final(self).directory_contents,
                        selection_index: final(self).selection_index,
                        ..*old(self)
                    })
                    &&& sorted_listing(final(self).directory_contents@)
                    &&& final(self).directory_contents@.to_multiset() == items@.to_multiset()
                    &&& final(self).selection_index == if items@.len() == 0 {
                        Option::<usize>::None
                    } else {
                        Option::<usize>::Some(0usize)
                    }
                },
                Err(e) => *final(self) == (App { error: Some(e), ..*old(self) }),
            },
    {
        match raw {
            Ok(items) => self.install_listing(items),
            Err(e) => self.error = Some(e),
        }
    }

    /// Replaces the listing with the lister's result filtered by `astrict`:
    /// only entries whose display name holds it are kept, sorted as ever;
    /// a failed listing only records the error.
    pub fn populate_search_file(&mut self, astrict: &str, raw: Result<Vec<DirectoryItem>, String>)
        requires
            old(self).wf(),
        ensures
            final(self).wf(),
            match raw {
                Ok(items) => {
                    &&& *final(self) == (App {
                        directory_contents: final(self).directory_contents,
                        selection_index: final(self).selection_index,
                        ..*old(self)
                    })
                    &&& sorted_listing(final(self).directory_contents@)
                    &&& final(self).directory_contents@.to_multiset() == items@.filter(
                        |it: DirectoryItem| crate::file_ops::entry_name_matches(it, astrict@),
                    ).to_multiset()
                    &&& final(self).selection_index == if items@.filter(
                        |it: DirectoryItem| crate::file_ops::entry_name_matches(it, astrict@),
                    ).len() == 0 {
                        Option::<usize>::None
                    } else {
                        Option::<usize>::Some(0usize)
                    }
                },
                Err(e) => *final(self) == (App { error: Some(e), ..*old(self) }),
            },
    {
        match raw {
            Ok(items) => {
                let kept = filter_listing(items, astrict);
                self.install_listing(kept);
            },
            Err(e) => self.error = Some(e),
        }
    }

    /// The search buffer's contents with surrounding whitespace removed.
    pub fn get_search_string(&mut self) -> (s: String)
        ensures
            *final(self) == *old(self),
            s@ == trim_ws(old(self).search_buffer@),
    {
        trimmed_string(&self.search_buffer)
    }

    /// The command buffer's contents, verbatim.
    pub fn get_command_strign(&mut self) -> (s: String)
        ensures
            *final(self) == *old(self),
            s@ == old(self).command_buffer@,
    {
        chars_to_string(&self.command_buffer)
    }

    /// The entry under the cursor, if any.
    pub fn get_selected_directory_item(&mut self) -> (it: Option<DirectoryItem>)
        requires
            old(self).wf(),
        ensures
            *final(self) == *old(self),
            it == match old(self).selection_index {
                Some(i) => Some(old(self).directory_contents@[i as int]),
                None => Option::<DirectoryItem>::None,
            },
    {
        match self.selection_index {
            Some(index) => Some(self.directory_contents[index].clone_item()),
            None => None,
        }
    }
}

/// `t` forced into the valid index range `[0, len - 1]` of a non-empty
/// listing.
pub open spec fn clamp_index(len: int, t: int) -> int {
    if t < 0 {
        0
    } else if t > len - 1 {
        len - 1
    } else {
        t
    }
}

impl App {
    /// The state after moving the selection to the first entry.
    pub open spec fn move_top_spec(self) -> App {
        match self.selection_index {
            Some(_) => App { selection_index: Some(0usize), ..self },
            None => self,
        }
    }

    /// The state after moving the selection to the last entry.
    pub open spec fn move_bottom_spec(self) -> App {
        match self.selection_index {
            Some(_) => App {
                selection_index: Some((self.listing_len() - 1) as usize),
                ..self
            },
            None => self,
        }
    }

    /// The state after moving the selection `step` entries up, stopped at
    /// the ends of the listing.
    pub open spec fn move_up_spec(self, step: int) -> App {
        match self.selection_index {
            Some(i) => App {
                selection_index: Some(clamp_index(self.listing_len(), i - step) as usize),
                ..self
            },
            None => self,
        }
    }

    /// The state after moving the selection `step` entries down, stopped
    /// at the ends of the listing.
    pub open spec fn move_down_spec(self, step: int) -> App {
        match self.selection_index {
            Some(i) => App {
                selection_index: Some(clamp_index(self.listing_len(), i + step) as usize),
                ..self
            },
            None => self,
        }
    }

    /// The state after jumping to the first entry of the next page; a
    /// single page, or the last one, is left alone.
    pub open spec fn next_page_spec(self) -> App {
        match self.selection_index {
            Some(i) => {
                let h = effective_height(self.window_height);
                let pages = total_pages(self.listing_len(), self.window_height);
                let page = page_of(i as int, self.window_height);
                if pages > 1 && page + 1 < pages {
                    App { selection_index: Some(((page + 1) * h) as usize), ..self }
                } else {
                    self
                }
            },
            None => self,
        }
    }

    /// The state after jumping to the first entry of the previous page; a
    /// single page, or the first one, is left alone.
    pub open spec fn previous_page_spec(self) -> App {
        match self.selection_index {
            Some(i) => {
                let h = effective_height(self.window_height);
                let pages = total_pages(self.listing_len(), self.window_height);
                let page = page_of(i as int, self.window_height);
                if pages > 1 && page > 0 {
                    App { selection_index: Some(((page - 1) * h) as usize), ..self }
                } else {
                    self
                }
            },
            None => self,
        }
    }

    /// Moves the selection to the top of the listing.
    pub fn move_select_top(&mut self)
        requires
            old(self).wf(),
        ensures
            *final(self) == old(self).move_top_spec(),
            final(self).wf(),
    {
        if let Some(_) = self.selection_index {
            self.selection_index = Some(0);
        }
    }

    /// Moves the selection to the bottom of the listing.
    pub fn move_select_bottom(&mut self)
        requires
            old(self).wf(),
        ensures
            *final(self) == old(self).move_bottom_spec(),
            final(self).wf(),
    {
        if let Some(_) = self.selection_index {
            self.selection_index = Some(self.directory_contents.len() - 1);
        }
    }

    /// Moves the selection `step` entries up, stopping at the first entry.
    pub fn move_select_up(&mut self, step: i32)
        requires
            old(self).wf(),
        ensures
            *final(self) == old(self).move_up_spec(step as int),
            final(self).wf(),
    {
        if let Some(i) = self.selection_index {
            let len = self.directory_contents.len();
            let t: i128 = i as i128 - step as i128;
            let clamped: usize = if t < 0 {
                0
            } else if t > (len - 1) as i128 {
                len - 1
            } else {
                t as usize
            };
            self.selection_index = Some(clamped);
        }
    }

    /// Moves the selection `step` entries down, stopping at the last
    /// entry.
    pub fn move_select_down(&mut self, step: usize)
        requires
            old(self).wf(),
        ensures
            *final(self) == old(self).move_down_spec(step as int),
            final(self).wf(),
    {
        if let Some(i) = self.selection_index {
            let len = self.directory_contents.len();
            let room = len - 1 - i;
            let ni = if step <= room {
                i + step
            } else {
                len - 1
            };
            self.selection_index = Some(ni);
        }
    }

    /// Jumps the selection to the first entry of the next page.
    pub fn next_page(&mut self)
        requires
            old(self).wf(),
        ensures
            *final(self) == old(self).next_page_spec(),
            final(self).wf(),
    {
        if let Some(i) = self.selection_index {
            let len = self.directory_contents.len();
            let h: usize = if self.window_height == 0 {
                1
            } else {
                self.window_height
            };
            let pages = (len - 1) / h + 1;
            let page_idx = i / h;
            proof {
                lemma_page_arith(len as int, i as int, self.window_height);
            }
            if pages > 1 && page_idx + 1 < pages {
                self.selection_index = Some((page_idx + 1) * h);
            }
        }
    }

    /// Jumps the selection to the first entry of the previous page.
    pub fn previous_page(&mut self)
        requires
            old(self).wf(),
        ensures
            *final(self) == old(self).previous_page_spec(),
            final(self).wf(),
    {
        if let Some(i) = self.selection_index {
            let len = self.directory_contents.len();
            let h: usize = if self.window_height == 0 {
                1
            } else {
                self.window_height
            };
            let pages = (len - 1) / h + 1;
            let page_idx = i / h;
            proof {
                lemma_page_arith(len as int, i as int, self.window_height);
            }
            if pages > 1 && page_idx > 0 {
                self.selection_index = Some((page_idx - 1) * h);
            }
        }
    }
}

impl App {
    /// The directory the cursor asks to enter: the selected entry's path
    /// when a sub-directory is selected, nothing otherwise.
    pub fn open_folder_request(&self) -> (target: Option<String>)
        requires
            self.wf(),
        ensures
            match (target, self.selection_index) {
                (Some(t), Some(i)) => self.directory_contents@[i as int].is_directory()
                    && t@ == self.directory_contents@[i as int].path_spec(),
                (None, Some(i)) => !self.directory_contents@[i as int].is_directory(),
                (None, None) => true,
                (Some(_), None) => false,
            },
    {
        match self.selection_index {
            Some(i) => match &self.directory_contents[i] {
                DirectoryItem::Directory(p) => Some(p.clone()),
                DirectoryItem::File(_) => None,
            },
            None => None,
        }
    }

    /// Enters the selected sub-directory, given the lister's result for
    /// it.  On success the engine moves there and installs the fresh
    /// listing; on failure the directory, listing and selection stay
    /// byte-for-byte as they were and only the error is recorded.
    pub fn open_folder(&mut self, raw: Result<Vec<DirectoryItem>, String>)
        requires
            old(self).wf(),
        ensures
            final(self).wf(),
            match old(self).selection_index {
                Some(i) => if old(self).directory_contents@[i as int].is_directory() {
                    match raw {
                        Ok(items) => {
                            &&& *final(self) == (App {
                                current_directory: final(self).current_directory,
                                directory_contents: final(self).directory_contents,
                                selection_index: final(self).selection_index,
                                ..*old(self)
                            })
                            &&& final(self).current_directory@ == old(
                                self,
                            ).directory_contents@[i as int].path_spec()
                            &&& sorted_listing(final(self).directory_contents@)
                            &&& final(self).directory_contents@.to_multiset()
                                == items@.to_multiset()
                            &&& final(self).selection_index == if items@.len() == 0 {
                                Option::<usize>::None
                            } else {
                                Option::<usize>::Some(0usize)
                            }
                        },
                        Err(e) => *final(self) == (App { error: Some(e), ..*old(self) }),
                    }
                } else {
                    *final(self) == *old(self)
                },
                None => *final(self) == *old(self),
            },
    {
        if let Some(i) = self.selection_index {
            let target = match &self.directory_contents[i] {
                DirectoryItem::Directory(p) => Some(p.clone()),
                DirectoryItem::File(_) => None,
            };
            if let Some(p) = target {
                match raw {
                    Ok(items) => {
                        self.current_directory = p;
                        self.install_listing(items);
                    },
                    Err(e) => {
                        self.error = Some(e);
                    },
                }
            }
        }
    }

    /// The directory the cursor asks to go back to: the parent of the
    /// current directory, unless the engine already sits at the root it
    /// was started on or the current path has no parent.
    pub fn back_request(&self, music_database: &str) -> (target: Option<String>)
        ensures
            match target {
                Some(t) => self.current_directory@ != music_database@ && parent_dir_of(
                    self.current_directory@,
                ) == Some(t@),
                None => self.current_directory@ == music_database@ || parent_dir_of(
                    self.current_directory@,
                ) is None,
            },
    {
        if str_eq(self.current_directory.as_str(), music_database) {
            None
        } else {
            parent_dir(self.current_directory.as_str())
        }
    }

    /// Goes back to the parent directory, given the lister's result for
    /// it, with the same success and failure behaviour as entering a
    /// directory; at the starting root, or on a path without a parent,
    /// nothing changes.
    pub fn back_previous_folder(&mut self, music_database: &str, raw: Result<
        Vec<DirectoryItem>,
        String,
    >)
        requires
            old(self).wf(),
        ensures
            final(self).wf(),
            if old(self).current_directory@ != music_database@ && parent_dir_of(
                old(self).current_directory@,
            ) is Some {
                match raw {
                    Ok(items) => {
                        &&& *final(self) == (App {
                            current_directory: final(self).current_directory,
                            directory_contents: final(self).directory_contents,
                            selection_index: final(self).selection_index,
                            ..*old(self)
                        })
                        &&& Some(final(self).current_directory@) == parent_dir_of(
                            old(self).current_directory@,
                        )
                        &&& sorted_listing(final(self).directory_contents@)
                        &&& final(self).directory_contents@.to_multiset() == items@.to_multiset()
                        &&& final(self).selection_index == if items@.len() == 0 {
                            Option::<usize>::None
                        } else {
                            Option::<usize>::Some(0usize)
                        }
                    },
                    Err(e) => *final(self) == (App { error: Some(e), ..*old(self) }),
                }
            } else {
                *final(self) == *old(self)
            },
    {
        if str_eq(self.current_directory.as_str(), music_database) {
            return ;
        }
        let parent = parent_dir(self.current_directory.as_str());
        if let Some(p) = parent {
            match raw {
                Ok(items) => {
                    self.current_directory = p;
                    self.install_listing(items);
                },
                Err(e) => {
                    self.error = Some(e);
                },
            }
        }
    }

    /// Leaves search mode for browsing and hands back the filter the
    /// relist should use: the buffer, whitespace-trimmed, with its leading
    /// filter-prefix character removed.
    pub fn execute_search(&mut self) -> (astrict: String)
        ensures
            *final(self) == (App { mode: Mode::Browse, ..*old(self) }),
            astrict@ == if trim_ws(old(self).search_buffer@).len() > 0 {
                trim_ws(old(self).search_buffer@).drop_first()
            } else {
                trim_ws(old(self).search_buffer@)
            },
    {
        let trimmed = trimmed_string(&self.search_buffer);
        self.mode = Mode::Browse;
        let n = trimmed.as_str().unicode_len();
        if n > 0 {
            let tail = trimmed.as_str().substring_char(1, n);
            proof {
                assert(trim_ws(old(self).search_buffer@).subrange(
                    1,
                    trim_ws(old(self).search_buffer@).len() as int,
                ) =~= trim_ws(old(self).search_buffer@).drop_first());
            }
            tail.to_owned()
        } else {
            trimmed
        }
    }
}

/// The tracks loaded successfully, in order.
pub open spec fn ok_musics(s: Seq<Result<Music, String>>) -> Seq<Music>
    decreases s.len(),
{
    if s.len() == 0 {
        Seq::empty()
    } else {
        match s.last() {
            Ok(m) => ok_musics(s.drop_last()).push(m),
            Err(_) => ok_musics(s.drop_last()),
        }
    }
}

/// The message of the last failed load, if any load failed.
pub open spec fn last_error_of(s: Seq<Result<Music, String>>) -> Option<String>
    decreases s.len(),
{
    if s.len() == 0 {
        None
    } else {
        match s.last() {
            Err(e) => Some(e),
            Ok(_) => last_error_of(s.drop_last()),
        }
    }
}

/// The paths of the file entries of a listing, in listing order.
pub open spec fn audio_file_paths(s: Seq<DirectoryItem>) -> Seq<Seq<char>>
    decreases s.len(),
{
    if s.len() == 0 {
        Seq::empty()
    } else if s.last().is_directory() {
        audio_file_paths(s.drop_last())
    } else {
        audio_file_paths(s.drop_last()).push(s.last().path_spec())
    }
}

/// `x` placed into the descending sequence `s`, keeping it descending.
pub open spec fn insert_desc(x: usize, s: Seq<usize>) -> Seq<usize>
    decreases s.len(),
{
    if s.len() == 0 {
        seq![x]
    } else if x >= s[0] {
        s.insert(0, x)
    } else {
        insert_desc(x, s.drop_first()).insert(0, s[0])
    }
}

/// `s` sorted into descending order.
pub open spec fn sort_desc_spec(s: Seq<usize>) -> Seq<usize>
    decreases s.len(),
{
    if s.len() == 0 {
        s
    } else {
        insert_desc(s[0], sort_desc_spec(s.drop_first()))
    }
}

/// The queue left after striking out the given zero-based positions one
/// after the other; a position beyond the queue's current end is ignored.
pub open spec fn remove_indices(q: Seq<Music>, idxs: Seq<usize>) -> Seq<Music>
    decreases idxs.len(),
{
    if idxs.len() == 0 {
        q
    } else {
        let stepped = if (idxs[0] as int) < q.len() {
            q.remove(idxs[0] as int)
        } else {
            q
        };
        remove_indices(stepped, idxs.drop_first())
    }
}

/// The now-playing track as the tick leaves it: with its position
/// recomputed from the anchor unless the sink is paused.
pub open spec fn tick_playing(m: Music, sink_paused: bool, now: u64) -> Music {
    if !sink_paused {
        position_at(m, now)
    } else {
        m
    }
}

fn insert_desc_exec(x: usize, s: Vec<usize>) -> (r: Vec<usize>)
    ensures
        r@ == insert_desc(x, s@),
    decreases s@.len(),
{
    let mut s = s;
    if s.len() == 0 {
        let mut r: Vec<usize> = Vec::new();
        r.push(x);
        proof {
            assert(r@ =~= seq![x]);
        }
        r
    } else if x >= s[0] {
        s.insert(0, x);
        s
    } else {
        let h = s.remove(0);
        let mut r = insert_desc_exec(x, s);
        r.insert(0, h);
        r
    }
}

fn sort_desc(s: Vec<usize>) -> (r: Vec<usize>)
    ensures
        r@ == sort_desc_spec(s@),
    decreases s@.len(),
{
    let mut s = s;
    if s.len() == 0 {
        s
    } else {
        let h = s.remove(0);
        let rest = sort_desc(s);
        insert_desc_exec(h, rest)
    }
}

proof fn lemma_remove_keeps_unanchored(q: Seq<Music>, j: int)
    requires
        0 <= j < q.len(),
        forall|i: int| 0 <= i < q.len() ==> (#[trigger] q[i]).start_time is None,
    ensures
        forall|i: int|
            0 <= i < q.remove(j).len() ==> (#[trigger] q.remove(j)[i]).start_time is None,
{
    assert forall|i: int| 0 <= i < q.remove(j).len() implies (
    #[trigger] q.remove(j)[i]).start_time is None by {
        if i < j {
            assert(q.remove(j)[i] == q[i]);
        } else {
            assert(q.remove(j)[i] == q[i + 1]);
        }
    }
}

proof fn lemma_remove_indices_keeps_unanchored(q: Seq<Music>, idxs: Seq<usize>)
    requires
        forall|i: int| 0 <= i < q.len() ==> (#[trigger] q[i]).start_time is None,
    ensures
        forall|i: int|
            0 <= i < remove_indices(q, idxs).len() ==> (#[trigger] remove_indices(q, idxs)[i]).start_time is None,
    decreases idxs.len(),
{
    if idxs.len() > 0 {
        let stepped = if (idxs[0] as int) < q.len() {
            q.remove(idxs[0] as int)
        } else {
            q
        };
        if (idxs[0] as int) < q.len() {
            lemma_remove_keeps_unanchored(q, idxs[0] as int);
        }
        lemma_remove_indices_keeps_unanchored(stepped, idxs.drop_first());
    }
}

impl App {
    /// The paths of every file entry in the current listing, in listing
    /// order: what the ALL command asks the track loader for.
    pub fn files_to_add(&self) -> (paths: Vec<String>)
        ensures
            paths@.map_values(|p: String| p@) == audio_file_paths(self.directory_contents@),
    {
        let mut paths: Vec<String> = Vec::new();
        let n = self.directory_contents.len();
        let mut i: usize = 0;
        while i < n
            invariant
                0 <= i <= n,
                n == self.directory_contents@.len(),
                paths@.map_values(|p: String| p@) == audio_file_paths(
                    self.directory_contents@.subrange(0, i as int),
                ),
            decreases n - i,
        {
            let ghost prefix = self.directory_contents@.subrange(0, i as int);
            match &self.directory_contents[i] {
                DirectoryItem::File(p) => {
                    paths.push(p.clone());
                },
                DirectoryItem::Directory(_) => {},
            }
            proof {
                assert(self.directory_contents@.subrange(0, i + 1).drop_last() =~= prefix);
                assert(self.directory_contents@.subrange(0, i + 1).last()
                    == self.directory_contents@[i as int]);
                assert(paths@.map_values(|p: String| p@) =~= audio_file_paths(
                    self.directory_contents@.subrange(0, i + 1),
                ));
            }
            i = i + 1;
        }
        proof {
            assert(self.directory_contents@.subrange(0, n as int) =~= self.directory_contents@);
        }
        paths
    }

    /// Takes the loader's outcome for the selected file: a loaded track
    /// joins the end of the pending queue, a failure is recorded in the
    /// error slot.
    pub fn add_music_to_list(&mut self, loaded: Result<Music, String>)
        requires
            old(self).wf(),
            loaded matches Ok(m) ==> m.start_time is None,
        ensures
            final(self).wf(),
            match loaded {
                Ok(m) => {
                    &&& final(self).play_music_list@ == old(self).play_music_list@.push(m)
                    &&& *final(self) == (App {
                        play_music_list: final(self).play_music_list,
                        ..*old(self)
                    })
                },
                Err(e) => *final(self) == (App { error: Some(e), ..*old(self) }),
            },
    {
        match loaded {
            Ok(music) => self.play_music_list.push(music),
            Err(e) => self.error = Some(e),
        }
    }

    /// Takes the loader's outcomes for a whole batch of files: every track
    /// that loaded joins the queue in order, and the error slot ends up
    /// holding the last failure, if any load failed.
    pub fn add_all_music_to_list(&mut self, loaded: Vec<Result<Music, String>>)
        requires
            old(self).wf(),
            forall|i: int|
                0 <= i < loaded@.len() ==> ((#[trigger] loaded@[i]) matches Ok(m)
                    ==> m.start_time is None),
        ensures
            final(self).wf(),
            final(self).play_music_list@ == old(self).play_music_list@ + ok_musics(loaded@),
            final(self).error == match last_error_of(loaded@) {
                Some(e) => Some(e),
                None => old(self).error,
            },
            *final(self) == (App {
                play_music_list: final(self).play_music_list,
                error: final(self).error,
                ..*old(self)
            }),
    {
        let ghost all = loaded@;
        let total: usize = loaded.len();
        let mut loaded = loaded;
        let mut done: usize = 0;
        while loaded.len() > 0
            invariant
                0 <= done <= all.len(),
                all.len() == total,
                loaded@ == all.skip(done as int),
                forall|i: int|
                    0 <= i < all.len() ==> ((#[trigger] all[i]) matches Ok(m)
                        ==> m.start_time is None),
                self.play_music_list@ == old(self).play_music_list@ + ok_musics(
                    all.take(done as int),
                ),
                self.error == match last_error_of(all.take(done as int)) {
                    Some(e) => Some(e),
                    None => old(self).error,
                },
                *self == (App {
                    play_music_list: self.play_music_list,
                    error: self.error,
                    ..*old(self)
                }),
                old(self).wf(),
                self.wf(),
            decreases loaded@.len(),
        {
            let r = loaded.remove(0);
            proof {
                assert(all.skip(done as int)[0] == all[done as int]);
                assert(all.skip(done as int).remove(0) =~= all.skip(done + 1));
                assert(all.take(done + 1).drop_last() =~= all.take(done as int));
                assert(all.take(done + 1).last() == all[done as int]);
            }
            match r {
                Ok(music) => self.play_music_list.push(music),
                Err(e) => self.error = Some(e),
            }
            done = done + 1;
        }
        proof {
            assert(all.take(all.len() as int) =~= all);
        }
    }

    /// Empties the pending queue; whatever is playing keeps playing.
    pub fn clear_play_music_list(&mut self)
        requires
            old(self).wf(),
        ensures
            final(self).wf(),
            final(self).play_music_list@.len() == 0,
            *final(self) == (App {
                play_music_list: final(self).play_music_list,
                ..*old(self)
            }),
    {
        if self.play_music_list.len() > 0 {
            self.play_music_list = Vec::new();
        }
    }

    /// Strikes the given zero-based positions out of the pending queue,
    /// working from the highest position down so that earlier removals
    /// cannot shift the later ones; positions beyond the queue are
    /// ignored.
    pub fn remove_play_list_by_id(&mut self, to_remove: Vec<usize>)
        requires
            old(self).wf(),
        ensures
            final(self).wf(),
            final(self).play_music_list@ == remove_indices(
                old(self).play_music_list@,
                sort_desc_spec(to_remove@),
            ),
            *final(self) == (App {
                play_music_list: final(self).play_music_list,
                ..*old(self)
            }),
    {
        let sorted = sort_desc(to_remove);
        let ghost s = sorted@;
        let ghost q0 = self.play_music_list@;
        proof {
            assert(s.skip(0) =~= s);
        }
        let mut k: usize = 0;
        while k < sorted.len()
            invariant
                0 <= k <= s.len(),
                sorted@ == s,
                remove_indices(self.play_music_list@, s.skip(k as int)) == remove_indices(q0, s),
                forall|i: int|
                    0 <= i < self.play_music_list@.len() ==> (
                    #[trigger] self.play_music_list@[i]).start_time is None,
                *self == (App {
                    play_music_list: self.play_music_list,
                    ..*old(self)
                }),
            decreases s.len() - k,
        {
            let ghost qk = self.play_music_list@;
            let idx = sorted[k];
            proof {
                assert(s.skip(k as int)[0] == s[k as int]);
                assert(s.skip(k as int).drop_first() =~= s.skip(k + 1));
            }
            if idx < self.play_music_list.len() {
                self.play_music_list.remove(idx);
                proof {
                    lemma_remove_keeps_unanchored(qk, idx as int);
                }
            }
            k = k + 1;
        }
        proof {
            assert(s.skip(s.len() as int) =~= Seq::<usize>::empty());
        }
    }
}

/// Relies on rand's `SliceRandom::shuffle`: an in-place random permutation
/// of the slice.  Which order comes out depends on the thread's generator,
/// so only the multiset of tracks is promised.
#[verifier::external_body]
fn shuffle_musics(v: &mut Vec<Music>)
    ensures
        final(v)@.to_multiset() == old(v)@.to_multiset(),
{
    v.shuffle(&mut rand::thread_rng());
}

impl App {
    /// Randomly permutes the pending queue; the queue's tracks, the
    /// now-playing track and everything else stay what they were.  A queue
    /// of at most one track is left alone.
    pub fn shuffle_playlist(&mut self)
        requires
            old(self).wf(),
        ensures
            final(self).wf(),
            final(self).play_music_list@.to_multiset() == old(
                self,
            ).play_music_list@.to_multiset(),
            *final(self) == (App {
                play_music_list: final(self).play_music_list,
                ..*old(self)
            }),
    {
        if self.play_music_list.len() > 1 {
            let ghost before = self.play_music_list@;
            shuffle_musics(&mut self.play_music_list);
            proof {
                let after = self.play_music_list@;
                assert forall|i: int| 0 <= i < after.len() implies (
                #[trigger] after[i]).start_time is None by {
                    let m = after[i];
                    assert(after.contains(m));
                    vstd::seq_lib::to_multiset_contains(after, m);
                    vstd::seq_lib::to_multiset_contains(before, m);
                    let j = choose|j: int| 0 <= j < before.len() && before[j] == m;
                    assert(before[j].start_time is None);
                }
            }
        }
    }

    /// The path of the track that would play next: the front of the
    /// pending queue.
    pub fn next_music_path(&self) -> (path: Option<String>)
        ensures
            match path {
                Some(p) => self.play_music_list@.len() > 0 && p@
                    == self.play_music_list@[0].path@,
                None => self.play_music_list@.len() == 0,
            },
    {
        if self.play_music_list.len() > 0 {
            Some(self.play_music_list[0].path.clone())
        } else {
            None
        }
    }

    /// Moves on to the next queued track, given the decoder's outcome for
    /// the front of the queue (`None` exactly when the queue is empty, so
    /// there was nothing to decode).  On success the front of the queue
    /// becomes the now-playing track with a playback segment begun at
    /// `now`; on a decode failure the queue is left alone, nothing is
    /// playing and the error is recorded; on an empty queue the engine
    /// goes idle.
    pub fn play_next_music(&mut self, now: u64, decode: Option<Result<(), String>>)
        requires
            old(self).wf(),
            decode is Some <==> old(self).play_music_list@.len() > 0,
        ensures
            final(self).wf(),
            old(self).play_music_list@.len() == 0 ==> *final(self) == (App {
                playing_music: Option::<Music>::None,
                ..*old(self)
            }),
            old(self).play_music_list@.len() > 0 ==> (decode matches Some(Ok(_)) ==> {
                &&& final(self).play_music_list@ == old(self).play_music_list@.drop_first()
                &&& final(self).playing_music == Some(
                    Music { start_time: Some(now), ..old(self).play_music_list@[0] },
                )
                &&& *final(self) == (App {
                    play_music_list: final(self).play_music_list,
                    playing_music: final(self).playing_music,
                    ..*old(self)
                })
            }),
            old(self).play_music_list@.len() > 0 ==> (decode matches Some(Err(e))
                ==> *final(self) == (App {
                playing_music: Option::<Music>::None,
                error: Some(e),
                ..*old(self)
            })),
    {
        if self.play_music_list.len() > 0 {
            match decode {
                Some(Ok(())) => {
                    let ghost q = self.play_music_list@;
                    let mut music = self.play_music_list.remove(0);
                    music.start_time = Some(now);
                    self.playing_music = Some(music);
                    proof {
                        assert(q.remove(0) =~= q.drop_first());
                    }
                },
                Some(Err(e)) => {
                    self.error = Some(e);
                    self.playing_music = None;
                },
                None => {
                    proof {
                        assert(false);
                    }
                },
            }
        } else {
            self.playing_music = None;
        }
    }

    /// Toggles between paused and playing, and hands back what the sink
    /// should now do: `true` to resume, `false` to pause.  On resume the
    /// now-playing track's anchor is rebased so that the elapsed time
    /// since it equals the position where playback paused — without this
    /// the displayed position would jump ahead by the paused duration.
    pub fn stop_or_start_play(&mut self, now: u64, sink_paused: bool) -> (resume: bool)
        requires
            old(self).wf(),
        ensures
            final(self).wf(),
            resume == sink_paused,
            if sink_paused {
                match old(self).playing_music {
                    Some(m) => *final(self) == (App {
                        playing_music: Some(anchored_at(m, now)),
                        ..*old(self)
                    }),
                    None => *final(self) == *old(self),
                }
            } else {
                *final(self) == *old(self)
            },
    {
        if sink_paused {
            match &mut self.playing_music {
                Some(music) => {
                    let pos = music.play_position;
                    music.start_time = Some(
                        if pos <= now {
                            now - pos
                        } else {
                            0
                        },
                    );
                },
                None => {},
            }
        }
        sink_paused
    }

    /// The path the tick would feed to a drained sink: under `PlayOrder`,
    /// or with nothing playing, the front of the pending queue; under
    /// `SingleCycle` the now-playing track itself.  `None` when the sink
    /// is not empty or there is nothing to feed.
    pub open spec fn feed_target(self, sink_empty: bool) -> Option<Seq<char>> {
        if !sink_empty {
            None
        } else {
            match (self.play_style, self.playing_music) {
                (PlayStyle::SingleCycle, Some(m)) => Some(m.path@),
                _ => if self.play_music_list@.len() > 0 {
                    Some(self.play_music_list@[0].path@)
                } else {
                    None
                },
            }
        }
    }

    /// The path of the track the tick needs decoded, per `feed_target`.
    pub fn music_to_feed(&self, sink_empty: bool) -> (path: Option<String>)
        ensures
            match path {
                Some(p) => self.feed_target(sink_empty) == Some(p@),
                None => self.feed_target(sink_empty) is None,
            },
    {
        if !sink_empty {
            return None;
        }
        let single = match self.play_style {
            PlayStyle::SingleCycle => true,
            PlayStyle::PlayOrder => false,
        };
        if single {
            match &self.playing_music {
                Some(music) => {
                    return Some(music.path.clone());
                },
                None => {},
            }
        }
        self.next_music_path()
    }

    /// One tick of the playback synchronizer.  If the sink has drained,
    /// the engine first advances: under `SingleCycle` with a track playing
    /// it re-feeds the same track from position zero and the pending queue
    /// is untouched; otherwise it pulls the front of the queue, or goes
    /// idle.  `decode` is the decoder's outcome for the path given by
    /// `music_to_feed`.  Then, unless the sink is paused, the now-playing
    /// track's position is recomputed from its anchor.
    pub fn check_music_list(
        &mut self,
        now: u64,
        sink_empty: bool,
        sink_paused: bool,
        decode: Option<Result<(), String>>,
    )
        requires
            old(self).wf(),
            decode is Some <==> old(self).feed_target(sink_empty) is Some,
        ensures
            final(self).wf(),
            !sink_empty ==> *final(self) == (App {
                playing_music: match old(self).playing_music {
                    Some(m) => Some(tick_playing(m, sink_paused, now)),
                    None => None,
                },
                ..*old(self)
            }),
            sink_empty && old(self).play_style == PlayStyle::SingleCycle ==> (old(
                self,
            ).playing_music matches Some(m) ==> match decode {
                Some(Ok(_)) => *final(self) == (App {
                    playing_music: Some(Music { play_position: 0, start_time: Some(now), ..m }),
                    ..*old(self)
                }),
                Some(Err(e)) => *final(self) == (App {
                    playing_music: Some(tick_playing(m, sink_paused, now)),
                    error: Some(e),
                    ..*old(self)
                }),
                None => false,
            }),
            sink_empty && (old(self).play_style == PlayStyle::PlayOrder || old(
                self,
            ).playing_music is None) ==> {
                &&& old(self).play_music_list@.len() == 0 ==> *final(self) == (App {
                    playing_music: Option::<Music>::None,
                    ..*old(self)
                })
                &&& old(self).play_music_list@.len() > 0 ==> (decode matches Some(Ok(_)) ==> {
                    &&& final(self).play_music_list@ == old(self).play_music_list@.drop_first()
                    &&& final(self).playing_music == Some(
                        tick_playing(
                            Music { start_time: Some(now), ..old(self).play_music_list@[0] },
                            sink_paused,
                            now,
                        ),
                    )
                    &&& *final(self) == (App {
                        play_music_list: final(self).play_music_list,
                        playing_music: final(self).playing_music,
                        ..*old(self)
                    })
                })
                &&& old(self).play_music_list@.len() > 0 ==> (decode matches Some(Err(e))
                    ==> *final(self) == (App {
                    playing_music: Option::<Music>::None,
                    error: Some(e),
                    ..*old(self)
                }))
            },
    {
        if sink_empty {
            let single = match self.play_style {
                PlayStyle::SingleCycle => true,
                PlayStyle::PlayOrder => false,
            };
            let has_playing = match &self.playing_music {
                Some(_) => true,
                None => false,
            };
            if single && has_playing {
                match decode {
                    Some(Ok(())) => {
                        match &mut self.playing_music {
                            Some(music) => {
                                music.play_position = 0;
                                music.start_time = Some(now);
                            },
                            None => {},
                        }
                    },
                    Some(Err(e)) => {
                        self.error = Some(e);
                    },
                    None => {
                        proof {
                            assert(false);
                        }
                    },
                }
            } else {
                self.play_next_music(now, decode);
            }
        }
        if !sink_paused {
            match &mut self.playing_music {
                Some(music) => {
                    let st = match music.start_time {
                        Some(t) => t,
                        None => 0,
                    };
                    music.play_position = if st <= now {
                        now - st
                    } else {
                        0
                    };
                },
                None => {},
            }
        }
    }
}

/// The page arithmetic behind both page jumps, for a valid selection `i` of
/// a non-empty listing: the page count written with `ceil` equals the form
/// computed from `len - 1`, page starts stay inside the listing, and the
/// selection's page start lies at or before the selection.
proof fn lemma_page_arith(len: int, i: int, height: usize)
    requires
        0 <= i < len,
    ensures
        total_pages(len, height) == (len - 1) / effective_height(height) + 1,
        page_of(i, height) * effective_height(height) <= i,
        page_of(i, height) + 1 < total_pages(len, height) ==> (page_of(i, height) + 1)
            * effective_height(height) <= len - 1,
        page_of(i, height) > 0 ==> (page_of(i, height) - 1) * effective_height(height) < len,
{
    let h = effective_height(height);
    vstd::arithmetic::div_mod::lemma_fundamental_div_mod(i, h);
    vstd::arithmetic::div_mod::lemma_fundamental_div_mod(len - 1, h);
    vstd::arithmetic::div_mod::lemma_div_plus_one(len - 1, h);
    vstd::arithmetic::div_mod::lemma_div_is_ordered(i, len - 1, h);
    if page_of(i, height) + 1 <= (len - 1) / h {
        vstd::arithmetic::mul::lemma_mul_inequality(page_of(i, height) + 1, (len - 1) / h, h);
    }
    vstd::arithmetic::mul::lemma_mul_is_commutative(page_of(i, height), h);
    vstd::arithmetic::mul::lemma_mul_is_commutative(page_of(i, height) + 1, h);
    vstd::arithmetic::mul::lemma_mul_is_commutative((len - 1) / h, h);
    if page_of(i, height) > 0 {
        vstd::arithmetic::mul::lemma_mul_inequality(page_of(i, height) - 1, page_of(i, height), h);
    }
}

/// One cursor operation of the browser.
pub enum NavOp {
    Top,
    Bottom,
    Up(i32),
    Down(usize),
    NextPage,
    PreviousPage,
}

/// What one cursor operation does to the state.
pub open spec fn nav_step(a: App, op: NavOp) -> App {
    match op {
        NavOp::Top => a.move_top_spec(),
        NavOp::Bottom => a.move_bottom_spec(),
        NavOp::Up(step) => a.move_up_spec(step as int),
        NavOp::Down(step) => a.move_down_spec(step as int),
        NavOp::NextPage => a.next_page_spec(),
        NavOp::PreviousPage => a.previous_page_spec(),
    }
}

/// The state after a whole sequence of cursor operations.
pub open spec fn nav_run(a: App, ops: Seq<NavOp>) -> App
    decreases ops.len(),
{
    if ops.len() == 0 {
        a
    } else {
        nav_run(nav_step(a, ops[0]), ops.skip(1))
    }
}

/// One cursor operation keeps the state well formed and touches nothing
/// but the selection.
proof fn lemma_nav_step(a: App, op: NavOp)
    requires
        a.wf(),
    ensures
        nav_step(a, op).wf(),
        nav_step(a, op) == (App { selection_index: nav_step(a, op).selection_index, ..a }),
{
    match op {
        NavOp::NextPage => {
            if let Some(i) = a.selection_index {
                lemma_page_arith(a.listing_len(), i as int, a.window_height);
            }
        },
        NavOp::PreviousPage => {
            if let Some(i) = a.selection_index {
                lemma_page_arith(a.listing_len(), i as int, a.window_height);
            }
        },
        _ => {},
    }
}

/// However the cursor is moved on a non-empty listing — to the ends, by
/// steps, or by pages — the selection always exists and stays inside the
/// listing, which itself never changes.
pub proof fn lemma_navigation_in_bounds(a: App, ops: Seq<NavOp>)
    requires
        a.wf(),
        a.listing_len() > 0,
    ensures
        nav_run(a, ops).wf(),
        nav_run(a, ops).directory_contents == a.directory_contents,
        nav_run(a, ops).selection_index matches Some(i) && 0 <= i < a.listing_len(),
    decreases ops.len(),
{
    if ops.len() > 0 {
        lemma_nav_step(a, ops[0]);
        lemma_navigation_in_bounds(nav_step(a, ops[0]), ops.skip(1));
    }
}

/// On an empty listing there is no selection, and every sequence of
/// cursor operations leaves the state exactly as it was.
pub proof fn lemma_empty_listing_nav_noop(a: App, ops: Seq<NavOp>)
    requires
        a.wf(),
        a.listing_len() == 0,
    ensures
        a.selection_index is None,
        nav_run(a, ops) == a,
    decreases ops.len(),
{
    if ops.len() > 0 {
        lemma_nav_step(a, ops[0]);
        lemma_empty_listing_nav_noop(nav_step(a, ops[0]), ops.skip(1));
    }
}

} // verus!
