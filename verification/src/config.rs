//! The shape of the start-up configuration: where the music library lives
//! and the colour theme, as plain strings.  Reading the configuration file
//! and parsing the colours belong to the bootstrap collaborator; the
//! engine only consumes the resulting record.

use vstd::prelude::*;

verus! {

/// The start-up configuration.
#[derive(PartialEq, Eq, Clone, Debug)]
pub struct InitConfig {
    pub music_database: String,
    pub theme: InitTheme,
}

/// The colour theme, one colour string (`"#RRGGBB"`) per themed element.
#[derive(PartialEq, Eq, Clone, Debug)]
pub struct InitTheme {
    pub list_title_color: String,
    pub list_title_page_color: String,
    pub list_border_color: String,
    pub list_music_color: String,
    pub list_folder_color: String,
    pub list_icon_color: String,
    pub list_selected_color: String,
    pub search_border_color: String,
    pub search_icon_color: String,
    pub search_font_color: String,
    pub command_font_color: String,
    pub command_border_color: String,
    pub music_pic_color1: String,
    pub music_pic_color2: String,
    pub usage_color_left: String,
    pub usage_color_right: String,
    pub cut_off_rule_color: String,
    pub play_music_list_title_color: String,
    pub play_music_list_border_color: String,
    pub play_music_list_id_color: String,
    pub play_music_list_duration_color: String,
    pub play_music_list_name_color: String,
    pub play_music_list_artist_color: String,
    pub play_music_list_album_color: String,
    pub play_music_list_header_color: String,
    pub playing_music_border_color: String,
    pub playing_music_name_color: String,
    pub gauge_color: String,
    pub gauge_border_color: String,
    pub gauge_label_color: String,
}

} // verus!
