//! The Catacomb II engine: data types, the PC speaker emulation, the
//! random number generators, input decoding and the on-disk formats.

pub mod active_obj;
pub mod control_struct;
pub mod dir_type;
pub mod gr_type;
pub mod input_type;
pub mod obj_def_type;
pub mod obj_type;
pub mod pcrlib_a;
pub mod pic_file_type;
pub mod pic_type;
pub mod sound_type;
pub mod spksndtype;
pub mod sprite_type;
pub mod tag_type;
pub mod think_type;
pub mod le_bytes;
pub mod scores;
pub mod pcrlib_a_state;
pub mod spkr_table;
pub mod rleasm;
pub mod cpanel_state;
pub mod ctl_panel_type;
pub mod demo_enum;
pub mod pcrlib_c_state;
pub mod scan_codes;
pub mod pcrlib_c;
pub mod catacomb;
pub mod screen;
pub mod catasm;
pub mod text_window;
pub mod score_screen;
pub mod inventory;
pub mod cat_play;
pub mod movement;
pub mod saved_game;
pub mod level_map;
pub mod shots;
pub mod help;
pub mod setup;
pub mod combat;
pub mod game_flow;
pub mod fkeys;
pub mod contact;
pub mod walking;
pub mod player;
