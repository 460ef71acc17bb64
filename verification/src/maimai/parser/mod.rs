pub mod img_src;
pub mod kop_ranking;
pub mod play_record;
pub mod playlog;
pub mod release;
pub mod song_score;
pub mod favorite_songs;
pub mod aime_selection;
pub mod score_record_list;
pub mod score_list;
pub mod rating_target;
pub mod record_index;
pub mod play_record_page;
