pub mod rating;
pub mod version;
pub mod schema;
pub mod song_list;
pub mod parser;
pub mod favorite_songs;
pub mod associated_user_data;
pub mod data_collector;
pub mod internal_lv_estimator;
pub mod estimate_rating;
pub mod estimator_config_multiuser;
pub mod official_song_list;
