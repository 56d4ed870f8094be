//! Decision core of a media server: what a request, a catalog import or a library refresh does
//! with the rows it is handed, stated as contracts and proved.

pub mod text;
pub mod number;
pub mod text_laws;
pub mod ids;
pub mod catalog;
pub mod sequences;
pub mod time;
pub mod lookup;
pub mod media;
pub mod metadata;
pub mod counts;
pub mod import_rules;
pub mod import;
pub mod import_laws;
pub mod import_step_laws;
pub mod import_run_laws;
pub mod cleanup;
pub mod prune_laws;
pub mod library_plan;
pub mod task;
pub mod refresh_library;
pub mod library_laws;
pub mod collection_images;
pub mod refresh_all_meta;
pub mod activity;
pub mod nextup;
pub mod nextup_laws;
pub mod watch_laws;
pub mod query;
pub mod shows;
pub mod upcoming;
pub mod calendar;
pub mod language;
pub mod remote_search;
pub mod subtitles;
pub mod request_laws;
pub mod answer_laws;
pub mod step_laws;
