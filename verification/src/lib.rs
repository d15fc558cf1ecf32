//! The editing rules of OpenAtelier, a video editor: what every command, panel and window of
//! it decides, apart from drawing, files, sound and the graphics card.
//!
//! `doc` holds the timeline and the changes made to it, `editor` the session around it; a
//! command looks at them and says which changes to make. The other modules follow the parts of
//! the window: the media bin, the inspector, captions, exporting and so on.

pub mod assets;
pub mod audition;
pub mod autosave;
pub mod band;
pub mod bin;
pub mod caption_jobs;
pub mod caption_laws;
pub mod caption_lines;
pub mod caption_preview;
pub mod caption_style;
pub mod caption_track;
pub mod caption_window;
pub mod captions;
pub mod card_laws;
pub mod cards;
pub mod changes;
pub mod clip_index;
pub mod clips;
pub mod color;
pub mod command;
pub mod compound;
pub mod connections;
pub mod crop;
pub mod curves;
pub mod deps;
pub mod doc;
pub mod doc_laws;
pub mod editor;
pub mod effect_laws;
pub mod effects;
pub mod export;
pub mod export_laws;
pub mod folder_laws;
pub mod folders;
pub mod fontpick;
pub mod formats;
pub mod fresh_laws;
pub mod guard;
pub mod home;
pub mod i18n;
pub mod icons;
pub mod inspect_laws;
pub mod inspector;
pub mod keyframing;
pub mod layout;
pub mod logo;
pub mod nesting;
pub mod order;
pub mod outcomes;
pub mod path_laws;
pub mod placing;
pub mod project;
pub mod properties;
pub mod selection;
pub mod seqs;
pub mod session;
pub mod session_laws;
pub mod setting_laws;
pub mod sound_laws;
pub mod steps;
pub mod text;
pub mod text_laws;
pub mod timeline_laws;
pub mod transform;
pub mod window_laws;
pub mod words;
