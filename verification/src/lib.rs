//! Backups of collections of points: what is stored of points and collections, and what is
//! restored from it.
//!
//! A point is stored as an Avro record that holds its id, and its payload and its vectors as JSON
//! text; a collection as notes in JSON. The modules `backup` and `restore` hold the two directions.
//! `views`, `stored_form` and `restored_form` say part by part what values stand for, what is
//! stored and what is restored, and `laws` what comes back.
pub mod avro_schema;
pub mod backup;
pub mod batches;
pub mod collections;
pub mod dict;
pub mod directories;
pub mod error;
pub mod json;
pub mod json_text;
pub mod laws;
pub mod points;
pub mod restore;
pub mod restored_form;
pub mod stored_form;
pub mod text_order;
pub mod views;
