//! Assignment workflow of a classroom platform: drafting, publishing with
//! submission fan-out, deletion, and the student and teacher read views,
//! over an in-memory image of the data store.

pub mod access;
pub mod assignments;
pub mod attachments;
pub mod comments;
pub mod content;
pub mod db;
pub mod errors;
pub mod notify;
pub mod outside;
pub mod records;
pub mod roles;
pub mod roster;
pub mod seqs;
pub mod staff;
pub mod submissions;
pub mod text;
pub mod users;
pub mod views;
