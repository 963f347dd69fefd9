//! Envoy: coordinates parallel work on GitHub issues across Git worktrees.
pub mod answer;
pub mod base;
pub mod claiming;
pub mod cli;
pub mod command;
pub mod config;
pub mod conflict;
pub mod diagnosis;
pub mod discovery;
pub mod doctor;
pub mod document;
pub mod drift;
pub mod evidence;
pub mod examination;
pub mod execution;
pub mod exit;
pub mod filing;
pub mod git;
pub mod github;
pub mod id;
pub mod json;
pub mod laws;
pub mod lifecycle;
pub mod list;
pub mod model;
pub mod mutuality;
pub mod observation;
pub mod path;
pub mod porcelain;
pub mod printing;
pub mod record;
pub mod recovery;
pub mod redaction;
pub mod run;
pub mod stack;
pub mod status;
pub mod store;
pub mod terminal;
pub mod text;
pub mod time;
pub mod transaction;
