//! Session, streaming and input logic of a terminal coding agent.

pub mod agents;
pub mod answers;
pub mod apart;
pub mod app;
pub mod arriving;
pub mod asking;
pub mod branching;
pub mod catalog;
pub mod choices;
pub mod choosing;
pub mod chunks;
pub mod clock;
pub mod closing;
pub mod commands;
pub mod compaction;
pub mod dialogs;
pub mod drain;
pub mod events;
pub mod faithful;
pub mod family;
pub mod focus;
pub mod heeding;
pub mod history;
pub mod json;
pub mod keeping;
pub mod keys;
pub mod layout;
pub mod live;
pub mod message;
pub mod mouse;
pub mod navigation;
pub mod obeying;
pub mod offering;
pub mod orderly;
pub mod outcomes;
pub mod palette;
pub mod paste;
pub mod pointing;
pub mod prompting;
pub mod queue;
pub mod reasoning;
pub mod remote;
pub mod requests;
pub mod screen;
pub mod selection;
pub mod sending;
pub mod session;
pub mod session_list;
pub mod showing;
pub mod sorting;
pub mod startup;
pub mod state;
pub mod stream;
pub mod summing;
pub mod tasks;
pub mod telling;
pub mod terminal_title;
pub mod text;
pub mod titles;
pub mod transcript;
pub mod turns;
pub mod ui;
pub mod usage;
pub mod workspace;
