pub mod clock;
pub mod calendar;
pub mod text;
pub mod split;
pub mod num;
pub mod types;
pub mod activity;
pub mod input;
pub mod grid;
pub mod selection;
pub mod paste;
pub mod metrics;
pub mod panes;
pub mod jj;
pub mod status;
pub mod shortcuts;
pub mod sidebar;
pub mod watch;
pub mod notify;
pub mod shell;
pub mod codecs;
pub mod replay;
pub mod bootstrap;
pub mod profile;
pub mod activity_map;
pub mod codex;
pub mod layout;
pub mod taskspace;
pub mod latency;
pub mod rows;
pub mod launch;
pub mod prompts;
pub mod toasts;
pub mod relation;
pub mod refresh;
pub mod migrations;
pub mod terminal_events;
