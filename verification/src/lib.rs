//! Verified core of a terminal multiplexer server.
//!
//! The modules hold the decisions of the server: how Panes, Tabs and Projects
//! are arranged, what a client queue keeps, how agent status is reconciled, how
//! orchestration runs advance, and what the chrome shows. Sockets, PTYs and the
//! poll loop live outside this crate and exchange plain values with it.
pub mod layout;
pub mod types;
pub mod hierarchy;
pub mod tabs;
pub mod text;
pub mod metadata;
pub mod projects;
pub mod focus;
pub mod hierarchy_laws;
pub mod import;
pub mod restore;
pub mod scope;
pub mod queue;
pub mod pane_io;
pub mod search_path;
pub mod cwd;
pub mod chrome_text;
pub mod template;
pub mod path_text;
pub mod template_laws;
pub mod decision_laws;
pub mod operation_laws;
pub mod service_laws;
pub mod exchange_laws;
pub mod detection;
pub mod pane_events;
pub mod launch;
pub mod reaper;
pub mod guardrail;
pub mod artifact;
pub mod orchestration;
pub mod run_flow;
pub mod lists;
pub mod run_actions;
pub mod run_submit;
pub mod run_recovery;
pub mod run_launch;
pub mod run_timers;
pub mod run_laws;
pub mod submission_laws;
pub mod commands;
pub mod clients;
pub mod settings;
pub mod policy_laws;
pub mod checkpoint;
pub mod notify;
pub mod order;
pub mod listings;
pub mod observatory;
pub mod instruction;
pub mod waits;
pub mod canvas;
pub mod paint;
pub mod rail;
pub mod overview;
pub mod tiles;
pub mod status;
pub mod sidebars;
pub mod frame;
pub mod mouse;
pub mod pointer;
pub mod control;
pub mod messages;
pub mod session;
pub mod session_laws;
pub mod following;
pub mod agent_launch;
pub mod dev_servers;
pub mod catalog;
pub mod listing_laws;
pub mod replies;
pub mod snapshot;
pub mod run_record;
pub mod menu;
pub mod broadcast;
pub mod client_laws;
pub mod sources;
pub mod turns;
pub mod records;
pub mod notices;
pub mod agent_laws;
pub mod artifact_gate;
pub mod files;
pub mod retiring;
pub mod server;
pub mod configuring;
pub mod closing;
pub mod serving;
pub mod sweeping;
pub mod messaging;
pub mod importing;
pub mod recovery;
pub mod recovery_laws;
pub mod server_laws;
pub mod cards;
pub mod drawing_laws;
pub mod pointing;
pub mod pointer_laws;
pub mod viewport;
pub mod chrome_laws;
