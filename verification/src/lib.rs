//! Tollgate: the rules of a local merge gate.

pub mod artifact_table;
pub mod artifacts;
pub mod attempt_table;
pub mod buildset;
pub mod buildset_law;
pub mod buildset_order;
pub mod buildset_table;
pub mod cli;
pub mod cli_law;
pub mod cli_text;
pub mod clone_check;
pub mod clone_tree;
pub mod command;
pub mod command_law;
pub mod commit_law;
pub mod config;
pub mod config_graph;
pub mod config_json;
pub mod config_law;
pub mod config_model;
pub mod config_read;
pub mod config_read_law;
pub mod config_rules;
pub mod configuration_table;
pub mod content_digest;
pub mod decision_law;
pub mod diagnostics;
pub mod document;
pub mod durable_log;
pub mod endian;
pub mod environment;
pub mod error;
pub mod event;
pub mod event_table;
pub mod frame;
pub mod generation_batch;
pub mod generation_table;
pub mod git_error;
pub mod git_flow;
pub mod git_law;
pub mod git_parse;
pub mod git_prefix;
pub mod git_sync;
pub mod git_worktree;
pub mod ids;
pub mod judgement_law;
pub mod intent_table;
pub mod ipc;
pub mod ipc_command;
pub mod item_table;
pub mod json;
pub mod ledger_law;
pub mod log_frame;
pub mod log_law;
pub mod log_writer;
pub mod model;
pub mod noted_item;
pub mod notify;
pub mod notify_law;
pub mod oid;
pub mod outside;
pub mod paths;
pub mod process_law;
pub mod process_tree;
pub mod promotion_table;
pub mod protocol_law;
pub mod queue;
pub mod queue_law;
pub mod raw_commit;
pub mod reading_law;
pub mod repository_cache;
pub mod repository_check;
pub mod repository_law;
pub mod repository_ops;
pub mod repository_reads;
pub mod repository_records;
pub mod repository_store;
pub mod repository_table;
pub mod result_table;
pub mod rules_law;
pub mod runner;
pub mod scan;
pub mod scheduler;
pub mod scheduler_law;
pub mod seed_table;
pub mod seqs;
pub mod service;
pub mod service_law;
pub mod session;
pub mod state;
pub mod state_law;
pub mod step_law;
pub mod step_run;
pub mod storage;
pub mod storage_law;
pub mod store;
pub mod stored_json;
pub mod text;
pub mod text_law;
pub mod text_map;
pub mod tree_law;
pub mod user_socket;
pub mod volume_table;
pub mod wire;
pub mod worker;
pub mod worker_input;
pub mod worker_output;
pub mod workspace_law;
