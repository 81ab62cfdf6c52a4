//! Configuration and start-up logic for running a blindbit-oracle instance
//! next to a regtest bitcoind, with every decision stated and proved.
//!
//! - `storage`: the storage strategies and the server flags they set;
//! - `conf`: the settings of an instance and what they resolve to;
//! - `render`: decimal numbers, socket addresses and URLs as text;
//! - `config`: the oracle's configuration file;
//! - `ready`: recognising the log line that announces HTTP service;
//! - `startup`: the decisions taken while the oracle process starts;
//! - `logs`: turning bytes read from the process into log lines;
//! - `process`: the process id used to signal the oracle;
//! - `error`: the errors of starting and stopping.

mod conf;
mod config;
mod error;
mod logs;
mod process;
mod ready;
mod render;
mod startup;
mod storage;

pub use conf::{lemma_defaults_differ_only_in_mode, opt_chars, Conf, ConfView, DATADIR_FLAG, DEFAULT_ATTEMPTS, DEFAULT_IP};
pub use config::{
    bool_flag, config_text, lemma_config_determines_mode, lemma_config_ends_with_mode_lines,
    lemma_config_names_rpc_endpoint, lemma_listen_address_only_in_host_line, lemma_url_names_configured_host, quoted,
    render_config, setting, RpcTarget, CHAIN, MAX_PARALLEL_REQUESTS,
    MAX_PARALLEL_TWEAK_COMPUTATIONS, SYNC_START_HEIGHT,
};
pub use error::Error;
pub use logs::{lemma_cut_after_newline, lemma_lines_of_valid_input, line_from_read, newline_byte};
pub use process::{signal_pid, signed_pid};
pub use ready::{
    bytes_contain, contains_bytes, is_ready_line, is_ready_text, lemma_ready_exactly_with_marker,
    occurs_at, READY_MARKER,
};
pub use render::{
    all_digits, decimal, decimal_string, digit_char, digit_value, digits_value, dotted_quad,
    dotted_quad_string, lemma_decimal_injective, lemma_decimal_reads_back, server_url,
    socket_string, socket_text, url_text,
};
pub use startup::{
    begin, begin_spec, lemma_accepts_exactly_ready_lines, lemma_deadline_retries_or_fails,
    lemma_log_lines_accept_or_wait,
    lemma_finished_stays, lemma_retries_until_attempts_run_out, lemma_run_within_budget,
    lemma_spawns_at_most_attempts, lemma_step_budget, run, silent_attempts, spawn_budget, spawns,
    step, step_spec, Action, Event, EventView, Phase,
};
pub use storage::{flags_of, lemma_flags_injective, lemma_flags_one_hot, Storage};
