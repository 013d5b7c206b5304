//! Decision core of `echod`, a restartable line-echo daemon.

pub mod acceptor;
pub mod admin;
pub mod auth;
pub mod cli;
pub mod config;
pub mod control;
pub mod fault_inject;
pub mod grandparent;
pub mod handoff;
pub mod health;
pub mod limits;
pub mod lines;
pub mod link;
pub mod metrics;
pub mod processor;
pub mod roles;
pub mod rolling;
pub mod scanner;
pub mod schema;
pub mod security;
pub mod self_upgrade;
pub mod session;
pub mod supervise;
pub mod syscalls;
pub mod systemd;
pub mod text;
pub mod text_map;
pub mod time;
pub mod tls_cert;
pub mod tls_drain;
pub mod upgrade;
pub mod watchdog;
pub mod worker_common;
pub mod worker_control;
