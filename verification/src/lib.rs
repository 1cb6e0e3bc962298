//! Core engine of a terminal dashboard that watches a cluster's resources:
//! a generic tabular resource model with time-relative sorting and plain-text
//! rendering, an ANSI-escape-aware text pipeline, the window/widget state
//! machine that owns focus and navigation, and the pure decision logic of the
//! event dispatch loop and the polling workers.

pub mod strutil;

pub mod table;

pub mod ansi;

pub mod input;

pub mod widget;

pub mod event;

pub mod worker;

pub mod window;

pub mod dispatch;

pub mod gateway;
