//! Clipboard capture.
//!
//! What comes onto the clipboard, on this device or from another, is captured
//! into a history. This crate holds the decisions: what is captured, under
//! which identity, in which order it is written, and how the processes that
//! do so are put together. It does no input or output. A capture, the making
//! of a manifest, a cleanup pass and the start of a command are each a value
//! that says what it waits for ([`capture::CaptureRun::request`] and its
//! like); the host does that, hands the answer back, and gets the next value.
//!
//! Three groups of modules build on each other.
//!
//! - Manifests: [`file_set`] and [`files`] hold the lines of a manifest,
//!   [`traversal`] expands copied files and directories into them, and
//!   [`manifest`] reads the selection from a snapshot. What holds of every
//!   expansion is in [`traversal_laws`], [`traversal_caps`],
//!   [`traversal_members`], [`line_indexes`] and [`portability`], what holds
//!   of every manifest in [`manifest_laws`], [`manifest_portability`],
//!   [`devices`] and [`device_courses`]. [`traversal_steps`],
//!   [`manifest_steps`] and [`file_laws`] tell answer by answer what comes of
//!   it.
//! - Captures: [`clipboard`] and [`records`] hold what is read and written,
//!   [`capture`] the course of a capture. What holds of every capture is in
//!   [`capture_laws`], [`capture_order`], [`capture_locks`],
//!   [`capture_listing`], [`capture_payloads`], [`capture_progress`] and
//!   [`capture_targets`]. What is captured at all is in [`capture_support`],
//!   what is written of it in [`capture_course`], under which identity in
//!   [`capture_identity`] and in whose place in [`capture_history`].
//!   [`capture_steps`], [`capture_requests`] and [`clipboard_laws`] tell
//!   question by question what is asked and what comes of the answer.
//! - Processes: [`deps`], [`facades`], [`bootstrap`], [`daemon`] and [`cli`]
//!   put the application together; [`cleanup`] maintains the history,
//!   [`integration`] and [`relay`] read settings and probes. What they are
//!   connected to is in [`wiring_laws`], what they do in [`process_laws`].
//!
//! [`text`], [`sorting`], [`unicode`] and [`views`] are used throughout;
//! [`text_laws`] and [`view_laws`] say what holds of them.

pub mod bootstrap;
pub mod capture;
pub mod capture_course;
pub mod capture_history;
pub mod capture_identity;
pub mod capture_laws;
pub mod capture_listing;
pub mod capture_locks;
pub mod capture_order;
pub mod capture_payloads;
pub mod capture_progress;
pub mod capture_requests;
pub mod capture_steps;
pub mod capture_support;
pub mod capture_targets;
pub mod cleanup;
pub mod cli;
pub mod clipboard;
pub mod clipboard_laws;
pub mod daemon;
pub mod deps;
pub mod device_courses;
pub mod devices;
pub mod facades;
pub mod file_laws;
pub mod file_set;
pub mod files;
pub mod integration;
pub mod line_indexes;
pub mod manifest;
pub mod manifest_laws;
pub mod manifest_portability;
pub mod manifest_steps;
pub mod portability;
pub mod process_laws;
pub mod records;
pub mod relay;
pub mod sorting;
pub mod text;
pub mod text_laws;
pub mod traversal;
pub mod traversal_caps;
pub mod traversal_laws;
pub mod traversal_members;
pub mod traversal_steps;
pub mod unicode;
pub mod view_laws;
pub mod views;
pub mod wiring_laws;
