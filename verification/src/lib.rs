//! Transforms a text as a language model instructs, by way of a small
//! line-oriented diff grammar: the model writes a transcript of `insert`,
//! `delete`, `goto` and `note` lines, and the transcript is applied to the
//! text by content, not by line number.
//!
//! - [`text`]: texts as lines, splitting and joining.
//! - [`transcript`]: the grammar, read and written.
//! - [`replay`]: the forward-only cursor that applies a changeset.
//! - [`common`]: `diff` and `undiff`, and what holds of every transcript.
//! - [`round_trip`]: when `undiff` gives back what `diff` was given.
//! - [`pipeline`]: what is decided around the calls of the model gateway.
//! - [`api`], [`api_client`], [`prompt`]: the gateway's messages, its
//!   requests, and the conversation that opens every request.
//! - [`config_files`], [`powers`], [`pretrain_sample`]: configuration,
//!   the capabilities granted to the model, and fine-tuning samples.
pub mod api;
pub mod api_client;
pub mod common;
pub mod config_files;
pub mod pipeline;
pub mod powers;
pub mod pretrain_sample;
pub mod prompt;
pub mod replay;
pub mod round_trip;
pub mod text;
pub mod transcript;
