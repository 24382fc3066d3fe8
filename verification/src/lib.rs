//! The core of the Unity Pipeline CLI, which lets people, scripts and AI agents drive a running
//! Unity Editor through the local HTTP server of the `com.unity.pipeline` package.
//!
//! The library decides and computes; it does no I/O. The program around it sends the requests that
//! the library builds, hands the answers back, and carries out what the library decides.
//!
//! - [`mcp`], [`tools`], [`redact`]: the MCP server, its tool calls, and keeping tokens out of them
//! - [`pipeline`], [`schema`], [`http`]: requests to the server of an Editor and its answers
//! - [`editor`], [`process`]: finding the running Editors and their projects
//! - [`command`], [`arguments`], [`projects`], [`configure`], [`upgrade`]: the other subcommands
//! - [`json`], [`parse`], [`render`]: JSON values, reading them and writing them
//! - [`i18n`], [`locales`]: messages in the language of the user
//! - [`failure`], [`numbers`], [`text`]: what the others share
use vstd::prelude::*;

pub mod arguments;
pub mod command;
pub mod configure;
pub mod editor;
pub mod failure;
pub mod http;
pub mod i18n;
pub mod json;
pub mod locales;
pub mod mcp;
pub mod numbers;
pub mod parse;
pub mod pipeline;
pub mod process;
pub mod projects;
pub mod redact;
pub mod render;
pub mod schema;
pub mod text;
pub mod tools;
pub mod upgrade;
