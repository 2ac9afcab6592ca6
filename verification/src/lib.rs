//! An engine that matches events against a tree of filters and rulesets,
//! extracts variables from them and renders actions.
//!
//! A [`matcher::Matcher`] is compiled once from a [`config::MatcherConfig`]
//! and then processes any number of [`event::Event`]s. Everything that it
//! computes is stated over the views of these types and proved.
pub mod accessor;
pub mod action;
pub mod conf;
pub mod config;
pub mod convert;
pub mod dispatch;
pub mod dto;
pub mod error;
pub mod event;
pub mod extractor;
pub mod laws;
pub mod matcher;
pub mod model;
pub mod number;
pub mod operator;
pub mod path;
pub mod pattern;
pub mod text;
pub mod validator;
pub mod value;
pub mod webhook;
