//! Verified core of the OKX price-action trading agent.
pub mod analysis;
pub mod artifact;
pub mod audit;
pub mod auth;
pub mod backtest;
pub mod benchmark;
pub mod cache;
pub mod decimal;
pub mod digest;
pub mod execution;
pub mod guard;
pub mod json_text;
pub mod labels;
pub mod learning;
pub mod mask;
pub mod numbers;
pub mod okx;
pub mod outcomes;
pub mod paths;
pub mod positions;
pub mod prompts;
pub mod retry;
pub mod settings;
pub mod sizing;
pub mod stage_prompts;
pub mod stance;
pub mod strategy;
pub mod submission;
pub mod text;
pub mod typesafe;
pub mod validation;
pub mod web;
