//! Verified core of the Gem Finder service: identifier encoding, text
//! handling, list filtering, scoring gates, rate limiting and request rules.

pub mod text;
pub mod ids;
pub mod watch;
pub mod catalog;
pub mod ratelimit;
pub mod scoring;
pub mod events;
pub mod auth;
pub mod recs;
pub mod seeding;
pub mod pacing;
pub mod jobs;
pub mod tmdb;
pub mod omdb;
pub mod providers;
pub mod i18n;
pub mod format;
pub mod tokens;
pub mod schema;
pub mod challenges;
pub mod session;
pub mod classify;
