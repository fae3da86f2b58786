//! The upstream services and the records that callers exchange with them.

pub mod disk;
pub mod jellyfin;
pub mod movie;
pub mod overseerr;
pub mod path;
pub mod radarr;
pub mod serie;
pub mod sonarr;
pub mod tautulli;
