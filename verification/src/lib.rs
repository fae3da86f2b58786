//! Keeps a catalog of movies and series in step with the services that know
//! about them, and tells which titles have not been watched for so long that
//! they can be deleted.
//!
//! The catalog holds one canonical record per title ([`title`], [`catalog`]).
//! A discovery service reports which titles exist, two tiers of acquisition
//! services report where their files are, and watch-activity services report
//! when they were played ([`facts`], [`activity`], [`services`]). Each report
//! is merged into the record of its title by rules that never lose what is
//! known: a tier writes only its own path, a last view only moves forward.
//! The storage registry tells the root folders of the acquisition services
//! and the storage pools behind them ([`storage`]). What holds of all this
//! for every input is stated and proved in [`laws`] and [`convergence`].

pub mod activity;
pub mod catalog;
pub mod convergence;
pub mod dates;
pub mod error;
pub mod facts;
pub mod json;
pub mod laws;
pub mod services;
pub mod storage;
pub mod text;
pub mod title;
