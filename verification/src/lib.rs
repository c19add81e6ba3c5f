//! The rules of a recipe catalog whose recipes are found through two search
//! indexes, a lexical one and a vector one.
//!
//! The store, the indexes and the network are the caller's. This library
//! decides: what to do next while a recipe is brought into both indexes
//! ([`search_indexer`], [`reconciler`]), and how what the two indexes found
//! for a query becomes one ranked answer ([`hybrid_search`], [`score`]).
//! What indexing does to the store and the indexes, whatever fails and
//! whoever works at the same time, is proved against a model of them
//! ([`catalog`], [`backlog`], [`exclusion`]).
//!
//! Around that stand the catalog's data ([`model`]), the service's own rules
//! ([`recipe_service`], [`auth`], [`app_config`]), what the pages make of
//! their forms and ask of the service ([`forms`], [`api`], [`util`],
//! [`worker`]), and decimal notation ([`decimal`]).

pub mod api;
pub mod app_config;
pub mod auth;
pub mod backlog;
pub mod catalog;
pub mod decimal;
pub mod exclusion;
pub mod forms;
pub mod hybrid_search;
pub mod model;
pub mod recipe_service;
pub mod reconciler;
pub mod score;
pub mod search_indexer;
pub mod util;
pub mod worker;
