//! Discovery, icon caching and order persistence for an application launcher.
pub mod commands;
pub mod discovery;
pub mod icon_cache;
pub mod locations;
pub mod model;
pub mod order;
pub mod paths;
pub mod persist;
pub mod text;
