//! A local mirror of a record collection: releases grouped in folders, a wantlist, the
//! account profile and a chronological listening log. Queries match a normalized form of
//! title and artist; a refresh from the remote catalog replaces the mirror only once every
//! page has been fetched.
pub mod text;
pub mod model;
pub mod listenlog;
pub mod folders;
pub mod store;
pub mod sync;
pub mod session;
