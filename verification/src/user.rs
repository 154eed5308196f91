//! Who plays, and how their games went.

use vstd::prelude::*;

verus! {

/// A caller as the identity provider describes them. Only `sub`, the
/// opaque identifier, matters to the service.
#[derive(Debug)]
pub struct UserInfo {
    pub sub: String,
    pub name: Option<String>,
    pub email: Option<String>,
}

/// How many of a user's games are won, lost and still in progress.
#[derive(Clone, Copy, Debug, PartialEq, Eq, Structural)]
pub struct UserStatsDto {
    pub won: i32,
    pub lost: i32,
    pub in_progress: i32,
}

} // verus!
