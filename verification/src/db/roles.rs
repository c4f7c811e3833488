//! Contributor roles, as stored in the database.
use vstd::prelude::*;

verus! {

pub const ARTIST: i32 = 1;

pub const COMPOSER: i32 = 2;

pub const CONDUCTOR: i32 = 3;

pub const BAND: i32 = 4;

pub const ALBUMARTIST: i32 = 5;

pub const TRACKARTIST: i32 = 6;

} // verus!
