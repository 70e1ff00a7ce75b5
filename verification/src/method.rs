//! Names of the methods of the clipboard bus interface.

use vstd::prelude::*;

verus! {

pub const CAPTURE_TEXT: &'static str = "CaptureText";
pub const LIST_RECENT: &'static str = "ListRecent";
pub const SEARCH: &'static str = "Search";
pub const GET_TEXT: &'static str = "GetText";
pub const DELETE_ITEM: &'static str = "DeleteItem";
pub const CLEAR: &'static str = "Clear";
pub const GET_SETTINGS: &'static str = "GetSettings";
pub const SET_MAX_HISTORY: &'static str = "SetMaxHistory";
pub const SHOW_APP: &'static str = "ShowApp";
pub const HEALTH: &'static str = "Health";

} // verus!
