use vstd::prelude::*;

verus! {

/// Which end, or ends, of a text trimming and padding work on.
#[derive(Clone, Copy, Debug, PartialEq, Eq, Structural)]
pub enum Side {
    Left,
    Right,
    Both,
}

/// Which part of a text truncation keeps.
#[derive(Clone, Copy, Debug, PartialEq, Eq, Structural)]
pub enum Keep {
    Left,
    Right,
    Center,
}

/// The side that `name` spells: `left`, `right` or `both`.
pub open spec fn side_named(name: Seq<char>) -> Option<Side> {
    if name == "left"@ {
        Some(Side::Left)
    } else if name == "right"@ {
        Some(Side::Right)
    } else if name == "both"@ {
        Some(Side::Both)
    } else {
        None
    }
}

/// The part that `name` spells: `left`, `right` or `center`.
pub open spec fn keep_named(name: Seq<char>) -> Option<Keep> {
    if name == "left"@ {
        Some(Keep::Left)
    } else if name == "right"@ {
        Some(Keep::Right)
    } else if name == "center"@ {
        Some(Keep::Center)
    } else {
        None
    }
}

/// Tells whether two strings hold the same characters.
pub fn same_text(a: &str, b: &str) -> (same: bool)
    ensures
        same == (a@ == b@),
{
    a.to_owned() == b.to_owned()
}

/// Reads a side from its name.
pub fn parse_side(name: &str) -> (side: Option<Side>)
    ensures
        side == side_named(name@),
{
    if same_text(name, "left") {
        Some(Side::Left)
    } else if same_text(name, "right") {
        Some(Side::Right)
    } else if same_text(name, "both") {
        Some(Side::Both)
    } else {
        None
    }
}

/// Reads the part to keep from its name.
pub fn parse_keep(name: &str) -> (keep: Option<Keep>)
    ensures
        keep == keep_named(name@),
{
    if same_text(name, "left") {
        Some(Keep::Left)
    } else if same_text(name, "right") {
        Some(Keep::Right)
    } else if same_text(name, "center") {
        Some(Keep::Center)
    } else {
        None
    }
}

} // verus!
