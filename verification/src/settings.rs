//! The part of the player's settings that its menus are made from.
use vstd::prelude::*;

verus! {

/// Position and size of a window.
#[derive(Clone, Copy, Debug, PartialEq, Eq, Structural)]
pub struct Bounds {
    pub width: u32,
    pub height: u32,
    pub x: i32,
    pub y: i32,
}

/// The order a playlist is kept in.
#[derive(Clone, Copy, Debug, PartialEq, Eq, Structural)]
pub enum SortOrder {
    NameAsc,
    NameDesc,
    DateAsc,
    DateDesc,
}

impl SortOrder {
    /// The name the order goes by in menus and settings.
    pub open spec fn spec_name(self) -> Seq<char> {
        match self {
            SortOrder::NameAsc => "NameAsc"@,
            SortOrder::NameDesc => "NameDesc"@,
            SortOrder::DateAsc => "DateAsc"@,
            SortOrder::DateDesc => "DateDesc"@,
        }
    }

    /// The name as text.
    pub fn name(&self) -> (text: &'static str)
        ensures
            text@ == self.spec_name(),
    {
        match self {
            SortOrder::NameAsc => "NameAsc",
            SortOrder::NameDesc => "NameDesc",
            SortOrder::DateAsc => "DateAsc",
            SortOrder::DateDesc => "DateDesc",
        }
    }
}

/// How a playlist is sorted.
#[allow(non_snake_case)]
#[derive(Clone, Copy, Debug, PartialEq, Eq, Structural)]
pub struct Sort {
    pub order: SortOrder,
    /// Keep the files of one directory together.
    pub groupBy: bool,
}

/// Where the language of the interface comes from.
#[allow(non_camel_case_types)]
#[derive(Clone, Copy, Debug, PartialEq, Eq, Structural)]
pub enum Mode {
    system,
    en,
    ja,
}

/// A language of the interface.
#[allow(non_camel_case_types)]
#[derive(Clone, Copy, Debug, PartialEq, Eq, Structural)]
pub enum Lang {
    en,
    ja,
}

/// The language of the interface and where it was taken from.
#[derive(Clone, Copy, Debug, PartialEq, Eq, Structural)]
pub struct Locale {
    pub mode: Mode,
    pub lang: Lang,
}

} // verus!
