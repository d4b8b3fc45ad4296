//! The decoded icon.

use crate::layout::{grid_of, well_shaped};
use vstd::prelude::*;

verus! {

/// A decoded icon: its name, the version of the format it was written in,
/// its dimensions and its grid of pixel characters.
///
/// Every value of this type holds a complete grid: `height` rows of `width`
/// cells each.
#[derive(Debug, PartialEq, Eq)]
pub struct SimpleIcon {
    name: String,
    file_version: u16,
    width: u32,
    height: u32,
    data: Vec<Vec<char>>,
}

/// Mathematical value of a [`SimpleIcon`].
pub struct IconView {
    pub name: Seq<char>,
    pub file_version: nat,
    pub width: nat,
    pub height: nat,
    pub pixels: Seq<Seq<char>>,
}

impl View for SimpleIcon {
    type V = IconView;

    closed spec fn view(&self) -> IconView {
        IconView {
            name: self.name@,
            file_version: self.file_version as nat,
            width: self.width as nat,
            height: self.height as nat,
            pixels: grid_of(self.data@),
        }
    }
}

impl SimpleIcon {
    #[verifier::type_invariant]
    spec fn shaped(&self) -> bool {
        well_shaped(grid_of(self.data@), self.width as nat, self.height as nat)
    }

    /// An icon made of its parts. The grid must have the shape that the
    /// dimensions announce.
    pub(crate) fn new(
        name: String,
        file_version: u16,
        width: u32,
        height: u32,
        data: Vec<Vec<char>>,
    ) -> (icon: SimpleIcon)
        requires
            well_shaped(grid_of(data@), width as nat, height as nat),
        ensures
            icon@ == (IconView {
                name: name@,
                file_version: file_version as nat,
                width: width as nat,
                height: height as nat,
                pixels: grid_of(data@),
            }),
    {
        SimpleIcon { name, file_version, width, height, data }
    }

    /// The icon's name.
    pub fn name(&self) -> (name: &str)
        ensures
            name@ == self@.name,
    {
        self.name.as_str()
    }

    /// The version of the format the icon was written in.
    pub fn file_version(&self) -> (version: u16)
        ensures
            version == self@.file_version,
    {
        self.file_version
    }

    /// Number of columns.
    pub fn width(&self) -> (width: u32)
        ensures
            width == self@.width,
    {
        self.width
    }

    /// Number of rows.
    pub fn height(&self) -> (height: u32)
        ensures
            height == self@.height,
    {
        self.height
    }

    /// The grid, row by row: `height` rows of `width` cells.
    pub fn data(&self) -> (rows: &Vec<Vec<char>>)
        ensures
            grid_of(rows@) == self@.pixels,
            well_shaped(self@.pixels, self@.width, self@.height),
    {
        proof {
            use_type_invariant(self);
        }
        &self.data
    }
}

} // verus!
