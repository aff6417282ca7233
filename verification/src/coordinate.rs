//! Grid addressing: a (column, row) pair, both counted from one.

use vstd::prelude::*;

verus! {

/// The address of one cell.
#[derive(Clone, Copy, Debug)]
pub struct CoordinateItem {
    pub col: u32,
    pub row: u32,
}

/// Anything that names a column and a row can be turned into a coordinate.
pub trait Coordinate {
    /// The column this value names.
    spec fn col_of(&self) -> u32;

    /// The row this value names.
    spec fn row_of(&self) -> u32;

    fn new_coordinate(&self) -> (r: CoordinateItem)
        ensures
            r.col == self.col_of(),
            r.row == self.row_of(),
    ;
}

impl Coordinate for (u32, u32) {
    open spec fn col_of(&self) -> u32 {
        self.0
    }

    open spec fn row_of(&self) -> u32 {
        self.1
    }

    fn new_coordinate(&self) -> (r: CoordinateItem) {
        CoordinateItem { col: self.0, row: self.1 }
    }
}

impl Coordinate for (&u32, u32) {
    open spec fn col_of(&self) -> u32 {
        *self.0
    }

    open spec fn row_of(&self) -> u32 {
        self.1
    }

    fn new_coordinate(&self) -> (r: CoordinateItem) {
        CoordinateItem { col: *self.0, row: self.1 }
    }
}

impl Coordinate for (u32, &u32) {
    open spec fn col_of(&self) -> u32 {
        self.0
    }

    open spec fn row_of(&self) -> u32 {
        *self.1
    }

    fn new_coordinate(&self) -> (r: CoordinateItem) {
        CoordinateItem { col: self.0, row: *self.1 }
    }
}

impl Coordinate for (&u32, &u32) {
    open spec fn col_of(&self) -> u32 {
        *self.0
    }

    open spec fn row_of(&self) -> u32 {
        *self.1
    }

    fn new_coordinate(&self) -> (r: CoordinateItem) {
        CoordinateItem { col: *self.0, row: *self.1 }
    }
}

} // verus!
