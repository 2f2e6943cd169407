use vstd::prelude::*;

verus! {

/// Bytes shown per row for a terminal `width` columns wide: `(width - 2) / 4`,
/// never less than one so that a narrow terminal still gets a usable grid.
pub open spec fn spec_row_width(width: int) -> int {
    if width >= 6 {
        (width - 2) / 4
    } else {
        1
    }
}

/// Column at which the literal panel starts.
pub open spec fn spec_literal_offset(row_width: int) -> int {
    3 * row_width + 2
}

/// Geometry of a terminal `width` columns wide.
pub open spec fn spec_layout(width: int) -> Layout {
    Layout {
        row_width: spec_row_width(width) as usize,
        literal_offset: spec_literal_offset(spec_row_width(width)) as usize,
    }
}

/// Column geometry of one frame.
#[derive(Clone, Copy, Debug, PartialEq, Eq)]
pub struct Layout {
    /// Bytes per row.
    pub row_width: usize,
    /// First column of the literal panel.
    pub literal_offset: usize,
}

impl Layout {
    /// The geometry holds for some terminal width: one to 16383 bytes per row,
    /// and the literal panel right after the hex panel and its separator.
    pub open spec fn wf(&self) -> bool {
        &&& 1 <= self.row_width <= 16383
        &&& self.literal_offset == spec_literal_offset(self.row_width as int)
    }

    /// Geometry for a terminal `width` columns wide.
    pub fn new(width: u16) -> (r: Layout)
        ensures
            r.wf(),
            r == spec_layout(width as int),
            r.row_width == spec_row_width(width as int),
            width >= 6 ==> r.row_width == (width - 2) / 4 && r.row_width >= 1,
            r.literal_offset == 3 * r.row_width + 2,
    {
        let row_width: usize = if width >= 6 {
            ((width - 2) / 4) as usize
        } else {
            1
        };
        Layout { row_width, literal_offset: 3 * row_width + 2 }
    }
}

} // verus!
