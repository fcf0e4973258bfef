//! Which drawing layers a viewer shows.

use vstd::prelude::*;

verus! {

/// Visibility of each layer of a layout drawing.
#[derive(Debug, Clone, Copy)]
pub struct LayerVisibility {
    /// Sheet outline.
    pub sheet: bool,
    /// Trim zone overlay.
    pub trim: bool,
    /// Linear cut lines.
    pub linear_cuts: bool,
    /// Piece rectangles.
    pub pieces: bool,
    /// Shape contours.
    pub shapes: bool,
    /// Piece labels.
    pub labels: bool,
    /// Waste regions.
    pub waste: bool,
    /// Coordinate grid.
    pub grid: bool,
}

impl Default for LayerVisibility {
    fn default() -> (v: LayerVisibility)
        ensures
            v.sheet && v.trim && v.linear_cuts && v.pieces && v.shapes,
            !v.labels && !v.waste && !v.grid,
    {
        LayerVisibility {
            sheet: true,
            trim: true,
            linear_cuts: true,
            pieces: true,
            shapes: true,
            labels: false,
            waste: false,
            grid: false,
        }
    }
}

impl LayerVisibility {
    /// Whether every layer is shown.
    pub open spec fn all_shown(&self) -> bool {
        self.sheet && self.trim && self.linear_cuts && self.pieces && self.shapes && self.labels
            && self.waste && self.grid
    }

    /// Whether the sheet outline is the only layer shown.
    pub open spec fn only_sheet(&self) -> bool {
        self.sheet && !self.trim && !self.linear_cuts && !self.pieces && !self.shapes
            && !self.labels && !self.waste && !self.grid
    }

    /// Shows every layer.
    pub fn show_all(&mut self)
        ensures
            final(self).all_shown(),
    {
        self.sheet = true;
        self.trim = true;
        self.linear_cuts = true;
        self.pieces = true;
        self.shapes = true;
        self.labels = true;
        self.waste = true;
        self.grid = true;
    }

    /// Hides every layer but the sheet outline.
    pub fn minimal(&mut self)
        ensures
            final(self).only_sheet(),
    {
        self.sheet = true;
        self.trim = false;
        self.linear_cuts = false;
        self.pieces = false;
        self.shapes = false;
        self.labels = false;
        self.waste = false;
        self.grid = false;
    }
}

} // verus!
