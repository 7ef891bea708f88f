//! One element of a finished image: the value that was counted for it and
//! the colour chosen for that value.

use vstd::prelude::*;

verus! {

pub struct ResultElementStatic<S> {
    pub value: u32,
    pub quad: S,
    pub qiad: S,
    pub color_value: u32,
}

impl<S> ResultElementStatic<S> {
    /// Takes note that the calculation of this element is finished. A static
    /// element keeps nothing of the calculation: it stays as it is.
    pub fn set_finished_state(&mut self, iterator: u32, q: S)
        ensures
            *final(self) == *old(self),
    {
    }

    pub fn color_value(&self) -> (color_value: u32)
        ensures
            color_value == self.color_value,
    {
        self.color_value
    }

    pub fn set_color_value(&mut self, palette_colour_index: u32)
        ensures
            *final(self) == (ResultElementStatic {
                color_value: palette_colour_index,
                ..*old(self)
            }),
    {
        self.color_value = palette_colour_index;
    }

    /// Replaces the value by the mean of it and the value of `e`, rounded
    /// down.
    pub fn set_average_with(&mut self, e: ResultElementStatic<S>)
        ensures
            *final(self) == (ResultElementStatic {
                value: ((old(self).value + e.value) / 2) as u32,
                ..*old(self)
            }),
    {
        self.value = ((self.value as u64 + e.value as u64) / 2) as u32;
    }
}

} // verus!
