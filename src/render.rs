use vstd::prelude::*;

verus! {

/// Iteration limit used when none is given.
pub const DEFAULT_LIMIT: u32 = 255;

/// Number of entries in a gradient table.
pub const GRADIENT_SIZE: usize = 2048;

/// How the orbit of one point ended.
#[derive(Clone, Copy, Debug, PartialEq, Eq, Structural)]
pub enum IterationResult {
    /// The bound was exceeded at this step, counted from zero.
    Escaped(u32),
    /// The orbit stayed within the bound for every step allowed.
    Bounded,
}

/// Replaces a zoom factor of zero by one, which means no magnification.
pub fn effective_zoom(zoom: u32) -> (r: u32)
    ensures
        r == if zoom == 0 { 1u32 } else { zoom },
        r >= 1,
{
    if zoom == 0 {
        1
    } else {
        zoom
    }
}

/// Wraps a smoothed escape index into a table of `table_len` entries.
pub fn color_index(raw: usize, table_len: usize) -> (r: usize)
    requires
        table_len > 0,
    ensures
        r == raw % table_len,
        r < table_len,
{
    raw % table_len
}

/// The colour of a pixel: `background` for a point that never escaped, else the
/// table entry that the smoothed index `raw` wraps to.
pub fn pixel_color(
    result: IterationResult,
    raw: usize,
    table: &Vec<(u8, u8, u8)>,
    background: (u8, u8, u8),
) -> (r: (u8, u8, u8))
    requires
        table@.len() > 0,
    ensures
        r == match result {
            IterationResult::Bounded => background,
            IterationResult::Escaped(_) => table@[raw as int % table@.len() as int],
        },
{
    match result {
        IterationResult::Bounded => background,
        IterationResult::Escaped(_) => table[color_index(raw, table.len())],
    }
}

} // verus!
