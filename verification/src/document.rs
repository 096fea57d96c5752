//! Positions and ranges in a text document.

use vstd::prelude::*;

verus! {

/// A singular position in a text document.
#[derive(Debug, Clone, Copy, PartialEq, Eq, Hash, Structural)]
pub struct Point {
    /// The byte index.
    pub byte: usize,
    /// 0-indexed line number.
    pub line: usize,
    /// Position within the line.
    pub column: usize,
}

/// The first line whose end lies strictly beyond `byte`, scanning from `i`.
pub open spec fn spec_position_gt(les: Seq<u32>, byte: usize, i: int) -> Option<int>
    decreases les.len() - i,
{
    if i < 0 || i >= les.len() {
        None
    } else if les[i] > byte {
        Some(i)
    } else {
        spec_position_gt(les, byte, i + 1)
    }
}

/// The line a byte offset falls on: the first line end beyond it, or line
/// zero when every recorded line ends before it.
pub open spec fn spec_line_of(les: Seq<u32>, byte: usize) -> int {
    match spec_position_gt(les, byte, 0) {
        Some(l) => l,
        None => 0,
    }
}

/// The column of a byte offset: its distance from the previous line's end,
/// clipped at zero; on the first line, the offset itself.
pub open spec fn spec_column_of(les: Seq<u32>, byte: usize) -> int {
    let line = spec_line_of(les, byte);
    if line >= 1 && line - 1 < les.len() {
        if byte >= les[line - 1] {
            byte - les[line - 1]
        } else {
            0
        }
    } else {
        byte as int
    }
}

impl Point {
    /// A point from its parts.
    pub fn new(byte: usize, line: usize, column: usize) -> (r: Point)
        ensures
            r.byte == byte && r.line == line && r.column == column,
    {
        Point { byte, line, column }
    }

    /// The point of a byte offset, derived from the recorded line end
    /// offsets.
    pub fn from_byte(byte: usize, line_end_indices: &Vec<u32>) -> (r: Point)
        ensures
            r.byte == byte,
            r.line == spec_line_of(line_end_indices@, byte),
            r.column == spec_column_of(line_end_indices@, byte),
    {
        let ghost les = line_end_indices@;
        let mut line: usize = 0;
        let mut found = false;
        let mut i: usize = 0;
        while i < line_end_indices.len() && !found
            invariant
                les == line_end_indices@,
                i <= les.len(),
                !found ==> line == 0,
                !found ==> spec_position_gt(les, byte, 0) == spec_position_gt(les, byte, i as int),
                found ==> line < les.len() && spec_position_gt(les, byte, 0) == Some(line as int),
            decreases les.len() - i, (if found {
                0int
            } else {
                1int
            }),
        {
            if line_end_indices[i] as usize > byte {
                found = true;
                line = i;
            } else {
                i = i + 1;
            }
        }
        proof {
            if !found {
                assert(spec_position_gt(les, byte, les.len() as int) is None);
            }
        }
        let column: usize = if line >= 1 {
            let prev = line_end_indices[line - 1] as usize;
            if byte >= prev {
                byte - prev
            } else {
                0
            }
        } else {
            byte
        };
        proof {
            assert(spec_line_of(les, byte) == line);
        }
        Point { byte, line, column }
    }
}

/// A range in a text document, as two points.
#[derive(Debug, Clone, Copy, PartialEq, Eq, Hash, Structural)]
pub struct TextRange {
    pub start: Point,
    pub end: Point,
}

impl TextRange {
    /// A range from its two ends; the start may not lie beyond the end.
    pub fn new(start: Point, end: Point) -> (r: TextRange)
        requires
            start.byte <= end.byte,
        ensures
            r.start == start && r.end == end,
    {
        TextRange { start, end }
    }

    /// The other range lies inside this one, ends included.
    pub fn contains(&self, other: &TextRange) -> (r: bool)
        ensures
            r == (self.start.byte <= other.start.byte && other.end.byte <= self.end.byte),
    {
        self.start.byte <= other.start.byte && other.end.byte <= self.end.byte
    }

    /// The other range lies inside this one, its start strictly.
    pub fn contains_strict(&self, other: TextRange) -> (r: bool)
        ensures
            r == (self.start.byte < other.start.byte && other.end.byte <= self.end.byte),
    {
        self.start.byte < other.start.byte && other.end.byte <= self.end.byte
    }

    /// The byte length of the range, never below zero.
    pub fn size(&self) -> (r: usize)
        ensures
            r == (if self.end.byte >= self.start.byte {
                self.end.byte - self.start.byte
            } else {
                0
            }),
    {
        if self.end.byte >= self.start.byte {
            self.end.byte - self.start.byte
        } else {
            0
        }
    }

    /// The range of a byte interval, with both ends located by
    /// [`Point::from_byte`].
    pub fn from_byte_range(range: core::ops::Range<usize>, line_end_indices: &Vec<u32>) -> (r:
        TextRange)
        requires
            range.start <= range.end,
        ensures
            r.start.byte == range.start,
            r.end.byte == range.end,
            r.start.line == spec_line_of(line_end_indices@, range.start),
            r.end.line == spec_line_of(line_end_indices@, range.end),
    {
        let start = Point::from_byte(range.start, line_end_indices);
        let end = Point::from_byte(range.end, line_end_indices);
        TextRange::new(start, end)
    }
}

} // verus!
