//! Out-of-the-box tilesets: 16-entry glyph tables indexed by a cell's
//! touched-quadrant bitmask (8 = top-left, 4 = top-right, 2 = bottom-left,
//! 1 = bottom-right).  Pure data; both tables must be reproduced exactly for
//! visual compatibility.

use vstd::prelude::*;

verus! {

/// The plain-ASCII table (the one non-ASCII entry, at index 13, is the
/// pilcrow).
pub open spec fn pure_ascii_spec() -> Seq<char> {
    seq![
        ' ', '.', ',', '_', '\'', ']', '/', 'd',
        '`', '\\', '[', 'b', '"', '\u{b6}', 'P', '#',
    ]
}

/// The Braille-block table: each glyph raises the dots of exactly the
/// touched quadrants.
pub open spec fn braille_spec() -> Seq<char> {
    seq![
        '\u{2800}', '\u{28a0}', '\u{2844}', '\u{28e4}',
        '\u{2818}', '\u{28b8}', '\u{285c}', '\u{28fc}',
        '\u{2803}', '\u{28a3}', '\u{2847}', '\u{28e7}',
        '\u{281b}', '\u{28bb}', '\u{285f}', '\u{28ff}',
    ]
}

/// Actual ASCII characters.  Nice and crunchy.
pub fn pure_ascii() -> (t: [char; 16])
    ensures
        t@ == pure_ascii_spec(),
{
    let t = [
        ' ', '.', ',', '_', '\'', ']', '/', 'd',
        '`', '\\', '[', 'b', '"', '\u{b6}', 'P', '#',
    ];
    proof {
        assert(t@ =~= pure_ascii_spec());
    }
    t
}

/// Braille characters: not ASCII, but clean, true-to-form shapes.
pub fn braille() -> (t: [char; 16])
    ensures
        t@ == braille_spec(),
{
    let t = [
        '\u{2800}', '\u{28a0}', '\u{2844}', '\u{28e4}',
        '\u{2818}', '\u{28b8}', '\u{285c}', '\u{28fc}',
        '\u{2803}', '\u{28a3}', '\u{2847}', '\u{28e7}',
        '\u{281b}', '\u{28bb}', '\u{285f}', '\u{28ff}',
    ];
    proof {
        assert(t@ =~= braille_spec());
    }
    t
}

} // verus!
