//! Where the files of a character lie, and which row of a tile map a row on
//! the screen shows.

use vstd::prelude::*;

verus! {

/// Whether `text` ends with `suffix`.
pub open spec fn has_suffix(text: Seq<char>, suffix: Seq<char>) -> bool {
    suffix.len() <= text.len() && text.subrange(text.len() - suffix.len(), text.len() as int)
        == suffix
}

/// `text` without `suffix` at its end; empty where it does not end so.
pub open spec fn without_suffix(text: Seq<char>, suffix: Seq<char>) -> Seq<char> {
    if has_suffix(text, suffix) {
        text.subrange(0, text.len() - suffix.len())
    } else {
        Seq::empty()
    }
}

/// The ending of the path of a skeleton file.
pub open spec fn skeleton_suffix() -> Seq<char> {
    ".anim_ske.json"@
}

/// The common prefix of the paths of a character's files, read from the path
/// of its skeleton file. Empty where the path is not that of a skeleton file.
pub open spec fn prefix_of(path: Seq<char>) -> Seq<char> {
    without_suffix(path, skeleton_suffix())
}

/// Tells whether `text` ends with `suffix`.
pub fn ends_with(text: &str, suffix: &str) -> (ends: bool)
    ensures
        ends == has_suffix(text@, suffix@),
{
    let length: usize = text.unicode_len();
    let short: usize = suffix.unicode_len();
    if short > length {
        return false;
    }
    let start: usize = length - short;
    let ghost tail = text@.subrange(start as int, length as int);
    let mut i: usize = 0;
    while i < short
        invariant
            i <= short,
            short == suffix@.len(),
            length == text@.len(),
            start == length - short,
            tail == text@.subrange(start as int, length as int),
            forall|k: int| 0 <= k < i ==> tail[k] == suffix@[k],
        decreases short - i,
    {
        if text.get_char(start + i) != suffix.get_char(i) {
            assert(tail[i as int] != suffix@[i as int]);
            return false;
        }
        i = i + 1;
    }
    assert(tail == suffix@);
    true
}

/// The common prefix of the paths of a character's files.
pub fn path_prefix(path: &str) -> (prefix: String)
    ensures
        prefix@ == prefix_of(path@),
{
    let suffix = ".anim_ske.json";
    if ends_with(path, suffix) {
        let kept: usize = path.unicode_len() - suffix.unicode_len();
        path.substring_char(0, kept).to_owned()
    } else {
        String::new()
    }
}

/// The path of the file that describes the texture of a character.
pub fn texture_description(prefix: &str) -> (path: String)
    ensures
        path@ == prefix@ + "_tex.json"@,
{
    prefix.to_owned().concat("_tex.json")
}

/// The path of the image that holds the texture of a character.
pub fn texture_image(prefix: &str) -> (path: String)
    ensures
        path@ == prefix@ + "_tex.png"@,
{
    prefix.to_owned().concat("_tex.png")
}

/// The row of a tile layer that row `y` of column `x` on the screen shows. In
/// a map of orthogonal orientation the rows are counted from the other end;
/// in any other the row has the number of the column.
pub open spec fn layer_row(orthogonal: bool, height: u32, x: u32, y: u32) -> int {
    if orthogonal {
        height - 1 - y
    } else {
        x as int
    }
}

/// The row of a tile layer that row `y` of column `x` on the screen shows.
pub fn source_row(orthogonal: bool, height: u32, x: u32, y: u32) -> (row: u32)
    requires
        orthogonal ==> y < height,
    ensures
        row == layer_row(orthogonal, height, x, y),
        orthogonal ==> row < height,
{
    if orthogonal {
        height - 1 - y
    } else {
        x
    }
}

} // verus!
