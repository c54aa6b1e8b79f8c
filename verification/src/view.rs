//! View-side data: the tiled layout geometry and the banner letter art.

use vstd::prelude::*;

pub mod tui_elements;

verus! {

/// The five banner rows of one block letter; an unknown letter is
/// five blank rows.
pub open spec fn spec_letter(c: char) -> Seq<&'static str> {
    match c {
        'f' => seq![
            "   ████",
            "  ██   ",
            "███████",
            "  ██   ",
            "  ██   ",
        ],
        'M' => seq![
            " ███  ███ ",
            "██  ██  ██",
            "██  ██  ██",
            "██  ██  ██",
            "██  ██  ██",
        ],
        'A' => seq![
            " ██████ ",
            "██    ██",
            "████████",
            "██    ██",
            "██    ██",
        ],
        'N' => seq![
            "███     ██",
            "██ ██   ██",
            "██  ██  ██",
            "██   ██ ██",
            "██     ███",
        ],
        'G' => seq![
            " ██████ ",
            "██      ",
            "██  ████",
            "██    ██",
            " ██████ ",
        ],
        'R' => seq![
            "███████ ",
            "██    ██",
            "███████ ",
            "██  ██  ",
            "██    ██",
        ],
        'O' => seq![
            "████████",
            "██    ██",
            "██    ██",
            "██    ██",
            "████████",
        ],
        'V' => seq![
            "██     ██",
            "██     ██",
            " ██   ██ ",
            "  ██ ██  ",
            "   ███   ",
        ],
        'E' => seq![
            "███████",
            "██     ",
            "███████",
            "██     ",
            "███████",
        ],
        _ => seq!["", "", "", "", ""],
    }
}

/// The banner rows of one block letter.
pub fn letter(c: char) -> (r: Vec<&'static str>)
    ensures
        r@ == spec_letter(c),
        r@.len() == 5,
{
    let r = match c {
        'f' => vec![
            "   ████",
            "  ██   ",
            "███████",
            "  ██   ",
            "  ██   ",
        ],
        'M' => vec![
            " ███  ███ ",
            "██  ██  ██",
            "██  ██  ██",
            "██  ██  ██",
            "██  ██  ██",
        ],
        'A' => vec![
            " ██████ ",
            "██    ██",
            "████████",
            "██    ██",
            "██    ██",
        ],
        'N' => vec![
            "███     ██",
            "██ ██   ██",
            "██  ██  ██",
            "██   ██ ██",
            "██     ███",
        ],
        'G' => vec![
            " ██████ ",
            "██      ",
            "██  ████",
            "██    ██",
            " ██████ ",
        ],
        'R' => vec![
            "███████ ",
            "██    ██",
            "███████ ",
            "██  ██  ",
            "██    ██",
        ],
        'O' => vec![
            "████████",
            "██    ██",
            "██    ██",
            "██    ██",
            "████████",
        ],
        'V' => vec![
            "██     ██",
            "██     ██",
            " ██   ██ ",
            "  ██ ██  ",
            "   ███   ",
        ],
        'E' => vec![
            "███████",
            "██     ",
            "███████",
            "██     ",
            "███████",
        ],
        _ => vec!["", "", "", "", ""],
    };
    proof {
        assert(r@ =~= spec_letter(c));
    }
    r
}

/// The banner art the home screen shows.
pub fn thing() -> (r: Vec<&'static str>)
    ensures
        r@ == spec_letter('f'),
        r@.len() == 5,
{
    letter('f')
}

} // verus!
