//! Highlight categories and the colours they are drawn in.

use crate::text::texts_of;
use crossterm::style::SetForegroundColor;
use crossterm::Command;
use vstd::prelude::*;

verus! {

/// A foreground colour: either the terminal's own default or a 24-bit value.
#[derive(Clone, Copy, Debug, PartialEq, Eq, Structural)]
pub enum Color {
    Reset,
    Rgb { r: u8, g: u8, b: u8 },
}

/// The category that a grapheme cluster of a row is drawn in.
#[derive(Clone, Copy, Debug, PartialEq, Eq, Structural)]
pub enum Type {
    Plain,
    Number,
    Match,
    String,
    Asteriscs,
    Character,
    Comment,
    MultilineComment,
    PrimaryKeywords,
    SecondaryKeywords,
}

impl Type {
    /// The colour of each category, as a mathematical table.
    pub open spec fn color(self) -> Color {
        match self {
            Type::Number => Color::Rgb { r: 192, g: 232, b: 127 },
            Type::Match => Color::Rgb { r: 38, g: 139, b: 210 },
            Type::String => Color::Rgb { r: 211, g: 54, b: 130 },
            Type::Asteriscs => Color::Rgb { r: 232, g: 127, b: 145 },
            Type::Character => Color::Rgb { r: 108, g: 113, b: 196 },
            Type::Comment => Color::Rgb { r: 133, g: 153, b: 0 },
            Type::MultilineComment => Color::Rgb { r: 133, g: 153, b: 0 },
            Type::PrimaryKeywords => Color::Rgb { r: 247, g: 29, b: 153 },
            Type::SecondaryKeywords => Color::Rgb { r: 42, g: 161, b: 152 },
            Type::Plain => Color::Rgb { r: 255, g: 255, b: 255 },
        }
    }

    /// The colour that clusters of this category are drawn in.
    pub fn to_color(self) -> (color: Color)
        ensures
            color == self.color(),
    {
        match self {
            Type::Number => Color::Rgb { r: 192, g: 232, b: 127 },
            Type::Match => Color::Rgb { r: 38, g: 139, b: 210 },
            Type::String => Color::Rgb { r: 211, g: 54, b: 130 },
            Type::Asteriscs => Color::Rgb { r: 232, g: 127, b: 145 },
            Type::Character => Color::Rgb { r: 108, g: 113, b: 196 },
            Type::Comment | Type::MultilineComment => Color::Rgb { r: 133, g: 153, b: 0 },
            Type::PrimaryKeywords => Color::Rgb { r: 247, g: 29, b: 153 },
            Type::SecondaryKeywords => Color::Rgb { r: 42, g: 161, b: 152 },
            Type::Plain => Color::Rgb { r: 255, g: 255, b: 255 },
        }
    }
}

impl Type {
    /// The place of each category in a palette.
    pub open spec fn ordinal(self) -> int {
        match self {
            Type::Plain => 0,
            Type::Number => 1,
            Type::Match => 2,
            Type::String => 3,
            Type::Asteriscs => 4,
            Type::Character => 5,
            Type::Comment => 6,
            Type::MultilineComment => 7,
            Type::PrimaryKeywords => 8,
            Type::SecondaryKeywords => 9,
        }
    }

    /// The place of this category in a palette.
    pub fn index(self) -> (i: usize)
        ensures
            i == self.ordinal(),
            i < 10,
    {
        match self {
            Type::Plain => 0,
            Type::Number => 1,
            Type::Match => 2,
            Type::String => 3,
            Type::Asteriscs => 4,
            Type::Character => 5,
            Type::Comment => 6,
            Type::MultilineComment => 7,
            Type::PrimaryKeywords => 8,
            Type::SecondaryKeywords => 9,
        }
    }

    /// The category at a place of a palette.
    pub fn at(i: usize) -> (kind: Type)
        requires
            i < 10,
        ensures
            kind.ordinal() == i,
    {
        if i == 0 {
            Type::Plain
        } else if i == 1 {
            Type::Number
        } else if i == 2 {
            Type::Match
        } else if i == 3 {
            Type::String
        } else if i == 4 {
            Type::Asteriscs
        } else if i == 5 {
            Type::Character
        } else if i == 6 {
            Type::Comment
        } else if i == 7 {
            Type::MultilineComment
        } else if i == 8 {
            Type::PrimaryKeywords
        } else {
            Type::SecondaryKeywords
        }
    }
}

/// The character of a decimal digit.
pub open spec fn digit(d: nat) -> char {
    if d == 0 {
        '0'
    } else if d == 1 {
        '1'
    } else if d == 2 {
        '2'
    } else if d == 3 {
        '3'
    } else if d == 4 {
        '4'
    } else if d == 5 {
        '5'
    } else if d == 6 {
        '6'
    } else if d == 7 {
        '7'
    } else if d == 8 {
        '8'
    } else {
        '9'
    }
}

/// A number in decimal digits, without leading zeros.
pub open spec fn decimal(n: nat) -> Seq<char>
    decreases n,
{
    if n < 10 {
        seq![digit(n)]
    } else {
        decimal(n / 10).push(digit(n % 10))
    }
}

/// The parameters that select a foreground colour in a terminal's control sequence.
pub open spec fn colour_code(color: Color) -> Seq<char> {
    match color {
        Color::Reset => seq!['3', '9'],
        Color::Rgb { r, g, b } => seq!['3', '8', ';', '2', ';'] + decimal(r as nat) + seq![';']
            + decimal(g as nat) + seq![';'] + decimal(b as nat),
    }
}

/// The control sequence with the parameters `code`: escape, `[`, the parameters, `m`.
pub open spec fn control_sequence(code: Seq<char>) -> Seq<char> {
    seq!['\x1b', '['] + code + seq!['m']
}

/// `text` is a marker for `color`: the control sequence that selects the colour, or the
/// one without parameters, which stands in its place where colours are switched off.
pub open spec fn is_marker(text: Seq<char>, color: Color) -> bool {
    text == control_sequence(colour_code(color)) || text == control_sequence(Seq::empty())
}

/// A marker is never empty: it starts with the escape character and ends with `m`.
pub proof fn lemma_marker_is_text(text: Seq<char>, color: Color)
    requires
        is_marker(text, color),
    ensures
        text.len() >= 3,
        text[0] == '\x1b',
        text[1] == '[',
        text.last() == 'm',
{
}

/// Writes the text of crossterm's `SetForegroundColor` command for `color` with
/// `Command::write_ansi`: the control sequence that makes a terminal draw what follows
/// in that colour. Trusted: there is a text, since crossterm fails only where the
/// writer does and writing into a string does not fail; and the text is that control
/// sequence, or the one without parameters, which crossterm writes where the
/// environment asks for no colours. Which of the two it is depends on the environment,
/// so two calls may differ.
#[verifier::external_body]
fn foreground_marker(color: Color) -> (marker: Option<String>)
    ensures
        marker is Some,
        marker matches Some(text) ==> is_marker(text@, color),
{
    let color = match color {
        Color::Reset => crossterm::style::Color::Reset,
        Color::Rgb { r, g, b } => crossterm::style::Color::Rgb { r, g, b },
    };
    let mut text = String::new();
    match SetForegroundColor(color).write_ansi(&mut text) {
        Ok(()) => Some(text),
        Err(_) => None,
    }
}

/// A marker for `color`: the one that crossterm writes, and the control sequence
/// without parameters where it writes none.
fn marker_for(color: Color) -> (marker: String)
    ensures
        is_marker(marker@, color),
{
    match foreground_marker(color) {
        Some(text) => text,
        None => {
            let mut text = String::new();
            text.push('\x1b');
            text.push('[');
            text.push('m');
            assert(text@ =~= control_sequence(Seq::empty()));
            text
        },
    }
}

/// The mathematical content of a palette.
pub ghost struct PaletteView {
    /// The marker of each category, at the category's place.
    pub markers: Seq<Seq<char>>,
    /// The marker that ends all colouring.
    pub reset: Seq<char>,
}

impl PaletteView {
    /// There is a marker for each of the ten categories.
    pub open spec fn wf(self) -> bool {
        self.markers.len() == 10
    }

    /// The marker that switches to the colour of `kind`.
    pub open spec fn marker(self, kind: Type) -> Seq<char> {
        self.markers[kind.ordinal()]
    }

    /// The palette is one of a terminal: each category has a marker for its colour, and
    /// the reset marker is one for the terminal's own colour.
    pub open spec fn is_terminal(self) -> bool {
        &&& forall|kind: Type| is_marker(#[trigger] self.marker(kind), kind.color())
        &&& is_marker(self.reset, Color::Reset)
    }
}

/// The texts that switch a display from one colour to another: one marker for each
/// category and one that ends all colouring.
pub struct Palette {
    markers: Vec<String>,
    reset: String,
}

impl View for Palette {
    type V = PaletteView;

    closed spec fn view(&self) -> PaletteView {
        PaletteView { markers: texts_of(self.markers@), reset: self.reset@ }
    }
}

impl Palette {
    /// A palette of the given markers, in the order of the categories. There is none
    /// unless there are exactly ten markers.
    pub fn new(markers: Vec<String>, reset: String) -> (palette: Option<Palette>)
        ensures
            palette is Some <==> markers.len() == 10,
            palette matches Some(p) ==> p@.wf() && p@.markers == texts_of(
                markers@,
            ) && p@.reset == reset@,
    {
        if markers.len() == 10 {
            Some(Palette { markers, reset })
        } else {
            None
        }
    }

    /// The palette of the terminal: for each category a marker for its colour, and a
    /// marker for the terminal's own colour to end with.
    pub fn terminal() -> (palette: Palette)
        ensures
            palette@.wf(),
            palette@.is_terminal(),
    {
        let mut markers: Vec<String> = Vec::new();
        let mut i: usize = 0;
        while i < 10
            invariant
                i <= 10,
                markers.len() == i,
                forall|kind: Type|
                    kind.ordinal() < i ==> is_marker(
                        (#[trigger] markers@[kind.ordinal()])@,
                        kind.color(),
                    ),
            decreases 10 - i,
        {
            markers.push(marker_for(Type::at(i).to_color()));
            i += 1;
        }
        let palette = Palette { markers, reset: marker_for(Color::Reset) };
        assert forall|kind: Type| is_marker(#[trigger] palette@.marker(kind), kind.color()) by {
            assert(palette@.marker(kind) == palette.markers@[kind.ordinal()]@);
        }
        palette
    }

    /// The marker that switches to the colour of `kind`.
    pub fn marker(&self, kind: Type) -> (marker: &str)
        requires
            self@.wf(),
        ensures
            marker@ == self@.marker(kind),
    {
        self.markers[kind.index()].as_str()
    }

    /// The marker that ends all colouring.
    pub fn reset(&self) -> (marker: &str)
        ensures
            marker@ == self@.reset,
    {
        self.reset.as_str()
    }
}

} // verus!
