//! Colors by name and by mixing.

use crate::text::{decimal, joined, push_decimal, Render};
use vstd::prelude::*;
use vstd::std_specs::convert::FromSpecImpl;
use vstd::string::*;

verus! {

/// The colors that every LaTeX installation knows by name.
#[derive(Clone, Copy, Debug)]
pub enum PredefinedColor {
    Red,
    Green,
    Blue,
    Cyan,
    Magenta,
    Yellow,
    Black,
    Gray,
    White,
    DarkGray,
    LightGray,
    Brown,
    Lime,
    Olive,
    Orange,
    Pink,
    Purple,
    Teal,
    Violet,
}

impl Render for PredefinedColor {
    /// The name of the color, in lower case.
    open spec fn text(&self) -> Seq<char> {
        match self {
            PredefinedColor::Red => "red"@,
            PredefinedColor::Green => "green"@,
            PredefinedColor::Blue => "blue"@,
            PredefinedColor::Cyan => "cyan"@,
            PredefinedColor::Magenta => "magenta"@,
            PredefinedColor::Yellow => "yellow"@,
            PredefinedColor::Black => "black"@,
            PredefinedColor::Gray => "gray"@,
            PredefinedColor::White => "white"@,
            PredefinedColor::DarkGray => "darkgray"@,
            PredefinedColor::LightGray => "lightgray"@,
            PredefinedColor::Brown => "brown"@,
            PredefinedColor::Lime => "lime"@,
            PredefinedColor::Olive => "olive"@,
            PredefinedColor::Orange => "orange"@,
            PredefinedColor::Pink => "pink"@,
            PredefinedColor::Purple => "purple"@,
            PredefinedColor::Teal => "teal"@,
            PredefinedColor::Violet => "violet"@,
        }
    }

    fn to_string(&self) -> (r: String) {
        let name = match self {
            PredefinedColor::Red => "red",
            PredefinedColor::Green => "green",
            PredefinedColor::Blue => "blue",
            PredefinedColor::Cyan => "cyan",
            PredefinedColor::Magenta => "magenta",
            PredefinedColor::Yellow => "yellow",
            PredefinedColor::Black => "black",
            PredefinedColor::Gray => "gray",
            PredefinedColor::White => "white",
            PredefinedColor::DarkGray => "darkgray",
            PredefinedColor::LightGray => "lightgray",
            PredefinedColor::Brown => "brown",
            PredefinedColor::Lime => "lime",
            PredefinedColor::Olive => "olive",
            PredefinedColor::Orange => "orange",
            PredefinedColor::Pink => "pink",
            PredefinedColor::Purple => "purple",
            PredefinedColor::Teal => "teal",
            PredefinedColor::Violet => "violet",
        };
        String::from_str(name)
    }
}

/// A color as PGFPlots reads it: a predefined name or a mix of colors.
#[derive(Clone, Debug)]
pub struct Color {
    value: String,
}

/// One component of a mix: the color, a comma, its weight.
pub open spec fn mix_entry(entry: (Color, u8)) -> Seq<char> {
    entry.0.text() + ","@ + decimal(entry.1 as nat)
}

/// The text of a mix: the color model and its range, then the components
/// with a semicolon between neighbours.
pub open spec fn mix_text(weighted_colors: Seq<(Color, u8)>) -> Seq<char> {
    "rgb,255:"@ + joined(weighted_colors.map_values(|entry: (Color, u8)| mix_entry(entry)), ";"@)
}

impl Color {
    /// The color that mixes `weighted_colors`, each by its weight out of 255.
    pub fn from_mix(weighted_colors: Vec<(Color, u8)>) -> (r: Color)
        ensures
            r.text() == mix_text(weighted_colors@),
    {
        let mut value = String::from_str("rgb,255:");
        let ghost entries = weighted_colors@.map_values(|entry: (Color, u8)| mix_entry(entry));
        let mut i: usize = 0;
        while i < weighted_colors.len()
            invariant
                i <= weighted_colors.len(),
                entries == weighted_colors@.map_values(|entry: (Color, u8)| mix_entry(entry)),
                value@ == "rgb,255:"@ + joined(entries.take(i as int), ";"@),
            decreases weighted_colors.len() - i,
        {
            if i > 0 {
                value.append(";");
            }
            value.append(weighted_colors[i].0.value.as_str());
            value.append(",");
            push_decimal(&mut value, weighted_colors[i].1 as u64);
            proof {
                let next = entries.take(i + 1);
                assert(next.drop_last() =~= entries.take(i as int));
                assert(next.last() == mix_entry(weighted_colors@[i as int]));
                assert(value@ =~= "rgb,255:"@ + joined(next, ";"@));
            }
            i = i + 1;
        }
        assert(entries.take(weighted_colors.len() as int) =~= entries);
        Color { value }
    }
}

impl Render for Color {
    closed spec fn text(&self) -> Seq<char> {
        self.value@
    }

    fn to_string(&self) -> (r: String) {
        self.value.clone()
    }
}

impl FromSpecImpl<PredefinedColor> for Color {
    open spec fn obeys_from_spec() -> bool {
        false
    }

    open spec fn from_spec(v: PredefinedColor) -> Color {
        arbitrary()
    }
}

impl From<PredefinedColor> for Color {
    /// The color of that name.
    fn from(value: PredefinedColor) -> (r: Color)
        ensures
            r.text() == value.text(),
    {
        Color { value: value.to_string() }
    }
}

} // verus!
