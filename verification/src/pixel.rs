//! Colours, canvas backgrounds and the tool set.

use vstd::prelude::*;

verus! {

/// An 8-bit RGBA colour.
#[derive(Clone, Copy, Debug, Default, PartialEq, Eq, Structural)]
pub struct Pixel {
    pub r: u8,
    pub g: u8,
    pub b: u8,
    pub a: u8,
}

/// The fully transparent colour.
pub open spec fn transparent() -> Pixel {
    Pixel { r: 0, g: 0, b: 0, a: 0 }
}

impl Pixel {
    /// An opaque colour.
    pub fn rgb(r: u8, g: u8, b: u8) -> (p: Pixel)
        ensures
            p == (Pixel { r, g, b, a: 255 }),
    {
        Pixel { r, g, b, a: 255 }
    }

    /// A colour with an explicit alpha channel.
    pub fn rgba(r: u8, g: u8, b: u8, a: u8) -> (p: Pixel)
        ensures
            p == (Pixel { r, g, b, a }),
    {
        Pixel { r, g, b, a }
    }

    /// The fully transparent colour.
    pub fn transparent() -> (p: Pixel)
        ensures
            p == transparent(),
    {
        Pixel { r: 0, g: 0, b: 0, a: 0 }
    }
}

/// How a fresh canvas is filled.
#[derive(Clone, Copy, Debug, PartialEq, Eq, Structural)]
pub enum CanvasBackground {
    Transparent,
    White,
    Dark,
}

/// Number of background choices offered by the setup screen.
pub const BACKGROUND_COUNT: usize = 3;

pub open spec fn background_at(index: int) -> Option<CanvasBackground> {
    if index == 0 {
        Some(CanvasBackground::Transparent)
    } else if index == 1 {
        Some(CanvasBackground::White)
    } else if index == 2 {
        Some(CanvasBackground::Dark)
    } else {
        None
    }
}

pub open spec fn background_pixel(b: CanvasBackground) -> Pixel {
    match b {
        CanvasBackground::Transparent => transparent(),
        CanvasBackground::White => Pixel { r: 255, g: 255, b: 255, a: 255 },
        CanvasBackground::Dark => Pixel { r: 20, g: 20, b: 31, a: 255 },
    }
}

impl CanvasBackground {
    /// The background at position `index` of the setup screen's row.
    pub fn from_index(index: usize) -> (b: Option<CanvasBackground>)
        ensures
            b == background_at(index as int),
    {
        match index {
            0 => Some(CanvasBackground::Transparent),
            1 => Some(CanvasBackground::White),
            2 => Some(CanvasBackground::Dark),
            _ => None,
        }
    }

    pub fn label(self) -> (s: &'static str)
        ensures
            self == CanvasBackground::Transparent ==> s@ == "Transparent"@,
            self == CanvasBackground::White ==> s@ == "White"@,
            self == CanvasBackground::Dark ==> s@ == "Dark"@,
    {
        match self {
            CanvasBackground::Transparent => "Transparent",
            CanvasBackground::White => "White",
            CanvasBackground::Dark => "Dark",
        }
    }

    /// The colour a new canvas with this background starts with.
    pub fn pixel(self) -> (p: Pixel)
        ensures
            p == background_pixel(self),
    {
        match self {
            CanvasBackground::Transparent => Pixel::transparent(),
            CanvasBackground::White => Pixel::rgb(255, 255, 255),
            CanvasBackground::Dark => Pixel::rgb(20, 20, 31),
        }
    }
}

/// The painting tools, in toolbar order.
#[derive(Clone, Copy, Debug, PartialEq, Eq, Structural)]
pub enum Tool {
    Brush,
    Eraser,
    Fill,
    Picker,
    Line,
    Rect,
    Ellipse,
    Spray,
    Mirror,
    Dither,
}

/// Number of tools in the toolbar.
pub const TOOL_COUNT: usize = 10;

pub open spec fn tool_at(index: int) -> Option<Tool> {
    if index == 0 {
        Some(Tool::Brush)
    } else if index == 1 {
        Some(Tool::Eraser)
    } else if index == 2 {
        Some(Tool::Fill)
    } else if index == 3 {
        Some(Tool::Picker)
    } else if index == 4 {
        Some(Tool::Line)
    } else if index == 5 {
        Some(Tool::Rect)
    } else if index == 6 {
        Some(Tool::Ellipse)
    } else if index == 7 {
        Some(Tool::Spray)
    } else if index == 8 {
        Some(Tool::Mirror)
    } else if index == 9 {
        Some(Tool::Dither)
    } else {
        None
    }
}

impl Tool {
    /// The tool at position `index` of the toolbar.
    pub fn from_index(index: usize) -> (t: Option<Tool>)
        ensures
            t == tool_at(index as int),
    {
        match index {
            0 => Some(Tool::Brush),
            1 => Some(Tool::Eraser),
            2 => Some(Tool::Fill),
            3 => Some(Tool::Picker),
            4 => Some(Tool::Line),
            5 => Some(Tool::Rect),
            6 => Some(Tool::Ellipse),
            7 => Some(Tool::Spray),
            8 => Some(Tool::Mirror),
            9 => Some(Tool::Dither),
            _ => None,
        }
    }

    /// The tool's name as shown in the toolbar and the status line.
    pub fn label(self) -> (s: &'static str)
        ensures
            s@ == tool_label(self)@,
    {
        match self {
            Tool::Brush => "Brush",
            Tool::Eraser => "Eraser",
            Tool::Fill => "Fill",
            Tool::Picker => "Picker",
            Tool::Line => "Line",
            Tool::Rect => "Rect",
            Tool::Ellipse => "Ellipse",
            Tool::Spray => "Spray",
            Tool::Mirror => "Mirror",
            Tool::Dither => "Dither",
        }
    }

    /// The keyboard shortcut shown next to the tool.
    pub fn key(self) -> (s: &'static str)
        ensures
            s@ == tool_key(self)@,
    {
        match self {
            Tool::Brush => "B",
            Tool::Eraser => "E",
            Tool::Fill => "F",
            Tool::Picker => "I",
            Tool::Line => "L",
            Tool::Rect => "R",
            Tool::Ellipse => "O",
            Tool::Spray => "S",
            Tool::Mirror => "M",
            Tool::Dither => "D",
        }
    }
}

pub open spec fn tool_label(t: Tool) -> &'static str {
    match t {
        Tool::Brush => "Brush",
        Tool::Eraser => "Eraser",
        Tool::Fill => "Fill",
        Tool::Picker => "Picker",
        Tool::Line => "Line",
        Tool::Rect => "Rect",
        Tool::Ellipse => "Ellipse",
        Tool::Spray => "Spray",
        Tool::Mirror => "Mirror",
        Tool::Dither => "Dither",
    }
}

pub open spec fn tool_key(t: Tool) -> &'static str {
    match t {
        Tool::Brush => "B",
        Tool::Eraser => "E",
        Tool::Fill => "F",
        Tool::Picker => "I",
        Tool::Line => "L",
        Tool::Rect => "R",
        Tool::Ellipse => "O",
        Tool::Spray => "S",
        Tool::Mirror => "M",
        Tool::Dither => "D",
    }
}

/// Colour of a marker character of a demo sprite; other characters are
/// left unpainted.
pub open spec fn sprite_color(marker: char) -> Option<Pixel> {
    if marker == 'x' {
        Some(Pixel { r: 54, g: 34, b: 38, a: 255 })
    } else if marker == 'o' {
        Some(Pixel { r: 244, g: 153, b: 76, a: 255 })
    } else if marker == 's' {
        Some(Pixel { r: 202, g: 96, b: 48, a: 255 })
    } else if marker == 'c' {
        Some(Pixel { r: 255, g: 224, b: 166, a: 255 })
    } else if marker == 'p' {
        Some(Pixel { r: 255, g: 132, b: 160, a: 255 })
    } else if marker == 'e' {
        Some(Pixel { r: 30, g: 28, b: 38, a: 255 })
    } else if marker == 'w' {
        Some(Pixel { r: 255, g: 240, b: 190, a: 255 })
    } else {
        None
    }
}

pub fn sprite_pixel(marker: char) -> (p: Option<Pixel>)
    ensures
        p == sprite_color(marker),
{
    match marker {
        'x' => Some(Pixel::rgb(54, 34, 38)),
        'o' => Some(Pixel::rgb(244, 153, 76)),
        's' => Some(Pixel::rgb(202, 96, 48)),
        'c' => Some(Pixel::rgb(255, 224, 166)),
        'p' => Some(Pixel::rgb(255, 132, 160)),
        'e' => Some(Pixel::rgb(30, 28, 38)),
        'w' => Some(Pixel::rgb(255, 240, 190)),
        _ => None,
    }
}

} // verus!
