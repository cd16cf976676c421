//! The new-project screen: canvas presets, the custom size fields and the
//! choices a project is created from.

use vstd::prelude::*;
use crate::app::{App, AppMode, filled_canvas};
use crate::pixel::{CanvasBackground, Tool, background_at, background_pixel};
use crate::text::{all_digits, decimal, decimal_chars, is_digit, parse_usize, parse_usize_chars, push_decimal, push_str};

verus! {

pub const MIN_CANVAS_SIZE: usize = 8;

pub const MAX_CANVAS_SIZE: usize = 256;

pub const DEFAULT_CUSTOM_CANVAS_SIZE: usize = 64;

/// Number of canvas presets.
pub const PRESET_COUNT: usize = 6;

/// The preset selected on a fresh setup screen.
pub const DEFAULT_PRESET: usize = 2;

/// Longest custom size a field accepts, in digits.
pub const CUSTOM_FIELD_DIGITS: usize = 3;

/// Which of the two custom size fields.
#[derive(Clone, Copy, Debug, PartialEq, Eq, Structural)]
pub enum CustomDimension {
    Width,
    Height,
}

/// A canvas size offered on the setup screen.
#[derive(Clone, Copy, Debug)]
pub struct CanvasPreset {
    pub name: &'static str,
    pub width: usize,
    pub height: usize,
    pub note: &'static str,
}

/// Width and height of preset `index`.
pub open spec fn preset_size(index: int) -> (usize, usize) {
    if index == 0 {
        (16, 16)
    } else if index == 1 {
        (32, 32)
    } else if index == 2 {
        (48, 48)
    } else if index == 3 {
        (64, 64)
    } else if index == 4 {
        (96, 64)
    } else {
        (128, 128)
    }
}

/// Name and note of preset `index`.
pub open spec fn preset_text(index: int) -> (&'static str, &'static str) {
    if index == 0 {
        ("Icon", "tiny app icons")
    } else if index == 1 {
        ("Sprite", "game assets")
    } else if index == 2 {
        ("Pixel Art", "balanced canvas")
    } else if index == 3 {
        ("Avatar", "profile image")
    } else if index == 4 {
        ("Banner", "wide artwork")
    } else {
        ("Large", "detailed piece")
    }
}

/// Preset `index` of the setup screen.
pub fn preset(index: usize) -> (p: CanvasPreset)
    requires
        index < PRESET_COUNT,
    ensures
        (p.width, p.height) == preset_size(index as int),
        p.name@ == preset_text(index as int).0@,
        p.note@ == preset_text(index as int).1@,
{
    match index {
        0 => CanvasPreset { name: "Icon", width: 16, height: 16, note: "tiny app icons" },
        1 => CanvasPreset { name: "Sprite", width: 32, height: 32, note: "game assets" },
        2 => CanvasPreset { name: "Pixel Art", width: 48, height: 48, note: "balanced canvas" },
        3 => CanvasPreset { name: "Avatar", width: 64, height: 64, note: "profile image" },
        4 => CanvasPreset { name: "Banner", width: 96, height: 64, note: "wide artwork" },
        _ => CanvasPreset { name: "Large", width: 128, height: 128, note: "detailed piece" },
    }
}

/// `value` brought into the accepted canvas size range.
pub open spec fn clamp_size(value: int) -> int {
    if value < MIN_CANVAS_SIZE {
        MIN_CANVAS_SIZE as int
    } else if value > MAX_CANVAS_SIZE {
        MAX_CANVAS_SIZE as int
    } else {
        value
    }
}

/// The canvas size a custom size field stands for: its number brought into
/// range, or the default size when it does not hold a number.
pub open spec fn canvas_size_of(text: Seq<char>) -> int {
    match parse_usize(text) {
        Some(v) => clamp_size(v as int),
        None => DEFAULT_CUSTOM_CANVAS_SIZE as int,
    }
}

/// Clamps `value` to the accepted canvas sizes.
pub fn clamp_canvas_size(value: usize) -> (s: usize)
    ensures
        s as int == clamp_size(value as int),
{
    if value < MIN_CANVAS_SIZE {
        MIN_CANVAS_SIZE
    } else if value > MAX_CANVAS_SIZE {
        MAX_CANVAS_SIZE
    } else {
        value
    }
}

/// Reads a custom size field.
pub fn parse_canvas_size(text: &Vec<char>) -> (s: usize)
    ensures
        s as int == canvas_size_of(text@),
        MIN_CANVAS_SIZE <= s <= MAX_CANVAS_SIZE,
{
    match parse_usize_chars(text) {
        Some(v) => clamp_canvas_size(v),
        None => DEFAULT_CUSTOM_CANVAS_SIZE,
    }
}

/// A well-formed size field: up to three decimal digits.
pub open spec fn field_ok(text: Seq<char>) -> bool {
    text.len() <= CUSTOM_FIELD_DIGITS && all_digits(text)
}

/// The choices on the new-project screen.
pub struct SetupState {
    pub preset_index: usize,
    pub use_custom: bool,
    pub custom_width_text: Vec<char>,
    pub custom_height_text: Vec<char>,
    pub focused_dimension: Option<CustomDimension>,
    pub background: CanvasBackground,
    pub demo_art: bool,
}

impl SetupState {
    pub open spec fn wf(&self) -> bool {
        &&& self.preset_index < PRESET_COUNT
        &&& field_ok(self.custom_width_text@)
        &&& field_ok(self.custom_height_text@)
    }

    /// The text of one of the custom size fields.
    pub open spec fn field(&self, dimension: CustomDimension) -> Seq<char> {
        match dimension {
            CustomDimension::Width => self.custom_width_text@,
            CustomDimension::Height => self.custom_height_text@,
        }
    }

    /// A fresh setup screen: the middle preset, both custom fields at the
    /// default size, a transparent background and the demo art on.
    pub fn new() -> (s: SetupState)
        ensures
            s.wf(),
            s.preset_index == DEFAULT_PRESET,
            !s.use_custom,
            s.custom_width_text@ == decimal(DEFAULT_CUSTOM_CANVAS_SIZE as nat),
            s.custom_height_text@ == decimal(DEFAULT_CUSTOM_CANVAS_SIZE as nat),
            s.focused_dimension is None,
            s.background == CanvasBackground::Transparent,
            s.demo_art,
    {
        let w = decimal_chars(DEFAULT_CUSTOM_CANVAS_SIZE as u64);
        let h = decimal_chars(DEFAULT_CUSTOM_CANVAS_SIZE as u64);
        proof {
            lemma_decimal_field_ok(DEFAULT_CUSTOM_CANVAS_SIZE);
        }
        SetupState {
            preset_index: DEFAULT_PRESET,
            use_custom: false,
            custom_width_text: w,
            custom_height_text: h,
            focused_dimension: None,
            background: CanvasBackground::Transparent,
            demo_art: true,
        }
    }
}

impl Default for SetupState {
    fn default() -> (s: SetupState)
        ensures
            s.wf(),
            s.preset_index == DEFAULT_PRESET,
            !s.use_custom,
            s.custom_width_text@ == decimal(DEFAULT_CUSTOM_CANVAS_SIZE as nat),
            s.custom_height_text@ == decimal(DEFAULT_CUSTOM_CANVAS_SIZE as nat),
            s.focused_dimension is None,
            s.background == CanvasBackground::Transparent,
            s.demo_art,
    {
        SetupState::new()
    }
}

/// A canvas size, written out, fits a size field.
pub proof fn lemma_decimal_field_ok(n: usize)
    requires
        n <= MAX_CANVAS_SIZE,
    ensures
        field_ok(decimal(n as nat)),
{
    crate::text::lemma_decimal_digits(n as nat);
    crate::text::lemma_decimal_len(n as nat);
}

/// The canvas size the setup screen currently stands for.
pub open spec fn selected_size(s: SetupState) -> (int, int) {
    if s.use_custom {
        (canvas_size_of(s.custom_width_text@), canvas_size_of(s.custom_height_text@))
    } else {
        (preset_size(s.preset_index as int).0 as int, preset_size(s.preset_index as int).1 as int)
    }
}

/// A size field after typing `ch`: digits are appended while the field has
/// room, replacing a lone `0`; anything else is ignored.
pub open spec fn typed_char(text: Seq<char>, ch: char) -> Seq<char> {
    if is_digit(ch) && text.len() < CUSTOM_FIELD_DIGITS {
        (if text == seq!['0'] {
            Seq::<char>::empty()
        } else {
            text
        }).push(ch)
    } else {
        text
    }
}

/// A size field after typing `chars` in order.
pub open spec fn typed_chars(text: Seq<char>, chars: Seq<char>) -> Seq<char>
    decreases chars.len(),
{
    if chars.len() == 0 {
        text
    } else {
        typed_char(typed_chars(text, chars.drop_last()), chars.last())
    }
}

/// A size field after backspace: its last character removed.
pub open spec fn backspaced(text: Seq<char>) -> Seq<char> {
    if text.len() == 0 {
        text
    } else {
        text.drop_last()
    }
}

/// What the keyboard did to the setup screen in one frame.
pub struct SetupKeys {
    /// Characters typed, in order.
    pub typed: Vec<char>,
    pub backspace: bool,
    pub enter: bool,
    pub escape: bool,
    /// Presets picked with the number keys, in key order.
    pub preset_keys: Vec<usize>,
    pub left: bool,
    pub right: bool,
    pub space: bool,
}

/// The control of the setup screen under a click.
#[derive(Clone, Copy, Debug, PartialEq, Eq, Structural)]
pub enum SetupTarget {
    Preset(usize),
    WidthMinus,
    WidthPlus,
    HeightMinus,
    HeightPlus,
    WidthField,
    HeightField,
    Custom,
    Background(usize),
    DemoArt,
    Create,
    Nothing,
}

proof fn lemma_typed_char_ok(text: Seq<char>, ch: char)
    requires
        field_ok(text),
    ensures
        field_ok(typed_char(text, ch)),
{
    let t = typed_char(text, ch);
    if is_digit(ch) && text.len() < CUSTOM_FIELD_DIGITS {
        let base = if text == seq!['0'] { Seq::<char>::empty() } else { text };
        assert forall|i: int| 0 <= i < t.len() implies is_digit(#[trigger] t[i]) by {
            if i < base.len() {
                assert(t[i] == base[i]);
            }
        }
    }
}

/// `new` is `old` with preset `index` (the last one for any larger index)
/// picked instead of the custom size.
pub open spec fn preset_selected(old: App, new: App, index: int) -> bool {
    new == old.with_setup(chose_preset(old.setup, index))
}

/// Setup choices with preset `index` (the last one for any larger index)
/// picked instead of the custom size.
pub open spec fn chose_preset(s: SetupState, index: int) -> SetupState {
    SetupState {
        preset_index: if index < PRESET_COUNT { index as usize } else { (PRESET_COUNT - 1) as usize },
        use_custom: false,
        focused_dimension: None,
        ..s
    }
}

/// Setup choices after the number keys picking `presets` in order, then the
/// left and right arrows stepping through the presets, then space toggling
/// the demo art.
pub open spec fn setup_after_keys(s: SetupState, presets: Seq<usize>, left: bool, right: bool, space: bool) -> SetupState {
    let s1 = if presets.len() > 0 { chose_preset(s, presets.last() as int) } else { s };
    let s2 = if left {
        chose_preset(s1, if s1.preset_index > 0 { s1.preset_index - 1 } else { 0 })
    } else {
        s1
    };
    let s3 = if right {
        chose_preset(s2, if s2.preset_index + 1 < PRESET_COUNT - 1 { s2.preset_index + 1 } else { PRESET_COUNT - 1 })
    } else {
        s2
    };
    if space {
        SetupState { demo_art: !s3.demo_art, ..s3 }
    } else {
        s3
    }
}

/// `new` is `old` after keyboard editing of the focused size field.
pub open spec fn text_edited(old: App, new: App, typed: Seq<char>, backspace: bool, finish: bool) -> bool {
    match old.setup.focused_dimension {
        None => new == old,
        Some(d) => {
            let edited = {
                let t = typed_chars(old.setup.field(d), typed);
                if backspace { backspaced(t) } else { t }
            };
            let w = if d == CustomDimension::Width { edited } else { old.setup.custom_width_text@ };
            let h = if d == CustomDimension::Height { edited } else { old.setup.custom_height_text@ };
            &&& new.setup.custom_width_text@ == if finish { decimal(canvas_size_of(w) as nat) } else { w }
            &&& new.setup.custom_height_text@ == if finish { decimal(canvas_size_of(h) as nat) } else { h }
            &&& new.setup.focused_dimension == if finish { None } else { Some(d) }
            &&& new == old.with_setup(SetupState {
                custom_width_text: new.setup.custom_width_text,
                custom_height_text: new.setup.custom_height_text,
                focused_dimension: new.setup.focused_dimension,
                ..old.setup
            })
        },
    }
}

/// `new` is `old` with a size field stepped by `delta` and the custom size
/// chosen. A step below zero wraps around to the largest size, as the
/// unsigned conversion of the sum does.
pub open spec fn size_adjusted(old: App, new: App, dimension: CustomDimension, delta: int) -> bool {
    let current = canvas_size_of(old.setup.field(dimension));
    let next = if current + delta < 0 { MAX_CANVAS_SIZE as int } else { clamp_size(current + delta) };
    &&& new.setup.field(dimension) == decimal(next as nat)
    &&& new == old.with_setup(SetupState {
        use_custom: true,
        focused_dimension: None,
        custom_width_text: new.setup.custom_width_text,
        custom_height_text: new.setup.custom_height_text,
        ..old.setup
    })
    &&& dimension == CustomDimension::Width ==> new.setup.custom_height_text == old.setup.custom_height_text
    &&& dimension == CustomDimension::Height ==> new.setup.custom_width_text == old.setup.custom_width_text
}

/// `new` is `old` after a project was created from its setup screen, and
/// `demo` says whether the demo art was asked for.
pub open spec fn project_created(old: App, new: App, demo: bool) -> bool {
    &&& demo == old.setup.demo_art
    &&& (new.width as int, new.height as int) == selected_size(old.setup)
    &&& new.pixels@ == Seq::new((new.width * new.height) as nat, |i: int| background_pixel(old.setup.background))
    &&& new.undo@.len() == 0
    &&& new.redo@.len() == 0
    &&& new.status@ == created_message(new.width as int, new.height as int)
    &&& new.setup.custom_width_text@ == decimal(canvas_size_of(old.setup.custom_width_text@) as nat)
    &&& new.setup.custom_height_text@ == decimal(canvas_size_of(old.setup.custom_height_text@) as nat)
    &&& new == (App {
        mode: AppMode::Editor,
        setup: SetupState {
            custom_width_text: new.setup.custom_width_text,
            custom_height_text: new.setup.custom_height_text,
            ..old.setup
        },
        width: new.width,
        height: new.height,
        background: old.setup.background,
        pixels: new.pixels,
        reference: None,
        undo: new.undo,
        redo: new.redo,
        tool: Tool::Brush,
        show_grid: true,
        brush_size: 1,
        status: new.status,
        status_hold_ms: Some(CREATED_HOLD_MS),
        ..old
    })
}

impl App {
    /// The setup screen's fields are as in `s` and nothing else changed.
    pub open spec fn with_setup(&self, s: SetupState) -> App {
        App { setup: s, ..*self }
    }

    /// Picks preset `index` (the last one for any larger index) and leaves
    /// the custom size.
    pub fn select_preset(&mut self, index: usize)
        requires
            old(self).wf(),
        ensures
            final(self).wf(),
            preset_selected(*old(self), *final(self), index as int),
    {
        self.setup.preset_index = if index < PRESET_COUNT { index } else { PRESET_COUNT - 1 };
        self.setup.use_custom = false;
        self.setup.focused_dimension = None;
    }

    /// The canvas the setup screen would create.
    pub fn selected_canvas_preset(&self) -> (p: CanvasPreset)
        requires
            self.wf(),
        ensures
            (p.width as int, p.height as int) == selected_size(self.setup),
            MIN_CANVAS_SIZE <= p.width <= MAX_CANVAS_SIZE,
            MIN_CANVAS_SIZE <= p.height <= MAX_CANVAS_SIZE,
            self.setup.use_custom ==> p.name@ == "Custom"@ && p.note@ == "custom size"@,
            !self.setup.use_custom ==> p.name@ == preset_text(self.setup.preset_index as int).0@
                && p.note@ == preset_text(self.setup.preset_index as int).1@,
    {
        if self.setup.use_custom {
            CanvasPreset {
                name: "Custom",
                width: parse_canvas_size(&self.setup.custom_width_text),
                height: parse_canvas_size(&self.setup.custom_height_text),
                note: "custom size",
            }
        } else {
            preset(self.setup.preset_index)
        }
    }

    /// Puts the typing focus on a custom size field.
    pub fn focus_custom_dimension(&mut self, dimension: CustomDimension)
        requires
            old(self).wf(),
        ensures
            final(self).wf(),
            *final(self) == old(self).with_setup(SetupState {
                use_custom: true,
                focused_dimension: Some(dimension),
                ..old(self).setup
            }),
    {
        self.setup.use_custom = true;
        self.setup.focused_dimension = Some(dimension);
    }

    /// Replaces the text of a custom size field.
    fn set_custom_text(&mut self, dimension: CustomDimension, text: Vec<char>)
        requires
            old(self).wf(),
            field_ok(text@),
        ensures
            final(self).wf(),
            *final(self) == old(self).with_setup(match dimension {
                CustomDimension::Width => SetupState { custom_width_text: text, ..old(self).setup },
                CustomDimension::Height => SetupState { custom_height_text: text, ..old(self).setup },
            }),
    {
        match dimension {
            CustomDimension::Width => self.setup.custom_width_text = text,
            CustomDimension::Height => self.setup.custom_height_text = text,
        }
    }

    /// A copy of the text of a custom size field.
    fn custom_text(&self, dimension: CustomDimension) -> (t: Vec<char>)
        ensures
            t@ == self.setup.field(dimension),
    {
        let src = match dimension {
            CustomDimension::Width => &self.setup.custom_width_text,
            CustomDimension::Height => &self.setup.custom_height_text,
        };
        let mut t: Vec<char> = Vec::new();
        let mut i: usize = 0;
        while i < src.len()
            invariant
                0 <= i <= src@.len(),
                t@ == src@.take(i as int),
            decreases src@.len() - i,
        {
            t.push(src[i]);
            proof {
                assert(src@.take(i as int + 1) == src@.take(i as int).push(src@[i as int]));
            }
            i = i + 1;
        }
        proof {
            assert(src@.take(src@.len() as int) == src@);
        }
        t
    }

    /// Keyboard editing of the focused custom size field: the typed
    /// characters, then backspace, then enter or escape, which tidy both
    /// fields and drop the focus. Without a focused field nothing happens.
    pub fn edit_custom_canvas_text(&mut self, typed: &Vec<char>, backspace: bool, finish: bool)
        requires
            old(self).wf(),
        ensures
            final(self).wf(),
            text_edited(*old(self), *final(self), typed@, backspace, finish),
    {
        let dimension = match self.setup.focused_dimension {
            Some(d) => d,
            None => {
                return;
            },
        };
        let ghost start = *self;
        let mut text = self.custom_text(dimension);
        let mut k: usize = 0;
        while k < typed.len()
            invariant
                0 <= k <= typed@.len(),
                field_ok(text@),
                text@ == typed_chars(start.setup.field(dimension), typed@.take(k as int)),
                start.wf(),
            decreases typed@.len() - k,
        {
            let ch = typed[k];
            proof {
                assert(typed@.take(k as int + 1).drop_last() == typed@.take(k as int));
                lemma_typed_char_ok(text@, ch);
            }
            if '0' <= ch && ch <= '9' && text.len() < CUSTOM_FIELD_DIGITS {
                proof {
                    if text@.len() == 1 && text@[0] == '0' {
                        assert(text@ =~= seq!['0']);
                    }
                }
                if text.len() == 1 && text[0] == '0' {
                    text.clear();
                }
                text.push(ch);
                proof {
                    assert(text@ == typed_char(typed_chars(start.setup.field(dimension), typed@.take(k as int)), ch));
                }
            }
            k = k + 1;
        }
        proof {
            assert(typed@.take(typed@.len() as int) == typed@);
        }
        if backspace && text.len() > 0 {
            text.pop();
        }
        proof {
            assert(forall|i: int| 0 <= i < backspaced(text@).len() ==> backspaced(text@)[i] == text@[i]);
        }
        self.set_custom_text(dimension, text);
        if finish {
            self.normalize_custom_canvas_size();
            self.setup.focused_dimension = None;
        }
    }

    /// Steps a custom size field by `delta`, within the accepted sizes, and
    /// switches to the custom size.
    pub fn adjust_custom_canvas_size(&mut self, dimension: CustomDimension, delta: i32)
        requires
            old(self).wf(),
            canvas_size_of(old(self).setup.field(dimension)) + delta <= i32::MAX,
        ensures
            final(self).wf(),
            size_adjusted(*old(self), *final(self), dimension, delta as int),
    {
        self.setup.use_custom = true;
        self.setup.focused_dimension = None;
        let current = match dimension {
            CustomDimension::Width => parse_canvas_size(&self.setup.custom_width_text),
            CustomDimension::Height => parse_canvas_size(&self.setup.custom_height_text),
        };
        let sum: i32 = current as i32 + delta;
        let next = if sum < 0 { MAX_CANVAS_SIZE } else { clamp_canvas_size(sum as usize) };
        let text = decimal_chars(next as u64);
        proof {
            lemma_decimal_field_ok(next);
        }
        self.set_custom_text(dimension, text);
    }

    /// Rewrites both custom size fields as the sizes they stand for.
    pub fn normalize_custom_canvas_size(&mut self)
        requires
            old(self).wf(),
        ensures
            final(self).wf(),
            final(self).setup.custom_width_text@ == decimal(canvas_size_of(old(self).setup.custom_width_text@) as nat),
            final(self).setup.custom_height_text@ == decimal(canvas_size_of(old(self).setup.custom_height_text@) as nat),
            *final(self) == old(self).with_setup(SetupState {
                custom_width_text: final(self).setup.custom_width_text,
                custom_height_text: final(self).setup.custom_height_text,
                ..old(self).setup
            }),
    {
        let width = parse_canvas_size(&self.setup.custom_width_text);
        let height = parse_canvas_size(&self.setup.custom_height_text);
        proof {
            lemma_decimal_field_ok(width);
            lemma_decimal_field_ok(height);
        }
        self.setup.custom_width_text = decimal_chars(width as u64);
        self.setup.custom_height_text = decimal_chars(height as u64);
    }
}

/// A size field already written as the size it stands for keeps standing
/// for it.
pub proof fn normalized_field_is_stable(text: Seq<char>)
    ensures
        canvas_size_of(decimal(canvas_size_of(text) as nat)) == canvas_size_of(text),
{
    let n = canvas_size_of(text);
    assert(MIN_CANVAS_SIZE <= n <= MAX_CANVAS_SIZE);
    crate::text::parse_decimal_roundtrip(n as usize);
}

/// How long the message announcing a new canvas stays up, in milliseconds.
pub const CREATED_HOLD_MS: u32 = 2400;

/// The message announcing a new `w` by `h` canvas.
pub open spec fn created_message(w: int, h: int) -> Seq<char> {
    "Created "@ + decimal(w as nat) + " x "@ + decimal(h as nat) + " canvas"@
}

impl App {
    /// Starts a new project from the setup screen: tidies the size fields,
    /// makes a canvas of the selected size filled with the selected
    /// background, forgets the reference photo and the history, resets the
    /// tool, grid and brush, and opens the painting screen. Returns whether
    /// the demo art was asked for, which the caller then stamps.
    pub fn create_project_from_setup(&mut self) -> (demo: bool)
        requires
            old(self).wf(),
        ensures
            final(self).wf(),
            project_created(*old(self), *final(self), demo),
    {
        let ghost start = *self;
        self.normalize_custom_canvas_size();
        proof {
            normalized_field_is_stable(start.setup.custom_width_text@);
            normalized_field_is_stable(start.setup.custom_height_text@);
        }
        let preset = self.selected_canvas_preset();
        self.width = preset.width;
        self.height = preset.height;
        self.background = self.setup.background;
        proof {
            assert(self.width * self.height <= MAX_CANVAS_SIZE * MAX_CANVAS_SIZE) by (nonlinear_arith)
                requires
                    self.width <= MAX_CANVAS_SIZE,
                    self.height <= MAX_CANVAS_SIZE;
        }
        self.pixels = filled_canvas(self.width * self.height, self.background.pixel());
        self.reference = None;
        self.undo.clear();
        self.redo.clear();
        self.tool = Tool::Brush;
        self.show_grid = true;
        self.brush_size = 1;
        self.mode = AppMode::Editor;
        let mut message: Vec<char> = Vec::new();
        push_str(&mut message, "Created ");
        push_decimal(&mut message, self.width as u64);
        push_str(&mut message, " x ");
        push_decimal(&mut message, self.height as u64);
        push_str(&mut message, " canvas");
        proof {
            assert(message@ =~= created_message(self.width as int, self.height as int));
        }
        self.status = message;
        self.status_hold_ms = Some(CREATED_HOLD_MS);
        self.setup.demo_art
    }
}

impl App {
    /// The number keys, arrows and space of one frame on the setup screen.
    fn apply_setup_keys(&mut self, keys: &SetupKeys)
        requires
            old(self).wf(),
        ensures
            final(self).wf(),
            *final(self) == old(self).with_setup(
                setup_after_keys(old(self).setup, keys.preset_keys@, keys.left, keys.right, keys.space),
            ),
    {
        let n = keys.preset_keys.len();
        let mut index = self.setup.preset_index;
        let mut picked = false;
        if n > 0 {
            let key = keys.preset_keys[n - 1];
            index = if key < PRESET_COUNT { key } else { PRESET_COUNT - 1 };
            picked = true;
        }
        if keys.left {
            index = if index > 0 { index - 1 } else { 0 };
            picked = true;
        }
        if keys.right {
            index = if index + 1 < PRESET_COUNT - 1 { index + 1 } else { PRESET_COUNT - 1 };
            picked = true;
        }
        if picked {
            self.select_preset(index);
        }
        if keys.space {
            self.setup.demo_art = !self.setup.demo_art;
        }
    }

    /// One frame of keyboard input on the setup screen. With a size field
    /// focused, the keys edit it; otherwise the number keys and arrows pick
    /// presets, space toggles the demo art and enter creates the project.
    /// Returns whether a project was created with the demo art asked for.
    pub fn handle_setup_keys(&mut self, keys: &SetupKeys) -> (demo: bool)
        requires
            old(self).wf(),
        ensures
            final(self).wf(),
            match old(self).setup.focused_dimension {
                Some(_) => !demo && text_edited(*old(self), *final(self), keys.typed@, keys.backspace, keys.enter || keys.escape),
                None => {
                    let mid = old(self).with_setup(
                        setup_after_keys(old(self).setup, keys.preset_keys@, keys.left, keys.right, keys.space),
                    );
                    if keys.enter {
                        project_created(mid, *final(self), demo)
                    } else {
                        !demo && *final(self) == mid
                    }
                },
            },
    {
        if self.setup.focused_dimension.is_some() {
            self.edit_custom_canvas_text(&keys.typed, keys.backspace, keys.enter || keys.escape);
            return false;
        }
        self.apply_setup_keys(keys);
        if keys.enter {
            return self.create_project_from_setup();
        }
        false
    }

    /// A click on the setup screen. Returns whether it created a project
    /// with the demo art asked for.
    pub fn handle_setup_click(&mut self, target: SetupTarget) -> (demo: bool)
        requires
            old(self).wf(),
        ensures
            final(self).wf(),
            match target {
                SetupTarget::Preset(i) => !demo && preset_selected(*old(self), *final(self), i as int),
                SetupTarget::WidthMinus => !demo && size_adjusted(*old(self), *final(self), CustomDimension::Width, -1),
                SetupTarget::WidthPlus => !demo && size_adjusted(*old(self), *final(self), CustomDimension::Width, 1),
                SetupTarget::HeightMinus => !demo && size_adjusted(*old(self), *final(self), CustomDimension::Height, -1),
                SetupTarget::HeightPlus => !demo && size_adjusted(*old(self), *final(self), CustomDimension::Height, 1),
                SetupTarget::WidthField => !demo && *final(self) == old(self).with_setup(SetupState {
                    use_custom: true,
                    focused_dimension: Some(CustomDimension::Width),
                    ..old(self).setup
                }),
                SetupTarget::HeightField => !demo && *final(self) == old(self).with_setup(SetupState {
                    use_custom: true,
                    focused_dimension: Some(CustomDimension::Height),
                    ..old(self).setup
                }),
                SetupTarget::Custom => !demo && *final(self) == old(self).with_setup(SetupState {
                    use_custom: true,
                    focused_dimension: None,
                    ..old(self).setup
                }),
                SetupTarget::Background(i) => !demo && match background_at(i as int) {
                    Some(b) => *final(self) == old(self).with_setup(SetupState {
                        background: b,
                        focused_dimension: None,
                        ..old(self).setup
                    }),
                    None => *final(self) == *old(self),
                },
                SetupTarget::DemoArt => !demo && *final(self) == old(self).with_setup(SetupState {
                    demo_art: !old(self).setup.demo_art,
                    focused_dimension: None,
                    ..old(self).setup
                }),
                SetupTarget::Create => project_created(*old(self), *final(self), demo),
                SetupTarget::Nothing => !demo && *final(self) == *old(self),
            },
    {
        match target {
            SetupTarget::Preset(i) => {
                self.select_preset(i);
                false
            },
            SetupTarget::WidthMinus => {
                self.adjust_custom_canvas_size(CustomDimension::Width, -1);
                false
            },
            SetupTarget::WidthPlus => {
                self.adjust_custom_canvas_size(CustomDimension::Width, 1);
                false
            },
            SetupTarget::HeightMinus => {
                self.adjust_custom_canvas_size(CustomDimension::Height, -1);
                false
            },
            SetupTarget::HeightPlus => {
                self.adjust_custom_canvas_size(CustomDimension::Height, 1);
                false
            },
            SetupTarget::WidthField => {
                self.focus_custom_dimension(CustomDimension::Width);
                false
            },
            SetupTarget::HeightField => {
                self.focus_custom_dimension(CustomDimension::Height);
                false
            },
            SetupTarget::Custom => {
                self.setup.use_custom = true;
                self.setup.focused_dimension = None;
                false
            },
            SetupTarget::Background(i) => {
                if let Some(background) = CanvasBackground::from_index(i) {
                    self.setup.background = background;
                    self.setup.focused_dimension = None;
                }
                false
            },
            SetupTarget::DemoArt => {
                self.setup.demo_art = !self.setup.demo_art;
                self.setup.focused_dimension = None;
                false
            },
            SetupTarget::Create => self.create_project_from_setup(),
            SetupTarget::Nothing => false,
        }
    }
}

} // verus!
