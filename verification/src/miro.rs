//! The records the whiteboard workflow builds before anything is sent
//! anywhere: frames and sticky notes, with their geometry, and the item
//! types and sticky-note colors the board distinguishes.

use vstd::prelude::*;
use vstd::string::*;

verus! {

/// The kinds of board item the workflow handles.
#[derive(Debug, PartialEq, Eq, Structural, Clone, Copy)]
pub enum MiroItemType {
    Frame,
    Image,
    StickyNote,
}

/// The fill colors a sticky note can carry.
#[derive(Debug, PartialEq, Eq, Structural, Clone, Copy)]
pub enum MiroColor {
    Gray,
    LightYellow,
    Yellow,
    Orange,
    LightGreen,
    Green,
    DarkGreen,
    Cyan,
    LightPink,
    Pink,
    Violet,
    Red,
    LightBlue,
    Blue,
    DarkBlue,
    Black,
}

/// The wire name of a sticky-note color.
pub open spec fn color_str(c: MiroColor) -> Seq<char> {
    match c {
        MiroColor::Gray => "gray"@,
        MiroColor::LightYellow => "light_yellow"@,
        MiroColor::Yellow => "yellow"@,
        MiroColor::Orange => "orange"@,
        MiroColor::LightGreen => "light_green"@,
        MiroColor::Green => "green"@,
        MiroColor::DarkGreen => "dark_green"@,
        MiroColor::Cyan => "cyan"@,
        MiroColor::LightPink => "light_pink"@,
        MiroColor::Pink => "pink"@,
        MiroColor::Violet => "violet"@,
        MiroColor::Red => "red"@,
        MiroColor::LightBlue => "light_blue"@,
        MiroColor::Blue => "blue"@,
        MiroColor::DarkBlue => "dark_blue"@,
        MiroColor::Black => "black"@,
    }
}

impl MiroColor {
    /// The wire name of this color.
    pub fn to_str(&self) -> (r: &'static str)
        ensures
            r@ == color_str(*self),
    {
        match self {
            MiroColor::Gray => "gray",
            MiroColor::LightYellow => "light_yellow",
            MiroColor::Yellow => "yellow",
            MiroColor::Orange => "orange",
            MiroColor::LightGreen => "light_green",
            MiroColor::Green => "green",
            MiroColor::DarkGreen => "dark_green",
            MiroColor::Cyan => "cyan",
            MiroColor::LightPink => "light_pink",
            MiroColor::Pink => "pink",
            MiroColor::Violet => "violet",
            MiroColor::Red => "red",
            MiroColor::LightBlue => "light_blue",
            MiroColor::Blue => "blue",
            MiroColor::DarkBlue => "dark_blue",
            MiroColor::Black => "black",
        }
    }
}

/// A board frame: its title, identity once deployed, and geometry.
#[derive(Debug, Clone)]
pub struct MiroFrame {
    pub title: String,
    pub item_id: String,
    pub frame_url: Option<String>,
    pub height: u64,
    pub width: u64,
    pub x_position: i64,
    pub y_position: i64,
}

impl MiroFrame {
    /// A frame that has not been deployed yet: no identity and no URL.
    pub fn new(title: &str, height: u64, width: u64, x_position: i64, y_position: i64) -> (r:
        Self)
        ensures
            r.title@ == title@,
            r.item_id@ == Seq::<char>::empty(),
            r.frame_url is None,
            r.height == height,
            r.width == width,
            r.x_position == x_position,
            r.y_position == y_position,
    {
        MiroFrame {
            title: title.to_owned(),
            item_id: String::new(),
            frame_url: None,
            height,
            width,
            x_position,
            y_position,
        }
    }
}

/// A sticky note: its text, color, parent frame, identity once deployed,
/// and geometry.
#[derive(Debug, Clone)]
pub struct MiroStickyNote {
    pub content: String,
    pub color: MiroColor,
    pub parent_id: String,
    pub item_type: MiroItemType,
    pub item_id: String,
    pub x_position: i64,
    pub y_position: i64,
    pub width: u64,
}

impl MiroStickyNote {
    /// A sticky note that has not been deployed yet: no identity, typed
    /// as a sticky note.
    pub fn new(
        content: &str,
        color: MiroColor,
        parent_id: &str,
        x_position: i64,
        y_position: i64,
        width: u64,
    ) -> (r: Self)
        ensures
            r.content@ == content@,
            r.color == color,
            r.parent_id@ == parent_id@,
            r.item_type == MiroItemType::StickyNote,
            r.item_id@ == Seq::<char>::empty(),
            r.x_position == x_position,
            r.y_position == y_position,
            r.width == width,
    {
        MiroStickyNote {
            content: content.to_owned(),
            color,
            parent_id: parent_id.to_owned(),
            item_type: MiroItemType::StickyNote,
            item_id: String::new(),
            x_position,
            y_position,
            width,
        }
    }
}

} // verus!
