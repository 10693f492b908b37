//! Small widgets of the terminal interface: section labels and simple
//! popovers, with what they show.

use vstd::prelude::*;

verus! {

/// Bold styled section header
pub struct Label {
    title: String,
    width: Option<u16>,
    padding_x: Option<u16>,
    padding_y: Option<u16>,
}

/// The plain contents of a label
pub struct LabelData {
    pub title: Seq<char>,
    pub width: Option<u16>,
    pub padding_x: Option<u16>,
    pub padding_y: Option<u16>,
}

impl View for Label {
    type V = LabelData;

    closed spec fn view(&self) -> LabelData {
        LabelData { title: self.title@, width: self.width, padding_x: self.padding_x, padding_y: self.padding_y }
    }
}

/// How a label is drawn: its title, the width of its area and the
/// horizontal and vertical padding
pub struct LabelLayout {
    pub width: u16,
    pub padding_x: u16,
    pub padding_y: u16,
}

impl Label {
    /// A header with the given title, of the default width and unpadded
    pub fn new(title: String) -> (l: Label)
        ensures
            l@ == (LabelData { title: title@, width: None, padding_x: None, padding_y: None }),
    {
        Label { title, width: None, padding_x: None, padding_y: None }
    }

    /// The label with the given width
    pub fn width(self, w: u16) -> (l: Label)
        ensures
            l@ == (LabelData { width: Some(w), ..self@ }),
    {
        Label { width: Some(w), ..self }
    }

    /// The label with the given horizontal padding
    pub fn padding_x(self, x: u16) -> (l: Label)
        ensures
            l@ == (LabelData { padding_x: Some(x), ..self@ }),
    {
        Label { padding_x: Some(x), ..self }
    }

    /// The label with the given vertical padding
    pub fn padding_y(self, y: u16) -> (l: Label)
        ensures
            l@ == (LabelData { padding_y: Some(y), ..self@ }),
    {
        Label { padding_y: Some(y), ..self }
    }

    /// The title
    pub fn title(&self) -> (t: &str)
        ensures
            t@ == self@.title,
    {
        self.title.as_str()
    }

    /// How the label is drawn: 25 columns wide and unpadded unless set
    pub fn layout(&self) -> (r: LabelLayout)
        ensures
            r.width == (match self@.width {
                Some(w) => w,
                None => 25,
            }),
            r.padding_x == (match self@.padding_x {
                Some(x) => x,
                None => 0,
            }),
            r.padding_y == (match self@.padding_y {
                Some(y) => y,
                None => 0,
            }),
    {
        LabelLayout {
            width: match self.width {
                Some(w) => w,
                None => 25,
            },
            padding_x: match self.padding_x {
                Some(x) => x,
                None => 0,
            },
            padding_y: match self.padding_y {
                Some(y) => y,
                None => 0,
            },
        }
    }
}

/// A popover with a message and an optional footer
pub struct SimplePopover {
    message: String,
    footer: Option<String>,
    message_centered: bool,
    footer_centered: bool,
}

/// The plain contents of a simple popover
pub struct SimplePopoverData {
    pub message: Seq<char>,
    pub footer: Option<Seq<char>>,
    pub message_centered: bool,
    pub footer_centered: bool,
}

impl View for SimplePopover {
    type V = SimplePopoverData;

    closed spec fn view(&self) -> SimplePopoverData {
        SimplePopoverData {
            message: self.message@,
            footer: match self.footer {
                Some(f) => Some(f@),
                None => None,
            },
            message_centered: self.message_centered,
            footer_centered: self.footer_centered,
        }
    }
}

impl SimplePopover {
    /// A popover with the message, no footer, nothing centered
    pub fn new(message: String) -> (p: SimplePopover)
        ensures
            p@ == (SimplePopoverData {
                message: message@,
                footer: None,
                message_centered: false,
                footer_centered: false,
            }),
    {
        SimplePopover { message, footer: None, message_centered: false, footer_centered: false }
    }

    /// The popover with its message centered
    pub fn message_centered(self) -> (p: SimplePopover)
        ensures
            p@ == (SimplePopoverData { message_centered: true, ..self@ }),
    {
        SimplePopover { message_centered: true, ..self }
    }

    /// The popover with the footer
    pub fn footer(self, f: String) -> (p: SimplePopover)
        ensures
            p@ == (SimplePopoverData { footer: Some(f@), ..self@ }),
    {
        SimplePopover { footer: Some(f), ..self }
    }

    /// The popover with its footer centered
    pub fn footer_centered(self) -> (p: SimplePopover)
        ensures
            p@ == (SimplePopoverData { footer_centered: true, ..self@ }),
    {
        SimplePopover { footer_centered: true, ..self }
    }

    /// The message
    pub fn message(&self) -> (m: &str)
        ensures
            m@ == self@.message,
    {
        self.message.as_str()
    }

    /// The footer, if any
    pub fn footer_text(&self) -> (f: Option<&str>)
        ensures
            match f {
                Some(t) => self@.footer == Some(t@),
                None => self@.footer is None,
            },
    {
        match &self.footer {
            Some(t) => Some(t.as_str()),
            None => None,
        }
    }

    /// Whether the message and the footer are centered
    pub fn centering(&self) -> (r: (bool, bool))
        ensures
            r == (self@.message_centered, self@.footer_centered),
    {
        (self.message_centered, self.footer_centered)
    }
}

/// The popover that asks to confirm the reset of a device's configuration
pub fn config_removal_popover() -> (p: SimplePopover)
    ensures
        p@ == (SimplePopoverData {
            message: "Are you sure you want to reset the config for this device?"@,
            footer: Some("Enter to Confirm | Esc to Cancel"@),
            message_centered: true,
            footer_centered: true,
        }),
{
    SimplePopover::new(String::from_str("Are you sure you want to reset the config for this device?")).footer(
        String::from_str("Enter to Confirm | Esc to Cancel"),
    ).message_centered().footer_centered()
}

} // verus!
