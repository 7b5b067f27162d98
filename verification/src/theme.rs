//! The styles in which output is shown, one for each role a piece of text
//! plays. Painting text with them is left to the caller.

use vstd::prelude::*;

verus! {

/// A terminal color.
#[derive(Clone, Copy, Debug, PartialEq, Eq, Structural)]
pub enum Color {
    Red,
    Green,
    Yellow,
    Blue,
    Magenta,
    White,
}

/// A style: an optional color, and whether the text is dimmed.
#[derive(Clone, Copy, Debug, PartialEq, Eq, Structural)]
pub struct Style {
    pub color: Option<Color>,
    pub dimmed: bool,
}

impl Style {
    /// The plain style: no color, not dimmed.
    pub fn plain() -> (s: Style)
        ensures
            s == (Style { color: None, dimmed: false }),
    {
        Style { color: None, dimmed: false }
    }

    /// Text in `color`.
    pub fn new(color: Color) -> (s: Style)
        ensures
            s == (Style { color: Some(color), dimmed: false }),
    {
        Style { color: Some(color), dimmed: false }
    }

    /// This style, dimmed.
    pub fn dimmed(self) -> (s: Style)
        ensures
            s == (Style { dimmed: true, ..self }),
    {
        Style { dimmed: true, ..self }
    }
}

/// The styles of output, and the prefix of headers.
#[derive(Debug)]
pub struct Theme {
    pub action_style: Style,
    pub arguments_style: Style,
    pub command_style: Style,
    pub header_prefix: &'static str,
    pub header_prefix_style: Style,
    pub error_style: Style,
    pub output_style: Style,
    pub seperator_style: Style,
    pub url_style: Style,
    pub warning_style: Style,
}

impl Theme {
    /// The theme: actions and output plain, arguments magenta, commands
    /// green, errors red, header prefix ` > ` and separators dimmed white,
    /// URLs blue and warnings yellow.
    pub fn new() -> (t: Theme)
        ensures
            t.action_style == (Style { color: None, dimmed: false }),
            t.arguments_style == (Style { color: Some(Color::Magenta), dimmed: false }),
            t.command_style == (Style { color: Some(Color::Green), dimmed: false }),
            t.error_style == (Style { color: Some(Color::Red), dimmed: false }),
            t.header_prefix@ == " > "@,
            t.header_prefix_style == (Style { color: Some(Color::White), dimmed: true }),
            t.output_style == (Style { color: None, dimmed: false }),
            t.seperator_style == (Style { color: Some(Color::White), dimmed: true }),
            t.url_style == (Style { color: Some(Color::Blue), dimmed: false }),
            t.warning_style == (Style { color: Some(Color::Yellow), dimmed: false }),
    {
        Theme {
            action_style: Style::plain(),
            arguments_style: Style::new(Color::Magenta),
            command_style: Style::new(Color::Green),
            error_style: Style::new(Color::Red),
            header_prefix: " > ",
            header_prefix_style: Style::new(Color::White).dimmed(),
            output_style: Style::plain(),
            seperator_style: Style::new(Color::White).dimmed(),
            url_style: Style::new(Color::Blue),
            warning_style: Style::new(Color::Yellow),
        }
    }

    pub fn action_style(&self) -> (s: &Style)
        ensures
            *s == self.action_style,
    {
        &self.action_style
    }

    pub fn arguments_style(&self) -> (s: &Style)
        ensures
            *s == self.arguments_style,
    {
        &self.arguments_style
    }

    pub fn command_style(&self) -> (s: &Style)
        ensures
            *s == self.command_style,
    {
        &self.command_style
    }

    pub fn error_style(&self) -> (s: &Style)
        ensures
            *s == self.error_style,
    {
        &self.error_style
    }

    pub fn header_prefix_str(&self) -> (s: &str)
        ensures
            s@ == self.header_prefix@,
    {
        self.header_prefix
    }

    pub fn header_prefix_style(&self) -> (s: &Style)
        ensures
            *s == self.header_prefix_style,
    {
        &self.header_prefix_style
    }

    pub fn output_style(&self) -> (s: &Style)
        ensures
            *s == self.output_style,
    {
        &self.output_style
    }

    pub fn seperator_style(&self) -> (s: &Style)
        ensures
            *s == self.seperator_style,
    {
        &self.seperator_style
    }

    pub fn url_style(&self) -> (s: &Style)
        ensures
            *s == self.url_style,
    {
        &self.url_style
    }

    pub fn warning_style(&self) -> (s: &Style)
        ensures
            *s == self.warning_style,
    {
        &self.warning_style
    }
}

impl Default for Theme {
    /// The theme `Theme::new` gives.
    fn default() -> (t: Theme)
        ensures
            t.action_style == (Style { color: None, dimmed: false }),
            t.arguments_style == (Style { color: Some(Color::Magenta), dimmed: false }),
            t.command_style == (Style { color: Some(Color::Green), dimmed: false }),
            t.error_style == (Style { color: Some(Color::Red), dimmed: false }),
            t.header_prefix@ == " > "@,
            t.header_prefix_style == (Style { color: Some(Color::White), dimmed: true }),
            t.output_style == (Style { color: None, dimmed: false }),
            t.seperator_style == (Style { color: Some(Color::White), dimmed: true }),
            t.url_style == (Style { color: Some(Color::Blue), dimmed: false }),
            t.warning_style == (Style { color: Some(Color::Yellow), dimmed: false }),
    {
        Theme::new()
    }
}

/// The role a piece of output plays, which picks its style.
#[derive(Clone, Copy, Debug, PartialEq, Eq, Structural)]
pub enum Role {
    Plain,
    Arguments,
    Seperator,
}

} // verus!
