//! Display options of the main page, as the query string selects them.

use vstd::prelude::*;
use vstd::string::*;

use crate::text::{trim_str, trimmed};

verus! {

/// Whether two strings hold the same characters.
pub fn same_text(a: &str, b: &str) -> (r: bool)
    ensures
        r == (a@ == b@),
{
    let x = String::from_str(a);
    let y = String::from_str(b);
    x.eq(&y)
}

/// Colour scheme of the page.
#[derive(Debug, Clone, Copy, PartialEq, Eq, Structural)]
pub enum ViewMode {
    DayTime,
    Night,
}

impl Default for ViewMode {
    fn default() -> (r: Self)
        ensures
            r == ViewMode::DayTime,
    {
        ViewMode::DayTime
    }
}

impl ViewMode {
    /// The name the page uses for the scheme.
    pub fn as_str(&self) -> (r: &'static str)
        ensures
            r@ == match self {
                ViewMode::DayTime => "daytime"@,
                ViewMode::Night => "night"@,
            },
    {
        match self {
            ViewMode::DayTime => "daytime",
            ViewMode::Night => "night",
        }
    }
}

/// A checkbox of the options form.
#[derive(Debug, Clone, Copy, PartialEq, Eq, Structural)]
pub struct IsSelected(pub bool);

impl Default for IsSelected {
    fn default() -> (r: Self)
        ensures
            r == IsSelected(false),
    {
        IsSelected(false)
    }
}

impl IsSelected {
    /// The attribute that renders the box's state: `checked` or nothing.
    pub fn as_attr(&self) -> (r: &'static str)
        ensures
            r@ == if self.0 { "checked"@ } else { ""@ },
    {
        if self.0 {
            "checked"
        } else {
            ""
        }
    }
}

/// Reads a checkbox from its submitted form value.
pub struct IsSelectedVisitor;

impl IsSelectedVisitor {
    /// A box is ticked when its value, without surrounding whitespace, is `on`.
    pub fn visit_str(self, v: &str) -> (r: IsSelected)
        ensures
            r.0 == (trimmed(v@) == "on"@),
    {
        IsSelected(same_text(trim_str(v), "on"))
    }
}

/// The options of the main page.
#[derive(Debug, Clone, Copy, PartialEq, Eq, Structural)]
pub struct MainArgs {
    pub view_mode: ViewMode,
    pub maximize: IsSelected,
    pub noheader: IsSelected,
    pub notaskbar: IsSelected,
    pub invframe: IsSelected,
    pub noframe: IsSelected,
}

impl Default for MainArgs {
    fn default() -> (r: Self)
        ensures
            r.view_mode == ViewMode::DayTime,
            !r.maximize.0 && !r.noheader.0 && !r.notaskbar.0 && !r.invframe.0 && !r.noframe.0,
    {
        MainArgs {
            view_mode: ViewMode::DayTime,
            maximize: IsSelected(false),
            noheader: IsSelected(false),
            notaskbar: IsSelected(false),
            invframe: IsSelected(false),
            noframe: IsSelected(false),
        }
    }
}

/// Writes the page frame into `wrt`. The frame has no content yet, so
/// nothing is written.
pub fn gen_frame(wrt: &mut String)
    ensures
        final(wrt)@ == old(wrt)@,
{
}

} // verus!
