use vstd::prelude::*;

verus! {

/// Why a picture could not be made.
#[derive(Clone, Copy, Debug, PartialEq, Eq, Structural)]
pub enum RenderError {
    /// The input holds no table: no line of it carries cells.
    EmptyTable,
    /// No highlighting theme goes by the name that was asked for.
    ThemeNotFound,
    /// The highlighter could not read a line of the code.
    HighlightFailed,
    /// The picture would be wider or taller than a canvas can be, or its
    /// pixels would not fit in memory.
    CanvasTooLarge,
}

impl RenderError {
    /// What to tell the user.
    pub open spec fn text(self) -> Seq<char> {
        match self {
            RenderError::EmptyTable => "No table found in input"@,
            RenderError::ThemeNotFound => "Theme not found"@,
            RenderError::HighlightFailed => "Failed to highlight the code"@,
            RenderError::CanvasTooLarge => "The picture is too large"@,
        }
    }

    /// What to tell the user.
    pub fn message(&self) -> (m: &'static str)
        ensures
            m@ == self.text(),
    {
        match self {
            RenderError::EmptyTable => "No table found in input",
            RenderError::ThemeNotFound => "Theme not found",
            RenderError::HighlightFailed => "Failed to highlight the code",
            RenderError::CanvasTooLarge => "The picture is too large",
        }
    }
}

} // verus!
