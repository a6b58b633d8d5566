use vstd::prelude::*;

verus! {

/// What the main panel shows.
#[derive(Clone, Copy, Debug, PartialEq, Eq, Structural)]
pub enum ViewMode {
    Flashcard,
    Dictionary,
}

/// Requests that background work sends to the interface.
#[derive(Clone, Copy, Debug)]
pub enum UpdateEvent {
    /// The loaded models changed and the view should be drawn again.
    LibraryModels,
}

/// Start-up options of the program.
#[derive(Clone, Debug)]
pub struct SeekerArgs {
    /// The directory that holds the index.
    pub directory: Option<String>,
}

/// The mode selector on the side of the window.
#[derive(Clone, Copy, Debug)]
pub struct SideMenuBar {
    pub selected_mode: ViewMode,
}

impl Default for SideMenuBar {
    fn default() -> (r: SideMenuBar)
        ensures
            r.selected_mode == ViewMode::Flashcard,
    {
        SideMenuBar { selected_mode: ViewMode::Flashcard }
    }
}

impl SideMenuBar {
    /// The mode button that was clicked becomes the selected mode.
    pub fn select(&mut self, clicked: ViewMode)
        ensures
            final(self).selected_mode == clicked,
    {
        self.selected_mode = clicked;
    }
}

} // verus!
