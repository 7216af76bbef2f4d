//! The state of the desktop window: which tab is shown, and what a click
//! on the bottom bar changes.
use vstd::prelude::*;

verus! {

/// The window's title.
pub const WINDOW_TITLE: &'static str = "Autopilot-rs";

/// The heading of the top bar.
pub const TOP_HEADING: &'static str = "Autopilot";

/// The tabs of the bottom bar.
#[derive(Debug, Clone, Copy, PartialEq, Eq, Structural)]
pub enum Tabs {
    Overview,
    Jobs,
    Settings,
}

/// The label of a tab.
pub open spec fn tab_label(t: Tabs) -> Seq<char> {
    match t {
        Tabs::Overview => "Overview"@,
        Tabs::Jobs => "Jobs"@,
        Tabs::Settings => "Settings"@,
    }
}

impl Tabs {
    /// The label the bottom bar shows for the tab.
    pub fn label(&self) -> (r: String)
        ensures
            r@ == tab_label(*self),
    {
        match self {
            Tabs::Overview => String::from_str("Overview"),
            Tabs::Jobs => String::from_str("Jobs"),
            Tabs::Settings => String::from_str("Settings"),
        }
    }
}

/// The tabs in the order the bottom bar shows them.
pub fn tab_order() -> (r: Vec<Tabs>)
    ensures
        r@ == seq![Tabs::Overview, Tabs::Jobs, Tabs::Settings],
{
    let mut r = Vec::new();
    r.push(Tabs::Overview);
    r.push(Tabs::Jobs);
    r.push(Tabs::Settings);
    assert(r@ =~= seq![Tabs::Overview, Tabs::Jobs, Tabs::Settings]);
    r
}

/// The window's state.
pub struct AutopilotGUI {
    pub active_tab: Tabs,
}

impl AutopilotGUI {
    /// A window opened on the overview.
    pub fn new() -> (r: Self)
        ensures
            r.active_tab == Tabs::Overview,
    {
        AutopilotGUI { active_tab: Tabs::Overview }
    }

    /// Whether the bottom bar shows `tab` as selected.
    pub fn is_selected(&self, tab: Tabs) -> (r: bool)
        ensures
            r == (self.active_tab == tab),
    {
        self.active_tab == tab
    }

    /// A click on `tab` in the bottom bar: it becomes the only selected tab.
    pub fn on_tab_clicked(&mut self, tab: Tabs)
        ensures
            final(self).active_tab == tab,
    {
        self.active_tab = tab;
    }

    /// The heading the central panel shows: the overview is a work in
    /// progress, the other tabs are empty.
    pub fn central_heading(&self) -> (r: Option<String>)
        ensures
            self.active_tab == Tabs::Overview ==> (r matches Some(h) && h@ == "WIP"@),
            self.active_tab != Tabs::Overview ==> r is None,
    {
        match self.active_tab {
            Tabs::Overview => Some(String::from_str("WIP")),
            Tabs::Jobs => None,
            Tabs::Settings => None,
        }
    }
}

} // verus!
