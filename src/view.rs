//! Application state behind the window: the navigation selection, the search
//! text and the latest snapshot, and the table the processes view shows.
use vstd::prelude::*;
use crate::table::{
    Snapshot, SystemTotals, DisplayRow, compute_display_rows, cpu_total_cell, memory_total_cell,
    is_display_order, shows, percent_text, memory_usage_tenths,
};

verus! {

/// The views the side panel offers.
#[derive(PartialEq, Eq, Structural, Clone, Copy, Debug)]
pub enum NavItem {
    Processes,
}

impl NavItem {
    /// Every view, in side panel order.
    pub fn all() -> (r: Vec<NavItem>)
        ensures
            r@ == seq![NavItem::Processes],
    {
        let r = vec![NavItem::Processes];
        assert(r@ =~= seq![NavItem::Processes]);
        r
    }

    /// The text of the view's side panel button.
    pub fn label(&self) -> (r: &'static str)
        ensures
            *self == NavItem::Processes ==> r@ == "Processes"@,
    {
        match self {
            NavItem::Processes => "Processes",
        }
    }
}

/// What the processes view shows: the column totals and the table body.
pub struct ProcessTable {
    pub cpu_total: String,
    pub memory_total: String,
    pub rows: Vec<DisplayRow>,
}

/// The state the user interface is drawn from.
pub struct Application {
    pub snapshot: Snapshot,
    pub search: String,
    pub current_nav_item: NavItem,
}

impl Application {
    /// Starts on the processes view with an empty search and no processes.
    pub fn new() -> (r: Self)
        ensures
            r.snapshot.processes@.len() == 0,
            r.snapshot.totals.global_cpu_usage_tenths == 0,
            r.snapshot.totals.used_memory_bytes == 0,
            r.snapshot.totals.total_memory_bytes == 0,
            r.search@.len() == 0,
            r.current_nav_item == NavItem::Processes,
    {
        Application {
            snapshot: Snapshot {
                processes: Vec::new(),
                totals: SystemTotals {
                    global_cpu_usage_tenths: 0,
                    used_memory_bytes: 0,
                    total_memory_bytes: 0,
                },
            },
            search: String::new(),
            current_nav_item: NavItem::Processes,
        }
    }

    /// The selected view.
    pub fn current_nav_item(&self) -> (r: NavItem)
        ensures
            r == self.current_nav_item,
    {
        self.current_nav_item
    }

    /// The user picked a view in the side panel.
    pub fn select(&mut self, item: NavItem)
        ensures
            final(self).current_nav_item == item,
            final(self).search@ == old(self).search@,
            final(self).snapshot == old(self).snapshot,
    {
        self.current_nav_item = item;
    }

    /// Replaces the snapshot wholesale with a fresh one.
    pub fn replace_snapshot(&mut self, snapshot: Snapshot)
        ensures
            final(self).snapshot == snapshot,
            final(self).search@ == old(self).search@,
            final(self).current_nav_item == old(self).current_nav_item,
    {
        self.snapshot = snapshot;
    }

    /// The processes view for the current snapshot and search text.
    pub fn processes_view(&self) -> (r: ProcessTable)
        ensures
            r.cpu_total@ == percent_text(self.snapshot.totals.global_cpu_usage_tenths as nat),
            r.memory_total@ == percent_text(
                memory_usage_tenths(
                    self.snapshot.totals.used_memory_bytes as nat,
                    self.snapshot.totals.total_memory_bytes as nat,
                ),
            ),
            exists|order: Seq<usize>|
                #[trigger] is_display_order(self.snapshot.processes@, self.search@, order)
                    && order.len() == r.rows.len() && forall|k: int|
                    0 <= k < r.rows.len() ==> shows(
                        #[trigger] r.rows@[k],
                        self.snapshot.processes@[order[k] as int],
                    ),
    {
        ProcessTable {
            cpu_total: cpu_total_cell(&self.snapshot.totals),
            memory_total: memory_total_cell(&self.snapshot.totals),
            rows: compute_display_rows(&self.snapshot, self.search.as_str()),
        }
    }
}

impl Default for Application {
    fn default() -> (r: Self)
        ensures
            r.snapshot.processes@.len() == 0,
            r.search@.len() == 0,
            r.current_nav_item == NavItem::Processes,
    {
        Self::new()
    }
}

} // verus!
