//! The pages of the application: one shows at a time.
use vstd::prelude::*;

verus! {

/// A page of the application.
#[derive(Debug, Clone, Copy, PartialEq, Eq, Structural)]
pub enum Page {
    /// Settings.
    Providers,
    /// Carton export.
    Export,
    /// Box binding.
    BoxBand,
    /// Queries.
    Querys,
    /// Import into the test table.
    DataImport,
}

/// Which pages show.
#[derive(Debug, Clone, Copy, PartialEq, Eq, Structural)]
pub struct PageVisibility {
    /// Settings.
    pub providers: bool,
    /// Carton export.
    pub export: bool,
    /// Box binding.
    pub box_band: bool,
    /// Queries.
    pub querys: bool,
    /// Import.
    pub data_import: bool,
}

/// Whether `page` shows in `v`.
pub open spec fn shows(v: PageVisibility, page: Page) -> bool {
    match page {
        Page::Providers => v.providers,
        Page::Export => v.export,
        Page::BoxBand => v.box_band,
        Page::Querys => v.querys,
        Page::DataImport => v.data_import,
    }
}

/// Going to a page shows it and hides every other.
pub fn navigate_to(target: Page) -> (r: PageVisibility)
    ensures
        forall|p: Page| #[trigger] shows(r, p) == (p == target),
{
    PageVisibility {
        providers: target == Page::Providers,
        export: target == Page::Export,
        box_band: target == Page::BoxBand,
        querys: target == Page::Querys,
        data_import: target == Page::DataImport,
    }
}

/// Navigation shows exactly one page: the one gone to.
pub proof fn law_one_page_shows(target: Page, p: Page, q: Page, v: PageVisibility)
    requires
        forall|x: Page| #[trigger] shows(v, x) == (x == target),
        shows(v, p),
        shows(v, q),
    ensures
        p == q,
        p == target,
{
}

} // verus!
