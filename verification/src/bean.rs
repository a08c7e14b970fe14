//! The inventory record and what is derived from it.
//!
//! Dates are day numbers: days counted in the proleptic Gregorian calendar,
//! with 1 January of the year 1 as day 1.

use vstd::prelude::*;

verus! {

/// One inventory entry, as the frontend sends it.
#[derive(Debug, PartialEq, Eq)]
pub struct CoffeeBean {
    /// Unique identifier.
    pub id: String,
    /// Display name.
    pub name: String,
    /// Remaining quantity in grams, as decimal text.
    pub remaining: Option<String>,
    /// Total capacity in grams, as decimal text.
    pub capacity: Option<String>,
    /// Roast date, `YYYY-MM-DD`.
    pub roast_date: Option<String>,
    /// First day of the flavor window, in days since roast.
    pub start_day: Option<i32>,
    /// Last day of the flavor window, in days since roast.
    pub end_day: Option<i32>,
    /// Whether the bean is kept frozen.
    pub is_frozen: Option<bool>,
    /// Whether the bean has not arrived yet.
    pub is_in_transit: Option<bool>,
}

/// The mathematical content of a [`CoffeeBean`].
pub ghost struct BeanView {
    pub id: Seq<char>,
    pub name: Seq<char>,
    pub remaining: Option<Seq<char>>,
    pub capacity: Option<Seq<char>>,
    pub roast_date: Option<Seq<char>>,
    pub start_day: Option<i32>,
    pub end_day: Option<i32>,
    pub is_frozen: Option<bool>,
    pub is_in_transit: Option<bool>,
}

/// The characters of an optional text.
pub open spec fn text_view(text: Option<String>) -> Option<Seq<char>> {
    match text {
        Some(s) => Some(s@),
        None => None,
    }
}

impl View for CoffeeBean {
    type V = BeanView;

    open spec fn view(&self) -> BeanView {
        BeanView {
            id: self.id@,
            name: self.name@,
            remaining: text_view(self.remaining),
            capacity: text_view(self.capacity),
            roast_date: text_view(self.roast_date),
            start_day: self.start_day,
            end_day: self.end_day,
            is_frozen: self.is_frozen,
            is_in_transit: self.is_in_transit,
        }
    }
}

impl DeepView for CoffeeBean {
    type V = BeanView;

    open spec fn deep_view(&self) -> BeanView {
        self@
    }
}

/// A copy of an optional text.
pub fn clone_text(text: &Option<String>) -> (out: Option<String>)
    ensures
        text_view(out) == text_view(*text),
{
    match text {
        Some(s) => Some(s.clone()),
        None => None,
    }
}

impl Clone for CoffeeBean {
    fn clone(&self) -> (out: Self)
        ensures
            out@ == self@,
    {
        CoffeeBean {
            id: self.id.clone(),
            name: self.name.clone(),
            remaining: clone_text(&self.remaining),
            capacity: clone_text(&self.capacity),
            roast_date: clone_text(&self.roast_date),
            start_day: self.start_day,
            end_day: self.end_day,
            is_frozen: self.is_frozen,
            is_in_transit: self.is_in_transit,
        }
    }
}

/// Where a bean stands relative to its flavor window.
#[derive(Debug, Clone, Copy, PartialEq, Eq, Structural)]
pub enum FreshnessState {
    /// Still resting: the flavor window has not opened yet.
    Resting,
    /// Inside the flavor window.
    Optimal,
    /// Past the end of the flavor window.
    Decline,
    /// Kept frozen; the roast clock does not apply.
    Frozen,
    /// Ordered but not yet received.
    InTransit,
    /// No usable roast date on record.
    Unknown,
}

/// How far a bean is through its flavor window, as the exact fraction
/// `elapsed / span` of the window; the percentage is a hundred times that.
#[derive(Debug, Clone, Copy, PartialEq, Eq, Structural)]
pub struct WindowProgress {
    /// Days spent inside the window.
    pub elapsed: i64,
    /// Length of the window in days.
    pub span: i64,
}

impl WindowProgress {
    /// The fraction lies between nought and one.
    pub open spec fn wf(&self) -> bool {
        0 <= self.elapsed <= self.span && self.span > 0
    }

    /// The percentage, rounded down.
    pub open spec fn spec_percent(&self) -> int {
        100 * self.elapsed / (self.span as int)
    }

    /// Nothing of the window has passed.
    pub fn none() -> (p: Self)
        ensures
            p == (WindowProgress { elapsed: 0, span: 1 }),
            p.wf(),
            p.spec_percent() == 0,
    {
        WindowProgress { elapsed: 0, span: 1 }
    }

    /// All of the window has passed.
    pub fn full() -> (p: Self)
        ensures
            p == (WindowProgress { elapsed: 1, span: 1 }),
            p.wf(),
            p.spec_percent() == 100,
    {
        WindowProgress { elapsed: 1, span: 1 }
    }

    /// The percentage, rounded down: always within `0..=100`.
    pub fn percent(&self) -> (p: u8)
        requires
            self.wf(),
        ensures
            p == self.spec_percent(),
            p <= 100,
    {
        let scaled: i128 = 100 * (self.elapsed as i128);
        let span: i128 = self.span as i128;
        let q: i128 = scaled / span;
        proof {
            lemma_percent_bounds(self.elapsed as int, self.span as int);
        }
        q as u8
    }
}

/// A fraction between nought and one is between 0 and 100 per cent.
pub proof fn lemma_percent_bounds(elapsed: int, span: int)
    requires
        0 <= elapsed <= span,
        span > 0,
    ensures
        0 <= 100 * elapsed / span <= 100,
{
    assert(0 <= 100 * elapsed / span <= 100) by (nonlinear_arith)
        requires
            0 <= elapsed <= span,
            span > 0,
    ;
}

/// An inventory record together with its freshness, as of one day.
#[derive(Debug, PartialEq, Eq)]
pub struct BeanFreshnessInfo {
    /// The record this was derived from.
    pub bean: CoffeeBean,
    /// Days elapsed since the roast; 0 without a usable roast date.
    pub days_since_roast: i64,
    /// First day of the flavor window, after defaulting.
    pub start_day: i32,
    /// Last day of the flavor window, after defaulting.
    pub end_day: i32,
    /// The classification.
    pub freshness_state: FreshnessState,
    /// Progress through the flavor window.
    pub progress_percent: WindowProgress,
}

/// The mathematical content of a [`BeanFreshnessInfo`].
pub ghost struct FreshnessView {
    pub bean: BeanView,
    pub days_since_roast: int,
    pub start_day: int,
    pub end_day: int,
    pub freshness_state: FreshnessState,
    pub progress_percent: WindowProgress,
}

impl View for BeanFreshnessInfo {
    type V = FreshnessView;

    open spec fn view(&self) -> FreshnessView {
        FreshnessView {
            bean: self.bean@,
            days_since_roast: self.days_since_roast as int,
            start_day: self.start_day as int,
            end_day: self.end_day as int,
            freshness_state: self.freshness_state,
            progress_percent: self.progress_percent,
        }
    }
}

impl DeepView for BeanFreshnessInfo {
    type V = FreshnessView;

    open spec fn deep_view(&self) -> FreshnessView {
        self@
    }
}

impl Clone for BeanFreshnessInfo {
    fn clone(&self) -> (out: Self)
        ensures
            out@ == self@,
    {
        BeanFreshnessInfo {
            bean: self.bean.clone(),
            days_since_roast: self.days_since_roast,
            start_day: self.start_day,
            end_day: self.end_day,
            freshness_state: self.freshness_state,
            progress_percent: self.progress_percent,
        }
    }
}

} // verus!
