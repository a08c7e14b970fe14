//! Classification of one inventory record as of a given day.

use crate::bean::{BeanFreshnessInfo, BeanView, CoffeeBean, FreshnessState, FreshnessView, WindowProgress};
use vstd::prelude::*;

verus! {

/// The format of a roast date: year, month and day, separated by hyphens.
pub const ROAST_DATE_FORMAT: &'static str = "%Y-%m-%d";

/// First day of the flavor window where a record gives none.
pub const DEFAULT_START_DAY: i32 = 7;

/// Last day of the flavor window where a record gives none.
pub const DEFAULT_END_DAY: i32 = 30;

/// The day number of the date that `text` spells in `format`, as chrono reads
/// it; `None` where chrono rejects the text.
pub uninterp spec fn parsed_day_number(text: Seq<char>, format: Seq<char>) -> Option<i32>;

/// Reads a calendar date with chrono's `NaiveDate::parse_from_str` and gives
/// its day number, which is chrono's `Datelike::num_days_from_ce`, or `None`
/// where chrono returns an error.
///
/// Trusted, not proved: that for the roast-date format the outcome depends on
/// the text alone. Nothing is claimed about which texts chrono accepts or
/// which day it finds.
#[verifier::external_body]
fn parse_day_number(text: &str, format: &str) -> (day: Option<i32>)
    requires
        format@ == ROAST_DATE_FORMAT@,
    ensures
        day == parsed_day_number(text@, format@),
{
    match chrono::NaiveDate::parse_from_str(text, format) {
        Ok(date) => Some(chrono::Datelike::num_days_from_ce(&date)),
        Err(_) => None,
    }
}

/// The day number of a record's roast date: `None` where the record has no
/// roast date or the text is not a date.
pub open spec fn roast_day_of(roast_date: Option<Seq<char>>) -> Option<i32> {
    match roast_date {
        Some(text) => parsed_day_number(text, ROAST_DATE_FORMAT@),
        None => None,
    }
}

/// Days elapsed on `today` since the roast; 0 without a usable roast date.
pub open spec fn days_since(roast_day: Option<i32>, today: i32) -> int {
    match roast_day {
        Some(day) => today - day,
        None => 0,
    }
}

/// The state of a bean. The first rule that applies decides: in transit,
/// frozen, no usable roast date, before the window, inside it (both ends
/// included), past it.
pub open spec fn state_of(
    in_transit: bool,
    frozen: bool,
    has_roast_day: bool,
    days: int,
    start_day: int,
    end_day: int,
) -> FreshnessState {
    if in_transit {
        FreshnessState::InTransit
    } else if frozen {
        FreshnessState::Frozen
    } else if !has_roast_day {
        FreshnessState::Unknown
    } else if days < start_day {
        FreshnessState::Resting
    } else if days <= end_day {
        FreshnessState::Optimal
    } else {
        FreshnessState::Decline
    }
}

/// Progress through the flavor window: linear inside a window of positive
/// length, complete once the days exceed its end, nothing otherwise.
pub open spec fn progress_of(
    state: FreshnessState,
    days: int,
    start_day: int,
    end_day: int,
) -> WindowProgress {
    if state == FreshnessState::Optimal && end_day > start_day {
        WindowProgress { elapsed: (days - start_day) as i64, span: (end_day - start_day) as i64 }
    } else if days > end_day {
        WindowProgress { elapsed: 1, span: 1 }
    } else {
        WindowProgress { elapsed: 0, span: 1 }
    }
}

/// The freshness of `bean` on `today`, given the day number of its roast
/// date (`None` where it has no usable one).
pub open spec fn classified(bean: BeanView, roast_day: Option<i32>, today: i32) -> FreshnessView {
    let days = days_since(roast_day, today);
    let start_day = bean.start_day.unwrap_or(DEFAULT_START_DAY);
    let end_day = bean.end_day.unwrap_or(DEFAULT_END_DAY);
    let state = state_of(
        bean.is_in_transit.unwrap_or(false),
        bean.is_frozen.unwrap_or(false),
        roast_day is Some,
        days,
        start_day as int,
        end_day as int,
    );
    FreshnessView {
        bean,
        days_since_roast: days,
        start_day: start_day as int,
        end_day: end_day as int,
        freshness_state: state,
        progress_percent: progress_of(state, days, start_day as int, end_day as int),
    }
}

/// The freshness of `bean` on `today`.
pub open spec fn freshness_of(bean: BeanView, today: i32) -> FreshnessView {
    classified(bean, roast_day_of(bean.roast_date), today)
}

/// A bean in transit is `InTransit`, whatever else holds of it: frozen or
/// not, with or without a roast date, however long past its window.
pub proof fn lemma_in_transit_decides_first(bean: BeanView, roast_day: Option<i32>, today: i32)
    requires
        bean.is_in_transit == Some(true),
    ensures
        classified(bean, roast_day, today).freshness_state == FreshnessState::InTransit,
{
}

/// A frozen bean that is not in transit is `Frozen`, whatever its roast date.
pub proof fn lemma_frozen_decides_before_the_clock(
    bean: BeanView,
    roast_day: Option<i32>,
    today: i32,
)
    requires
        bean.is_in_transit != Some(true),
        bean.is_frozen == Some(true),
    ensures
        classified(bean, roast_day, today).freshness_state == FreshnessState::Frozen,
{
}

/// A bean that is neither in transit nor frozen and has no usable roast date
/// is `Unknown` and counts zero days.
pub proof fn lemma_no_roast_day_is_unknown(bean: BeanView, today: i32)
    requires
        bean.is_in_transit != Some(true),
        bean.is_frozen != Some(true),
    ensures
        classified(bean, None, today).freshness_state == FreshnessState::Unknown,
        classified(bean, None, today).days_since_roast == 0,
{
}

/// Both ends of the flavor window belong to it: on its first and on its last
/// day the bean is `Optimal`. Stated of a bean whose state the roast clock
/// decides, for a window that does not end before it starts.
pub proof fn lemma_window_ends_are_optimal(bean: BeanView, roast_day: i32, today: i32)
    requires
        bean.is_in_transit != Some(true),
        bean.is_frozen != Some(true),
        bean.start_day.unwrap_or(DEFAULT_START_DAY) <= bean.end_day.unwrap_or(DEFAULT_END_DAY),
    ensures
        ({
            let info = classified(bean, Some(roast_day), today);
            &&& info.days_since_roast == info.start_day ==> info.freshness_state
                == FreshnessState::Optimal
            &&& info.days_since_roast == info.end_day ==> info.freshness_state
                == FreshnessState::Optimal
        }),
{
}

/// The day after the window's last is `Decline`. Stated of a bean whose
/// state the roast clock decides, unless that day is still before the
/// window's first.
pub proof fn lemma_day_after_window_is_decline(bean: BeanView, roast_day: i32, today: i32)
    requires
        bean.is_in_transit != Some(true),
        bean.is_frozen != Some(true),
        bean.start_day.unwrap_or(DEFAULT_START_DAY) <= bean.end_day.unwrap_or(DEFAULT_END_DAY)
            + 1,
    ensures
        ({
            let info = classified(bean, Some(roast_day), today);
            info.days_since_roast == info.end_day + 1 ==> info.freshness_state
                == FreshnessState::Decline
        }),
{
}

/// Before the window's first day the bean is `Resting`, where the roast
/// clock decides.
pub proof fn lemma_before_window_is_resting(bean: BeanView, roast_day: i32, today: i32)
    requires
        bean.is_in_transit != Some(true),
        bean.is_frozen != Some(true),
    ensures
        ({
            let info = classified(bean, Some(roast_day), today);
            info.days_since_roast < info.start_day ==> info.freshness_state
                == FreshnessState::Resting
        }),
{
}

/// The progress of every classification is a fraction between nought and
/// one, so its percentage lies within 0 and 100.
pub proof fn lemma_progress_in_range(bean: BeanView, roast_day: Option<i32>, today: i32)
    ensures
        classified(bean, roast_day, today).progress_percent.wf(),
        0 <= classified(bean, roast_day, today).progress_percent.spec_percent() <= 100,
{
    let p = classified(bean, roast_day, today).progress_percent;
    crate::bean::lemma_percent_bounds(p.elapsed as int, p.span as int);
}

/// Classifies `bean` as of `today`, given the day number of its roast date
/// (`None` where it has no usable one).
pub fn classify(bean: &CoffeeBean, roast_day: Option<i32>, today: i32) -> (info: BeanFreshnessInfo)
    ensures
        info@ == classified(bean@, roast_day, today),
        info.progress_percent.wf(),
{
    let days: i64 = match roast_day {
        Some(day) => today as i64 - day as i64,
        None => 0,
    };
    let start_day: i32 = match bean.start_day {
        Some(d) => d,
        None => DEFAULT_START_DAY,
    };
    let end_day: i32 = match bean.end_day {
        Some(d) => d,
        None => DEFAULT_END_DAY,
    };
    let in_transit = match bean.is_in_transit {
        Some(b) => b,
        None => false,
    };
    let frozen = match bean.is_frozen {
        Some(b) => b,
        None => false,
    };
    let state = if in_transit {
        FreshnessState::InTransit
    } else if frozen {
        FreshnessState::Frozen
    } else if roast_day.is_none() {
        FreshnessState::Unknown
    } else if days < start_day as i64 {
        FreshnessState::Resting
    } else if days <= end_day as i64 {
        FreshnessState::Optimal
    } else {
        FreshnessState::Decline
    };
    let progress = if state == FreshnessState::Optimal && end_day > start_day {
        WindowProgress { elapsed: days - start_day as i64, span: end_day as i64 - start_day as i64 }
    } else if days > end_day as i64 {
        WindowProgress::full()
    } else {
        WindowProgress::none()
    };
    BeanFreshnessInfo {
        bean: bean.clone(),
        days_since_roast: days,
        start_day,
        end_day,
        freshness_state: state,
        progress_percent: progress,
    }
}

/// Classifies `bean` as of the day with number `today`.
///
/// The roast date is read as `YYYY-MM-DD`; a record without one, or with a
/// text that is not a date, counts zero days and is `Unknown` unless it is in
/// transit or frozen.
pub fn calculate_freshness(bean: &CoffeeBean, today: i32) -> (info: BeanFreshnessInfo)
    ensures
        info@ == freshness_of(bean@, today),
        info.progress_percent.wf(),
{
    let roast_day = match &bean.roast_date {
        Some(text) => parse_day_number(text.as_str(), ROAST_DATE_FORMAT),
        None => None,
    };
    classify(bean, roast_day, today)
}

} // verus!
