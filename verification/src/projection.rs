//! The inventory, filtered, classified, grouped by state and ordered.

use crate::bean::{BeanFreshnessInfo, BeanView, CoffeeBean, FreshnessState, FreshnessView};
use crate::filters::{lemma_filter_member, lemma_member_filter};
use crate::freshness::{calculate_freshness, freshness_of};
use crate::quantity::{decimal_positive, is_positive_quantity};
use crate::sorting::{
    is_stable_sort, lemma_stable_sort_permutes, lemma_stable_sort_unique, sort_stable, SortKey,
};
use vstd::prelude::*;

verus! {

/// The active records of an inventory, classified and grouped.
///
/// The groups that a day count orders come soonest first; the others keep the
/// order of the inventory. Beans without a usable roast date are kept in a
/// group of their own, which no menu shows.
#[derive(Debug, PartialEq, Eq)]
pub struct Projection {
    /// Frozen beans, in inventory order.
    pub frozen: Vec<BeanFreshnessInfo>,
    /// Beans inside their flavor window, fewest days left first.
    pub optimal: Vec<BeanFreshnessInfo>,
    /// Resting beans, fewest days until the window opens first.
    pub resting: Vec<BeanFreshnessInfo>,
    /// Beans past their window, fewest days since roast first.
    pub decline: Vec<BeanFreshnessInfo>,
    /// Beans in transit, in inventory order.
    pub in_transit: Vec<BeanFreshnessInfo>,
    /// Beans without a usable roast date, in inventory order.
    pub unknown: Vec<BeanFreshnessInfo>,
    /// Number of active records.
    pub bean_count: usize,
}

/// The mathematical content of a [`Projection`].
pub ghost struct ProjectionView {
    pub frozen: Seq<FreshnessView>,
    pub optimal: Seq<FreshnessView>,
    pub resting: Seq<FreshnessView>,
    pub decline: Seq<FreshnessView>,
    pub in_transit: Seq<FreshnessView>,
    pub unknown: Seq<FreshnessView>,
    pub bean_count: nat,
}

impl ProjectionView {
    /// The group that holds the beans in `state`.
    pub open spec fn group(self, state: FreshnessState) -> Seq<FreshnessView> {
        match state {
            FreshnessState::Frozen => self.frozen,
            FreshnessState::Optimal => self.optimal,
            FreshnessState::Resting => self.resting,
            FreshnessState::Decline => self.decline,
            FreshnessState::InTransit => self.in_transit,
            FreshnessState::Unknown => self.unknown,
        }
    }

    /// The number of beans over all groups.
    pub open spec fn grouped(self) -> nat {
        self.frozen.len() + self.optimal.len() + self.resting.len() + self.decline.len()
            + self.in_transit.len() + self.unknown.len()
    }
}

impl View for Projection {
    type V = ProjectionView;

    open spec fn view(&self) -> ProjectionView {
        ProjectionView {
            frozen: self.frozen.deep_view(),
            optimal: self.optimal.deep_view(),
            resting: self.resting.deep_view(),
            decline: self.decline.deep_view(),
            in_transit: self.in_transit.deep_view(),
            unknown: self.unknown.deep_view(),
            bean_count: self.bean_count as nat,
        }
    }
}

/// Whether a record is active: what remains of it is written as a decimal
/// number greater than zero.
pub open spec fn is_active(bean: BeanView) -> bool {
    bean.remaining matches Some(text) && decimal_positive(text)
}

/// The predicate "is active".
pub open spec fn active() -> spec_fn(BeanView) -> bool {
    |bean: BeanView| is_active(bean)
}

/// The predicate "is in `state`".
pub open spec fn in_state(state: FreshnessState) -> spec_fn(FreshnessView) -> bool {
    |info: FreshnessView| info.freshness_state == state
}

/// The active records of an inventory, each classified as of `today`, in
/// inventory order.
pub open spec fn active_infos(records: Seq<BeanView>, today: i32) -> Seq<FreshnessView> {
    records.filter(active()).map_values(|bean: BeanView| freshness_of(bean, today))
}

/// Whether `p` is the projection of `records` as of `today`.
///
/// Each group holds the active records in its state. Those inside their
/// window are ordered by the days left, the resting ones by the days until
/// the window opens, those past it by the days since roast, ties in inventory
/// order; the other groups keep the inventory order.
pub open spec fn is_projection_of(p: ProjectionView, records: Seq<BeanView>, today: i32) -> bool {
    let infos = active_infos(records, today);
    &&& p.frozen == infos.filter(in_state(FreshnessState::Frozen))
    &&& is_stable_sort(p.optimal, infos.filter(in_state(FreshnessState::Optimal)), SortKey::DaysLeft)
    &&& is_stable_sort(
        p.resting,
        infos.filter(in_state(FreshnessState::Resting)),
        SortKey::DaysUntilReady,
    )
    &&& is_stable_sort(
        p.decline,
        infos.filter(in_state(FreshnessState::Decline)),
        SortKey::DaysSinceRoast,
    )
    &&& p.in_transit == infos.filter(in_state(FreshnessState::InTransit))
    &&& p.unknown == infos.filter(in_state(FreshnessState::Unknown))
    &&& p.bean_count == infos.len()
}

/// The projection of `records` as of `today`.
pub open spec fn projection_of(records: Seq<BeanView>, today: i32) -> ProjectionView {
    choose|p: ProjectionView| is_projection_of(p, records, today)
}

/// An inventory has at most one projection on a given day.
pub proof fn lemma_projection_unique(
    p: ProjectionView,
    q: ProjectionView,
    records: Seq<BeanView>,
    today: i32,
)
    requires
        is_projection_of(p, records, today),
        is_projection_of(q, records, today),
    ensures
        p == q,
{
    let infos = active_infos(records, today);
    lemma_stable_sort_unique(
        p.optimal,
        q.optimal,
        infos.filter(in_state(FreshnessState::Optimal)),
        SortKey::DaysLeft,
    );
    lemma_stable_sort_unique(
        p.resting,
        q.resting,
        infos.filter(in_state(FreshnessState::Resting)),
        SortKey::DaysUntilReady,
    );
    lemma_stable_sort_unique(
        p.decline,
        q.decline,
        infos.filter(in_state(FreshnessState::Decline)),
        SortKey::DaysSinceRoast,
    );
}

/// The states split a sequence of classified beans: what the six filters
/// keep is, taken together, what the sequence holds, each item as often.
pub proof fn lemma_states_split(infos: Seq<FreshnessView>)
    ensures
        infos.to_multiset() == infos.filter(in_state(FreshnessState::Frozen)).to_multiset().add(
            infos.filter(in_state(FreshnessState::Optimal)).to_multiset(),
        ).add(infos.filter(in_state(FreshnessState::Resting)).to_multiset()).add(
            infos.filter(in_state(FreshnessState::Decline)).to_multiset(),
        ).add(infos.filter(in_state(FreshnessState::InTransit)).to_multiset()).add(
            infos.filter(in_state(FreshnessState::Unknown)).to_multiset(),
        ),
        infos.len() == infos.filter(in_state(FreshnessState::Frozen)).len() + infos.filter(
            in_state(FreshnessState::Optimal),
        ).len() + infos.filter(in_state(FreshnessState::Resting)).len() + infos.filter(
            in_state(FreshnessState::Decline),
        ).len() + infos.filter(in_state(FreshnessState::InTransit)).len() + infos.filter(
            in_state(FreshnessState::Unknown),
        ).len(),
    decreases infos.len(),
{
    broadcast use vstd::seq_lib::group_to_multiset_ensures;

    if infos.len() == 0 {
        reveal(Seq::filter);
        assert(infos.to_multiset() =~= infos.to_multiset().add(infos.to_multiset()));
    } else {
        let rest = infos.drop_last();
        let x = infos.last();
        lemma_states_split(rest);
        assert(infos =~= rest.push(x));
        rest.lemma_filter_push(x, in_state(FreshnessState::Frozen));
        rest.lemma_filter_push(x, in_state(FreshnessState::Optimal));
        rest.lemma_filter_push(x, in_state(FreshnessState::Resting));
        rest.lemma_filter_push(x, in_state(FreshnessState::Decline));
        rest.lemma_filter_push(x, in_state(FreshnessState::InTransit));
        rest.lemma_filter_push(x, in_state(FreshnessState::Unknown));
        let sum = infos.filter(in_state(FreshnessState::Frozen)).to_multiset().add(
            infos.filter(in_state(FreshnessState::Optimal)).to_multiset(),
        ).add(infos.filter(in_state(FreshnessState::Resting)).to_multiset()).add(
            infos.filter(in_state(FreshnessState::Decline)).to_multiset(),
        ).add(infos.filter(in_state(FreshnessState::InTransit)).to_multiset()).add(
            infos.filter(in_state(FreshnessState::Unknown)).to_multiset(),
        );
        assert(infos.to_multiset() =~= sum);
    }
}

/// The groups of a projection part the active records among them.
///
/// A member of a group is in that group's state, so no bean is in two
/// groups; it is the classification of its own record, and that record is an
/// active one of the inventory, so a record that is not active is in none.
/// Taken together the groups hold the classified active records, each as
/// often as the inventory does, and their number is the count that the
/// projection gives.
pub proof fn lemma_groups_part_active_records(
    p: ProjectionView,
    records: Seq<BeanView>,
    today: i32,
)
    requires
        is_projection_of(p, records, today),
    ensures
        forall|state: FreshnessState, info: FreshnessView| #[trigger]
            p.group(state).contains(info) ==> {
                &&& info.freshness_state == state
                &&& info == freshness_of(info.bean, today)
                &&& is_active(info.bean)
                &&& records.contains(info.bean)
            },
        forall|bean: BeanView|
            records.contains(bean) && is_active(bean) ==> p.group(
                #[trigger] freshness_of(bean, today).freshness_state,
            ).contains(freshness_of(bean, today)),
        p.frozen.to_multiset().add(p.optimal.to_multiset()).add(p.resting.to_multiset()).add(
            p.decline.to_multiset(),
        ).add(p.in_transit.to_multiset()).add(p.unknown.to_multiset()) == active_infos(
            records,
            today,
        ).to_multiset(),
        p.grouped() == p.bean_count,
{
    let infos = active_infos(records, today);
    let classify = |bean: BeanView| freshness_of(bean, today);
    lemma_states_split(infos);
    lemma_stable_sort_permutes(
        p.optimal,
        infos.filter(in_state(FreshnessState::Optimal)),
        SortKey::DaysLeft,
    );
    lemma_stable_sort_permutes(
        p.resting,
        infos.filter(in_state(FreshnessState::Resting)),
        SortKey::DaysUntilReady,
    );
    lemma_stable_sort_permutes(
        p.decline,
        infos.filter(in_state(FreshnessState::Decline)),
        SortKey::DaysSinceRoast,
    );
    assert forall|state: FreshnessState| #[trigger]
        p.group(state).to_multiset() == infos.filter(in_state(state)).to_multiset() by {}
    assert forall|state: FreshnessState, info: FreshnessView| #[trigger]
        p.group(state).contains(info) implies {
        &&& info.freshness_state == state
        &&& info == freshness_of(info.bean, today)
        &&& is_active(info.bean)
        &&& records.contains(info.bean)
    } by {
        let kept = infos.filter(in_state(state));
        p.group(state).to_multiset_ensures();
        kept.to_multiset_ensures();
        assert(p.group(state).to_multiset().count(info) > 0);
        assert(kept.to_multiset().count(info) > 0);
        assert(kept.contains(info));
        lemma_filter_member(infos, in_state(state), info);
        let i = choose|i: int| 0 <= i < infos.len() && infos[i] == info;
        let bean = records.filter(active())[i];
        assert(info == classify(bean));
        assert(records.filter(active()).contains(bean));
        lemma_filter_member(records, active(), bean);
    }
    assert forall|bean: BeanView| records.contains(bean) && is_active(bean) implies p.group(
        #[trigger] freshness_of(bean, today).freshness_state,
    ).contains(freshness_of(bean, today)) by {
        let info = freshness_of(bean, today);
        let state = info.freshness_state;
        lemma_member_filter(records, active(), bean);
        let i = choose|i: int|
            0 <= i < records.filter(active()).len() && records.filter(active())[i] == bean;
        assert(infos[i] == info);
        assert(infos.contains(info));
        lemma_member_filter(infos, in_state(state), info);
        let kept = infos.filter(in_state(state));
        p.group(state).to_multiset_ensures();
        kept.to_multiset_ensures();
        assert(kept.to_multiset().count(info) > 0);
        assert(p.group(state).to_multiset().count(info) > 0);
    }
}

/// The classified active records of an inventory with one more record.
pub proof fn lemma_active_infos_push(records: Seq<BeanView>, bean: BeanView, today: i32)
    ensures
        active_infos(records.push(bean), today) == if is_active(bean) {
            active_infos(records, today).push(freshness_of(bean, today))
        } else {
            active_infos(records, today)
        },
{
    records.lemma_filter_push(bean, active());
    let f = |bean: BeanView| freshness_of(bean, today);
    if is_active(bean) {
        assert(records.filter(active()).push(bean).map_values(f) =~= records.filter(
            active(),
        ).map_values(f).push(f(bean)));
    }
}

/// Decides whether a record is active: whether what remains of it is a
/// quantity greater than zero.
pub fn is_active_record(bean: &CoffeeBean) -> (active: bool)
    ensures
        active == is_active(bean@),
{
    match &bean.remaining {
        Some(text) => is_positive_quantity(text.as_str()),
        None => false,
    }
}

/// Projects an inventory as of the day with number `today`: keeps the active
/// records, classifies them, groups them by state and orders the groups.
pub fn project(records: &Vec<CoffeeBean>, today: i32) -> (p: Projection)
    ensures
        is_projection_of(p@, records.deep_view(), today),
        p@ == projection_of(records.deep_view(), today),
{
    let ghost all = records.deep_view();
    let mut frozen: Vec<BeanFreshnessInfo> = Vec::new();
    let mut optimal: Vec<BeanFreshnessInfo> = Vec::new();
    let mut resting: Vec<BeanFreshnessInfo> = Vec::new();
    let mut decline: Vec<BeanFreshnessInfo> = Vec::new();
    let mut in_transit: Vec<BeanFreshnessInfo> = Vec::new();
    let mut unknown: Vec<BeanFreshnessInfo> = Vec::new();
    let mut bean_count: usize = 0;
    let mut i: usize = 0;
    proof {
        reveal(Seq::filter);
        assert(all.take(0) =~= Seq::<BeanView>::empty());
        let none = active_infos(all.take(0), today);
        assert(none =~= Seq::<FreshnessView>::empty());
        assert(frozen.deep_view() =~= none.filter(in_state(FreshnessState::Frozen)));
        assert(optimal.deep_view() =~= none.filter(in_state(FreshnessState::Optimal)));
        assert(resting.deep_view() =~= none.filter(in_state(FreshnessState::Resting)));
        assert(decline.deep_view() =~= none.filter(in_state(FreshnessState::Decline)));
        assert(in_transit.deep_view() =~= none.filter(in_state(FreshnessState::InTransit)));
        assert(unknown.deep_view() =~= none.filter(in_state(FreshnessState::Unknown)));
    }
    while i < records.len()
        invariant
            i <= records.len(),
            all == records.deep_view(),
            frozen.deep_view() == active_infos(all.take(i as int), today).filter(
                in_state(FreshnessState::Frozen),
            ),
            optimal.deep_view() == active_infos(all.take(i as int), today).filter(
                in_state(FreshnessState::Optimal),
            ),
            resting.deep_view() == active_infos(all.take(i as int), today).filter(
                in_state(FreshnessState::Resting),
            ),
            decline.deep_view() == active_infos(all.take(i as int), today).filter(
                in_state(FreshnessState::Decline),
            ),
            in_transit.deep_view() == active_infos(all.take(i as int), today).filter(
                in_state(FreshnessState::InTransit),
            ),
            unknown.deep_view() == active_infos(all.take(i as int), today).filter(
                in_state(FreshnessState::Unknown),
            ),
            bean_count == active_infos(all.take(i as int), today).len(),
            bean_count <= i,
        decreases records.len() - i,
    {
        let bean = &records[i];
        let ghost seen = all.take(i as int);
        let ghost before = active_infos(seen, today);
        let ghost frozen_before = frozen.deep_view();
        let ghost optimal_before = optimal.deep_view();
        let ghost resting_before = resting.deep_view();
        let ghost decline_before = decline.deep_view();
        let ghost in_transit_before = in_transit.deep_view();
        let ghost unknown_before = unknown.deep_view();
        proof {
            assert(all.take(i + 1) =~= seen.push(bean@));
            lemma_active_infos_push(seen, bean@, today);
        }
        if is_active_record(bean) {
            let info = calculate_freshness(bean, today);
            let ghost v = info@;
            proof {
                before.lemma_filter_push(v, in_state(FreshnessState::Frozen));
                before.lemma_filter_push(v, in_state(FreshnessState::Optimal));
                before.lemma_filter_push(v, in_state(FreshnessState::Resting));
                before.lemma_filter_push(v, in_state(FreshnessState::Decline));
                before.lemma_filter_push(v, in_state(FreshnessState::InTransit));
                before.lemma_filter_push(v, in_state(FreshnessState::Unknown));
            }
            match info.freshness_state {
                FreshnessState::Frozen => {
                    frozen.push(info);
                    assert(frozen.deep_view() =~= frozen_before.push(v));
                },
                FreshnessState::Optimal => {
                    optimal.push(info);
                    assert(optimal.deep_view() =~= optimal_before.push(v));
                },
                FreshnessState::Resting => {
                    resting.push(info);
                    assert(resting.deep_view() =~= resting_before.push(v));
                },
                FreshnessState::Decline => {
                    decline.push(info);
                    assert(decline.deep_view() =~= decline_before.push(v));
                },
                FreshnessState::InTransit => {
                    in_transit.push(info);
                    assert(in_transit.deep_view() =~= in_transit_before.push(v));
                },
                FreshnessState::Unknown => {
                    unknown.push(info);
                    assert(unknown.deep_view() =~= unknown_before.push(v));
                },
            }
            bean_count += 1;
        }
        i += 1;
    }
    proof {
        assert(all.take(i as int) =~= all);
    }
    let optimal = sort_stable(optimal, SortKey::DaysLeft);
    let resting = sort_stable(resting, SortKey::DaysUntilReady);
    let decline = sort_stable(decline, SortKey::DaysSinceRoast);
    let p = Projection {
        frozen,
        optimal,
        resting,
        decline,
        in_transit,
        unknown,
        bean_count,
    };
    proof {
        assert(is_projection_of(p@, all, today));
        lemma_projection_unique(p@, projection_of(all, today), all, today);
    }
    p
}

} // verus!
