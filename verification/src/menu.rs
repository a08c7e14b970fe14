//! The tray menu as a document: statistics, one submenu per group of beans,
//! and the fixed actions.

use crate::bean::{BeanFreshnessInfo, CoffeeBean, FreshnessState, FreshnessView};
use crate::projection::{project, projection_of, Projection, ProjectionView};
use crate::text::{
    decimal_digits, push_day_count, push_decimal, push_signed, right_justified, signed_decimal,
    truncate_name, truncated,
};
use vstd::prelude::*;

verus! {

/// Columns given to a bean's name in its row.
pub const LABEL_WIDTH: usize = 16;

/// What every bean row's identifier starts with.
pub const BEAN_ID_PREFIX: &'static str = "bean:";

/// Identifier of the row that shows the number of beans.
pub const STAT_COUNT_ID: &'static str = "stat_count";

/// Identifier of the row that shows the total capacity.
pub const STAT_CAPACITY_ID: &'static str = "stat_capacity";

/// Identifier of the row shown when there is no inventory.
pub const EMPTY_ID: &'static str = "empty";

/// Identifier of the row shown until the first inventory arrives.
pub const LOADING_ID: &'static str = "loading";

/// Identifier of the action that brings the main window to the front.
pub const OPEN_APP_ID: &'static str = "open_app";

/// Identifier of the action that ends the application.
pub const QUIT_ID: &'static str = "quit";

/// One row of a menu.
#[derive(Debug, PartialEq, Eq)]
pub struct MenuItem {
    /// The identifier delivered when the row is activated.
    pub id: String,
    /// The text shown.
    pub label: String,
    /// Whether the row can be activated.
    pub enabled: bool,
}

/// A titled group of rows.
#[derive(Debug, PartialEq, Eq)]
pub struct Submenu {
    /// The title of the group.
    pub label: String,
    /// The rows of the group, in display order.
    pub items: Vec<MenuItem>,
}

/// One entry at the top level of the menu.
#[derive(Debug, PartialEq, Eq)]
pub enum MenuEntry {
    /// A single row.
    Item(MenuItem),
    /// A dividing line.
    Separator,
    /// A group of rows.
    Submenu(Submenu),
}

/// The whole tray menu, top to bottom.
#[derive(Debug, PartialEq, Eq)]
pub struct MenuDocument {
    /// The entries in display order.
    pub entries: Vec<MenuEntry>,
}

/// The mathematical content of a [`MenuItem`].
pub ghost struct ItemView {
    pub id: Seq<char>,
    pub label: Seq<char>,
    pub enabled: bool,
}

/// The mathematical content of a [`Submenu`].
pub ghost struct SubmenuView {
    pub label: Seq<char>,
    pub items: Seq<ItemView>,
}

/// The mathematical content of a [`MenuEntry`].
pub ghost enum EntryView {
    Item(ItemView),
    Separator,
    Submenu(SubmenuView),
}

impl View for MenuItem {
    type V = ItemView;

    open spec fn view(&self) -> ItemView {
        ItemView { id: self.id@, label: self.label@, enabled: self.enabled }
    }
}

impl DeepView for MenuItem {
    type V = ItemView;

    open spec fn deep_view(&self) -> ItemView {
        self@
    }
}

impl View for Submenu {
    type V = SubmenuView;

    open spec fn view(&self) -> SubmenuView {
        SubmenuView { label: self.label@, items: self.items.deep_view() }
    }
}

impl View for MenuEntry {
    type V = EntryView;

    open spec fn view(&self) -> EntryView {
        match self {
            MenuEntry::Item(item) => EntryView::Item(item@),
            MenuEntry::Separator => EntryView::Separator,
            MenuEntry::Submenu(group) => EntryView::Submenu(group@),
        }
    }
}

impl DeepView for MenuEntry {
    type V = EntryView;

    open spec fn deep_view(&self) -> EntryView {
        self@
    }
}

impl View for MenuDocument {
    type V = Seq<EntryView>;

    open spec fn view(&self) -> Seq<EntryView> {
        self.entries.deep_view()
    }
}

/// The identifier of the row of the bean with identifier `id`: the fixed
/// prefix, then the identifier as it is.
pub open spec fn bean_action_id(id: Seq<char>) -> Seq<char> {
    BEAN_ID_PREFIX@ + id
}

/// Whether rows of a group in `state` show a day count.
pub open spec fn shows_days(state: FreshnessState) -> bool {
    state == FreshnessState::Optimal || state == FreshnessState::Resting || state
        == FreshnessState::Decline
}

/// The day count shown in the row of `info` in a group in `state`: days left
/// in the window, days until it opens, or days past its end with a plus sign.
pub open spec fn day_count_text(info: FreshnessView, state: FreshnessState) -> Seq<char> {
    match state {
        FreshnessState::Optimal => right_justified(
            signed_decimal(info.end_day - info.days_since_roast),
            2,
        ),
        FreshnessState::Resting => right_justified(
            signed_decimal(info.start_day - info.days_since_roast),
            2,
        ),
        FreshnessState::Decline => seq!['+'] + signed_decimal(
            info.days_since_roast - info.end_day,
        ),
        _ => Seq::empty(),
    }
}

/// The label of the row of `info` in a group in `state`: the day count and
/// the unit where the group shows one, then the name cut to the label width.
pub open spec fn row_label(info: FreshnessView, state: FreshnessState) -> Seq<char> {
    let name = truncated(info.bean.name, LABEL_WIDTH as nat);
    if shows_days(state) {
        day_count_text(info, state) + " 天 · "@ + name
    } else {
        name
    }
}

/// The row of `info` in a group in `state`.
pub open spec fn bean_row(info: FreshnessView, state: FreshnessState) -> ItemView {
    ItemView { id: bean_action_id(info.bean.id), label: row_label(info, state), enabled: true }
}

/// The rows of the group in `state`, one for each member, in order.
pub open spec fn bean_rows(members: Seq<FreshnessView>, state: FreshnessState) -> Seq<ItemView> {
    members.map_values(|info: FreshnessView| bean_row(info, state))
}

/// The name of the group in `state`, up to the member count.
pub open spec fn group_name(state: FreshnessState) -> Seq<char> {
    match state {
        FreshnessState::Frozen => "冷冻中（"@,
        FreshnessState::Optimal => "赏味期（"@,
        FreshnessState::Resting => "养豆期（"@,
        FreshnessState::Decline => "衰退期（"@,
        FreshnessState::InTransit => "在途中（"@,
        FreshnessState::Unknown => "未知（"@,
    }
}

/// The title of the group in `state` with `count` members.
pub open spec fn group_label(state: FreshnessState, count: nat) -> Seq<char> {
    group_name(state) + decimal_digits(count) + " 款）"@
}

/// The entries that the group in `state` adds to the menu: none where it has
/// no members, else one submenu.
pub open spec fn group_entries(state: FreshnessState, members: Seq<FreshnessView>) -> Seq<
    EntryView,
> {
    if members.len() == 0 {
        Seq::empty()
    } else {
        seq![
            EntryView::Submenu(
                SubmenuView {
                    label: group_label(state, members.len()),
                    items: bean_rows(members, state),
                },
            ),
        ]
    }
}

/// The row that shows how many beans are in stock.
pub open spec fn count_row(count: nat) -> ItemView {
    ItemView {
        id: STAT_COUNT_ID@,
        label: "库存数量："@ + decimal_digits(count) + " 款"@,
        enabled: false,
    }
}

/// The row that shows the total capacity in stock, given as the text to
/// show: the figure with its unit.
pub open spec fn capacity_row(capacity: Seq<char>) -> ItemView {
    ItemView { id: STAT_CAPACITY_ID@, label: "库存容量："@ + capacity, enabled: false }
}

/// The row shown in place of the groups when nothing is in stock.
pub open spec fn empty_row() -> ItemView {
    ItemView { id: EMPTY_ID@, label: "暂无咖啡豆库存"@, enabled: false }
}

/// The action that brings the main window to the front.
pub open spec fn open_app_row() -> ItemView {
    ItemView { id: OPEN_APP_ID@, label: "打开 Brew Guide"@, enabled: true }
}

/// The action that ends the application.
pub open spec fn quit_row() -> ItemView {
    ItemView { id: QUIT_ID@, label: "退出"@, enabled: true }
}

/// The two disabled rows of statistics and the line below them.
pub open spec fn header_entries(p: ProjectionView, capacity: Seq<char>) -> Seq<EntryView> {
    seq![
        EntryView::Item(count_row(p.bean_count)),
        EntryView::Item(capacity_row(capacity)),
        EntryView::Separator,
    ]
}

/// The groups in their fixed order: frozen, inside the window, resting,
/// past the window, in transit. A projection without active beans shows the
/// placeholder row.
pub open spec fn body_entries(p: ProjectionView) -> Seq<EntryView> {
    group_entries(FreshnessState::Frozen, p.frozen) + group_entries(
        FreshnessState::Optimal,
        p.optimal,
    ) + group_entries(FreshnessState::Resting, p.resting) + group_entries(
        FreshnessState::Decline,
        p.decline,
    ) + group_entries(FreshnessState::InTransit, p.in_transit) + (if p.bean_count == 0 {
        seq![EntryView::Item(empty_row())]
    } else {
        Seq::empty()
    })
}

/// The line above the fixed actions, and the two actions.
pub open spec fn footer_entries() -> Seq<EntryView> {
    seq![EntryView::Separator, EntryView::Item(open_app_row()), EntryView::Item(quit_row())]
}

/// The menu that shows the projection `p`, with `capacity` as the text of
/// the total capacity.
pub open spec fn menu_of(p: ProjectionView, capacity: Seq<char>) -> Seq<EntryView> {
    header_entries(p, capacity) + body_entries(p) + footer_entries()
}

/// The menu shown until the first inventory arrives: the two rows of
/// statistics without figures, a row that says so, and the fixed actions.
pub open spec fn loading_menu_of() -> Seq<EntryView> {
    seq![
        EntryView::Item(ItemView { id: STAT_COUNT_ID@, label: "库存数量：- 款"@, enabled: false }),
        EntryView::Item(ItemView { id: STAT_CAPACITY_ID@, label: "库存容量：-"@, enabled: false }),
        EntryView::Separator,
        EntryView::Item(ItemView { id: LOADING_ID@, label: "加载中…"@, enabled: false }),
    ] + footer_entries()
}

/// A text as an owned string.
pub fn owned(text: &str) -> (out: String)
    ensures
        out@ == text@,
{
    let mut out = String::new();
    out.append(text);
    assert(Seq::<char>::empty() + text@ =~= text@);
    out
}

/// The identifier of the row of the bean with identifier `id`.
pub fn bean_row_id(id: &str) -> (out: String)
    ensures
        out@ == bean_action_id(id@),
{
    let mut out = owned(BEAN_ID_PREFIX);
    out.append(id);
    out
}

/// Builds the row of `info` for a group in `state`.
pub fn build_row(info: &BeanFreshnessInfo, state: FreshnessState) -> (row: MenuItem)
    ensures
        row@ == bean_row(info@, state),
{
    let name = truncate_name(info.bean.name.as_str(), LABEL_WIDTH);
    let mut label = String::new();
    let days = info.days_since_roast as i128;
    match state {
        FreshnessState::Optimal => {
            push_day_count(&mut label, info.end_day as i128 - days);
            label.append(" 天 · ");
        },
        FreshnessState::Resting => {
            push_day_count(&mut label, info.start_day as i128 - days);
            label.append(" 天 · ");
        },
        FreshnessState::Decline => {
            label.push('+');
            push_signed(&mut label, days - info.end_day as i128);
            label.append(" 天 · ");
        },
        _ => {},
    }
    label.append(name.as_str());
    proof {
        assert(label@ =~= row_label(info@, state));
    }
    MenuItem { id: bean_row_id(info.bean.id.as_str()), label, enabled: true }
}

/// Builds the rows of a group in `state`.
pub fn build_rows(members: &Vec<BeanFreshnessInfo>, state: FreshnessState) -> (rows: Vec<MenuItem>)
    ensures
        rows.deep_view() == bean_rows(members.deep_view(), state),
{
    let mut rows: Vec<MenuItem> = Vec::new();
    let mut i: usize = 0;
    while i < members.len()
        invariant
            i <= members.len(),
            rows.len() == i,
            forall|j: int|
                0 <= j < i ==> (#[trigger] rows@[j])@ == bean_row(members@[j]@, state),
        decreases members.len() - i,
    {
        let row = build_row(&members[i], state);
        rows.push(row);
        i += 1;
    }
    proof {
        assert(rows.deep_view() =~= bean_rows(members.deep_view(), state));
    }
    rows
}

/// Builds the title of the group in `state` with `count` members.
pub fn build_group_label(state: FreshnessState, count: usize) -> (label: String)
    ensures
        label@ == group_label(state, count as nat),
{
    let mut label = owned(
        match state {
            FreshnessState::Frozen => "冷冻中（",
            FreshnessState::Optimal => "赏味期（",
            FreshnessState::Resting => "养豆期（",
            FreshnessState::Decline => "衰退期（",
            FreshnessState::InTransit => "在途中（",
            FreshnessState::Unknown => "未知（",
        },
    );
    push_decimal(&mut label, count as u128);
    label.append(" 款）");
    label
}

/// Adds the submenu of the group in `state` to `entries`, unless the group
/// has no members.
pub fn push_group(
    entries: &mut Vec<MenuEntry>,
    state: FreshnessState,
    members: &Vec<BeanFreshnessInfo>,
)
    ensures
        final(entries).deep_view() == old(entries).deep_view() + group_entries(
            state,
            members.deep_view(),
        ),
{
    if members.len() > 0 {
        let group = Submenu {
            label: build_group_label(state, members.len()),
            items: build_rows(members, state),
        };
        let ghost v = group@;
        entries.push(MenuEntry::Submenu(group));
        proof {
            assert(entries.deep_view() =~= old(entries).deep_view().push(EntryView::Submenu(v)));
            assert(entries.deep_view() =~= old(entries).deep_view() + group_entries(
                state,
                members.deep_view(),
            ));
        }
    } else {
        proof {
            assert(entries.deep_view() =~= old(entries).deep_view() + group_entries(
                state,
                members.deep_view(),
            ));
        }
    }
}

/// Adds one row to `entries`.
pub fn push_row(entries: &mut Vec<MenuEntry>, id: &str, label: String, enabled: bool)
    ensures
        final(entries).deep_view() == old(entries).deep_view().push(
            EntryView::Item(ItemView { id: id@, label: label@, enabled }),
        ),
{
    entries.push(MenuEntry::Item(MenuItem { id: owned(id), label, enabled }));
    proof {
        assert(entries.deep_view() =~= old(entries).deep_view().push(
            EntryView::Item(ItemView { id: id@, label: label@, enabled }),
        ));
    }
}

/// Adds a dividing line to `entries`.
pub fn push_separator(entries: &mut Vec<MenuEntry>)
    ensures
        final(entries).deep_view() == old(entries).deep_view().push(EntryView::Separator),
{
    entries.push(MenuEntry::Separator);
    proof {
        assert(entries.deep_view() =~= old(entries).deep_view().push(EntryView::Separator));
    }
}

/// Adds the two rows of statistics and the line below them.
pub fn push_header(entries: &mut Vec<MenuEntry>, p: &Projection, capacity: &str)
    ensures
        final(entries).deep_view() == old(entries).deep_view() + header_entries(p@, capacity@),
{
    let mut count_label = owned("库存数量：");
    push_decimal(&mut count_label, p.bean_count as u128);
    count_label.append(" 款");
    push_row(entries, STAT_COUNT_ID, count_label, false);
    let mut capacity_label = owned("库存容量：");
    capacity_label.append(capacity);
    push_row(entries, STAT_CAPACITY_ID, capacity_label, false);
    push_separator(entries);
    proof {
        assert(entries.deep_view() =~= old(entries).deep_view() + header_entries(
            p@,
            capacity@,
        ));
    }
}

/// Adds the submenus of the groups in their fixed order, or the placeholder
/// row where the projection counts no bean.
pub fn push_body(entries: &mut Vec<MenuEntry>, p: &Projection)
    ensures
        final(entries).deep_view() == old(entries).deep_view() + body_entries(p@),
{
    push_group(entries, FreshnessState::Frozen, &p.frozen);
    push_group(entries, FreshnessState::Optimal, &p.optimal);
    push_group(entries, FreshnessState::Resting, &p.resting);
    push_group(entries, FreshnessState::Decline, &p.decline);
    push_group(entries, FreshnessState::InTransit, &p.in_transit);
    let ghost groups = entries.deep_view();
    if p.bean_count == 0 {
        push_row(entries, EMPTY_ID, owned("暂无咖啡豆库存"), false);
        proof {
            assert(entries.deep_view() =~= groups + seq![EntryView::Item(empty_row())]);
        }
    } else {
        proof {
            assert(entries.deep_view() =~= groups + Seq::<EntryView>::empty());
        }
    }
    proof {
        assert(entries.deep_view() =~= old(entries).deep_view() + body_entries(p@));
    }
}

/// Adds the line above the fixed actions, and the two actions.
pub fn push_footer(entries: &mut Vec<MenuEntry>)
    ensures
        final(entries).deep_view() == old(entries).deep_view() + footer_entries(),
{
    push_separator(entries);
    push_row(entries, OPEN_APP_ID, owned("打开 Brew Guide"), true);
    push_row(entries, QUIT_ID, owned("退出"), true);
    proof {
        assert(entries.deep_view() =~= old(entries).deep_view() + footer_entries());
    }
}

/// Builds the menu that shows a projection.
///
/// Top to bottom: the number of beans and the total capacity, both disabled;
/// a line; one submenu for each group that has members, in the order frozen,
/// inside the window, resting, past the window, in transit; the placeholder
/// row where the projection counts no bean; a line; the two fixed actions.
///
/// The total capacity is shown as `capacity` gives it, figure and unit.
pub fn build_menu(p: &Projection, capacity: &str) -> (doc: MenuDocument)
    ensures
        doc@ == menu_of(p@, capacity@),
{
    let mut entries: Vec<MenuEntry> = Vec::new();
    push_header(&mut entries, p, capacity);
    push_body(&mut entries, p);
    push_footer(&mut entries);
    proof {
        assert(entries.deep_view() =~= menu_of(p@, capacity@));
    }
    MenuDocument { entries }
}

/// Builds the menu shown until the first inventory arrives.
pub fn loading_menu() -> (doc: MenuDocument)
    ensures
        doc@ == loading_menu_of(),
{
    let mut entries: Vec<MenuEntry> = Vec::new();
    push_row(&mut entries, STAT_COUNT_ID, owned("库存数量：- 款"), false);
    push_row(&mut entries, STAT_CAPACITY_ID, owned("库存容量：-"), false);
    push_separator(&mut entries);
    push_row(&mut entries, LOADING_ID, owned("加载中…"), false);
    push_footer(&mut entries);
    proof {
        assert(entries.deep_view() =~= loading_menu_of());
    }
    MenuDocument { entries }
}

/// Builds the tray menu for an inventory as of the day with number `today`,
/// with `capacity` as the text of the total capacity.
pub fn tray_menu(records: &Vec<CoffeeBean>, today: i32, capacity: &str) -> (doc: MenuDocument)
    ensures
        doc@ == menu_of(projection_of(records.deep_view(), today), capacity@),
{
    let p = project(records, today);
    build_menu(&p, capacity)
}

} // verus!
