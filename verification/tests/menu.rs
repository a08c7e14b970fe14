use brew_tray::bean::{CoffeeBean, FreshnessState};
use brew_tray::events::{menu_action, MenuAction};
use brew_tray::freshness::classify;
use brew_tray::menu::{
    bean_row_id, build_group_label, build_menu, build_row, tray_menu, MenuDocument, MenuEntry,
    MenuItem, Submenu,
};
use brew_tray::projection::{project, Projection};

/// 25 April 2024.
const TODAY: i32 = 739_001;

fn record(id: &str, name: &str, remaining: &str) -> CoffeeBean {
    CoffeeBean {
        id: id.to_string(),
        name: name.to_string(),
        remaining: Some(remaining.to_string()),
        capacity: None,
        roast_date: None,
        start_day: None,
        end_day: None,
        is_frozen: None,
        is_in_transit: None,
    }
}

fn roasted(id: &str, name: &str, date: &str) -> CoffeeBean {
    let mut b = record(id, name, "100");
    b.roast_date = Some(date.to_string());
    b
}

fn item(id: &str, label: &str, enabled: bool) -> MenuEntry {
    MenuEntry::Item(MenuItem { id: id.to_string(), label: label.to_string(), enabled })
}

fn row(id: &str, label: &str) -> MenuItem {
    MenuItem { id: id.to_string(), label: label.to_string(), enabled: true }
}

fn submenus(doc: &MenuDocument) -> Vec<&Submenu> {
    doc.entries
        .iter()
        .filter_map(|e| match e {
            MenuEntry::Submenu(s) => Some(s),
            _ => None,
        })
        .collect()
}

#[test]
fn empty_inventory_shows_the_placeholder_between_header_and_footer() {
    let doc = tray_menu(&vec![], TODAY, "0g");
    assert_eq!(
        doc.entries,
        vec![
            item("stat_count", "库存数量：0 款", false),
            item("stat_capacity", "库存容量：0g", false),
            MenuEntry::Separator,
            item("empty", "暂无咖啡豆库存", false),
            MenuEntry::Separator,
            item("open_app", "打开 Brew Guide", true),
            item("quit", "退出", true),
        ]
    );
}

#[test]
fn inventory_without_active_records_shows_the_placeholder() {
    let doc = tray_menu(&vec![record("a", "Gone", "0")], TODAY, "0g");
    assert_eq!(doc.entries.len(), 7);
    assert_eq!(doc.entries[3], item("empty", "暂无咖啡豆库存", false));
}

#[test]
fn full_menu_has_the_groups_in_their_fixed_order() {
    assert_eq!(
        chrono::NaiveDate::from_num_days_from_ce_opt(TODAY),
        chrono::NaiveDate::from_ymd_opt(2024, 4, 25)
    );
    let mut frozen = roasted("f1", "Frozen Gesha", "2024-01-01");
    frozen.is_frozen = Some(true);
    let mut transit = record("t1", "On Its Way", "250");
    transit.is_in_transit = Some(true);
    let records = vec![
        roasted("d1", "Old Brazil", "2024-03-01"),
        roasted("r1", "Fresh Kenya", "2024-04-22"),
        transit,
        roasted("o1", "埃塞俄比亚耶加雪菲水洗", "2024-04-10"),
        frozen,
        roasted("o2", "Colombia", "2024-03-28"),
    ];
    let doc = tray_menu(&records, TODAY, "750g");
    assert_eq!(
        doc.entries,
        vec![
            item("stat_count", "库存数量：6 款", false),
            item("stat_capacity", "库存容量：750g", false),
            MenuEntry::Separator,
            MenuEntry::Submenu(Submenu {
                label: "冷冻中（1 款）".to_string(),
                items: vec![row("bean:f1", "Frozen Gesha    ")],
            }),
            MenuEntry::Submenu(Submenu {
                label: "赏味期（2 款）".to_string(),
                items: vec![
                    row("bean:o2", " 2 天 · Colombia        "),
                    row("bean:o1", "15 天 · 埃塞俄比亚耶加雪…"),
                ],
            }),
            MenuEntry::Submenu(Submenu {
                label: "养豆期（1 款）".to_string(),
                items: vec![row("bean:r1", " 4 天 · Fresh Kenya     ")],
            }),
            MenuEntry::Submenu(Submenu {
                label: "衰退期（1 款）".to_string(),
                items: vec![row("bean:d1", "+25 天 · Old Brazil      ")],
            }),
            MenuEntry::Submenu(Submenu {
                label: "在途中（1 款）".to_string(),
                items: vec![row("bean:t1", "On Its Way      ")],
            }),
            MenuEntry::Separator,
            item("open_app", "打开 Brew Guide", true),
            item("quit", "退出", true),
        ]
    );
}

#[test]
fn beans_without_a_roast_date_are_counted_but_not_shown() {
    let doc = tray_menu(&vec![record("u1", "No Date", "1200")], TODAY, "1.20kg");
    assert_eq!(
        doc.entries,
        vec![
            item("stat_count", "库存数量：1 款", false),
            item("stat_capacity", "库存容量：1.20kg", false),
            MenuEntry::Separator,
            MenuEntry::Separator,
            item("open_app", "打开 Brew Guide", true),
            item("quit", "退出", true),
        ]
    );
}

#[test]
fn groups_without_members_are_left_out() {
    let doc = tray_menu(&vec![roasted("o1", "Only One", "2024-04-10")], TODAY, "100g");
    let groups = submenus(&doc);
    assert_eq!(groups.len(), 1);
    assert_eq!(groups[0].label, "赏味期（1 款）");
    assert_eq!(doc.entries.len(), 7);
}

#[test]
fn tray_menu_is_the_menu_of_the_projection() {
    let records = vec![
        roasted("a", "A", "2024-04-10"),
        roasted("b", "B", "2024-04-24"),
        record("c", "C", "none"),
    ];
    assert_eq!(
        tray_menu(&records, TODAY, "200g"),
        build_menu(&project(&records, TODAY), "200g")
    );
}

#[test]
fn placeholder_follows_the_count_of_the_projection() {
    let p = Projection {
        frozen: vec![],
        optimal: vec![],
        resting: vec![],
        decline: vec![],
        in_transit: vec![],
        unknown: vec![],
        bean_count: 3,
    };
    let doc = build_menu(&p, "2.50kg");
    assert_eq!(
        doc.entries,
        vec![
            item("stat_count", "库存数量：3 款", false),
            item("stat_capacity", "库存容量：2.50kg", false),
            MenuEntry::Separator,
            MenuEntry::Separator,
            item("open_app", "打开 Brew Guide", true),
            item("quit", "退出", true),
        ]
    );
}

#[test]
fn day_count_is_right_justified_in_two_characters() {
    let mut b = record("x", "N", "1");
    b.end_day = Some(200);
    let label = |days: i32, state| build_row(&classify(&b, Some(TODAY - days), TODAY), state).label;
    assert_eq!(label(195, FreshnessState::Optimal), " 5 天 · N               ");
    assert_eq!(label(190, FreshnessState::Optimal), "10 天 · N               ");
    assert_eq!(label(50, FreshnessState::Optimal), "150 天 · N               ");
    assert_eq!(label(200, FreshnessState::Optimal), " 0 天 · N               ");
    assert_eq!(label(3, FreshnessState::Resting), " 4 天 · N               ");
    assert_eq!(label(-5, FreshnessState::Resting), "12 天 · N               ");
    assert_eq!(label(201, FreshnessState::Decline), "+1 天 · N               ");
    assert_eq!(label(300, FreshnessState::Decline), "+100 天 · N               ");
}

#[test]
fn day_count_of_a_row_outside_its_group_keeps_its_sign() {
    let b = record("x", "N", "1");
    let info = classify(&b, Some(TODAY - 40), TODAY);
    assert_eq!(build_row(&info, FreshnessState::Optimal).label, "-10 天 · N               ");
    assert_eq!(build_row(&info, FreshnessState::Resting).label, "-33 天 · N               ");
    let info = classify(&b, Some(TODAY - 28), TODAY);
    assert_eq!(build_row(&info, FreshnessState::Decline).label, "+-2 天 · N               ");
}

#[test]
fn rows_of_groups_without_a_day_count_show_the_name_only() {
    let info = classify(&record("x", "Name", "1"), Some(TODAY - 10), TODAY);
    for state in [FreshnessState::Frozen, FreshnessState::InTransit, FreshnessState::Unknown] {
        assert_eq!(build_row(&info, state), row("bean:x", "Name            "));
    }
}

#[test]
fn group_labels_name_the_state_and_the_count() {
    assert_eq!(build_group_label(FreshnessState::Frozen, 1), "冷冻中（1 款）");
    assert_eq!(build_group_label(FreshnessState::Optimal, 12), "赏味期（12 款）");
    assert_eq!(build_group_label(FreshnessState::Resting, 0), "养豆期（0 款）");
    assert_eq!(build_group_label(FreshnessState::Decline, 105), "衰退期（105 款）");
    assert_eq!(build_group_label(FreshnessState::InTransit, 7), "在途中（7 款）");
    assert_eq!(build_group_label(FreshnessState::Unknown, 2), "未知（2 款）");
}

#[test]
fn row_identifier_is_the_prefix_and_the_bean_identifier() {
    assert_eq!(bean_row_id("abc"), "bean:abc");
    assert_eq!(bean_row_id(""), "bean:");
}

#[test]
fn row_identifier_gives_back_the_bean_identifier() {
    for id in ["abc", "", "bean:nested", "with space", "豆-01", "a:b:c", "open_app", "quit"] {
        let action = bean_row_id(id);
        assert_eq!(action.strip_prefix("bean:"), Some(id));
        assert_eq!(menu_action(&action), MenuAction::Navigate(id.to_string()));
    }
}

#[test]
fn every_bean_row_of_a_menu_leads_back_to_its_record() {
    let records = vec![
        roasted("id-1", "One", "2024-04-10"),
        roasted("bean:2", "Two", "2024-04-11"),
        roasted("三", "Three", "2024-04-24"),
        roasted("", "Four", "2024-01-01"),
    ];
    let doc = tray_menu(&records, TODAY, "400g");
    let mut seen: Vec<String> = Vec::new();
    for group in submenus(&doc) {
        for r in &group.items {
            match menu_action(&r.id) {
                MenuAction::Navigate(id) => seen.push(id),
                other => panic!("{other:?}"),
            }
        }
    }
    seen.sort();
    assert_eq!(seen, ["", "bean:2", "id-1", "三"]);
}

#[test]
fn loading_menu_has_no_figures_and_the_fixed_actions() {
    assert_eq!(
        brew_tray::menu::loading_menu().entries,
        vec![
            item("stat_count", "库存数量：- 款", false),
            item("stat_capacity", "库存容量：-", false),
            MenuEntry::Separator,
            item("loading", "加载中…", false),
            MenuEntry::Separator,
            item("open_app", "打开 Brew Guide", true),
            item("quit", "退出", true),
        ]
    );
}

#[test]
fn capacity_row_shows_the_text_it_is_given() {
    for text in ["1.01kg", "999g", "", "∞", "12.34kg "] {
        let doc = tray_menu(&vec![], TODAY, text);
        assert_eq!(doc.entries[1], item("stat_capacity", &format!("库存容量：{text}"), false));
    }
}
