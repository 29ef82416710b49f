use seashell::menu::{ActionSpec, Layout, LayoutProps, MenuEntry, MenuModel};

fn props() -> LayoutProps {
    LayoutProps {
        type_: None,
        label: None,
        enabled: None,
        visible: None,
        toggle_type: None,
        toggle_state: None,
        children_display: None,
    }
}

fn item(id: i32, label: &str) -> Layout {
    let mut p = props();
    p.label = Some(label.to_string());
    Layout(id, p, Vec::new())
}

fn separator(id: i32) -> Layout {
    let mut p = props();
    p.type_ = Some("separator".to_string());
    Layout(id, p, Vec::new())
}

fn entry_summary(e: &MenuEntry) -> String {
    match e {
        MenuEntry::Item { label, action } => {
            format!("{}->{}", label.clone().unwrap_or_default(), action)
        }
        MenuEntry::Submenu { label, menu } => {
            format!("{}[{}]", label.clone().unwrap_or_default(), summary(menu))
        }
    }
}

fn summary(m: &MenuModel) -> String {
    m.sections
        .iter()
        .map(|s| s.iter().map(entry_summary).collect::<Vec<_>>().join(","))
        .collect::<Vec<_>>()
        .join("|")
}

fn action_summary(a: &ActionSpec) -> String {
    match a.state {
        Some(on) => format!("{}:{}:{}", a.id, a.name, on),
        None => format!("{}:{}", a.id, a.name),
    }
}

#[test]
fn empty_layout_has_one_empty_section() {
    let root = Layout(0, props(), Vec::new());
    let model = root.as_menu_model();
    assert_eq!(model.sections.len(), 1);
    assert!(model.sections[0].is_empty());
}

#[test]
fn separators_cut_sections() {
    let root = Layout(
        0,
        props(),
        vec![item(1, "Open"), separator(2), item(3, "Quit"), item(4, "Help")],
    );
    let model = root.as_menu_model();
    assert_eq!(summary(&model), "Open->dbusmenu.1|Quit->dbusmenu.3,Help->dbusmenu.4");
}

#[test]
fn leading_and_trailing_separators_give_empty_sections() {
    let root = Layout(0, props(), vec![separator(1), item(2, "A"), separator(3)]);
    let model = root.as_menu_model();
    assert_eq!(model.sections.len(), 3);
    assert_eq!(summary(&model), "|A->dbusmenu.2|");
}

#[test]
fn hidden_items_are_left_out() {
    let mut hidden = item(2, "Hidden");
    hidden.1.visible = Some(false);
    let mut shown = item(3, "Shown");
    shown.1.visible = Some(true);
    let root = Layout(0, props(), vec![item(1, "A"), hidden, shown]);
    assert_eq!(summary(&root.as_menu_model()), "A->dbusmenu.1,Shown->dbusmenu.3");
}

#[test]
fn submenus_nest() {
    let mut sub = Layout(5, props(), vec![item(6, "Inner"), separator(7), item(8, "Last")]);
    sub.1.label = Some("More".to_string());
    sub.1.children_display = Some("submenu".to_string());
    let mut not_sub = Layout(9, props(), vec![item(10, "Ignored child")]);
    not_sub.1.label = Some("Plain".to_string());
    not_sub.1.children_display = Some("".to_string());
    let root = Layout(0, props(), vec![sub, not_sub]);
    assert_eq!(
        summary(&root.as_menu_model()),
        "More[Inner->dbusmenu.6|Last->dbusmenu.8],Plain->dbusmenu.9"
    );
}

#[test]
fn entry_without_label() {
    let root = Layout(0, props(), vec![Layout(-3, props(), Vec::new())]);
    let model = root.as_menu_model();
    match &model.sections[0][0] {
        MenuEntry::Item { label, action } => {
            assert!(label.is_none());
            assert_eq!(action, "dbusmenu.-3");
        }
        MenuEntry::Submenu { .. } => panic!("expected an item"),
    }
}

#[test]
fn label_reads_the_property() {
    assert_eq!(item(1, "Open").label(), Some("Open"));
    assert_eq!(Layout(1, props(), Vec::new()).label(), None);
}

#[test]
fn action_group_lists_enabled_nodes_in_preorder() {
    let mut disabled = item(2, "Off");
    disabled.1.enabled = Some(false);
    let mut check = item(3, "Check");
    check.1.toggle_type = Some("checkmark".to_string());
    check.1.toggle_state = Some(1);
    let mut radio = item(4, "Radio");
    radio.1.toggle_type = Some("radio".to_string());
    radio.1.toggle_state = Some(0);
    let mut other = item(5, "Other");
    other.1.toggle_type = Some("".to_string());
    other.1.toggle_state = Some(1);
    let mut enabled = item(7, "On");
    enabled.1.enabled = Some(true);
    let sub = Layout(6, props(), vec![enabled, separator(8)]);
    let root = Layout(0, props(), vec![item(1, "A"), disabled, check, radio, other, sub]);
    let actions: Vec<String> = root.as_action_group().iter().map(action_summary).collect();
    assert_eq!(
        actions,
        vec!["0:0", "1:1", "3:3:true", "4:4:false", "5:5", "6:6", "7:7", "8:8"]
    );
}

#[test]
fn disabled_node_still_contributes_children() {
    let mut parent = Layout(1, props(), vec![item(2, "Child")]);
    parent.1.enabled = Some(false);
    let actions: Vec<String> = parent.as_action_group().iter().map(action_summary).collect();
    assert_eq!(actions, vec!["2:2"]);
}

#[test]
fn indeterminate_toggle_is_off() {
    let mut check = item(3, "Check");
    check.1.toggle_type = Some("checkmark".to_string());
    let actions = check.as_action_group();
    assert_eq!(actions.len(), 1);
    assert_eq!(actions[0].state, Some(false));
}

#[test]
fn every_menu_item_has_its_action() {
    let root = Layout(0, props(), vec![item(11, "A"), separator(12), item(13, "B")]);
    let names: Vec<String> = root.as_action_group().iter().map(|a| a.name.clone()).collect();
    for section in &root.as_menu_model().sections {
        for entry in section {
            if let MenuEntry::Item { action, .. } = entry {
                let name = action.strip_prefix("dbusmenu.").unwrap();
                assert!(names.iter().any(|n| n == name));
            }
        }
    }
}
