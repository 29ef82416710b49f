//! Menus published by tray items over the `com.canonical.dbusmenu` interface.
//!
//! A [`Layout`] is the recursive menu that an item sends. It is shown as a
//! [`MenuModel`]: its children, cut into sections at each separator, where
//! hidden entries are left out and entries with children shown as submenus
//! nest. Each entry that is not a submenu triggers the action
//! `dbusmenu.<id>`; [`Layout::as_action_group`] lists those actions, one per
//! enabled node of the tree, named by the node's id.

use crate::decimal::{decimal, decimal_string};
use vstd::prelude::*;

verus! {

/// A pixmap of an item's icon.
#[derive(Clone, Debug)]
pub struct Icon {
    pub width: i32,
    pub height: i32,
    pub bytes: Vec<u8>,
}

/// The properties of a menu node. An absent property has its default value.
#[derive(Clone, Debug)]
pub struct LayoutProps {
    /// "standard" (the default) or "separator".
    pub type_: Option<String>,
    /// Text of the node.
    pub label: Option<String>,
    /// Whether the node can be activated (default true).
    pub enabled: Option<bool>,
    /// Whether the node is shown (default true).
    pub visible: Option<bool>,
    /// "checkmark", "radio" or "" (the default).
    pub toggle_type: Option<String>,
    /// 0 off, 1 on, anything else indeterminate (default -1).
    pub toggle_state: Option<i32>,
    /// "submenu" when the node's children are shown as a submenu.
    pub children_display: Option<String>,
}

/// A menu node: its unique id, its properties and its children.
#[derive(Debug)]
pub struct Layout(pub i32, pub LayoutProps, pub Vec<Layout>);

/// An entry of a shown menu.
#[derive(Debug)]
pub enum MenuEntry {
    /// An entry that triggers the action named `action` when chosen.
    Item { label: Option<String>, action: String },
    /// An entry that opens a nested menu.
    Submenu { label: Option<String>, menu: MenuModel },
}

/// A shown menu: a list of sections, each a list of entries.
#[derive(Debug)]
pub struct MenuModel {
    pub sections: Vec<Vec<MenuEntry>>,
}

/// An action of a menu's action group. `state` is `Some` for a toggle,
/// holding whether it is on; activating the action clicks node `id`.
#[derive(Clone, Debug)]
pub struct ActionSpec {
    pub id: i32,
    pub name: String,
    pub state: Option<bool>,
}

/// The mathematical value of a [`MenuEntry`].
pub enum EntryView {
    Item { label: Option<Seq<char>>, action: Seq<char> },
    Submenu { label: Option<Seq<char>>, sections: Seq<Seq<EntryView>> },
}

/// The mathematical value of an [`ActionSpec`].
pub struct ActionView {
    pub id: int,
    pub name: Seq<char>,
    pub state: Option<bool>,
}

impl View for ActionSpec {
    type V = ActionView;

    open spec fn view(&self) -> ActionView {
        ActionView { id: self.id as int, name: self.name@, state: self.state }
    }
}

pub open spec fn text_view(o: Option<String>) -> Option<Seq<char>> {
    match o {
        Some(s) => Some(s@),
        None => None,
    }
}

pub open spec fn str_view(o: Option<&str>) -> Option<Seq<char>> {
    match o {
        Some(s) => Some(s@),
        None => None,
    }
}

pub open spec fn has_text(o: Option<String>, text: Seq<char>) -> bool {
    o matches Some(s) && s@ == text
}

/// A separator node: it cuts its parent's children into sections.
pub open spec fn is_separator(l: Layout) -> bool {
    has_text(l.1.type_, "separator"@)
}

/// A node whose children are shown as a submenu.
pub open spec fn is_submenu(l: Layout) -> bool {
    has_text(l.1.children_display, "submenu"@)
}

/// A node that is not shown.
pub open spec fn is_hidden(l: Layout) -> bool {
    l.1.visible == Some(false)
}

/// A node that can be activated.
pub open spec fn is_enabled(l: Layout) -> bool {
    l.1.enabled != Some(false)
}

/// A node that can be toggled.
pub open spec fn is_toggle(l: Layout) -> bool {
    has_text(l.1.toggle_type, "checkmark"@) || has_text(l.1.toggle_type, "radio"@)
}

/// The name under which a menu entry refers to the action of node `id`.
pub open spec fn item_action(id: int) -> Seq<char> {
    "dbusmenu."@ + decimal(id)
}

/// The entry that shows node `l`, if it is shown.
pub open spec fn menu_entry(l: Layout) -> Option<EntryView>
    decreases l,
{
    if is_hidden(l) {
        None
    } else if is_submenu(l) {
        Some(EntryView::Submenu { label: text_view(l.1.label), sections: menu_sections(l.2@) })
    } else {
        Some(EntryView::Item { label: text_view(l.1.label), action: item_action(l.0 as int) })
    }
}

/// The sections that show the nodes `cs`: a new section begins at each
/// separator, and each other shown node adds its entry to the last section.
pub open spec fn menu_sections(cs: Seq<Layout>) -> Seq<Seq<EntryView>>
    decreases cs,
{
    if cs.len() == 0 {
        seq![Seq::empty()]
    } else {
        let p = menu_sections(cs.drop_last());
        let c = cs.last();
        if is_separator(c) {
            p.push(Seq::empty())
        } else {
            match menu_entry(c) {
                Some(e) => p.update(p.len() - 1, p.last().push(e)),
                None => p,
            }
        }
    }
}

/// The action of node `l`.
pub open spec fn own_action(l: Layout) -> ActionView {
    ActionView {
        id: l.0 as int,
        name: decimal(l.0 as int),
        state: if is_toggle(l) {
            Some(l.1.toggle_state == Some(1i32))
        } else {
            None
        },
    }
}

/// The actions of the tree rooted at `l`, in preorder: one for each enabled node.
pub open spec fn layout_actions(l: Layout) -> Seq<ActionView>
    decreases l,
{
    (if is_enabled(l) {
        seq![own_action(l)]
    } else {
        Seq::empty()
    }) + children_actions(l.2@)
}

/// The actions of the trees rooted at `cs`, one tree after the other.
pub open spec fn children_actions(cs: Seq<Layout>) -> Seq<ActionView>
    decreases cs,
{
    if cs.len() == 0 {
        Seq::empty()
    } else {
        children_actions(cs.drop_last()) + layout_actions(cs.last())
    }
}

/// The mathematical value of a [`MenuModel`].
pub open spec fn model_view(m: MenuModel) -> Seq<Seq<EntryView>>
    decreases m,
{
    sections_view(m.sections@)
}

pub open spec fn sections_view(ss: Seq<Vec<MenuEntry>>) -> Seq<Seq<EntryView>>
    decreases ss,
{
    if ss.len() == 0 {
        Seq::empty()
    } else {
        sections_view(ss.drop_last()).push(entries_view(ss.last()@))
    }
}

pub open spec fn entries_view(es: Seq<MenuEntry>) -> Seq<EntryView>
    decreases es,
{
    if es.len() == 0 {
        Seq::empty()
    } else {
        entries_view(es.drop_last()).push(entry_view(es.last()))
    }
}

/// The mathematical value of a [`MenuEntry`].
pub open spec fn entry_view(e: MenuEntry) -> EntryView
    decreases e,
{
    match e {
        MenuEntry::Item { label, action } => EntryView::Item { label: text_view(label), action: action@ },
        MenuEntry::Submenu { label, menu } => EntryView::Submenu {
            label: text_view(label),
            sections: model_view(menu),
        },
    }
}

pub open spec fn opt_entry_view(e: Option<MenuEntry>) -> Option<EntryView> {
    match e {
        Some(e) => Some(entry_view(e)),
        None => None,
    }
}

pub open spec fn actions_view(v: Seq<ActionSpec>) -> Seq<ActionView> {
    v.map_values(|a: ActionSpec| a@)
}

fn text_is(o: &Option<String>, text: &str) -> (r: bool)
    ensures
        r == has_text(*o, text@),
{
    match o {
        Some(s) => {
            let t = String::from_str(text);
            *s == t
        },
        None => false,
    }
}

fn owned_text(o: Option<&str>) -> (r: Option<String>)
    ensures
        text_view(r) == str_view(o),
{
    match o {
        Some(s) => Some(String::from_str(s)),
        None => None,
    }
}

proof fn lemma_sections_view_push(done: Seq<Vec<MenuEntry>>, current: Vec<MenuEntry>)
    ensures
        sections_view(done.push(current)) == sections_view(done).push(entries_view(current@)),
{
    assert(done.push(current).drop_last() =~= done);
}

impl Layout {
    /// The menu that shows this node's children.
    pub fn as_menu_model(&self) -> (m: MenuModel)
        ensures
            model_view(m) == menu_sections(self.2@),
        decreases self, 0nat,
    {
        let children = &self.2;
        let mut done: Vec<Vec<MenuEntry>> = Vec::new();
        let mut current: Vec<MenuEntry> = Vec::new();
        let mut i: usize = 0;
        proof {
            assert(children@.take(0) =~= Seq::<Layout>::empty());
            lemma_sections_view_push(done@, current);
            assert(entries_view(current@) =~= Seq::<EntryView>::empty());
            assert(sections_view(done@) =~= Seq::<Seq<EntryView>>::empty());
            assert(sections_view(done@.push(current)) =~= seq![Seq::<EntryView>::empty()]);
        }
        while i < children.len()
            invariant
                i <= children@.len(),
                children@ == self.2@,
                sections_view(done@.push(current)) == menu_sections(children@.take(i as int)),
            decreases children@.len() - i,
        {
            let child = &children[i];
            proof {
                assert(decreases_to!(self => self.2));
                assert(decreases_to!(self.2 => self.2@));
                assert(decreases_to!(self.2@ => self.2@[i as int]));
            }
            let ghost p = sections_view(done@.push(current));
            proof {
                assert(children@.take(i + 1).drop_last() =~= children@.take(i as int));
                assert(children@.take(i + 1).last() == *child);
                lemma_sections_view_push(done@, current);
            }
            if text_is(&child.1.type_, "separator") {
                proof {
                    reveal_strlit("separator");
                }
                done.push(current);
                current = Vec::new();
                proof {
                    lemma_sections_view_push(done@, current);
                    assert(entries_view(current@) =~= Seq::<EntryView>::empty());
                    assert(sections_view(done@.push(current)) =~= p.push(Seq::empty()));
                }
            } else {
                proof {
                    reveal_strlit("separator");
                }
                match child.as_menu_item() {
                    Some(e) => {
                        let ghost old_current = current@;
                        current.push(e);
                        proof {
                            assert(current@.drop_last() =~= old_current);
                            lemma_sections_view_push(done@, current);
                            assert(entries_view(current@) =~= entries_view(old_current).push(
                                entry_view(current@.last()),
                            ));
                            assert(sections_view(done@.push(current)) =~= p.update(
                                p.len() - 1,
                                p.last().push(entry_view(current@.last())),
                            ));
                        }
                    },
                    None => {},
                }
            }
            i = i + 1;
        }
        proof {
            assert(children@.take(children@.len() as int) =~= children@);
        }
        done.push(current);
        MenuModel { sections: done }
    }

    /// The entry that shows this node, or `None` when it is hidden.
    fn as_menu_item(&self) -> (e: Option<MenuEntry>)
        ensures
            opt_entry_view(e) == menu_entry(*self),
        decreases self, 1nat,
    {
        if self.1.visible == Some(false) {
            return None;
        }
        let label = owned_text(self.label());
        let submenu = text_is(&self.1.children_display, "submenu");
        proof {
            reveal_strlit("submenu");
        }
        if submenu {
            let menu = self.as_menu_model();
            Some(MenuEntry::Submenu { label, menu })
        } else {
            let prefix = String::from_str("dbusmenu.");
            proof {
                reveal_strlit("dbusmenu.");
            }
            let action = prefix.concat(decimal_string(self.0).as_str());
            Some(MenuEntry::Item { label, action })
        }
    }

    /// The node's label.
    pub fn label(&self) -> (r: Option<&str>)
        ensures
            str_view(r) == text_view(self.1.label),
    {
        match &self.1.label {
            Some(s) => Some(s.as_str()),
            None => None,
        }
    }

    /// The actions that the entries of this tree trigger.
    pub fn as_action_group(&self) -> (actions: Vec<ActionSpec>)
        ensures
            actions_view(actions@) == layout_actions(*self),
    {
        let mut actions: Vec<ActionSpec> = Vec::new();
        self.add_to_action_group(&mut actions);
        proof {
            assert(actions_view(Seq::<ActionSpec>::empty()) =~= Seq::<ActionView>::empty());
            assert(Seq::<ActionView>::empty() + layout_actions(*self) =~= layout_actions(*self));
        }
        actions
    }

    fn add_to_action_group(&self, actions: &mut Vec<ActionSpec>)
        ensures
            actions_view(final(actions)@) == actions_view(old(actions)@) + layout_actions(*self),
        decreases self,
    {
        let ghost start = actions_view(actions@);
        if self.1.enabled != Some(false) {
            let checkmark = text_is(&self.1.toggle_type, "checkmark");
            let radio = text_is(&self.1.toggle_type, "radio");
            proof {
                reveal_strlit("checkmark");
                reveal_strlit("radio");
            }
            let state = if checkmark || radio {
                Some(self.1.toggle_state == Some(1i32))
            } else {
                None
            };
            let ghost before = actions@;
            actions.push(ActionSpec { id: self.0, name: decimal_string(self.0), state });
            proof {
                assert(actions_view(actions@) =~= actions_view(before).push(own_action(*self)));
            }
        }
        let ghost mid = actions_view(actions@);
        proof {
            if is_enabled(*self) {
                assert(mid =~= start + seq![own_action(*self)]);
            } else {
                assert(mid =~= start + Seq::<ActionView>::empty());
            }
        }
        let children = &self.2;
        let mut i: usize = 0;
        proof {
            assert(children@.take(0) =~= Seq::<Layout>::empty());
            assert(mid + children_actions(children@.take(0)) =~= mid);
        }
        while i < children.len()
            invariant
                i <= children@.len(),
                children@ == self.2@,
                actions_view(actions@) == mid + children_actions(children@.take(i as int)),
            decreases children@.len() - i,
        {
            proof {
                assert(decreases_to!(self => self.2));
                assert(decreases_to!(self.2 => self.2@));
                assert(decreases_to!(self.2@ => self.2@[i as int]));
            }
            children[i].add_to_action_group(actions);
            proof {
                assert(children@.take(i + 1).drop_last() =~= children@.take(i as int));
                assert(children@.take(i + 1).last() == children@[i as int]);
                assert(mid + children_actions(children@.take(i + 1)) =~= mid + children_actions(
                    children@.take(i as int),
                ) + layout_actions(children@[i as int]));
            }
            i = i + 1;
        }
        proof {
            assert(children@.take(children@.len() as int) =~= children@);
            let own = if is_enabled(*self) {
                seq![own_action(*self)]
            } else {
                Seq::<ActionView>::empty()
            };
            assert(mid + children_actions(self.2@) =~= start + (own + children_actions(self.2@)));
        }
    }
}

} // verus!

verus! {

/// The number of separators among `cs`.
pub open spec fn count_separators(cs: Seq<Layout>) -> nat
    decreases cs.len(),
{
    if cs.len() == 0 {
        0
    } else {
        count_separators(cs.drop_last()) + if is_separator(cs.last()) {
            1nat
        } else {
            0nat
        }
    }
}

/// The entries of the shown nodes among `cs` that are not separators, in order.
pub open spec fn child_entries(cs: Seq<Layout>) -> Seq<EntryView>
    decreases cs.len(),
{
    if cs.len() == 0 {
        Seq::empty()
    } else {
        let c = cs.last();
        child_entries(cs.drop_last()) + if !is_separator(c) && menu_entry(c) is Some {
            seq![menu_entry(c)->0]
        } else {
            Seq::empty()
        }
    }
}

/// The sections one after the other.
pub open spec fn flatten<A>(ss: Seq<Seq<A>>) -> Seq<A>
    decreases ss.len(),
{
    if ss.len() == 0 {
        Seq::empty()
    } else {
        flatten(ss.drop_last()) + ss.last()
    }
}

proof fn lemma_flatten_update_last<A>(ss: Seq<Seq<A>>, x: A)
    requires
        ss.len() > 0,
    ensures
        flatten(ss.update(ss.len() - 1, ss.last().push(x))) == flatten(ss).push(x),
{
    let t = ss.update(ss.len() - 1, ss.last().push(x));
    assert(t.drop_last() =~= ss.drop_last());
    assert(flatten(ss.drop_last()) + ss.last().push(x) =~= (flatten(ss.drop_last()) + ss.last()).push(x));
}

/// A menu has one section more than its node has separator children, and its
/// sections, one after the other, hold the entries of the shown children
/// that are not separators, in the children's order: separators only cut,
/// and hidden children are left out.
pub proof fn law_sections_partition_children(cs: Seq<Layout>)
    ensures
        menu_sections(cs).len() == count_separators(cs) + 1,
        flatten(menu_sections(cs)) == child_entries(cs),
    decreases cs.len(),
{
    if cs.len() == 0 {
        let s = seq![Seq::<EntryView>::empty()];
        assert(s.drop_last() =~= Seq::<Seq<EntryView>>::empty());
        assert(flatten(s.drop_last()) =~= Seq::<EntryView>::empty());
        assert(flatten(s) =~= Seq::<EntryView>::empty());
    } else {
        let p = menu_sections(cs.drop_last());
        law_sections_partition_children(cs.drop_last());
        let c = cs.last();
        if is_separator(c) {
            assert(p.push(Seq::empty()).drop_last() =~= p);
            assert(flatten(p) + Seq::<EntryView>::empty() =~= flatten(p));
            assert(child_entries(cs.drop_last()) + Seq::<EntryView>::empty() =~= child_entries(
                cs.drop_last(),
            ));
        } else {
            match menu_entry(c) {
                Some(e) => {
                    lemma_flatten_update_last(p, e);
                },
                None => {
                    assert(child_entries(cs.drop_last()) + Seq::<EntryView>::empty()
                        =~= child_entries(cs.drop_last()));
                },
            }
        }
    }
}

/// Each entry of a menu shows one of the node's children: a shown child that
/// is not a separator.
pub proof fn law_entry_shows_a_child(cs: Seq<Layout>, k: int)
    requires
        0 <= k < flatten(menu_sections(cs)).len(),
    ensures
        exists|i: int|
            0 <= i < cs.len() && !is_separator(cs[i]) && !is_hidden(cs[i]) && menu_entry(cs[i])
                == Some(flatten(menu_sections(cs))[k]),
    decreases cs.len(),
{
    law_sections_partition_children(cs);
    lemma_child_entry_origin(cs, k);
}

proof fn lemma_child_entry_origin(cs: Seq<Layout>, k: int)
    requires
        0 <= k < child_entries(cs).len(),
    ensures
        exists|i: int|
            0 <= i < cs.len() && !is_separator(cs[i]) && !is_hidden(cs[i]) && menu_entry(cs[i])
                == Some(child_entries(cs)[k]),
    decreases cs.len(),
{
    let d = cs.drop_last();
    let c = cs.last();
    if k < child_entries(d).len() {
        lemma_child_entry_origin(d, k);
        let i = choose|i: int|
            0 <= i < d.len() && !is_separator(d[i]) && !is_hidden(d[i]) && menu_entry(d[i]) == Some(
                child_entries(d)[k],
            );
        assert(cs[i] == d[i]);
    } else {
        assert(cs[cs.len() - 1] == c);
    }
}

proof fn lemma_children_actions_include(cs: Seq<Layout>, i: int, j: int)
    requires
        0 <= i < cs.len(),
        0 <= j < layout_actions(cs[i]).len(),
    ensures
        children_actions(cs).contains(layout_actions(cs[i])[j]),
    decreases cs.len(),
{
    let d = cs.drop_last();
    if i == cs.len() - 1 {
        let w = children_actions(d).len() + j;
        assert(children_actions(cs)[w] == layout_actions(cs[i])[j]);
    } else {
        assert(d[i] == cs[i]);
        lemma_children_actions_include(d, i, j);
        let w = choose|w: int|
            0 <= w < children_actions(d).len() && children_actions(d)[w] == layout_actions(cs[i])[j];
        assert(children_actions(cs)[w] == layout_actions(cs[i])[j]);
    }
}

/// The action group of a tree holds every action of every subtree, so the
/// group of the root serves the entries of all nested submenus.
pub proof fn law_subtree_actions_in_group(l: Layout, i: int, j: int)
    requires
        0 <= i < l.2@.len(),
        0 <= j < layout_actions(l.2@[i]).len(),
    ensures
        layout_actions(l).contains(layout_actions(l.2@[i])[j]),
{
    lemma_children_actions_include(l.2@, i, j);
    let own = if is_enabled(l) {
        seq![own_action(l)]
    } else {
        Seq::<ActionView>::empty()
    };
    let w = choose|w: int|
        0 <= w < children_actions(l.2@).len() && children_actions(l.2@)[w] == layout_actions(
            l.2@[i],
        )[j];
    assert(layout_actions(l)[own.len() + w] == layout_actions(l.2@[i])[j]);
}

/// Each entry of a node's menu that triggers an action names the action
/// `dbusmenu.<id>` of a shown child that is not a submenu; when that child is
/// enabled, the node's action group holds the child's action, which is named
/// `<id>` and clicks it, so the entry works.
pub proof fn law_menu_item_has_action(l: Layout, k: int)
    requires
        0 <= k < flatten(menu_sections(l.2@)).len(),
        flatten(menu_sections(l.2@))[k] is Item,
    ensures
        exists|i: int|
            0 <= i < l.2@.len() && !is_hidden(#[trigger] l.2@[i]) && !is_submenu(l.2@[i])
                && flatten(menu_sections(l.2@))[k]->Item_action == "dbusmenu."@ + own_action(
                l.2@[i],
            ).name && own_action(l.2@[i]).id == l.2@[i].0 && (is_enabled(l.2@[i])
                ==> layout_actions(l).contains(own_action(l.2@[i]))),
{
    law_entry_shows_a_child(l.2@, k);
    let i = choose|i: int|
        0 <= i < l.2@.len() && !is_separator(l.2@[i]) && !is_hidden(l.2@[i]) && menu_entry(l.2@[i])
            == Some(flatten(menu_sections(l.2@))[k]);
    let c = l.2@[i];
    assert(!is_submenu(c));
    if is_enabled(c) {
        assert(layout_actions(c)[0] == own_action(c));
        law_subtree_actions_in_group(l, i, 0);
    }
}

/// Each submenu entry of a node's menu shows the menu of a shown child whose
/// children are displayed as a submenu.
pub proof fn law_submenu_shows_child_menu(l: Layout, k: int)
    requires
        0 <= k < flatten(menu_sections(l.2@)).len(),
        flatten(menu_sections(l.2@))[k] is Submenu,
    ensures
        exists|i: int|
            0 <= i < l.2@.len() && !is_hidden(#[trigger] l.2@[i]) && is_submenu(l.2@[i])
                && flatten(menu_sections(l.2@))[k]->Submenu_sections == menu_sections(l.2@[i].2@),
{
    law_entry_shows_a_child(l.2@, k);
    let i = choose|i: int|
        0 <= i < l.2@.len() && !is_separator(l.2@[i]) && !is_hidden(l.2@[i]) && menu_entry(l.2@[i])
            == Some(flatten(menu_sections(l.2@))[k]);
    assert(is_submenu(l.2@[i]));
}

} // verus!

verus! {

/// Whether a node is shown depends only on its `visible` property: every
/// node that is not hidden has an entry, enabled or not (a disabled entry is
/// shown without an action). A node whose children display is "submenu"
/// opens the menu of its children; any other shown node is an item that
/// triggers `dbusmenu.<id>`. Either way the entry carries the node's label.
pub proof fn law_menu_entry_of_node(l: Layout)
    ensures
        (menu_entry(l) is Some) == (l.1.visible != Some(false)),
        l.1.visible != Some(false) && has_text(l.1.children_display, "submenu"@) ==> menu_entry(l)
            == Some(
            EntryView::Submenu { label: text_view(l.1.label), sections: menu_sections(l.2@) },
        ),
        l.1.visible != Some(false) && !has_text(l.1.children_display, "submenu"@) ==> menu_entry(
            l,
        ) == Some(
            EntryView::Item { label: text_view(l.1.label), action: "dbusmenu."@ + decimal(l.0 as int) },
        ),
{
}

/// The first action of a tree is its root's, when the root is enabled
/// (`enabled` is not `Some(false)`): it clicks the root, is named by the
/// root's id, and for a "checkmark" or "radio" node holds the state "on"
/// exactly when `toggle_state` is 1; other nodes get a stateless action. A
/// disabled root gets no action and the actions are those of its children.
pub proof fn law_root_action(l: Layout)
    ensures
        l.1.enabled != Some(false) ==> layout_actions(l).len() >= 1 && layout_actions(l)[0] == (
        ActionView {
            id: l.0 as int,
            name: decimal(l.0 as int),
            state: if has_text(l.1.toggle_type, "checkmark"@) || has_text(
                l.1.toggle_type,
                "radio"@,
            ) {
                Some(l.1.toggle_state == Some(1i32))
            } else {
                None
            },
        }),
        l.1.enabled == Some(false) ==> layout_actions(l) == children_actions(l.2@),
{
    if l.1.enabled == Some(false) {
        assert(Seq::<ActionView>::empty() + children_actions(l.2@) =~= children_actions(l.2@));
    }
}

/// The children cut into groups at each separator, the separators left
/// out: one group more than there are separators.
pub open spec fn split_at_separators(cs: Seq<Layout>) -> Seq<Seq<Layout>>
    decreases cs.len(),
{
    if cs.len() == 0 {
        seq![Seq::empty()]
    } else {
        let p = split_at_separators(cs.drop_last());
        let c = cs.last();
        if is_separator(c) {
            p.push(Seq::empty())
        } else {
            p.update(p.len() - 1, p.last().push(c))
        }
    }
}

proof fn lemma_split_nonempty(cs: Seq<Layout>)
    ensures
        split_at_separators(cs).len() >= 1,
    decreases cs.len(),
{
    if cs.len() > 0 {
        lemma_split_nonempty(cs.drop_last());
    }
}

proof fn lemma_child_entries_push(g: Seq<Layout>, c: Layout)
    ensures
        child_entries(g.push(c)) == child_entries(g) + if !is_separator(c) && menu_entry(c) is Some {
            seq![menu_entry(c)->0]
        } else {
            Seq::empty()
        },
{
    assert(g.push(c).drop_last() =~= g);
}

/// Section `k` of a menu shows exactly the `k`-th group of the children
/// cut at separators: the entries of its shown children, in order.
pub proof fn law_sections_are_groups(cs: Seq<Layout>)
    ensures
        menu_sections(cs) == split_at_separators(cs).map_values(|g: Seq<Layout>| child_entries(g)),
    decreases cs.len(),
{
    let f = |g: Seq<Layout>| child_entries(g);
    if cs.len() == 0 {
        assert(child_entries(Seq::<Layout>::empty()) =~= Seq::<EntryView>::empty());
        assert(split_at_separators(cs).map_values(f) =~= seq![Seq::<EntryView>::empty()]);
    } else {
        let d = cs.drop_last();
        let c = cs.last();
        law_sections_are_groups(d);
        lemma_split_nonempty(d);
        let p = split_at_separators(d);
        let m = menu_sections(d);
        assert(m == p.map_values(f));
        if is_separator(c) {
            assert(child_entries(Seq::<Layout>::empty()) =~= Seq::<EntryView>::empty());
            assert(p.push(Seq::empty()).map_values(f) =~= m.push(Seq::empty()));
        } else {
            lemma_child_entries_push(p.last(), c);
            let q = p.update(p.len() - 1, p.last().push(c));
            assert(m.last() == child_entries(p.last()));
            match menu_entry(c) {
                Some(e) => {
                    assert(!is_separator(c) && menu_entry(c) is Some);
                    assert(child_entries(p.last()) + seq![e] =~= child_entries(p.last()).push(e));
                    assert(child_entries(q[q.len() - 1]) == m.last().push(e));
                    assert(q.map_values(f) =~= m.update(m.len() - 1, m.last().push(e)));
                },
                None => {
                    assert(child_entries(p.last()) + Seq::<EntryView>::empty() =~= child_entries(
                        p.last(),
                    ));
                    assert(q.map_values(f) =~= m);
                },
            }
        }
    }
}

} // verus!

verus! {

/// Cutting at separators keeps every child that is not a separator, in
/// order, and makes one group more than there are separators.
pub proof fn law_split_keeps_children(cs: Seq<Layout>)
    ensures
        split_at_separators(cs).len() == count_separators(cs) + 1,
        flatten(split_at_separators(cs)) == cs.filter(|c: Layout| !is_separator(c)),
    decreases cs.len(),
{
    reveal(Seq::filter);
    let pred = |c: Layout| !is_separator(c);
    if cs.len() == 0 {
        let s = split_at_separators(cs);
        assert(s.drop_last() =~= Seq::<Seq<Layout>>::empty());
        assert(flatten(s.drop_last()) =~= Seq::<Layout>::empty());
        assert(flatten(s) =~= Seq::<Layout>::empty());
        assert(cs.filter(pred) =~= Seq::<Layout>::empty());
    } else {
        let d = cs.drop_last();
        let c = cs.last();
        law_split_keeps_children(d);
        lemma_split_nonempty(d);
        let p = split_at_separators(d);
        if is_separator(c) {
            assert(p.push(Seq::empty()).drop_last() =~= p);
            assert(flatten(p) + Seq::<Layout>::empty() =~= flatten(p));
            assert(cs.filter(pred) == d.filter(pred));
        } else {
            lemma_flatten_update_last(p, c);
            assert(cs.filter(pred) == d.filter(pred).push(c));
        }
    }
}

} // verus!
