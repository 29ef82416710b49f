//! The registry of the `org.kde.StatusNotifierWatcher` service.
//!
//! Applications register their tray items with the watcher; the watcher
//! lists them, announces each registration, and drops an item, announcing
//! it, when the application that registered it leaves the bus. It also
//! follows whether this process owns the watcher's well-known bus name.

use vstd::prelude::*;

verus! {

/// The well-known bus name of the watcher service.
pub const WATCHER_NAME: &'static str = "org.kde.StatusNotifierWatcher";

/// The object path at which the watcher is served.
pub const WATCHER_PATH: &'static str = "/StatusNotifierWatcher";

/// A bus name whose owner changed, as the bus reports it.
#[derive(Clone, Debug)]
pub enum BusName {
    WellKnown(String),
    Unique(String),
}

/// What the watcher announces after a change of a name's owner.
#[derive(Clone, Debug)]
pub enum WatcherEvent {
    /// This process now owns the watcher's well-known name.
    NameAcquired,
    /// This process lost the watcher's well-known name.
    NameLost,
    /// The application that registered this service left the bus; the
    /// item was dropped and its unregistration is to be signalled.
    ItemUnregistered(String),
    /// Nothing to announce.
    Nothing,
}

/// The mathematical value of a [`WatcherEvent`].
pub enum EventView {
    NameAcquired,
    NameLost,
    ItemUnregistered(Seq<char>),
    Nothing,
}

impl View for WatcherEvent {
    type V = EventView;

    open spec fn view(&self) -> EventView {
        match self {
            WatcherEvent::NameAcquired => EventView::NameAcquired,
            WatcherEvent::NameLost => EventView::NameLost,
            WatcherEvent::ItemUnregistered(s) => EventView::ItemUnregistered(s@),
            WatcherEvent::Nothing => EventView::Nothing,
        }
    }
}

/// The mathematical value of a [`BusName`].
pub enum NameView {
    WellKnown(Seq<char>),
    Unique(Seq<char>),
}

impl View for BusName {
    type V = NameView;

    open spec fn view(&self) -> NameView {
        match self {
            BusName::WellKnown(s) => NameView::WellKnown(s@),
            BusName::Unique(s) => NameView::Unique(s@),
        }
    }
}

/// The state of the watcher: the registered items, each as the unique name
/// of the application that registered it and the item's service, in the
/// order of registration; and whether this process owns the watcher's name.
#[derive(Debug)]
pub struct StatusNotifierWatcher {
    items: Vec<(String, String)>,
    has_bus_name: bool,
}

/// The mathematical value of a [`StatusNotifierWatcher`].
pub struct WatcherView {
    pub items: Seq<(Seq<char>, Seq<char>)>,
    pub has_bus_name: bool,
}

impl View for StatusNotifierWatcher {
    type V = WatcherView;

    closed spec fn view(&self) -> WatcherView {
        WatcherView {
            items: self.items@.map_values(|p: (String, String)| (p.0@, p.1@)),
            has_bus_name: self.has_bus_name,
        }
    }
}

pub open spec fn opt_view(o: Option<String>) -> Option<Seq<char>> {
    match o {
        Some(s) => Some(s@),
        None => None,
    }
}

/// The service under which an item is listed: a service given as an object
/// path (beginning with `/`) is qualified with the sender's unique name.
pub open spec fn qualified_service(sender: Seq<char>, service: Seq<char>) -> Seq<char> {
    if service.len() > 0 && service[0] == '/' {
        sender + service
    } else {
        service
    }
}

/// The services of the registered items, in order.
pub open spec fn services(items: Seq<(Seq<char>, Seq<char>)>) -> Seq<Seq<char>> {
    items.map_values(|p: (Seq<char>, Seq<char>)| p.1)
}

/// The watcher after `sender` registered `service`; a registration without
/// a sender is ignored.
pub open spec fn after_register(
    w: WatcherView,
    service: Seq<char>,
    sender: Option<Seq<char>>,
) -> WatcherView {
    match sender {
        Some(s) => WatcherView {
            items: w.items.push((s, qualified_service(s, service))),
            has_bus_name: w.has_bus_name,
        },
        None => w,
    }
}

/// `i` is the first item registered by `peer`.
pub open spec fn is_first_item_of(items: Seq<(Seq<char>, Seq<char>)>, peer: Seq<char>, i: int) -> bool {
    &&& 0 <= i < items.len()
    &&& items[i].0 == peer
    &&& forall|j: int| 0 <= j < i ==> items[j].0 != peer
}

/// The first item registered by `peer`, when there is one.
pub open spec fn first_item_of(items: Seq<(Seq<char>, Seq<char>)>, peer: Seq<char>) -> int {
    choose|i: int| is_first_item_of(items, peer, i)
}

/// `peer` registered no item.
pub open spec fn has_no_item(items: Seq<(Seq<char>, Seq<char>)>, peer: Seq<char>) -> bool {
    forall|j: int| 0 <= j < items.len() ==> items[j].0 != peer
}

/// The watcher and the announcement after the owner of `name` changed to
/// `new_owner`, where `own` is this process's unique name.
pub open spec fn after_owner_change(
    w: WatcherView,
    name: NameView,
    new_owner: Option<Seq<char>>,
    own: Option<Seq<char>>,
) -> (WatcherView, EventView) {
    match name {
        NameView::WellKnown(n) => if n == WATCHER_NAME@ {
            if new_owner == own {
                (WatcherView { items: w.items, has_bus_name: true }, EventView::NameAcquired)
            } else if w.has_bus_name {
                (WatcherView { items: w.items, has_bus_name: false }, EventView::NameLost)
            } else {
                (w, EventView::Nothing)
            }
        } else {
            (w, EventView::Nothing)
        },
        NameView::Unique(peer) => if !has_no_item(w.items, peer) {
            let i = first_item_of(w.items, peer);
            (
                WatcherView { items: w.items.remove(i), has_bus_name: w.has_bus_name },
                EventView::ItemUnregistered(w.items[i].1),
            )
        } else {
            (w, EventView::Nothing)
        },
    }
}

fn same_text(a: &Option<String>, b: &Option<String>) -> (r: bool)
    ensures
        r == (opt_view(*a) == opt_view(*b)),
{
    match (a, b) {
        (Some(x), Some(y)) => *x == *y,
        (None, None) => true,
        _ => false,
    }
}

fn begins_with_slash(s: &str) -> (r: bool)
    ensures
        r == (s@.len() > 0 && s@[0] == '/'),
{
    if s.unicode_len() == 0 {
        false
    } else {
        s.get_char(0) == '/'
    }
}

impl StatusNotifierWatcher {
    /// A watcher with no item, not owning its name.
    pub fn new() -> (w: Self)
        ensures
            w@.items == Seq::<(Seq<char>, Seq<char>)>::empty(),
            !w@.has_bus_name,
    {
        let w = StatusNotifierWatcher { items: Vec::new(), has_bus_name: false };
        proof {
            assert(w@.items =~= Seq::<(Seq<char>, Seq<char>)>::empty());
        }
        w
    }

    /// Registers the item `service` for the application `sender`. Returns
    /// the service under which it is listed, whose registration is to be
    /// signalled; without a sender nothing is registered.
    pub fn register_status_notifier_item(&mut self, service: &str, sender: Option<&str>) -> (r:
        Option<String>)
        ensures
            final(self)@ == after_register(
                old(self)@,
                service@,
                match sender {
                    Some(s) => Some(s@),
                    None => None,
                },
            ),
            match sender {
                Some(s) => r matches Some(q) && q@ == qualified_service(s@, service@),
                None => r is None,
            },
    {
        let sender = match sender {
            Some(s) => s,
            None => return None,
        };
        let qualified = if begins_with_slash(service) {
            String::from_str(sender).concat(service)
        } else {
            String::from_str(service)
        };
        self.items.push((String::from_str(sender), qualified.clone()));
        proof {
            assert(self@.items =~= old(self)@.items.push((sender@, qualified@)));
        }
        Some(qualified)
    }

    /// Registration of a host: every host is accepted, nothing is kept.
    pub fn register_status_notifier_host(&mut self, _service: &str)
        ensures
            final(self)@ == old(self)@,
    {
    }

    /// The services of the registered items, in the order of registration.
    pub fn registered_status_notifier_items(&self) -> (r: Vec<String>)
        ensures
            r@.map_values(|s: String| s@) == services(self@.items),
    {
        let mut r: Vec<String> = Vec::new();
        let mut i: usize = 0;
        while i < self.items.len()
            invariant
                i <= self.items@.len(),
                r@.map_values(|s: String| s@) == services(self@.items).take(i as int),
            decreases self.items@.len() - i,
        {
            let ghost before = r@;
            r.push(self.items[i].1.clone());
            proof {
                assert(self@.items[i as int] == (self.items@[i as int].0@, self.items@[i as int].1@));
                assert(r@.map_values(|s: String| s@) =~= before.map_values(|s: String| s@).push(
                    self@.items[i as int].1,
                ));
                assert(r@.map_values(|s: String| s@) =~= services(self@.items).take(i + 1));
            }
            i = i + 1;
        }
        proof {
            assert(services(self@.items).take(self.items@.len() as int) =~= services(self@.items));
        }
        r
    }

    /// A host is always registered: this process is the host.
    pub fn is_status_notifier_host_registered(&self) -> (r: bool)
        ensures
            r,
    {
        true
    }

    /// The version of the protocol.
    pub fn protocol_version(&self) -> (r: i32)
        ensures
            r == 0,
    {
        0
    }

    /// Follows a change of the owner of `name` to `new_owner`, where `own` is
    /// this process's unique name, and says what to announce.
    pub fn on_name_owner_changed(
        &mut self,
        name: &BusName,
        new_owner: &Option<String>,
        own: &Option<String>,
    ) -> (event: WatcherEvent)
        ensures
            (final(self)@, event@) == after_owner_change(
                old(self)@,
                name@,
                opt_view(*new_owner),
                opt_view(*own),
            ),
    {
        match name {
            BusName::WellKnown(n) => {
                let watcher = String::from_str(WATCHER_NAME);
                if *n == watcher {
                    if same_text(new_owner, own) {
                        self.has_bus_name = true;
                        proof {
                            assert(self@.items =~= old(self)@.items);
                        }
                        WatcherEvent::NameAcquired
                    } else if self.has_bus_name {
                        self.has_bus_name = false;
                        proof {
                            assert(self@.items =~= old(self)@.items);
                        }
                        WatcherEvent::NameLost
                    } else {
                        WatcherEvent::Nothing
                    }
                } else {
                    WatcherEvent::Nothing
                }
            },
            BusName::Unique(peer) => {
                let mut i: usize = 0;
                while i < self.items.len()
                    invariant
                        i <= self.items@.len(),
                        self@ == old(self)@,
                        name@ == NameView::Unique(peer@),
                        forall|j: int| 0 <= j < i ==> old(self)@.items[j].0 != peer@,
                    decreases self.items@.len() - i,
                {
                    if self.items[i].0 == *peer {
                        let ghost old_items = self.items@;
                        let item = self.items.remove(i);
                        proof {
                            assert(old(self)@.items[i as int] == (old_items[i as int].0@, old_items[
                                i as int].1@));
                            assert(item.1@ == old(self)@.items[i as int].1);
                            assert(self@.items =~= old(self)@.items.remove(i as int));
                        }
                        let event = WatcherEvent::ItemUnregistered(item.1);
                        proof {
                            let expected = after_owner_change(
                                old(self)@,
                                name@,
                                opt_view(*new_owner),
                                opt_view(*own),
                            );
                            assert(name@ == NameView::Unique(peer@));
                            assert(is_first_item_of(old(self)@.items, peer@, i as int));
                            let k = first_item_of(old(self)@.items, peer@);
                            assert(is_first_item_of(old(self)@.items, peer@, k));
                            assert(k == i);
                            assert(expected.0.items =~= self@.items);
                            assert(expected.0 == self@);
                            assert(expected.1 == event@);
                        }
                        return event;
                    }
                    i = i + 1;
                }
                WatcherEvent::Nothing
            },
        }
    }
}

} // verus!

verus! {

/// A registration lists the item's service last, after the services
/// listed before; a registration without a sender lists nothing.
pub proof fn law_register_lists_service(w: WatcherView, service: Seq<char>, sender: Option<Seq<char>>)
    ensures
        services(after_register(w, service, sender).items) == match sender {
            Some(s) => services(w.items).push(qualified_service(s, service)),
            None => services(w.items),
        },
{
    if let Some(s) = sender {
        assert(services(w.items.push((s, qualified_service(s, service)))) =~= services(
            w.items,
        ).push(qualified_service(s, service)));
    }
}

/// When an application that had no item registers one and then leaves the
/// bus, the watcher is back where it was, and announces the departure of
/// the very service that the registration listed.
pub proof fn law_register_then_leave_restores(
    w: WatcherView,
    sender: Seq<char>,
    service: Seq<char>,
    new_owner: Option<Seq<char>>,
    own: Option<Seq<char>>,
)
    requires
        has_no_item(w.items, sender),
    ensures
        after_owner_change(
            after_register(w, service, Some(sender)),
            NameView::Unique(sender),
            new_owner,
            own,
        ) == (w, EventView::ItemUnregistered(qualified_service(sender, service))),
{
    let w1 = after_register(w, service, Some(sender));
    let n = w.items.len() as int;
    assert(is_first_item_of(w1.items, sender, n));
    let k = first_item_of(w1.items, sender);
    assert(is_first_item_of(w1.items, sender, k));
    assert(k == n);
    assert(w1.items.remove(n) =~= w.items);
}

/// When an application leaves the bus, exactly its first item is dropped:
/// the items before and after it keep their order, and the ownership of the
/// watcher's name is unchanged. Nothing changes for an application that
/// registered no item.
pub proof fn law_leave_drops_first_item(
    w: WatcherView,
    peer: Seq<char>,
    new_owner: Option<Seq<char>>,
    own: Option<Seq<char>>,
)
    ensures
        ({
            let (w2, ev) = after_owner_change(w, NameView::Unique(peer), new_owner, own);
            &&& w2.has_bus_name == w.has_bus_name
            &&& has_no_item(w.items, peer) ==> w2 == w && ev == EventView::Nothing
            &&& !has_no_item(w.items, peer) ==> exists|i: int|
                #![trigger w.items[i]]
                is_first_item_of(w.items, peer, i) && w2.items == w.items.take(i) + w.items.skip(
                    i + 1,
                ) && ev == EventView::ItemUnregistered(w.items[i].1)
        }),
{
    if !has_no_item(w.items, peer) {
        let j = choose|j: int| 0 <= j < w.items.len() && w.items[j].0 == peer;
        lemma_first_item_exists(w.items, peer, j);
        let i = first_item_of(w.items, peer);
        assert(is_first_item_of(w.items, peer, i));
        assert(w.items.remove(i) =~= w.items.take(i) + w.items.skip(i + 1));
    }
}

proof fn lemma_first_item_exists(items: Seq<(Seq<char>, Seq<char>)>, peer: Seq<char>, j: int)
    requires
        0 <= j < items.len(),
        items[j].0 == peer,
    ensures
        exists|i: int| is_first_item_of(items, peer, i),
    decreases j,
{
    if exists|k: int| 0 <= k < j && items[k].0 == peer {
        let k = choose|k: int| 0 <= k < j && items[k].0 == peer;
        lemma_first_item_exists(items, peer, k);
    } else {
        assert(is_first_item_of(items, peer, j));
    }
}

/// Changes of the owner of the watcher's well-known name never touch the
/// registered items. The watcher owns its name right after this process
/// became the owner, and announces a loss only when it owned the name.
pub proof fn law_name_ownership(
    w: WatcherView,
    new_owner: Option<Seq<char>>,
    own: Option<Seq<char>>,
)
    ensures
        ({
            let (w2, ev) = after_owner_change(w, NameView::WellKnown(WATCHER_NAME@), new_owner, own);
            &&& w2.items == w.items
            &&& new_owner == own ==> w2.has_bus_name && ev == EventView::NameAcquired
            &&& ev == EventView::NameLost ==> w.has_bus_name && !w2.has_bus_name
            &&& new_owner != own ==> !w2.has_bus_name
        }),
{
}

} // verus!

verus! {

/// Only the watcher's own well-known name concerns it: a change of owner of
/// any other well-known name changes nothing and announces nothing.
pub proof fn law_other_names_ignored(
    w: WatcherView,
    name: Seq<char>,
    new_owner: Option<Seq<char>>,
    own: Option<Seq<char>>,
)
    requires
        name != WATCHER_NAME@,
    ensures
        after_owner_change(w, NameView::WellKnown(name), new_owner, own) == (w, EventView::Nothing),
{
}

} // verus!
