//! Addresses of tray items and of the watcher on the session bus.
//!
//! A registered item is listed by a service string: either a bus name, whose
//! item is served at `/StatusNotifierItem`, or a bus name followed by the
//! object path of the item. An item can be reached only when both parts are
//! valid D-Bus names, as zbus checks them.

use crate::watcher::{qualified_service, WATCHER_NAME, WATCHER_PATH};
use vstd::prelude::*;

verus! {

/// Whether `name` is accepted as a D-Bus bus name (unique or well known).
pub uninterp spec fn bus_name_accepted(name: Seq<char>) -> bool;

/// `zbus::names::BusName::try_from` on `name`: true exactly when the
/// conversion succeeds. The grammar of bus names (unique or well known, at
/// most 255 bytes) is not restated here: its verdict is named
/// `bus_name_accepted`.
#[verifier::external_body]
fn bus_name_is_valid(name: &str) -> (valid: bool)
    ensures
        valid == bus_name_accepted(name@),
{
    zbus::names::BusName::try_from(name).is_ok()
}

/// A character allowed in an element of an object path.
pub open spec fn is_path_char(c: char) -> bool {
    ('a' <= c <= 'z') || ('A' <= c <= 'Z') || ('0' <= c <= '9') || c == '_'
}

/// A D-Bus object path: `/`, or `/` followed by non-empty elements of ASCII
/// letters, digits and `_`, separated by single slashes, with no trailing
/// slash.
pub open spec fn object_path_accepted(p: Seq<char>) -> bool {
    &&& p.len() >= 1
    &&& p[0] == '/'
    &&& forall|i: int| 0 <= i < p.len() ==> p[i] == '/' || is_path_char(#[trigger] p[i])
    &&& forall|i: int| 0 <= i < p.len() - 1 ==> !(#[trigger] p[i] == '/' && p[i + 1] == '/')
    &&& p.len() > 1 ==> p.last() != '/'
}

/// `zbus::zvariant::ObjectPath::try_from` on `path`: true exactly when the
/// path is accepted, and zvariant accepts precisely the object paths of
/// `object_path_accepted`.
#[verifier::external_body]
fn object_path_is_valid(path: &str) -> (valid: bool)
    ensures
        valid == object_path_accepted(path@),
{
    zbus::zvariant::ObjectPath::try_from(path).is_ok()
}

/// The object path of an item whose service is a bare bus name.
pub const DEFAULT_ITEM_PATH: &'static str = "/StatusNotifierItem";

/// `i` is the position of the first `/` in `s`.
pub open spec fn is_first_slash(s: Seq<char>, i: int) -> bool {
    &&& 0 <= i < s.len()
    &&& s[i] == '/'
    &&& forall|j: int| 0 <= j < i ==> s[j] != '/'
}

pub open spec fn has_slash(s: Seq<char>) -> bool {
    exists|i: int| 0 <= i < s.len() && s[i] == '/'
}

pub open spec fn first_slash(s: Seq<char>) -> int {
    choose|i: int| is_first_slash(s, i)
}

/// The destination and the object path of the item listed as `service`:
/// the text up to the first `/` and the rest, or the whole service and the
/// default item path.
pub open spec fn item_address(service: Seq<char>) -> (Seq<char>, Seq<char>) {
    if has_slash(service) {
        let i = first_slash(service);
        (service.take(i), service.skip(i))
    } else {
        (service, DEFAULT_ITEM_PATH@)
    }
}

/// Why an item cannot be reached.
#[derive(Clone, Copy, Debug, PartialEq, Eq, Structural)]
pub enum AddressError {
    /// The destination is not a bus name.
    InvalidDestination,
    /// The object path is not valid.
    InvalidPath,
}

/// The address of a registered tray item.
#[derive(Clone, Debug)]
pub struct TrayItem {
    dest: String,
    path: String,
}

impl View for TrayItem {
    type V = (Seq<char>, Seq<char>);

    closed spec fn view(&self) -> (Seq<char>, Seq<char>) {
        (self.dest@, self.path@)
    }
}

/// Whether the item listed as `service` can be reached.
pub open spec fn item_reachable(service: Seq<char>) -> bool {
    bus_name_accepted(item_address(service).0) && object_path_accepted(item_address(service).1)
}

proof fn lemma_first_slash(s: Seq<char>, i: int)
    requires
        is_first_slash(s, i),
    ensures
        has_slash(s),
        first_slash(s) == i,
{
    let k = first_slash(s);
    assert(is_first_slash(s, k));
}

fn find_slash(s: &str) -> (r: Option<usize>)
    ensures
        match r {
            Some(i) => is_first_slash(s@, i as int),
            None => !has_slash(s@),
        },
{
    let n = s.unicode_len();
    let mut i: usize = 0;
    while i < n
        invariant
            n == s@.len(),
            i <= n,
            forall|j: int| 0 <= j < i ==> s@[j] != '/',
        decreases n - i,
    {
        if s.get_char(i) == '/' {
            return Some(i);
        }
        i = i + 1;
    }
    None
}

impl TrayItem {
    /// The address of the item listed as `name`, when both its parts are
    /// valid; the destination is checked first.
    pub fn new(name: String) -> (r: Result<TrayItem, AddressError>)
        ensures
            match r {
                Ok(item) => item@ == item_address(name@) && item_reachable(name@),
                Err(AddressError::InvalidDestination) => !bus_name_accepted(
                    item_address(name@).0,
                ),
                Err(AddressError::InvalidPath) => bus_name_accepted(item_address(name@).0)
                    && !object_path_accepted(item_address(name@).1),
            },
    {
        let (dest, path) = match find_slash(name.as_str()) {
            Some(i) => {
                proof {
                    lemma_first_slash(name@, i as int);
                }
                let n = name.as_str().unicode_len();
                let dest = String::from_str(name.as_str().substring_char(0, i));
                let path = String::from_str(name.as_str().substring_char(i, n));
                (dest, path)
            },
            None => {
                proof {
                    reveal_strlit("/StatusNotifierItem");
                }
                (name, String::from_str(DEFAULT_ITEM_PATH))
            },
        };
        if !bus_name_is_valid(dest.as_str()) {
            return Err(AddressError::InvalidDestination);
        }
        if !object_path_is_valid(path.as_str()) {
            return Err(AddressError::InvalidPath);
        }
        Ok(TrayItem { dest, path })
    }

    /// The bus name of the application that serves the item.
    pub fn destination(&self) -> (r: &str)
        ensures
            r@ == self@.0,
    {
        self.dest.as_str()
    }

    /// The object path at which the item is served.
    pub fn path(&self) -> (r: &str)
        ensures
            r@ == self@.1,
    {
        self.path.as_str()
    }
}

/// The addresses of the reachable items among those listed as `names`, in order.
pub open spec fn reachable_items(names: Seq<Seq<char>>) -> Seq<(Seq<char>, Seq<char>)>
    decreases names.len(),
{
    if names.len() == 0 {
        Seq::empty()
    } else {
        let rest = reachable_items(names.drop_last());
        if item_reachable(names.last()) {
            rest.push(item_address(names.last()))
        } else {
            rest
        }
    }
}

/// The address of the watcher service, from which the registered items are read.
#[derive(Clone, Debug)]
pub struct TrayServer {
    destination: String,
    path: String,
}

impl View for TrayServer {
    type V = (Seq<char>, Seq<char>);

    closed spec fn view(&self) -> (Seq<char>, Seq<char>) {
        (self.destination@, self.path@)
    }
}

impl TrayServer {
    /// The watcher, at its well-known name and path.
    pub fn new() -> (s: TrayServer)
        ensures
            s@ == (WATCHER_NAME@, WATCHER_PATH@),
    {
        TrayServer {
            destination: String::from_str(WATCHER_NAME),
            path: String::from_str(WATCHER_PATH),
        }
    }

    /// The bus name of the watcher.
    pub fn destination(&self) -> (r: &str)
        ensures
            r@ == self@.0,
    {
        self.destination.as_str()
    }

    /// The object path of the watcher.
    pub fn path(&self) -> (r: &str)
        ensures
            r@ == self@.1,
    {
        self.path.as_str()
    }

    /// The items listed as `names` by the watcher, leaving out those that
    /// cannot be reached.
    pub fn items(&self, names: Vec<String>) -> (items: Vec<TrayItem>)
        ensures
            items@.map_values(|t: TrayItem| t@) == reachable_items(
                names@.map_values(|s: String| s@),
            ),
    {
        let ghost views = names@.map_values(|s: String| s@);
        let mut items: Vec<TrayItem> = Vec::new();
        let mut i: usize = 0;
        let n = names.len();
        proof {
            assert(views.take(0) =~= Seq::<Seq<char>>::empty());
            assert(items@.map_values(|t: TrayItem| t@) =~= Seq::<(Seq<char>, Seq<char>)>::empty());
        }
        while i < n
            invariant
                n == names@.len(),
                views == names@.map_values(|s: String| s@),
                i <= n,
                items@.map_values(|t: TrayItem| t@) == reachable_items(views.take(i as int)),
            decreases n - i,
        {
            let name = names[i].clone();
            let ghost before = items@;
            proof {
                assert(views.take(i + 1).drop_last() =~= views.take(i as int));
                assert(views.take(i + 1).last() == name@);
            }
            match TrayItem::new(name) {
                Ok(item) => {
                    items.push(item);
                    proof {
                        assert(items@.map_values(|t: TrayItem| t@) =~= before.map_values(
                            |t: TrayItem| t@,
                        ).push(item_address(views[i as int])));
                    }
                },
                Err(_) => {},
            }
            i = i + 1;
        }
        proof {
            assert(views.take(n as int) =~= views);
        }
        items
    }
}

} // verus!

verus! {

/// The watcher lists a service given as an object path under the sender's
/// name followed by the path; reading that listing back gives the sender as
/// the destination and the given path as the item's path. A service given as
/// a bus name is reached at the default path. (Unique bus names hold no `/`.)
pub proof fn law_listed_service_addresses_item(sender: Seq<char>, service: Seq<char>)
    requires
        !has_slash(sender),
    ensures
        service.len() > 0 && service[0] == '/' ==> item_address(qualified_service(sender, service))
            == (sender, service),
        !has_slash(service) ==> item_address(qualified_service(sender, service)) == (
            service,
            DEFAULT_ITEM_PATH@,
        ),
{
    if service.len() > 0 && service[0] == '/' {
        let q = sender + service;
        let n = sender.len() as int;
        assert(q[n] == '/');
        assert forall|j: int| 0 <= j < n implies q[j] != '/' by {
            assert(q[j] == sender[j]);
            if q[j] == '/' {
                assert(0 <= j < sender.len() && sender[j] == '/');
            }
        }
        lemma_first_slash(q, n);
        assert(q.take(n) =~= sender);
        assert(q.skip(n) =~= service);
    }
}

} // verus!

verus! {

/// The server keeps exactly the listed names whose item can be reached,
/// in the order they were listed, and gives for each the address read from
/// it: nothing reachable is dropped, nothing unreachable is kept.
pub proof fn law_items_are_the_reachable_names(names: Seq<Seq<char>>)
    ensures
        reachable_items(names) == names.filter(|n: Seq<char>| item_reachable(n)).map_values(
            |n: Seq<char>| item_address(n),
        ),
    decreases names.len(),
{
    reveal(Seq::filter);
    let pred = |n: Seq<char>| item_reachable(n);
    let addr = |n: Seq<char>| item_address(n);
    if names.len() == 0 {
        assert(names.filter(pred) =~= Seq::<Seq<char>>::empty());
        assert(names.filter(pred).map_values(addr) =~= Seq::<(Seq<char>, Seq<char>)>::empty());
    } else {
        law_items_are_the_reachable_names(names.drop_last());
        let f = names.drop_last().filter(pred);
        if item_reachable(names.last()) {
            assert(names.filter(pred) == f.push(names.last()));
            assert(f.push(names.last()).map_values(addr) =~= f.map_values(addr).push(
                item_address(names.last()),
            ));
        } else {
            assert(names.filter(pred) == f);
        }
    }
}

} // verus!
