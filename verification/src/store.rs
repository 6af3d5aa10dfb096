//! In-memory stores for circuit defaults and node aliases, and their
//! managers.
//!
//! A defaults store maps keys such as the default service type to string
//! values; a node store maps an alias to a node's endpoint. The managers
//! add the overwrite and not-found policies on top. Each store here is the
//! in-memory state; the surrounding program loads it from and saves it to
//! whatever medium it keeps it on.

use vstd::prelude::*;
use vstd::string::*;

use crate::text::str_eq;

verus! {

/// A stored default: a key and its value.
#[derive(Debug)]
pub struct DefaultValue {
    key: String,
    value: String,
}

impl View for DefaultValue {
    type V = (Seq<char>, Seq<char>);

    closed spec fn view(&self) -> (Seq<char>, Seq<char>) {
        (self.key@, self.value@)
    }
}

impl DeepView for DefaultValue {
    type V = (Seq<char>, Seq<char>);

    open spec fn deep_view(&self) -> (Seq<char>, Seq<char>) {
        self.view()
    }
}

impl DefaultValue {
    /// A default with the given key and value.
    pub fn new(key: &str, value: &str) -> (r: DefaultValue)
        ensures
            r@ == (key@, value@),
    {
        DefaultValue { key: String::from_str(key), value: String::from_str(value) }
    }

    /// The default's key.
    pub fn key(&self) -> (r: String)
        ensures
            r@ == self@.0,
    {
        self.key.clone()
    }

    /// The default's value.
    pub fn value(&self) -> (r: String)
        ensures
            r@ == self@.1,
    {
        self.value.clone()
    }
}

/// A known node: its alias and its endpoint.
#[derive(Debug)]
pub struct Node {
    alias: String,
    endpoint: String,
}

impl View for Node {
    type V = (Seq<char>, Seq<char>);

    closed spec fn view(&self) -> (Seq<char>, Seq<char>) {
        (self.alias@, self.endpoint@)
    }
}

impl DeepView for Node {
    type V = (Seq<char>, Seq<char>);

    open spec fn deep_view(&self) -> (Seq<char>, Seq<char>) {
        self.view()
    }
}

impl Node {
    /// A node with the given alias and endpoint.
    pub fn new(alias: &str, endpoint: &str) -> (r: Node)
        ensures
            r@ == (alias@, endpoint@),
    {
        Node { alias: String::from_str(alias), endpoint: String::from_str(endpoint) }
    }

    /// The node's alias.
    pub fn alias(&self) -> (r: String)
        ensures
            r@ == self@.0,
    {
        self.alias.clone()
    }

    /// The node's endpoint.
    pub fn endpoint(&self) -> (r: String)
        ensures
            r@ == self@.1,
    {
        self.endpoint.clone()
    }
}

/// Why a defaults-store operation failed.
#[derive(Debug)]
pub enum DefaultStoreError {
    /// No default is stored under the key.
    NotSet(String),
}

/// Why a defaults-manager operation failed.
#[derive(Debug)]
pub enum DefaultValueManagerError {
    /// The store reported a failure.
    StoreError(DefaultStoreError),
    /// No default is stored under the key.
    NotSet(String),
    /// A default is already stored under the key and overwriting was not
    /// asked for.
    AlreadySet(String),
}

/// Why a node-store operation failed.
#[derive(Debug)]
pub enum NodeStoreError {
    /// No node is stored under the alias.
    NotFound(String),
}

/// Why a node-manager operation failed.
#[derive(Debug)]
pub enum NodeManagerError {
    /// The store reported a failure.
    StoreError(NodeStoreError),
    /// A node is already stored under the alias and overwriting was not
    /// asked for.
    DuplicatedValue(String),
    /// The endpoint does not parse as a URL.
    InvalidEndpoint(String),
}

/// The value stored under `key`: the first entry with that key.
pub open spec fn spec_entry_get(entries: Seq<(Seq<char>, Seq<char>)>, key: Seq<char>) -> Option<
    Seq<char>,
>
    decreases entries.len(),
{
    if entries.len() == 0 {
        None
    } else if entries[0].0 == key {
        Some(entries[0].1)
    } else {
        spec_entry_get(entries.drop_first(), key)
    }
}

/// The entries without the first one under `key`; unchanged when the key is
/// absent.
pub open spec fn spec_entry_remove(entries: Seq<(Seq<char>, Seq<char>)>, key: Seq<char>) -> Seq<
    (Seq<char>, Seq<char>),
>
    decreases entries.len(),
{
    if entries.len() == 0 {
        entries
    } else if entries[0].0 == key {
        entries.drop_first()
    } else {
        seq![entries[0]] + spec_entry_remove(entries.drop_first(), key)
    }
}

/// A store update: the first entry under `key` leaves and the new pair is
/// appended at the end.
pub open spec fn spec_entry_set(
    entries: Seq<(Seq<char>, Seq<char>)>,
    key: Seq<char>,
    value: Seq<char>,
) -> Seq<(Seq<char>, Seq<char>)> {
    spec_entry_remove(entries, key).push((key, value))
}

proof fn lemma_entry_get_skip(entries: Seq<(Seq<char>, Seq<char>)>, key: Seq<char>, i: int)
    requires
        0 <= i <= entries.len(),
        forall|j: int| 0 <= j < i ==> (#[trigger] entries[j]).0 != key,
    ensures
        spec_entry_get(entries, key) == spec_entry_get(entries.skip(i), key),
        spec_entry_remove(entries, key) == entries.take(i) + spec_entry_remove(
            entries.skip(i),
            key,
        ),
    decreases i,
{
    if i > 0 {
        let t = entries.drop_first();
        assert(forall|j: int| 0 <= j < i - 1 ==> #[trigger] t[j] == entries[j + 1]);
        lemma_entry_get_skip(t, key, i - 1);
        assert(t.skip(i - 1) =~= entries.skip(i));
        assert(entries.skip(0) =~= entries);
        assert(entries.take(i) =~= seq![entries[0]] + t.take(i - 1));
        assert(seq![entries[0]] + (t.take(i - 1) + spec_entry_remove(t.skip(i - 1), key)) =~= (
        seq![entries[0]] + t.take(i - 1)) + spec_entry_remove(entries.skip(i), key));
    } else {
        assert(entries.skip(0) =~= entries);
        assert(entries.take(0) + spec_entry_remove(entries, key) =~= spec_entry_remove(
            entries,
            key,
        ));
    }
}

/// The index of the first entry under `key` in a sequence of pairs of
/// strings, or none. Shared by both stores.
fn find_pair_index<T: PairKey>(entries: &Vec<T>, key: &str) -> (r: Option<usize>)
    ensures
        match r {
            Some(i) => 0 <= i < entries.deep_view().len() && entries.deep_view()[i as int].0
                == key@ && (forall|j: int|
                0 <= j < i ==> (#[trigger] entries.deep_view()[j]).0 != key@),
            None => forall|j: int|
                0 <= j < entries.deep_view().len() ==> (#[trigger] entries.deep_view()[j]).0
                    != key@,
        },
{
    let mut i: usize = 0;
    while i < entries.len()
        invariant
            i <= entries.len(),
            entries.deep_view().len() == entries.len(),
            forall|j: int| 0 <= j < i ==> (#[trigger] entries.deep_view()[j]).0 != key@,
        decreases entries.len() - i,
    {
        proof {
            assert(entries.deep_view()[i as int] == entries@[i as int].deep_view());
        }
        if str_eq(entries[i].key_str(), key) {
            return Some(i);
        }
        i += 1;
    }
    None
}

/// A stored pair whose first component is its key.
pub trait PairKey: Sized + DeepView<V = (Seq<char>, Seq<char>)> {
    /// The key, as a string slice.
    fn key_str(&self) -> (r: &str)
        ensures
            r@ == self.deep_view().0,
    ;
}

impl PairKey for DefaultValue {
    fn key_str(&self) -> (r: &str)
        ensures
            r@ == self.deep_view().0,
    {
        self.key.as_str()
    }
}

impl PairKey for Node {
    fn key_str(&self) -> (r: &str)
        ensures
            r@ == self.deep_view().0,
    {
        self.alias.as_str()
    }
}

/// Manages the stored defaults: the default service type and the default
/// circuit management type, under their fixed keys.
#[derive(Debug)]
pub struct DefaultValueManager {
    defaults: Vec<DefaultValue>,
}

impl View for DefaultValueManager {
    type V = Seq<(Seq<char>, Seq<char>)>;

    closed spec fn view(&self) -> Seq<(Seq<char>, Seq<char>)> {
        self.defaults.deep_view()
    }
}

impl DefaultValueManager {
    /// A manager over the given stored defaults.
    pub fn new(defaults: Vec<DefaultValue>) -> (r: DefaultValueManager)
        ensures
            r@ == defaults.deep_view(),
    {
        DefaultValueManager { defaults }
    }

    /// Stores `value` under `key`. Refuses to replace an existing default
    /// unless `overwrite` is set.
    fn set_default(&mut self, key: &str, value: &str, overwrite: bool) -> (r: Result<
        (),
        DefaultValueManagerError,
    >)
        ensures
            r is Ok <==> (overwrite || spec_entry_get(old(self)@, key@) is None),
            r is Ok ==> final(self)@ == spec_entry_set(old(self)@, key@, value@),
            r is Err ==> final(self)@ == old(self)@,
            r matches Err(e) ==> e is AlreadySet,
    {
        let ghost pre = self@;
        let at = find_pair_index(&self.defaults, key);
        proof {
            match at {
                Some(i) => {
                    lemma_entry_get_skip(pre, key@, i as int);
                    assert(pre.skip(i as int)[0] == pre[i as int]);
                },
                None => {
                    lemma_entry_get_skip(pre, key@, pre.len() as int);
                    assert(pre.skip(pre.len() as int) =~= Seq::<(Seq<char>, Seq<char>)>::empty());
                    assert(pre.take(pre.len() as int) =~= pre);
                },
            }
        }
        match at {
            Some(i) => {
                if !overwrite {
                    return Err(DefaultValueManagerError::AlreadySet(String::from_str(key)));
                }
                let ghost prevraw = self.defaults@;
                self.defaults.remove(i);
                proof {
                    assert(self.defaults.deep_view() =~= pre.take(i as int) + pre.skip(
                        i as int + 1,
                    )) by {
                        assert(self.defaults@ =~= prevraw.remove(i as int));
                        assert forall|j: int| 0 <= j < self.defaults@.len() implies
                            #[trigger] self.defaults.deep_view()[j] == (pre.take(i as int)
                            + pre.skip(i as int + 1))[j] by {
                            assert(self.defaults.deep_view()[j] == self.defaults@[j].deep_view());
                            if j < i {
                                assert(self.defaults@[j] == prevraw[j]);
                            } else {
                                assert(self.defaults@[j] == prevraw[j + 1]);
                            }
                        }
                    }
                    assert(pre.skip(i as int).drop_first() =~= pre.skip(i as int + 1));
                }
            },
            None => {},
        }
        let ghost removed = self.defaults.deep_view();
        proof {
            assert(removed == spec_entry_remove(pre, key@));
        }
        let ghost prevraw = self.defaults@;
        self.defaults.push(DefaultValue::new(key, value));
        proof {
            assert(self.defaults.deep_view() =~= removed.push((key@, value@))) by {
                assert forall|j: int| 0 <= j < self.defaults@.len() implies
                    #[trigger] self.defaults.deep_view()[j] == removed.push((key@, value@))[j] by {
                    assert(self.defaults.deep_view()[j] == self.defaults@[j].deep_view());
                    if j < prevraw.len() {
                        assert(self.defaults@[j] == prevraw[j]);
                    }
                }
            }
        }
        Ok(())
    }

    /// Removes the default under `key`; an absent key is the store's
    /// not-set failure.
    fn unset_default(&mut self, key: &str) -> (r: Result<(), DefaultValueManagerError>)
        ensures
            r is Ok <==> spec_entry_get(old(self)@, key@) is Some,
            r is Ok ==> final(self)@ == spec_entry_remove(old(self)@, key@),
            r is Err ==> final(self)@ == old(self)@,
            r matches Err(e) ==> (e matches DefaultValueManagerError::StoreError(inner)
                && inner is NotSet),
    {
        let ghost pre = self@;
        let at = find_pair_index(&self.defaults, key);
        proof {
            match at {
                Some(i) => {
                    lemma_entry_get_skip(pre, key@, i as int);
                    assert(pre.skip(i as int)[0] == pre[i as int]);
                },
                None => {
                    lemma_entry_get_skip(pre, key@, pre.len() as int);
                    assert(pre.skip(pre.len() as int) =~= Seq::<(Seq<char>, Seq<char>)>::empty());
                    assert(pre.take(pre.len() as int) =~= pre);
                },
            }
        }
        match at {
            Some(i) => {
                let ghost prevraw = self.defaults@;
                self.defaults.remove(i);
                proof {
                    assert(self.defaults.deep_view() =~= pre.take(i as int) + pre.skip(
                        i as int + 1,
                    )) by {
                        assert(self.defaults@ =~= prevraw.remove(i as int));
                        assert forall|j: int| 0 <= j < self.defaults@.len() implies
                            #[trigger] self.defaults.deep_view()[j] == (pre.take(i as int)
                            + pre.skip(i as int + 1))[j] by {
                            assert(self.defaults.deep_view()[j] == self.defaults@[j].deep_view());
                            if j < i {
                                assert(self.defaults@[j] == prevraw[j]);
                            } else {
                                assert(self.defaults@[j] == prevraw[j + 1]);
                            }
                        }
                    }
                    assert(pre.skip(i as int).drop_first() =~= pre.skip(i as int + 1));
                }
                Ok(())
            },
            None => Err(
                DefaultValueManagerError::StoreError(
                    DefaultStoreError::NotSet(String::from_str(key)),
                ),
            ),
        }
    }

    /// The default under `key`; an absent key is the manager's not-set
    /// failure.
    fn get_default(&self, key: &str) -> (r: Result<DefaultValue, DefaultValueManagerError>)
        ensures
            r is Ok <==> spec_entry_get(self@, key@) is Some,
            r matches Ok(d) ==> Some(d@.1) == spec_entry_get(self@, key@) && d@.0 == key@,
            r matches Err(e) ==> e is NotSet,
    {
        let ghost pre = self@;
        let at = find_pair_index(&self.defaults, key);
        proof {
            match at {
                Some(i) => {
                    lemma_entry_get_skip(pre, key@, i as int);
                    assert(pre.skip(i as int)[0] == pre[i as int]);
                },
                None => {
                    lemma_entry_get_skip(pre, key@, pre.len() as int);
                    assert(pre.skip(pre.len() as int) =~= Seq::<(Seq<char>, Seq<char>)>::empty());
                },
            }
        }
        match at {
            Some(i) => {
                proof {
                    assert(pre[i as int] == self.defaults@[i as int].deep_view());
                }
                Ok(DefaultValue::new(key, self.defaults[i].value.as_str()))
            },
            None => Err(DefaultValueManagerError::NotSet(String::from_str(key))),
        }
    }

    /// Stores the default service type.
    pub fn set_default_service_type(&mut self, value: &str, overwrite: bool) -> (r: Result<
        (),
        DefaultValueManagerError,
    >)
        ensures
            r is Ok <==> (overwrite || spec_entry_get(old(self)@, "service_type"@) is None),
            r is Ok ==> final(self)@ == spec_entry_set(old(self)@, "service_type"@, value@),
            r is Err ==> final(self)@ == old(self)@,
            r matches Err(e) ==> e is AlreadySet,
    {
        self.set_default("service_type", value, overwrite)
    }

    /// Removes the default service type.
    pub fn unset_default_service_type(&mut self) -> (r: Result<(), DefaultValueManagerError>)
        ensures
            r is Ok <==> spec_entry_get(old(self)@, "service_type"@) is Some,
            r is Ok ==> final(self)@ == spec_entry_remove(old(self)@, "service_type"@),
            r is Err ==> final(self)@ == old(self)@,
    {
        self.unset_default("service_type")
    }

    /// The default service type.
    pub fn get_default_service_type(&self) -> (r: Result<
        DefaultValue,
        DefaultValueManagerError,
    >)
        ensures
            r is Ok <==> spec_entry_get(self@, "service_type"@) is Some,
            r matches Ok(d) ==> Some(d@.1) == spec_entry_get(self@, "service_type"@),
    {
        self.get_default("service_type")
    }

    /// Stores the default circuit management type.
    pub fn set_default_management_type(&mut self, value: &str, overwrite: bool) -> (r: Result<
        (),
        DefaultValueManagerError,
    >)
        ensures
            r is Ok <==> (overwrite || spec_entry_get(old(self)@, "management_type"@) is None),
            r is Ok ==> final(self)@ == spec_entry_set(old(self)@, "management_type"@, value@),
            r is Err ==> final(self)@ == old(self)@,
            r matches Err(e) ==> e is AlreadySet,
    {
        self.set_default("management_type", value, overwrite)
    }

    /// Removes the default circuit management type.
    pub fn unset_default_management_type(&mut self) -> (r: Result<(), DefaultValueManagerError>)
        ensures
            r is Ok <==> spec_entry_get(old(self)@, "management_type"@) is Some,
            r is Ok ==> final(self)@ == spec_entry_remove(old(self)@, "management_type"@),
            r is Err ==> final(self)@ == old(self)@,
    {
        self.unset_default("management_type")
    }

    /// The default circuit management type.
    pub fn get_default_management_type(&self) -> (r: Result<
        DefaultValue,
        DefaultValueManagerError,
    >)
        ensures
            r is Ok <==> spec_entry_get(self@, "management_type"@) is Some,
            r matches Ok(d) ==> Some(d@.1) == spec_entry_get(self@, "management_type"@),
    {
        self.get_default("management_type")
    }

    /// Every stored default, in store order.
    pub fn list_defaults(&self) -> (r: Result<Vec<DefaultValue>, DefaultValueManagerError>)
        ensures
            r matches Ok(v) ==> v.deep_view() == self@,
            r is Ok,
    {
        let mut r: Vec<DefaultValue> = Vec::new();
        let mut i: usize = 0;
        while i < self.defaults.len()
            invariant
                i <= self.defaults.len(),
                self@ == self.defaults.deep_view(),
                self@.len() == self.defaults.len(),
                r.deep_view().len() == i,
                forall|j: int| 0 <= j < i ==> #[trigger] r.deep_view()[j] == self@[j],
            decreases self.defaults.len() - i,
        {
            let ghost prevv = r@;
            let ghost prevd = r.deep_view();
            proof {
                assert(self@[i as int] == self.defaults@[i as int].deep_view());
            }
            r.push(DefaultValue::new(self.defaults[i].key.as_str(), self.defaults[i].value.as_str()));
            proof {
                assert forall|j: int| 0 <= j < i + 1 implies #[trigger] r.deep_view()[j]
                    == self@[j] by {
                    assert(r.deep_view()[j] == r@[j]@);
                    if j < i {
                        assert(r@[j] == prevv[j]);
                        assert(prevd[j] == prevv[j]@);
                    }
                }
            }
            i += 1;
        }
        proof {
            assert(r.deep_view() =~= self@);
        }
        Ok(r)
    }
}

/// What the URL parser accepts of a string. A name only: the grammar
/// belongs to the outside parser, and the same text always parses the same
/// way.
pub uninterp spec fn url_parses(s: Seq<char>) -> bool;

/// Relies on `url::Url::parse`: whether `endpoint` parses as a URL.
#[verifier::external_body]
fn is_valid_endpoint(endpoint: &str) -> (r: bool)
    ensures
        r == url_parses(endpoint@),
{
    url::Url::parse(endpoint).is_ok()
}

/// Manages the known node aliases.
#[derive(Debug)]
pub struct NodeManager {
    nodes: Vec<Node>,
}

impl View for NodeManager {
    type V = Seq<(Seq<char>, Seq<char>)>;

    closed spec fn view(&self) -> Seq<(Seq<char>, Seq<char>)> {
        self.nodes.deep_view()
    }
}

impl NodeManager {
    /// A manager over the given known nodes.
    pub fn new(nodes: Vec<Node>) -> (r: NodeManager)
        ensures
            r@ == nodes.deep_view(),
    {
        NodeManager { nodes }
    }

    /// The node under `alias`, when one is known.
    pub fn get_node(&self, alias: &str) -> (r: Result<Option<Node>, NodeManagerError>)
        ensures
            r is Ok,
            r matches Ok(o) ==> (match o {
                Some(n) => Some(n@.1) == spec_entry_get(self@, alias@) && n@.0 == alias@,
                None => spec_entry_get(self@, alias@) is None,
            }),
    {
        let ghost pre = self@;
        let at = find_pair_index(&self.nodes, alias);
        proof {
            match at {
                Some(i) => {
                    lemma_entry_get_skip(pre, alias@, i as int);
                    assert(pre.skip(i as int)[0] == pre[i as int]);
                },
                None => {
                    lemma_entry_get_skip(pre, alias@, pre.len() as int);
                    assert(pre.skip(pre.len() as int) =~= Seq::<(Seq<char>, Seq<char>)>::empty());
                },
            }
        }
        match at {
            Some(i) => {
                proof {
                    assert(pre[i as int] == self.nodes@[i as int].deep_view());
                }
                Ok(Some(Node::new(alias, self.nodes[i].endpoint.as_str())))
            },
            None => Ok(None),
        }
    }

    /// Every known node, in store order.
    pub fn list_nodes(&self) -> (r: Result<Vec<Node>, NodeManagerError>)
        ensures
            r matches Ok(v) ==> v.deep_view() == self@,
            r is Ok,
    {
        let mut r: Vec<Node> = Vec::new();
        let mut i: usize = 0;
        while i < self.nodes.len()
            invariant
                i <= self.nodes.len(),
                self@ == self.nodes.deep_view(),
                self@.len() == self.nodes.len(),
                r.deep_view().len() == i,
                forall|j: int| 0 <= j < i ==> #[trigger] r.deep_view()[j] == self@[j],
            decreases self.nodes.len() - i,
        {
            let ghost prevv = r@;
            let ghost prevd = r.deep_view();
            proof {
                assert(self@[i as int] == self.nodes@[i as int].deep_view());
            }
            r.push(Node::new(self.nodes[i].alias.as_str(), self.nodes[i].endpoint.as_str()));
            proof {
                assert forall|j: int| 0 <= j < i + 1 implies #[trigger] r.deep_view()[j]
                    == self@[j] by {
                    assert(r.deep_view()[j] == r@[j]@);
                    if j < i {
                        assert(r@[j] == prevv[j]);
                        assert(prevd[j] == prevv[j]@);
                    }
                }
            }
            i += 1;
        }
        proof {
            assert(r.deep_view() =~= self@);
        }
        Ok(r)
    }

    /// Stores `node` under its alias. The endpoint must parse as a URL, and
    /// an existing alias is only replaced when `overwrite` is set.
    pub fn add_node(&mut self, node: &Node, overwrite: bool) -> (r: Result<(), NodeManagerError>)
        ensures
            r is Ok <==> (url_parses(node@.1) && (overwrite || spec_entry_get(
                old(self)@,
                node@.0,
            ) is None)),
            r is Ok ==> final(self)@ == spec_entry_set(old(self)@, node@.0, node@.1),
            r is Err ==> final(self)@ == old(self)@,
            r matches Err(e) ==> (e is InvalidEndpoint <==> !url_parses(node@.1)),
    {
        let ghost pre = self@;
        if !is_valid_endpoint(node.endpoint.as_str()) {
            return Err(NodeManagerError::InvalidEndpoint(node.endpoint.clone()));
        }
        let at = find_pair_index(&self.nodes, node.alias.as_str());
        proof {
            match at {
                Some(i) => {
                    lemma_entry_get_skip(pre, node@.0, i as int);
                    assert(pre.skip(i as int)[0] == pre[i as int]);
                },
                None => {
                    lemma_entry_get_skip(pre, node@.0, pre.len() as int);
                    assert(pre.skip(pre.len() as int) =~= Seq::<(Seq<char>, Seq<char>)>::empty());
                    assert(pre.take(pre.len() as int) =~= pre);
                },
            }
        }
        match at {
            Some(i) => {
                if !overwrite {
                    return Err(NodeManagerError::DuplicatedValue(node.alias.clone()));
                }
                let ghost prevraw = self.nodes@;
                self.nodes.remove(i);
                proof {
                    assert(self.nodes.deep_view() =~= pre.take(i as int) + pre.skip(
                        i as int + 1,
                    )) by {
                        assert(self.nodes@ =~= prevraw.remove(i as int));
                        assert forall|j: int| 0 <= j < self.nodes@.len() implies
                            #[trigger] self.nodes.deep_view()[j] == (pre.take(i as int) + pre.skip(
                            i as int + 1,
                        ))[j] by {
                            assert(self.nodes.deep_view()[j] == self.nodes@[j].deep_view());
                            if j < i {
                                assert(self.nodes@[j] == prevraw[j]);
                            } else {
                                assert(self.nodes@[j] == prevraw[j + 1]);
                            }
                        }
                    }
                    assert(pre.skip(i as int).drop_first() =~= pre.skip(i as int + 1));
                }
            },
            None => {},
        }
        let ghost removed = self.nodes.deep_view();
        proof {
            assert(removed == spec_entry_remove(pre, node@.0));
        }
        let ghost prevraw = self.nodes@;
        self.nodes.push(Node::new(node.alias.as_str(), node.endpoint.as_str()));
        proof {
            assert(self.nodes.deep_view() =~= removed.push((node@.0, node@.1))) by {
                assert forall|j: int| 0 <= j < self.nodes@.len() implies
                    #[trigger] self.nodes.deep_view()[j] == removed.push((node@.0, node@.1))[j] by {
                    assert(self.nodes.deep_view()[j] == self.nodes@[j].deep_view());
                    if j < prevraw.len() {
                        assert(self.nodes@[j] == prevraw[j]);
                    }
                }
            }
        }
        Ok(())
    }

    /// Forgets the node under `alias`; an unknown alias is the store's
    /// not-found failure.
    pub fn delete_node(&mut self, alias: &str) -> (r: Result<(), NodeManagerError>)
        ensures
            r is Ok <==> spec_entry_get(old(self)@, alias@) is Some,
            r is Ok ==> final(self)@ == spec_entry_remove(old(self)@, alias@),
            r is Err ==> final(self)@ == old(self)@,
            r matches Err(e) ==> (e matches NodeManagerError::StoreError(inner)
                && inner is NotFound),
    {
        let ghost pre = self@;
        let at = find_pair_index(&self.nodes, alias);
        proof {
            match at {
                Some(i) => {
                    lemma_entry_get_skip(pre, alias@, i as int);
                    assert(pre.skip(i as int)[0] == pre[i as int]);
                },
                None => {
                    lemma_entry_get_skip(pre, alias@, pre.len() as int);
                    assert(pre.skip(pre.len() as int) =~= Seq::<(Seq<char>, Seq<char>)>::empty());
                    assert(pre.take(pre.len() as int) =~= pre);
                },
            }
        }
        match at {
            Some(i) => {
                let ghost prevraw = self.nodes@;
                self.nodes.remove(i);
                proof {
                    assert(self.nodes.deep_view() =~= pre.take(i as int) + pre.skip(
                        i as int + 1,
                    )) by {
                        assert(self.nodes@ =~= prevraw.remove(i as int));
                        assert forall|j: int| 0 <= j < self.nodes@.len() implies
                            #[trigger] self.nodes.deep_view()[j] == (pre.take(i as int) + pre.skip(
                            i as int + 1,
                        ))[j] by {
                            assert(self.nodes.deep_view()[j] == self.nodes@[j].deep_view());
                            if j < i {
                                assert(self.nodes@[j] == prevraw[j]);
                            } else {
                                assert(self.nodes@[j] == prevraw[j + 1]);
                            }
                        }
                    }
                    assert(pre.skip(i as int).drop_first() =~= pre.skip(i as int + 1));
                }
                Ok(())
            },
            None => Err(
                NodeManagerError::StoreError(NodeStoreError::NotFound(String::from_str(alias))),
            ),
        }
    }
}

} // verus!
