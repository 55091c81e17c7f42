//! Name resolution: the result of a lookup, the protocol graph it carries,
//! and the resolvers that produce it.

use std::collections::HashMap;

use vstd::prelude::*;
use vstd::std_specs::iter::IteratorSpec;

use crate::endpoint::{ipv6_loopback, Endpoint, IpAddr, LOCATOR_PORT};

verus! {

/// Describes a protocol graph node.
#[derive(Debug)]
pub struct GraphNode {
    /// Event name.
    pub event: String,
    /// Optional downstream protocol description; `None` marks a leaf.
    pub rx: Option<HashMap<u64, GraphNode>>,
}

/// A copy of `node` and of every node below it.
fn clone_node(node: &GraphNode) -> (r: GraphNode)
    ensures
        r.event@ == node.event@,
        r.rx is None <==> node.rx is None,
    decreases node,
{
    let rx = match &node.rx {
        None => None,
        Some(map) => {
            broadcast use vstd::std_specs::hash::group_hash_axioms;
            broadcast use vstd::map::axiom_map_index_decreases_finite;

            let mut out: HashMap<u64, GraphNode> = HashMap::new();
            for kv in it: map.iter()
                invariant
                    it.seq() == vstd::std_specs::hash::spec_hash_map_iter(map).remaining(),
                    node.rx == Some(*map),
            {
                let (k, v) = kv;
                assert(kv == it.seq()[it.index()]);
                assert(map@.contains_key(*k) && map@[*k] == *v);
                assert(decreases_to!(*node => node.rx->Some_0));
                assert(decreases_to!(*map => map@));
                assert(decreases_to!(map@ => map@[*k]));
                assert(decreases_to!(*node => *v));
                out.insert(*k, clone_node(v));
            }
            Some(out)
        },
    };
    GraphNode { event: node.event.clone(), rx }
}

impl Clone for GraphNode {
    fn clone(&self) -> Self {
        clone_node(self)
    }
}

/// Describes the protocol graph of one method.
#[derive(Clone, Debug)]
pub struct EventGraph {
    /// Method name.
    pub name: String,
    /// Events that the caller may send.
    pub tx: HashMap<u64, GraphNode>,
    /// Events that the caller may receive.
    pub rx: HashMap<u64, GraphNode>,
}

/// Outcome of a name lookup: preferred-first endpoints, the version of the
/// configuration that produced them, and the protocol graph of each method.
#[derive(Clone, Debug)]
pub struct ResolveInfo<T> {
    pub(crate) addrs: Vec<T>,
    pub(crate) version: u64,
    pub(crate) methods: HashMap<u64, EventGraph>,
}

impl<T> ResolveInfo<T> {
    /// Endpoints, in order of preference.
    pub closed spec fn spec_addrs(&self) -> Seq<T> {
        self.addrs@
    }

    /// Version of the configuration.
    pub closed spec fn spec_version(&self) -> u64 {
        self.version
    }

    /// Protocol graph of each method, by method id.
    pub closed spec fn spec_methods(&self) -> Map<u64, EventGraph> {
        self.methods@
    }

    /// Builds a resolution result from its parts.
    pub fn new(addrs: Vec<T>, version: u64, methods: HashMap<u64, EventGraph>) -> (r: Self)
        ensures
            r.spec_addrs() == addrs@,
            r.spec_version() == version,
            r.spec_methods() == methods@,
    {
        ResolveInfo { addrs, version, methods }
    }

    /// Returns the endpoints of this result, in order of preference.
    pub fn addrs(&self) -> (r: &[T])
        ensures
            r@ == self.spec_addrs(),
    {
        self.addrs.as_slice()
    }

    /// Returns the version of the configuration that produced this result.
    pub fn version(&self) -> (r: u64)
        ensures
            r == self.spec_version(),
    {
        self.version
    }

    /// Takes the result apart into its endpoints, version and method graphs.
    pub fn into_parts(self) -> (r: (Vec<T>, u64, HashMap<u64, EventGraph>))
        ensures
            r.0@ == self.spec_addrs(),
            r.1 == self.spec_version(),
            r.2@ == self.spec_methods(),
    {
        (self.addrs, self.version, self.methods)
    }

    /// Returns the protocol graph of each method, by method id.
    pub fn methods(&self) -> (r: &HashMap<u64, EventGraph>)
        ensures
            r@ == self.spec_methods(),
    {
        &self.methods
    }
}

/// A resolver that needs no lookup: it always answers with the endpoints
/// that it was built with.
///
/// Used to reach the directory service itself, or wherever a service's
/// location is known in advance.
#[derive(Clone, Debug)]
pub struct FixedResolver {
    addrs: Vec<Endpoint>,
}

impl FixedResolver {
    /// Endpoints that every resolution answers with.
    pub closed spec fn spec_addrs(&self) -> Seq<Endpoint> {
        self.addrs@
    }

    /// Builds a resolver that resolves every name into `addrs`.
    pub fn new(addrs: Vec<Endpoint>) -> (r: Self)
        ensures
            r.spec_addrs() == addrs@,
    {
        FixedResolver { addrs }
    }

    /// Returns the endpoints given at construction.
    pub fn addrs(&self) -> (r: &[Endpoint])
        ensures
            r@ == self.spec_addrs(),
    {
        self.addrs.as_slice()
    }

    /// Resolves `name` at once: whatever the name, the result holds the
    /// preset endpoints, version 1 and no method descriptions.
    pub fn resolve(&mut self, name: &str) -> (r: ResolveInfo<Endpoint>)
        ensures
            *final(self) == *old(self),
            r.spec_addrs() == old(self).spec_addrs(),
            r.spec_version() == 1,
            r.spec_methods() == Map::<u64, EventGraph>::empty(),
    {
        let addrs = self.addrs.clone();
        assert(addrs@ =~= self.addrs@);
        ResolveInfo { addrs, version: 1, methods: HashMap::new() }
    }
}

impl Default for FixedResolver {
    /// The local directory service: the single endpoint `[::1]:10053`.
    fn default() -> (r: Self)
        ensures
            r.spec_addrs() == seq![Endpoint { ip: ipv6_loopback(), port: LOCATOR_PORT }],
    {
        let mut addrs: Vec<Endpoint> = Vec::new();
        addrs.push(Endpoint { ip: IpAddr::V6(0, 0, 0, 0, 0, 0, 0, 1), port: LOCATOR_PORT });
        FixedResolver { addrs }
    }
}

/// The directory lookup that a [`Resolver`] delegates to.
pub trait Locate: Sized {
    /// What a lookup hands back, ready or pending.
    type Lookup;

    /// A lookup of `name` in this state may end in state `after` with
    /// answer `r`. A lookup that states nothing of its answers keeps the
    /// default, which allows any.
    open spec fn answers(&self, name: Seq<char>, after: Self, r: Self::Lookup) -> bool {
        true
    }

    /// Looks up where the service called `name` is.
    fn resolve(&mut self, name: &str) -> (r: Self::Lookup)
        ensures
            old(self).answers(name@, *final(self), r),
    ;
}

/// A resolver that asks a directory service for every name.
#[derive(Debug)]
pub struct Resolver<L> {
    locator: L,
}

impl<L: Locate> Resolver<L> {
    /// The directory lookup this resolver delegates to.
    pub closed spec fn locator(&self) -> L {
        self.locator
    }

    /// Builds a resolver that asks `locator` for every name.
    pub fn new(locator: L) -> (r: Self)
        ensures
            r.locator() == locator,
    {
        Resolver { locator }
    }

    /// Hands `name` to the directory lookup and returns what it answers,
    /// unchanged; no retry and no caching happen here.
    pub fn resolve(&mut self, name: &str) -> (r: L::Lookup)
        ensures
            old(self).locator().answers(name@, final(self).locator(), r),
    {
        self.locator.resolve(name)
    }
}

} // verus!
