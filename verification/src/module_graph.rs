//! The module graph of a compilation: the modules that have been added, and
//! the connections that resolve dependencies to modules.

use std::collections::HashMap;
use std::collections::HashSet;
use vstd::prelude::*;

use crate::error::Error;
use crate::ids::DependencyId;
use crate::ids::ExportsInfoId;
use crate::ids::ModuleIdentifier;

verus! {

broadcast use vstd::std_specs::hash::group_hash_axioms;

/// How a module's source is interpreted.
#[derive(Clone, Copy, Debug, PartialEq, Eq, Structural)]
pub enum ModuleType {
    Json,
    Css,
    CssModule,
    CssAuto,
    Js,
    JsDynamic,
    JsEsm,
    Jsx,
    Tsx,
    Ts,
    Wasm,
    Asset,
    AssetInline,
    AssetResource,
    AssetSource,
    Runtime,
    Remote,
    Fallback,
    ProvideShared,
    ConsumeShared,
}

/// A connection: `dependency_id`, found in `original_module_identifier`
/// (none for an entry), resolves to `module_identifier`.
#[derive(Clone, Copy, Debug, PartialEq, Eq, Structural)]
pub struct ModuleGraphConnection {
    pub original_module_identifier: Option<ModuleIdentifier>,
    pub dependency_id: DependencyId,
    pub module_identifier: ModuleIdentifier,
}

/// What the module graph records of one module.
#[derive(Debug)]
pub struct ModuleGraphModule {
    pub module_identifier: ModuleIdentifier,
    pub module_type: ModuleType,
    pub exports: ExportsInfoId,
    /// The dependencies that the module's source declares.
    pub dependencies: Vec<DependencyId>,
    /// The dependencies that resolve to this module.
    pub incoming_connections: HashSet<DependencyId>,
    /// The dependencies of this module that have been resolved, in the order
    /// in which they were resolved.
    pub outgoing_connections: Vec<DependencyId>,
}

/// The mathematical value of a [`ModuleGraphModule`].
pub struct ModuleGraphModuleView {
    pub module_identifier: ModuleIdentifier,
    pub module_type: ModuleType,
    pub exports: ExportsInfoId,
    pub dependencies: Seq<DependencyId>,
    pub incoming_connections: Set<DependencyId>,
    pub outgoing_connections: Seq<DependencyId>,
}

impl View for ModuleGraphModule {
    type V = ModuleGraphModuleView;

    open spec fn view(&self) -> ModuleGraphModuleView {
        ModuleGraphModuleView {
            module_identifier: self.module_identifier,
            module_type: self.module_type,
            exports: self.exports,
            dependencies: self.dependencies@,
            incoming_connections: self.incoming_connections@,
            outgoing_connections: self.outgoing_connections@,
        }
    }
}

impl ModuleGraphModule {
    /// A module with no dependencies and no connections yet.
    pub fn new(
        module_identifier: ModuleIdentifier,
        module_type: ModuleType,
        exports: ExportsInfoId,
    ) -> (mgm: Self)
        ensures
            mgm@ == (ModuleGraphModuleView {
                module_identifier,
                module_type,
                exports,
                dependencies: Seq::empty(),
                incoming_connections: Set::empty(),
                outgoing_connections: Seq::empty(),
            }),
    {
        ModuleGraphModule {
            module_identifier,
            module_type,
            exports,
            dependencies: Vec::new(),
            incoming_connections: HashSet::new(),
            outgoing_connections: Vec::new(),
        }
    }
}

/// The mathematical value of a [`ModuleGraph`]: the modules by identifier
/// and the connections by dependency.
pub struct ModuleGraphView {
    pub modules: Map<ModuleIdentifier, ModuleGraphModuleView>,
    pub connections: Map<DependencyId, ModuleGraphConnection>,
}

impl ModuleGraphView {
    /// The graph after `mgm` is added; a module that is already there stays
    /// as it is.
    pub open spec fn with_module(self, mgm: ModuleGraphModuleView) -> ModuleGraphView {
        if self.modules.contains_key(mgm.module_identifier) {
            self
        } else {
            ModuleGraphView {
                modules: self.modules.insert(mgm.module_identifier, mgm),
                connections: self.connections,
            }
        }
    }

    /// The graph after `dependency_id`, found in `original`, is resolved to
    /// `module`, which must be in the graph: the connection replaces any
    /// earlier one of the dependency, `module` records it as incoming, and
    /// `original`, where it is in the graph, records it as outgoing.
    pub open spec fn with_resolved_module(
        self,
        original: Option<ModuleIdentifier>,
        dependency_id: DependencyId,
        module: ModuleIdentifier,
    ) -> ModuleGraphView
        recommends
            self.modules.contains_key(module),
    {
        let target = self.modules[module];
        let modules1 = self.modules.insert(
            module,
            ModuleGraphModuleView {
                incoming_connections: target.incoming_connections.insert(dependency_id),
                ..target
            },
        );
        let modules2 = match original {
            Some(o) => if modules1.contains_key(o) {
                modules1.insert(
                    o,
                    ModuleGraphModuleView {
                        outgoing_connections: modules1[o].outgoing_connections.push(dependency_id),
                        ..modules1[o]
                    },
                )
            } else {
                modules1
            },
            None => modules1,
        };
        ModuleGraphView {
            modules: modules2,
            connections: self.connections.insert(
                dependency_id,
                ModuleGraphConnection {
                    original_module_identifier: original,
                    dependency_id,
                    module_identifier: module,
                },
            ),
        }
    }

    /// The graph after each of `dependencies` is resolved, in order, to
    /// `module`.
    pub open spec fn with_resolved_modules(
        self,
        original: Option<ModuleIdentifier>,
        dependencies: Seq<DependencyId>,
        module: ModuleIdentifier,
    ) -> ModuleGraphView
        decreases dependencies.len(),
    {
        if dependencies.len() == 0 {
            self
        } else {
            self.with_resolved_modules(original, dependencies.drop_last(), module).with_resolved_module(
                original,
                dependencies.last(),
                module,
            )
        }
    }

    /// The modules that `dependencies` resolve to, in order, skipping those
    /// that resolve to nothing.
    pub open spec fn resolved_modules(self, dependencies: Seq<DependencyId>) -> Seq<ModuleIdentifier>
        decreases dependencies.len(),
    {
        if dependencies.len() == 0 {
            Seq::empty()
        } else {
            let rest = self.resolved_modules(dependencies.drop_last());
            if self.connections.contains_key(dependencies.last()) {
                rest.push(self.connections[dependencies.last()].module_identifier)
            } else {
                rest
            }
        }
    }

    /// The graph after the connection of `dependency_id` is removed, together
    /// with its record in the module it resolved to.
    pub open spec fn without_connection(self, dependency_id: DependencyId) -> ModuleGraphView {
        if self.connections.contains_key(dependency_id) {
            let t = self.connections[dependency_id].module_identifier;
            let modules = if self.modules.contains_key(t) {
                self.modules.insert(
                    t,
                    ModuleGraphModuleView {
                        incoming_connections: self.modules[t].incoming_connections.remove(
                            dependency_id,
                        ),
                        ..self.modules[t]
                    },
                )
            } else {
                self.modules
            };
            ModuleGraphView { modules, connections: self.connections.remove(dependency_id) }
        } else {
            self
        }
    }

    /// The graph after the connections of `dependencies` are removed in order.
    pub open spec fn without_connections(self, dependencies: Seq<DependencyId>) -> ModuleGraphView
        decreases dependencies.len(),
    {
        if dependencies.len() == 0 {
            self
        } else {
            self.without_connections(dependencies.drop_last()).without_connection(
                dependencies.last(),
            )
        }
    }

    /// Whether the connections and the modules' records of incoming
    /// connections agree: each connection leads to a module in the graph
    /// that records it as incoming, and each record of an incoming
    /// dependency has its connection to that module.
    pub open spec fn is_consistent(self) -> bool {
        &&& forall|d: DependencyId|
            #[trigger] self.connections.contains_key(d) ==> self.modules.contains_key(
                self.connections[d].module_identifier,
            ) && self.modules[self.connections[d].module_identifier].incoming_connections.contains(
                d,
            )
        &&& forall|m: ModuleIdentifier, d: DependencyId|
            self.modules.contains_key(m)
                && #[trigger] self.modules[m].incoming_connections.contains(d)
                ==> self.connections.contains_key(d) && self.connections[d].module_identifier == m
    }

    /// Whether `dependency_id` has no connection yet, or one to `module`.
    pub open spec fn free_for(self, dependency_id: DependencyId, module: ModuleIdentifier) -> bool {
        self.connections.contains_key(dependency_id) ==> self.connections[dependency_id].module_identifier
            == module
    }

    /// The graph after `module` is revoked: it leaves the graph, and so do
    /// the connections of its resolved dependencies.
    pub open spec fn without_module(self, module: ModuleIdentifier) -> ModuleGraphView {
        if self.modules.contains_key(module) {
            ModuleGraphView {
                modules: self.modules.remove(module),
                connections: self.connections,
            }.without_connections(self.modules[module].outgoing_connections)
        } else {
            self
        }
    }
}

/// Adding a module that records no incoming dependency keeps the graph
/// consistent.
pub proof fn lemma_with_module_keeps_consistency(g: ModuleGraphView, mgm: ModuleGraphModuleView)
    requires
        g.is_consistent(),
        mgm.incoming_connections == Set::<DependencyId>::empty(),
    ensures
        g.with_module(mgm).is_consistent(),
{
}

/// Resolving a dependency that has no connection yet, or one to the same
/// module, to a module in the graph keeps the graph consistent.
pub proof fn lemma_with_resolved_module_keeps_consistency(
    g: ModuleGraphView,
    original: Option<ModuleIdentifier>,
    dependency_id: DependencyId,
    module: ModuleIdentifier,
)
    requires
        g.is_consistent(),
        g.modules.contains_key(module),
        g.free_for(dependency_id, module),
    ensures
        g.with_resolved_module(original, dependency_id, module).is_consistent(),
        g.with_resolved_module(original, dependency_id, module).modules.dom() == g.modules.dom(),
        forall|d: DependencyId|
            g.free_for(d, module) ==> #[trigger] g.with_resolved_module(
                original,
                dependency_id,
                module,
            ).free_for(d, module),
{
    let r = g.with_resolved_module(original, dependency_id, module);
    assert(r.modules.dom() =~= g.modules.dom());
    assert forall|m: ModuleIdentifier| #[trigger] r.modules.contains_key(m) implies r.modules[m].incoming_connections
        == if m == module {
        g.modules[m].incoming_connections.insert(dependency_id)
    } else {
        g.modules[m].incoming_connections
    } by {}
}

/// Resolving dependencies, each without a connection yet or with one to the
/// same module, to a module in the graph keeps the graph consistent.
pub proof fn lemma_with_resolved_modules_keeps_consistency(
    g: ModuleGraphView,
    original: Option<ModuleIdentifier>,
    dependencies: Seq<DependencyId>,
    module: ModuleIdentifier,
)
    requires
        g.is_consistent(),
        g.modules.contains_key(module),
        forall|i: int| 0 <= i < dependencies.len() ==> g.free_for(#[trigger] dependencies[i], module),
    ensures
        g.with_resolved_modules(original, dependencies, module).is_consistent(),
        g.with_resolved_modules(original, dependencies, module).modules.dom() == g.modules.dom(),
        forall|d: DependencyId|
            g.free_for(d, module) ==> #[trigger] g.with_resolved_modules(
                original,
                dependencies,
                module,
            ).free_for(d, module),
    decreases dependencies.len(),
{
    if dependencies.len() > 0 {
        let rest = dependencies.drop_last();
        assert forall|i: int| 0 <= i < rest.len() implies g.free_for(#[trigger] rest[i], module) by {
            assert(rest[i] == dependencies[i]);
        }
        lemma_with_resolved_modules_keeps_consistency(g, original, rest, module);
        let r0 = g.with_resolved_modules(original, rest, module);
        let last = dependencies[dependencies.len() - 1];
        assert(g.free_for(last, module));
        assert(r0.free_for(last, module));
        lemma_with_resolved_module_keeps_consistency(r0, original, last, module);
    }
}

/// Removing a connection, with its record in the module it led to, keeps
/// the graph consistent.
pub proof fn lemma_without_connection_keeps_consistency(
    g: ModuleGraphView,
    dependency_id: DependencyId,
)
    requires
        g.is_consistent(),
    ensures
        g.without_connection(dependency_id).is_consistent(),
{
    if g.connections.contains_key(dependency_id) {
        let t = g.connections[dependency_id].module_identifier;
        let r = g.without_connection(dependency_id);
        assert(r.modules.dom() =~= g.modules.dom());
        assert forall|m: ModuleIdentifier| #[trigger] r.modules.contains_key(m) implies r.modules[m].incoming_connections
            == if m == t {
            g.modules[m].incoming_connections.remove(dependency_id)
        } else {
            g.modules[m].incoming_connections
        } by {}
    }
}

/// Removing connections keeps the graph consistent.
pub proof fn lemma_without_connections_keeps_consistency(
    g: ModuleGraphView,
    dependencies: Seq<DependencyId>,
)
    requires
        g.is_consistent(),
    ensures
        g.without_connections(dependencies).is_consistent(),
    decreases dependencies.len(),
{
    if dependencies.len() > 0 {
        lemma_without_connections_keeps_consistency(g, dependencies.drop_last());
        lemma_without_connection_keeps_consistency(
            g.without_connections(dependencies.drop_last()),
            dependencies.last(),
        );
    }
}

/// Revoking a module that no dependency resolves to keeps the graph
/// consistent.
pub proof fn lemma_without_unused_module_keeps_consistency(
    g: ModuleGraphView,
    module: ModuleIdentifier,
)
    requires
        g.is_consistent(),
        g.modules.contains_key(module) ==> g.modules[module].incoming_connections.is_empty(),
    ensures
        g.without_module(module).is_consistent(),
{
    if g.modules.contains_key(module) {
        let start = ModuleGraphView { modules: g.modules.remove(module), connections: g.connections };
        assert forall|d: DependencyId| #[trigger] start.connections.contains_key(d) implies start.modules.contains_key(
            start.connections[d].module_identifier,
        ) && start.modules[start.connections[d].module_identifier].incoming_connections.contains(
            d,
        ) by {
            let t = g.connections[d].module_identifier;
            assert(g.modules[t].incoming_connections.contains(d));
            if t == module {
                assert(g.modules[module].incoming_connections.contains(d));
            }
        }
        lemma_without_connections_keeps_consistency(start, g.modules[module].outgoing_connections);
    }
}

/// Resolving dependencies to a module that is in the graph keeps the same
/// modules in the graph, connects each of the dependencies to the module,
/// and the module records each as incoming.
pub proof fn lemma_resolved_dependencies_reach_module(
    g: ModuleGraphView,
    original: Option<ModuleIdentifier>,
    dependencies: Seq<DependencyId>,
    module: ModuleIdentifier,
)
    requires
        g.modules.contains_key(module),
    ensures
        ({
            let r = g.with_resolved_modules(original, dependencies, module);
            &&& r.modules.dom() == g.modules.dom()
            &&& forall|i: int|
                0 <= i < dependencies.len() ==> #[trigger] r.connections.contains_key(
                    dependencies[i],
                ) && r.connections[dependencies[i]] == (ModuleGraphConnection {
                    original_module_identifier: original,
                    dependency_id: dependencies[i],
                    module_identifier: module,
                }) && r.modules[module].incoming_connections.contains(dependencies[i])
        }),
    decreases dependencies.len(),
{
    if dependencies.len() > 0 {
        let rest = dependencies.drop_last();
        lemma_resolved_dependencies_reach_module(g, original, rest, module);
        let r0 = g.with_resolved_modules(original, rest, module);
        let r = r0.with_resolved_module(original, dependencies.last(), module);
        assert(r.modules.dom() =~= r0.modules.dom());
        assert forall|i: int| 0 <= i < dependencies.len() implies #[trigger] r.connections.contains_key(
            dependencies[i],
        ) && r.connections[dependencies[i]] == (ModuleGraphConnection {
            original_module_identifier: original,
            dependency_id: dependencies[i],
            module_identifier: module,
        }) && r.modules[module].incoming_connections.contains(dependencies[i]) by {
            if i < dependencies.len() - 1 {
                assert(rest[i] == dependencies[i]);
            }
        }
    }
}

/// Resolving dependency `d`, found in module `o`, to module `m` connects
/// `d` from `o` to `m`: the connection names `o` as the module `d` was found
/// in; `m` records `d` as incoming and `o`, where it is in the graph,
/// records it as outgoing, last; no other connection changes.
pub proof fn lemma_resolving_connects_from_origin(
    g: ModuleGraphView,
    o: Option<ModuleIdentifier>,
    d: DependencyId,
    m: ModuleIdentifier,
)
    requires
        g.modules.contains_key(m),
    ensures
        ({
            let r = g.with_resolved_module(o, d, m);
            &&& r.connections.contains_key(d)
            &&& r.connections[d].original_module_identifier == o
            &&& r.connections[d].dependency_id == d
            &&& r.connections[d].module_identifier == m
            &&& forall|e: DependencyId|
                e != d ==> (#[trigger] r.connections.contains_key(e) <==> g.connections.contains_key(
                    e,
                )) && (g.connections.contains_key(e) ==> r.connections[e] == g.connections[e])
            &&& r.modules[m].incoming_connections == g.modules[m].incoming_connections.insert(d)
            &&& match o {
                Some(om) => g.modules.contains_key(om) ==> r.modules[om].outgoing_connections
                    == g.modules[om].outgoing_connections.push(d),
                None => true,
            }
        }),
{
}

/// The modules that a module's dependencies resolve to, for dependencies
/// listed one after the other, are those of the first list followed by
/// those of the second: whether a dependency's module is listed does not
/// depend on the dependencies before it.
pub proof fn lemma_resolved_modules_of_concatenation(
    g: ModuleGraphView,
    a: Seq<DependencyId>,
    b: Seq<DependencyId>,
)
    ensures
        g.resolved_modules(a + b) == g.resolved_modules(a) + g.resolved_modules(b),
    decreases b.len(),
{
    if b.len() == 0 {
        assert(a + b =~= a);
        assert(g.resolved_modules(a) + g.resolved_modules(b) =~= g.resolved_modules(a));
    } else {
        lemma_resolved_modules_of_concatenation(g, a, b.drop_last());
        assert((a + b).drop_last() =~= a + b.drop_last());
        assert((a + b).last() == b.last());
        let x = b.last();
        if g.connections.contains_key(x) {
            assert(g.resolved_modules(a) + g.resolved_modules(b.drop_last()).push(
                g.connections[x].module_identifier,
            ) =~= (g.resolved_modules(a) + g.resolved_modules(b.drop_last())).push(
                g.connections[x].module_identifier,
            ));
        }
    }
}

/// The modules that one dependency resolves to: the module of its
/// connection, or none where it has no connection.
pub proof fn lemma_resolved_modules_of_one(g: ModuleGraphView, d: DependencyId)
    ensures
        g.resolved_modules(seq![d]) == if g.connections.contains_key(d) {
            seq![g.connections[d].module_identifier]
        } else {
            Seq::<ModuleIdentifier>::empty()
        },
{
    let s = seq![d];
    assert(s.drop_last() =~= Seq::<DependencyId>::empty());
    assert(g.resolved_modules(s.drop_last()) =~= Seq::<ModuleIdentifier>::empty());
    assert(s.last() == d);
    assert(Seq::<ModuleIdentifier>::empty().push(g.connections[d].module_identifier) =~= seq![
        g.connections[d].module_identifier,
    ]);
}

/// Every dependency that has a connection contributes its connection's
/// module to the modules that the dependencies resolve to, and every
/// module listed there is the module of some dependency's connection; a
/// dependency without a connection contributes nothing.
pub proof fn lemma_resolved_modules_members(g: ModuleGraphView, dependencies: Seq<DependencyId>)
    ensures
        forall|i: int|
            0 <= i < dependencies.len() && g.connections.contains_key(#[trigger] dependencies[i])
                ==> g.resolved_modules(dependencies).contains(
                g.connections[dependencies[i]].module_identifier,
            ),
        forall|x: ModuleIdentifier|
            #[trigger] g.resolved_modules(dependencies).contains(x) ==> exists|i: int|
                0 <= i < dependencies.len() && g.connections.contains_key(#[trigger] dependencies[i])
                    && g.connections[dependencies[i]].module_identifier == x,
        g.resolved_modules(dependencies).len() <= dependencies.len(),
    decreases dependencies.len(),
{
    if dependencies.len() > 0 {
        let rest = dependencies.drop_last();
        lemma_resolved_modules_members(g, rest);
        let r0 = g.resolved_modules(rest);
        let r = g.resolved_modules(dependencies);
        let n = dependencies.len() - 1;
        let last = dependencies.last();
        assert(dependencies[n] == last);
        assert forall|i: int|
            0 <= i < dependencies.len() && g.connections.contains_key(
                #[trigger] dependencies[i],
            ) implies r.contains(g.connections[dependencies[i]].module_identifier) by {
            if i < n {
                assert(rest[i] == dependencies[i]);
                let k = choose|k: int| 0 <= k < r0.len() && r0[k] == g.connections[rest[i]].module_identifier;
                assert(r[k] == r0[k]);
            } else {
                assert(r[r.len() - 1] == g.connections[dependencies[i]].module_identifier);
            }
        }
        assert forall|x: ModuleIdentifier| #[trigger] r.contains(x) implies exists|i: int|
            0 <= i < dependencies.len() && g.connections.contains_key(#[trigger] dependencies[i])
                && g.connections[dependencies[i]].module_identifier == x by {
            let j = choose|j: int| 0 <= j < r.len() && r[j] == x;
            if j < r0.len() {
                assert(r[j] == r0[j]);
                assert(r0.contains(x));
                let i = choose|i: int|
                    0 <= i < rest.len() && g.connections.contains_key(#[trigger] rest[i])
                        && g.connections[rest[i]].module_identifier == x;
                assert(dependencies[i] == rest[i]);
            } else {
                assert(g.connections.contains_key(last));
                assert(r[j] == g.connections[last].module_identifier);
            }
        }
    }
}

/// Removing connections keeps the same modules in the graph.
pub proof fn lemma_without_connections_keeps_modules(
    g: ModuleGraphView,
    dependencies: Seq<DependencyId>,
)
    ensures
        g.without_connections(dependencies).modules.dom() == g.modules.dom(),
    decreases dependencies.len(),
{
    if dependencies.len() > 0 {
        lemma_without_connections_keeps_modules(g, dependencies.drop_last());
        let g0 = g.without_connections(dependencies.drop_last());
        assert(g0.without_connection(dependencies.last()).modules.dom() =~= g0.modules.dom());
    }
}

/// A revoked module is no longer in the graph, and every other module
/// stays.
pub proof fn lemma_revoked_module_is_gone(g: ModuleGraphView, module: ModuleIdentifier)
    ensures
        g.without_module(module).modules.dom() == g.modules.dom().remove(module),
{
    if g.modules.contains_key(module) {
        let start = ModuleGraphView { modules: g.modules.remove(module), connections: g.connections };
        lemma_without_connections_keeps_modules(start, g.modules[module].outgoing_connections);
    } else {
        assert(g.modules.dom().remove(module) =~= g.modules.dom());
    }
}

/// Whether `post` keeps the record of `module` that `pre` has: its
/// identifier, type, exports and dependencies.
pub open spec fn keeps_record(
    pre: ModuleGraphView,
    post: ModuleGraphView,
    module: ModuleIdentifier,
) -> bool {
    &&& post.modules.contains_key(module)
    &&& post.modules[module].module_identifier == pre.modules[module].module_identifier
    &&& post.modules[module].module_type == pre.modules[module].module_type
    &&& post.modules[module].exports == pre.modules[module].exports
    &&& post.modules[module].dependencies == pre.modules[module].dependencies
}

/// Resolving dependencies to a module in the graph keeps every module's
/// record; only connections are added.
pub proof fn lemma_resolving_keeps_records(
    g: ModuleGraphView,
    original: Option<ModuleIdentifier>,
    dependencies: Seq<DependencyId>,
    target: ModuleIdentifier,
    module: ModuleIdentifier,
)
    requires
        g.modules.contains_key(target),
        g.modules.contains_key(module),
    ensures
        keeps_record(g, g.with_resolved_modules(original, dependencies, target), module),
    decreases dependencies.len(),
{
    if dependencies.len() > 0 {
        lemma_resolving_keeps_records(g, original, dependencies.drop_last(), target, module);
        lemma_resolving_keeps_records(g, original, dependencies.drop_last(), target, target);
    }
}

/// Removing connections keeps every module's record.
proof fn lemma_without_connections_keeps_record(
    g: ModuleGraphView,
    module: ModuleIdentifier,
    removed: Seq<DependencyId>,
)
    requires
        g.modules.contains_key(module),
    ensures
        keeps_record(g, g.without_connections(removed), module),
    decreases removed.len(),
{
    if removed.len() > 0 {
        lemma_without_connections_keeps_record(g, module, removed.drop_last());
    }
}

/// Removing connections keeps the incoming records of the dependencies it
/// does not remove.
proof fn lemma_without_connections_keeps_incoming(
    g: ModuleGraphView,
    module: ModuleIdentifier,
    d: DependencyId,
    removed: Seq<DependencyId>,
)
    requires
        g.modules.contains_key(module),
        g.modules[module].incoming_connections.contains(d),
        !removed.contains(d),
    ensures
        g.without_connections(removed).modules.contains_key(module),
        g.without_connections(removed).modules[module].incoming_connections.contains(d),
    decreases removed.len(),
{
    lemma_without_connections_keeps_modules(g, removed);
    if removed.len() > 0 {
        let rest = removed.drop_last();
        assert(!rest.contains(d)) by {
            if rest.contains(d) {
                let k = choose|k: int| 0 <= k < rest.len() && rest[k] == d;
                assert(removed[k] == d);
            }
        }
        assert(removed[removed.len() - 1] != d);
        lemma_without_connections_keeps_incoming(g, module, d, rest);
        lemma_without_connections_keeps_modules(g, rest);
    }
}

/// A module in the graph stays there, with its record, through every change
/// of the graph but its own revocation: adding a module, resolving a
/// dependency, removing connections and revoking another module keep it.
pub proof fn lemma_module_stays_until_revoked(
    g: ModuleGraphView,
    module: ModuleIdentifier,
    mgm: ModuleGraphModuleView,
    original: Option<ModuleIdentifier>,
    dependency_id: DependencyId,
    target: ModuleIdentifier,
    removed: Seq<DependencyId>,
    other: ModuleIdentifier,
)
    requires
        g.modules.contains_key(module),
        other != module,
    ensures
        keeps_record(g, g.with_module(mgm), module),
        g.modules.contains_key(target) ==> keeps_record(
            g,
            g.with_resolved_module(original, dependency_id, target),
            module,
        ),
        keeps_record(g, g.without_connections(removed), module),
        keeps_record(g, g.without_module(other), module),
{
    lemma_without_connections_keeps_record(g, module, removed);
    if g.modules.contains_key(other) {
        let start = ModuleGraphView { modules: g.modules.remove(other), connections: g.connections };
        lemma_without_connections_keeps_record(start, module, g.modules[other].outgoing_connections);
    }
}

/// What a module records as coming into it is lost only by removing that
/// connection: adding a module and resolving dependencies keep every
/// incoming record of a module in the graph, and removing connections or
/// revoking another module keeps those of dependencies it does not remove.
/// So a module that an add task connected dependencies to is found used by
/// a clean task until those connections are removed.
pub proof fn lemma_incoming_kept_until_removed(
    g: ModuleGraphView,
    module: ModuleIdentifier,
    d: DependencyId,
    mgm: ModuleGraphModuleView,
    original: Option<ModuleIdentifier>,
    dependency_id: DependencyId,
    target: ModuleIdentifier,
    removed: Seq<DependencyId>,
    other: ModuleIdentifier,
)
    requires
        g.modules.contains_key(module),
        g.modules[module].incoming_connections.contains(d),
        other != module,
    ensures
        g.with_module(mgm).modules[module].incoming_connections.contains(d),
        g.modules.contains_key(target) ==> g.with_resolved_module(
            original,
            dependency_id,
            target,
        ).modules[module].incoming_connections.contains(d),
        !removed.contains(d) ==> g.without_connections(removed).modules[module].incoming_connections.contains(d),
        g.modules.contains_key(other) && !g.modules[other].outgoing_connections.contains(d)
            ==> g.without_module(other).modules[module].incoming_connections.contains(d),
{
    if !removed.contains(d) {
        lemma_without_connections_keeps_incoming(g, module, d, removed);
    }
    if g.modules.contains_key(other) && !g.modules[other].outgoing_connections.contains(d) {
        let start = ModuleGraphView { modules: g.modules.remove(other), connections: g.connections };
        lemma_without_connections_keeps_incoming(start, module, d, g.modules[other].outgoing_connections);
    }
}

/// The modules of a compilation and the connections between them.
pub struct ModuleGraph {
    modules: HashMap<ModuleIdentifier, ModuleGraphModule>,
    connections: HashMap<DependencyId, ModuleGraphConnection>,
}

impl View for ModuleGraph {
    type V = ModuleGraphView;

    closed spec fn view(&self) -> ModuleGraphView {
        ModuleGraphView {
            modules: self.modules@.map_values(|m: ModuleGraphModule| m@),
            connections: self.connections@,
        }
    }
}

impl ModuleGraph {
    /// An empty graph.
    pub fn new() -> (g: Self)
        ensures
            g@.modules == Map::<ModuleIdentifier, ModuleGraphModuleView>::empty(),
            g@.connections == Map::<DependencyId, ModuleGraphConnection>::empty(),
    {
        let g = ModuleGraph { modules: HashMap::new(), connections: HashMap::new() };
        assert(g@.modules =~= Map::<ModuleIdentifier, ModuleGraphModuleView>::empty());
        g
    }

    /// The record of `module`, if the module is in the graph.
    pub fn module_graph_module_by_identifier(&self, module: &ModuleIdentifier) -> (r: Option<
        &ModuleGraphModule,
    >)
        ensures
            match r {
                Some(m) => self@.modules.contains_key(*module) && m@ == self@.modules[*module],
                None => !self@.modules.contains_key(*module),
            },
    {
        self.modules.get(module)
    }

    /// The connection of `dependency_id`, if it has been resolved.
    pub fn connection_by_dependency_id(&self, dependency_id: &DependencyId) -> (r: Option<
        ModuleGraphConnection,
    >)
        ensures
            match r {
                Some(c) => self@.connections.contains_key(*dependency_id) && c
                    == self@.connections[*dependency_id],
                None => !self@.connections.contains_key(*dependency_id),
            },
    {
        match self.connections.get(dependency_id) {
            Some(c) => Some(*c),
            None => None,
        }
    }

    /// Adds `mgm` unless a module with its identifier is already there.
    pub fn add_module_graph_module(&mut self, mgm: ModuleGraphModule)
        ensures
            final(self)@ == old(self)@.with_module(mgm@),
    {
        let id = mgm.module_identifier;
        if !self.modules.contains_key(&id) {
            let ghost v = mgm@;
            self.modules.insert(id, mgm);
            assert(self@.modules =~= old(self)@.modules.insert(id, v));
        }
    }

    /// Resolves `dependency_id`, found in `original_module_identifier`, to
    /// `module_identifier`. Fails, changing nothing, where that module is not
    /// in the graph.
    pub fn set_resolved_module(
        &mut self,
        original_module_identifier: Option<ModuleIdentifier>,
        dependency_id: DependencyId,
        module_identifier: ModuleIdentifier,
    ) -> (r: Result<(), Error>)
        ensures
            match r {
                Ok(()) => old(self)@.modules.contains_key(module_identifier) && final(self)@
                    == old(self)@.with_resolved_module(
                    original_module_identifier,
                    dependency_id,
                    module_identifier,
                ),
                Err(e) => !old(self)@.modules.contains_key(module_identifier) && final(self)@
                    == old(self)@ && e == Error::ModuleNotFound(module_identifier),
            },
    {
        let ghost g0 = self@;
        let target = self.modules.remove(&module_identifier);
        match target {
            None => {
                assert(self@.modules =~= g0.modules);
                return Err(Error::ModuleNotFound(module_identifier));
            },
            Some(mut target) => {
                target.incoming_connections.insert(dependency_id);
                let ghost tv = target@;
                self.modules.insert(module_identifier, target);
                let ghost modules1 = g0.modules.insert(module_identifier, tv);
                assert(self@.modules =~= modules1);
                if let Some(o) = original_module_identifier {
                    let original = self.modules.remove(&o);
                    if let Some(mut original) = original {
                        original.outgoing_connections.push(dependency_id);
                        let ghost ov = original@;
                        self.modules.insert(o, original);
                        assert(self@.modules =~= modules1.insert(o, ov));
                    } else {
                        assert(self@.modules =~= modules1);
                    }
                }
                self.connections.insert(
                    dependency_id,
                    ModuleGraphConnection {
                        original_module_identifier,
                        dependency_id,
                        module_identifier,
                    },
                );
                assert(self@ == g0.with_resolved_module(
                    original_module_identifier,
                    dependency_id,
                    module_identifier,
                ));
                Ok(())
            },
        }
    }

    /// The modules that the dependencies of `module` resolve to, in the
    /// order of the dependencies; none where `module` is not in the graph.
    pub fn get_module_all_depended_modules(&self, module: &ModuleIdentifier) -> (r: Option<
        Vec<ModuleIdentifier>,
    >)
        ensures
            match r {
                Some(v) => self@.modules.contains_key(*module) && v@ == self@.resolved_modules(
                    self@.modules[*module].dependencies,
                ),
                None => !self@.modules.contains_key(*module),
            },
    {
        let mgm = match self.modules.get(module) {
            Some(m) => m,
            None => return None,
        };
        let deps = &mgm.dependencies;
        let mut result: Vec<ModuleIdentifier> = Vec::new();
        let mut i: usize = 0;
        while i < deps.len()
            invariant
                i <= deps@.len(),
                deps@ == self@.modules[*module].dependencies,
                result@ == self@.resolved_modules(deps@.take(i as int)),
            decreases deps@.len() - i,
        {
            assert(deps@.take(i + 1).drop_last() =~= deps@.take(i as int));
            if let Some(c) = self.connections.get(&deps[i]) {
                result.push(c.module_identifier);
            }
            i = i + 1;
        }
        assert(deps@.take(deps@.len() as int) =~= deps@);
        Some(result)
    }

    /// Removes the connection of `dependency_id` and its record in the module
    /// it resolved to.
    fn revoke_connection(&mut self, dependency_id: DependencyId)
        ensures
            final(self)@ == old(self)@.without_connection(dependency_id),
    {
        let ghost g0 = self@;
        let connection = self.connections.remove(&dependency_id);
        if let Some(c) = connection {
            let t = c.module_identifier;
            let target = self.modules.remove(&t);
            if let Some(mut target) = target {
                target.incoming_connections.remove(&dependency_id);
                let ghost tv = target@;
                self.modules.insert(t, target);
                assert(self@.modules =~= g0.modules.insert(t, tv));
            } else {
                assert(self@.modules =~= g0.modules);
            }
            assert(self@ == g0.without_connection(dependency_id));
        } else {
            assert(self@.connections =~= g0.connections);
        }
    }

    /// Removes `module` from the graph, together with the connections of its
    /// resolved dependencies.
    pub fn revoke_module(&mut self, module: &ModuleIdentifier)
        ensures
            final(self)@ == old(self)@.without_module(*module),
    {
        let ghost g0 = self@;
        let removed = self.modules.remove(module);
        if let Some(mgm) = removed {
            let ghost start = ModuleGraphView {
                modules: g0.modules.remove(*module),
                connections: g0.connections,
            };
            assert(self@.modules =~= start.modules);
            let outgoing = mgm.outgoing_connections;
            let mut i: usize = 0;
            while i < outgoing.len()
                invariant
                    i <= outgoing@.len(),
                    outgoing@ == g0.modules[*module].outgoing_connections,
                    self@ == start.without_connections(outgoing@.take(i as int)),
                decreases outgoing@.len() - i,
            {
                assert(outgoing@.take(i + 1).drop_last() =~= outgoing@.take(i as int));
                self.revoke_connection(outgoing[i]);
                i = i + 1;
            }
            assert(outgoing@.take(outgoing@.len() as int) =~= outgoing@);
        } else {
            assert(self@.modules =~= g0.modules);
        }
    }
}

/// The state of a compilation that the tasks read and change.
pub struct Compilation {
    pub module_graph: ModuleGraph,
    /// The modules that entries resolved to.
    pub entry_module_identifiers: HashSet<ModuleIdentifier>,
}

impl Compilation {
    /// A compilation with an empty module graph and no entries.
    pub fn new() -> (c: Self)
        ensures
            c.module_graph@.modules == Map::<ModuleIdentifier, ModuleGraphModuleView>::empty(),
            c.module_graph@.connections == Map::<DependencyId, ModuleGraphConnection>::empty(),
            c.entry_module_identifiers@ == Set::<ModuleIdentifier>::empty(),
    {
        Compilation { module_graph: ModuleGraph::new(), entry_module_identifiers: HashSet::new() }
    }
}

} // verus!
