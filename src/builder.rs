//! Dependency-ordered, memoized construction of modules into a registry.
//!
//! Construction itself is outside work (it may reach the network), so the
//! builder decides and the caller acts: `plan` names the modules to construct,
//! dependencies first, and `install` takes each constructed instance in turn.
use vstd::prelude::*;

use crate::command::{insert_all, CommandDescriptor, CommandKind, CommandTable};
use crate::completion::CompletionChain;
use crate::graph::{
    acyclic, deps_ready, deps_well_formed, is_build_plan, is_dep_path, is_pending_path, lemma_path_in_plan,
    lemma_plan_excludes_cycle, lemma_unique_bounded_len, pending_cycle, pending_reach,
};
use crate::registry::{ModuleId, ModuleRegistry};

verus! {

/// Why a module cannot be planned or installed.
#[derive(Debug, PartialEq, Eq, Structural)]
pub enum BuildError {
    /// The id names no module of the catalog.
    UnknownModule(ModuleId),
    /// A declared dependency names no module of the catalog.
    UnknownDependency(ModuleId),
    /// Building the module would need the module itself first.
    DependencyCycle(ModuleId),
    /// The module is present already; the existing instance stays.
    AlreadyBuilt(ModuleId),
    /// The module was offered before one of its dependencies was present.
    MissingDependency(ModuleId, ModuleId),
}

/// The declared dependencies, as sequences.
pub open spec fn deps_view(deps: Seq<Vec<ModuleId>>) -> Seq<Seq<ModuleId>> {
    deps.map_values(|v: Vec<ModuleId>| v@)
}

/// The state of one depth-first walk: `visited` marks what is built or
/// planned, `on_stack` the modules whose dependencies are being walked.
spec fn walk_inv(
    deps: Seq<Seq<ModuleId>>,
    built: Set<ModuleId>,
    target: ModuleId,
    visited: Seq<bool>,
    on_stack: Seq<bool>,
    order: Seq<ModuleId>,
    stack: Seq<ModuleId>,
) -> bool {
    let n = deps.len();
    &&& visited.len() == n
    &&& on_stack.len() == n
    &&& forall|x: ModuleId| x < n ==> (#[trigger] visited[x as int] <==> (built.contains(x) || order.contains(x)))
    &&& forall|x: ModuleId| x < n ==> (#[trigger] on_stack[x as int] <==> stack.contains(x))
    &&& stack.no_duplicates()
    &&& forall|k: int| 0 <= k < stack.len() ==> (#[trigger] stack[k] as int) < n && !visited[stack[k] as int]
    &&& stack.len() > 0 ==> is_pending_path(deps, built, target, stack)
    &&& order.no_duplicates()
    &&& forall|i: int| 0 <= i < order.len() ==> (#[trigger] order[i] as int) < n && !built.contains(order[i])
    &&& forall|i: int| 0 <= i < order.len() ==> deps_ready(deps, built, order, i)
    &&& forall|x: ModuleId| #[trigger] order.contains(x) ==> pending_reach(deps, built, target, x)
}

/// Walks the dependencies of `v`, appending to `order` every unbuilt module
/// that `v` needs, then `v`. Returns false on meeting a module already on the
/// walk's stack.
fn visit(
    deps: &Vec<Vec<ModuleId>>,
    v: ModuleId,
    visited: &mut Vec<bool>,
    on_stack: &mut Vec<bool>,
    order: &mut Vec<ModuleId>,
    Ghost(built): Ghost<Set<ModuleId>>,
    Ghost(target): Ghost<ModuleId>,
    Ghost(stack): Ghost<Seq<ModuleId>>,
) -> (ok: bool)
    requires
        deps_well_formed(deps_view(deps@)),
        walk_inv(deps_view(deps@), built, target, old(visited)@, old(on_stack)@, old(order)@, stack),
        v < deps@.len(),
        !old(visited)@[v as int],
        !old(on_stack)@[v as int],
        is_pending_path(deps_view(deps@), built, target, stack.push(v)),
    ensures
        ok ==> walk_inv(deps_view(deps@), built, target, final(visited)@, final(on_stack)@, final(order)@, stack),
        ok ==> final(visited)@[v as int],
        ok ==> final(on_stack)@ == old(on_stack)@,
        ok ==> forall|x: int| 0 <= x < deps@.len() && old(visited)@[x] ==> final(visited)@[x],
        !ok ==> pending_cycle(deps_view(deps@), built, target),
    decreases deps@.len() - stack.len(),
{
    let ghost dv = deps_view(deps@);
    let ghost n = dv.len();
    let ghost st = stack.push(v);
    let ghost visited0 = visited@;
    proof {
        lemma_unique_bounded_len(stack, n);
    }
    on_stack.set(v, true);
    assert(st.no_duplicates()) by {
        assert(!stack.contains(v));
    }
    assert forall|x: ModuleId| x < n implies (#[trigger] on_stack@[x as int] <==> st.contains(x)) by {
        if x != v {
            assert(st.contains(x) <==> stack.contains(x)) by {
                if st.contains(x) {
                    let k = choose|k: int| 0 <= k < st.len() && st[k] == x;
                    assert(stack[k] == x);
                }
                if stack.contains(x) {
                    let k = choose|k: int| 0 <= k < stack.len() && stack[k] == x;
                    assert(st[k] == x);
                }
            }
        }
        assert(st[st.len() - 1] == v);
    }
    assert(walk_inv(dv, built, target, visited@, on_stack@, order@, st));
    let mut j: usize = 0;
    while j < deps[v].len()
        invariant
            dv == deps_view(deps@),
            n == dv.len(),
            n == deps@.len(),
            visited0.len() == n,
            on_stack@ == old(on_stack)@.update(v as int, true),
            deps_well_formed(dv),
            st == stack.push(v),
            v < n,
            !visited@[v as int],
            is_pending_path(dv, built, target, st),
            walk_inv(dv, built, target, visited@, on_stack@, order@, st),
            j <= dv[v as int].len(),
            forall|k: int| 0 <= k < j ==> visited@[#[trigger] dv[v as int][k] as int],
            forall|x: int| 0 <= x < n && visited0[x] ==> visited@[x],
        decreases dv[v as int].len() - j,
    {
        let d = deps[v][j];
        assert(d == dv[v as int][j as int]);
        assert((d as int) < n);
        if visited[d] {
        } else if on_stack[d] {
            proof {
                let p = st.push(d);
                assert(dv[st[st.len() - 1] as int].contains(d));
                assert(is_pending_path(dv, built, target, p)) by {
                    assert forall|i: int| 0 <= i < p.len() - 1 implies #[trigger] dv[p[i] as int].contains(p[i + 1]) by {
                        if i < st.len() - 1 {
                            assert(dv[st[i] as int].contains(st[i + 1]));
                        }
                    }
                    assert forall|i: int| 0 <= i < p.len() implies !built.contains(#[trigger] p[i]) by {
                        if i < st.len() {
                            assert(st[i] == p[i]);
                        } else {
                            assert(!visited@[d as int]);
                        }
                    }
                }
                let k = choose|k: int| 0 <= k < st.len() && st[k] == d;
                assert(p[k] == p[p.len() - 1]);
                assert(!p.no_duplicates());
            }
            return false;
        } else {
            assert(dv[st[st.len() - 1] as int].contains(d));
            assert(is_pending_path(dv, built, target, st.push(d))) by {
                let p = st.push(d);
                assert forall|i: int| 0 <= i < p.len() - 1 implies #[trigger] dv[p[i] as int].contains(p[i + 1]) by {
                    if i < st.len() - 1 {
                        assert(dv[st[i] as int].contains(st[i + 1]));
                    }
                }
                assert forall|i: int| 0 <= i < p.len() implies !built.contains(#[trigger] p[i]) by {
                    if i < st.len() {
                        assert(st[i] == p[i]);
                    }
                }
            }
            proof {
                lemma_unique_bounded_len(st, n);
            }
            let ok = visit(deps, d, visited, on_stack, order, Ghost(built), Ghost(target), Ghost(st));
            if !ok {
                return false;
            }
        }
        j = j + 1;
    }
    let ghost order0 = order@;
    on_stack.set(v, false);
    visited.set(v, true);
    order.push(v);
    proof {
        let o = order@;
        assert(!order0.contains(v));
        assert(o.subrange(0, order0.len() as int) =~= order0);
        assert forall|i: int| 0 <= i < o.len() implies deps_ready(dv, built, o, i) by {
            if i < order0.len() {
                assert(o.subrange(0, i) =~= order0.subrange(0, i));
                assert(deps_ready(dv, built, order0, i));
            } else {
                assert forall|k: int| 0 <= k < dv[o[i] as int].len() implies {
                    let d = #[trigger] dv[o[i] as int][k];
                    built.contains(d) || o.subrange(0, i).contains(d)
                } by {
                    let d = dv[v as int][k];
                    assert(visited@[d as int] || d == v);
                }
            }
        }
        assert forall|x: ModuleId| #[trigger] o.contains(x) implies pending_reach(dv, built, target, x) by {
            if x == v {
                assert(is_pending_path(dv, built, target, st) && st.last() == v);
            } else {
                let k = choose|k: int| 0 <= k < o.len() && o[k] == x;
                assert(order0.contains(x)) by { assert(order0[k] == x); }
            }
        }
        assert forall|x: ModuleId| x < n implies (#[trigger] on_stack@[x as int] <==> stack.contains(x)) by {
            if x != v {
                if stack.contains(x) {
                    let k = choose|k: int| 0 <= k < stack.len() && stack[k] == x;
                    assert(st[k] == x);
                }
                if st.contains(x) {
                    let k = choose|k: int| 0 <= k < st.len() && st[k] == x;
                    assert(stack[k] == x);
                }
            }
        }
        assert forall|x: ModuleId| x < n implies (#[trigger] visited@[x as int] <==> (built.contains(x) || o.contains(x))) by {
            if x != v {
                if o.contains(x) {
                    let k = choose|k: int| 0 <= k < o.len() && o[k] == x;
                    assert(order0[k] == x);
                }
                if order0.contains(x) {
                    let k = choose|k: int| 0 <= k < order0.len() && order0[k] == x;
                    assert(o[k] == x);
                }
            } else {
                assert(o[o.len() - 1] == v);
            }
        }
        assert forall|k: int| 0 <= k < stack.len() implies (#[trigger] stack[k] as int) < n && !visited@[stack[k] as int] by {
            assert(st[k] == stack[k]);
        }
        assert(stack.len() > 0 ==> is_pending_path(dv, built, target, stack)) by {
            if stack.len() > 0 {
                assert forall|i: int| 0 <= i < stack.len() - 1 implies #[trigger] dv[stack[i] as int].contains(stack[i + 1]) by {
                    assert(dv[st[i] as int].contains(st[i + 1]));
                }
                assert forall|i: int| 0 <= i < stack.len() implies !built.contains(#[trigger] stack[i]) by {
                    assert(st[i] == stack[i]);
                }
                assert forall|i: int| 0 <= i < stack.len() implies (#[trigger] stack[i] as int) < dv.len() by {
                    assert(st[i] == stack[i]);
                }
            }
        }
        assert(on_stack@ =~= old(on_stack)@);
    }
    true
}

} // verus!

verus! {

/// Builds modules in dependency order into a registry, one instance per
/// module, and gathers the commands and resolvers each one registers.
pub struct RegistryBuilder<T, C, R> {
    deps: Vec<Vec<ModuleId>>,
    registry: ModuleRegistry<T>,
    log: Vec<ModuleId>,
    commands: CommandTable<C>,
    completions: CompletionChain<R>,
}

impl<T, C, R> RegistryBuilder<T, C, R> {
    /// The declared dependencies of each module.
    pub closed spec fn deps(&self) -> Seq<Seq<ModuleId>> {
        deps_view(self.deps@)
    }

    /// The instances present, by module.
    pub closed spec fn modules(&self) -> Map<ModuleId, T> {
        self.registry@
    }

    /// The modules present, in the order they were installed.
    pub closed spec fn log(&self) -> Seq<ModuleId> {
        self.log@
    }

    pub closed spec fn commands(&self) -> Map<(Seq<char>, CommandKind), CommandDescriptor<C>> {
        self.commands@
    }

    pub closed spec fn resolvers(&self) -> Seq<R> {
        self.completions@
    }

    /// The catalog is consistent, the log lists exactly the modules present,
    /// each once, and each after all of its dependencies.
    pub closed spec fn wf(&self) -> bool {
        &&& deps_well_formed(self.deps())
        &&& self.registry.capacity() == self.deps@.len()
        &&& self.commands.wf()
        &&& self.log@.no_duplicates()
        &&& forall|x: ModuleId| #[trigger] self.log@.contains(x) <==> self.registry@.contains_key(x)
        &&& forall|i: int| 0 <= i < self.log@.len() ==> deps_ready(self.deps(), Set::empty(), self.log@, i)
    }

    /// A builder for the catalog whose module `i` depends on the modules
    /// `deps[i]`. Refused when a dependency names no module of the catalog.
    pub fn new(deps: Vec<Vec<ModuleId>>) -> (r: Result<Self, BuildError>)
        ensures
            r is Ok <==> deps_well_formed(deps_view(deps@)),
            match r {
                Ok(b) => {
                    &&& b.wf()
                    &&& b.deps() == deps_view(deps@)
                    &&& b.modules() == Map::<ModuleId, T>::empty()
                    &&& b.log() == Seq::<ModuleId>::empty()
                    &&& b.commands() == Map::<(Seq<char>, CommandKind), CommandDescriptor<C>>::empty()
                    &&& b.resolvers() == Seq::<R>::empty()
                },
                Err(e) => exists|i: int, j: int|
                    0 <= i < deps@.len() && 0 <= j < deps@[i].len()
                        && e == BuildError::UnknownDependency(#[trigger] deps@[i]@[j])
                        && deps@[i]@[j] >= deps@.len(),
            },
    {
        let ghost dv = deps_view(deps@);
        let n = deps.len();
        let mut i: usize = 0;
        while i < n
            invariant
                n == deps@.len(),
                dv == deps_view(deps@),
                i <= n,
                forall|a: int, b: int| 0 <= a < i && 0 <= b < dv[a].len() ==> (#[trigger] dv[a][b] as int) < n,
            decreases n - i,
        {
            let mut j: usize = 0;
            while j < deps[i].len()
                invariant
                    n == deps@.len(),
                    dv == deps_view(deps@),
                    i < n,
                    j <= dv[i as int].len(),
                    forall|a: int, b: int| 0 <= a < i && 0 <= b < dv[a].len() ==> (#[trigger] dv[a][b] as int) < n,
                    forall|b: int| 0 <= b < j ==> (#[trigger] dv[i as int][b] as int) < n,
                decreases dv[i as int].len() - j,
            {
                let d = deps[i][j];
                if d >= n {
                    assert(deps@[i as int]@[j as int] == d);
                    return Err(BuildError::UnknownDependency(d));
                }
                j = j + 1;
            }
            i = i + 1;
        }
        let registry = ModuleRegistry::new(n);
        let b = RegistryBuilder {
            deps,
            registry,
            log: Vec::new(),
            commands: CommandTable::new(),
            completions: CompletionChain::new(),
        };
        assert(b.registry@.dom() =~= Set::<ModuleId>::empty());
        Ok(b)
    }

    /// Whether module `id` is present.
    pub fn contains(&self, id: ModuleId) -> (b: bool)
        ensures
            b == self.modules().contains_key(id),
    {
        self.registry.contains(id)
    }

    /// The modules to construct, in that order, so that `target` becomes
    /// present: exactly the absent modules that `target` needs, itself
    /// included, each once and after its dependencies. Empty when `target`
    /// is present already. Refused when `target` names no module, or when
    /// what it needs runs into a dependency cycle.
    pub fn plan(&self, target: ModuleId) -> (r: Result<Vec<ModuleId>, BuildError>)
        requires
            self.wf(),
        ensures
            r is Ok <==> (target < self.deps().len() && !pending_cycle(self.deps(), self.modules().dom(), target)),
            match r {
                Ok(order) => is_build_plan(self.deps(), self.modules().dom(), target, order@),
                Err(e) => if target >= self.deps().len() {
                    e == BuildError::UnknownModule(target)
                } else {
                    e == BuildError::DependencyCycle(target)
                },
            },
    {
        let ghost dv = self.deps();
        let ghost built = self.registry@.dom();
        let n = self.deps.len();
        if target >= n {
            return Err(BuildError::UnknownModule(target));
        }
        let mut visited: Vec<bool> = Vec::new();
        let mut on_stack: Vec<bool> = Vec::new();
        let mut i: usize = 0;
        while i < n
            invariant
                n == self.deps@.len(),
                n == self.registry.capacity(),
                built == self.registry@.dom(),
                i <= n,
                visited@.len() == i,
                on_stack@.len() == i,
                forall|x: int| 0 <= x < i ==> visited@[x] == built.contains(x as ModuleId),
                forall|x: int| 0 <= x < i ==> !on_stack@[x],
            decreases n - i,
        {
            visited.push(self.registry.contains(i));
            on_stack.push(false);
            i = i + 1;
        }
        let mut order: Vec<ModuleId> = Vec::new();
        if visited[target] {
            proof {
                assert forall|x: ModuleId| order@.contains(x) <==> pending_reach(dv, built, target, x) by {
                    if pending_reach(dv, built, target, x) {
                        let p = choose|p: Seq<ModuleId>| #[trigger] is_pending_path(dv, built, target, p) && p.last() == x;
                        assert(!built.contains(p[0]));
                    }
                }
                assert forall|p: Seq<ModuleId>| #[trigger] is_pending_path(dv, built, target, p) implies p.no_duplicates() by {
                    assert(!built.contains(p[0]));
                }
            }
            return Ok(order);
        }
        proof {
            assert forall|x: ModuleId| x < n implies (#[trigger] visited@[x as int] <==> (built.contains(x) || order@.contains(x))) by {}
            let p = seq![target];
            assert(is_pending_path(dv, built, target, Seq::<ModuleId>::empty().push(target))) by {
                assert(Seq::<ModuleId>::empty().push(target) =~= p);
            }
        }
        let ok = visit(&self.deps, target, &mut visited, &mut on_stack, &mut order, Ghost(built), Ghost(target), Ghost(Seq::empty()));
        if ok {
            proof {
                assert(order@.contains(target)) by {
                    assert(visited@[target as int]);
                }
                assert forall|x: ModuleId| pending_reach(dv, built, target, x) implies #[trigger] order@.contains(x) by {
                    let p = choose|p: Seq<ModuleId>| #[trigger] is_pending_path(dv, built, target, p) && p.last() == x;
                    lemma_path_in_plan(dv, built, target, order@, p, p.len() - 1);
                }
                assert forall|p: Seq<ModuleId>| #[trigger] is_pending_path(dv, built, target, p) implies p.no_duplicates() by {
                    lemma_plan_excludes_cycle(dv, built, target, order@, p);
                }
            }
            Ok(order)
        } else {
            Err(BuildError::DependencyCycle(target))
        }
    }

    /// Installs the instance `m` of module `id`, once all of its
    /// dependencies are present, then registers the module's commands (in
    /// order, a later one replacing an earlier one of the same identity) and
    /// appends its completion resolvers. A module present already keeps its
    /// instance, and nothing changes.
    pub fn install(
        &mut self,
        id: ModuleId,
        m: T,
        commands: Vec<CommandDescriptor<C>>,
        resolvers: Vec<R>,
    ) -> (r: Result<(), BuildError>)
        requires
            old(self).wf(),
        ensures
            final(self).wf(),
            final(self).deps() == old(self).deps(),
            r is Ok <==> (id < old(self).deps().len() && !old(self).modules().contains_key(id)
                && forall|j: int| 0 <= j < old(self).deps()[id as int].len()
                    ==> old(self).modules().contains_key(#[trigger] old(self).deps()[id as int][j])),
            match r {
                Ok(_) => {
                    &&& final(self).modules() == old(self).modules().insert(id, m)
                    &&& final(self).log() == old(self).log().push(id)
                    &&& final(self).commands() == insert_all(old(self).commands(), commands@)
                    &&& final(self).resolvers() == old(self).resolvers() + resolvers@
                },
                Err(e) => {
                    &&& *final(self) == *old(self)
                    &&& if id >= old(self).deps().len() {
                        e == BuildError::UnknownModule(id)
                    } else if old(self).modules().contains_key(id) {
                        e == BuildError::AlreadyBuilt(id)
                    } else {
                        exists|j: int| 0 <= j < old(self).deps()[id as int].len()
                            && e == BuildError::MissingDependency(id, #[trigger] old(self).deps()[id as int][j])
                            && !old(self).modules().contains_key(old(self).deps()[id as int][j])
                    }
                },
            },
    {
        let ghost dv = self.deps();
        if id >= self.deps.len() {
            return Err(BuildError::UnknownModule(id));
        }
        if self.registry.contains(id) {
            return Err(BuildError::AlreadyBuilt(id));
        }
        let mut j: usize = 0;
        while j < self.deps[id].len()
            invariant
                *self == *old(self),
                self.wf(),
                !self.registry@.contains_key(id),
                dv == self.deps(),
                id < dv.len(),
                j <= dv[id as int].len(),
                forall|k: int| 0 <= k < j ==> self.registry@.contains_key(#[trigger] dv[id as int][k]),
            decreases dv[id as int].len() - j,
        {
            let d = self.deps[id][j];
            assert(d == dv[id as int][j as int]);
            if !self.registry.contains(d) {
                assert(!old(self).modules().contains_key(old(self).deps()[id as int][j as int]));
                return Err(BuildError::MissingDependency(id, d));
            }
            j = j + 1;
        }
        let ghost log0 = self.log@;
        self.registry.insert(id, m);
        self.log.push(id);
        proof {
            let l = self.log@;
            assert(l.subrange(0, log0.len() as int) =~= log0);
            assert(!log0.contains(id));
            assert forall|x: ModuleId| #[trigger] l.contains(x) <==> self.registry@.contains_key(x) by {
                if l.contains(x) && x != id {
                    let k = choose|k: int| 0 <= k < l.len() && l[k] == x;
                    assert(log0[k] == x);
                }
                if log0.contains(x) {
                    let k = choose|k: int| 0 <= k < log0.len() && log0[k] == x;
                    assert(l[k] == x);
                }
                assert(l[l.len() - 1] == id);
            }
            assert forall|i: int| 0 <= i < l.len() implies deps_ready(dv, Set::empty(), l, i) by {
                if i < log0.len() {
                    assert(l.subrange(0, i) =~= log0.subrange(0, i));
                    assert(deps_ready(dv, Set::empty(), log0, i));
                } else {
                    assert forall|k: int| 0 <= k < dv[l[i] as int].len() implies {
                        let d = #[trigger] dv[l[i] as int][k];
                        Set::<ModuleId>::empty().contains(d) || l.subrange(0, i).contains(d)
                    } by {
                        let d = dv[id as int][k];
                        assert(old(self).registry@.contains_key(d));
                        assert(log0.contains(d));
                    }
                }
            }
        }
        let ghost t0 = self.commands@;
        let ghost ds = commands@;
        let ghost mid = *self;
        let mut commands = commands;
        let ghost mut i: int = 0;
        while commands.len() > 0
            invariant
                self.deps == mid.deps,
                self.registry == mid.registry,
                self.log == mid.log,
                self.completions == mid.completions,
                self.commands.wf(),
                0 <= i <= ds.len(),
                commands@ == ds.subrange(i, ds.len() as int),
                self.commands@ == insert_all(t0, ds.subrange(0, i)),
            decreases commands@.len(),
        {
            let d = commands.remove(0);
            let ghost pre = ds.subrange(0, i);
            self.commands.insert(d);
            proof {
                i = i + 1;
                let now = ds.subrange(0, i as int);
                assert(now.drop_last() =~= pre);
                assert(now.last() == d);
                assert(commands@ =~= ds.subrange(i as int, ds.len() as int));
            }
        }
        assert(ds.subrange(0, i) =~= ds);
        let ghost c0 = self.completions@;
        let ghost rs = resolvers@;
        let ghost mid = *self;
        let mut resolvers = resolvers;
        let ghost mut k: int = 0;
        while resolvers.len() > 0
            invariant
                self.deps == mid.deps,
                self.registry == mid.registry,
                self.log == mid.log,
                self.commands == mid.commands,
                0 <= k <= rs.len(),
                resolvers@ == rs.subrange(k, rs.len() as int),
                self.completions@ == c0 + rs.subrange(0, k),
            decreases resolvers@.len(),
        {
            let r = resolvers.remove(0);
            self.completions.push(r);
            proof {
                assert(rs.subrange(0, k + 1) =~= rs.subrange(0, k).push(r));
                k = k + 1;
                assert(resolvers@ =~= rs.subrange(k, rs.len() as int));
            }
        }
        assert(rs.subrange(0, k) =~= rs);
        Ok(())
    }

    /// The modules present so far, for constructing the next one.
    pub fn registry(&self) -> (r: &ModuleRegistry<T>)
        ensures
            r@ == self.modules(),
    {
        &self.registry
    }

    /// Ends startup: the registry and the tables, read-only from here on.
    pub fn finish(self) -> (r: (ModuleRegistry<T>, CommandTable<C>, CompletionChain<R>))
        requires
            self.wf(),
        ensures
            r.0@ == self.modules(),
            r.1.wf(),
            r.1@ == self.commands(),
            r.2@ == self.resolvers(),
    {
        (self.registry, self.commands, self.completions)
    }
}

/// A module is constructed at most once. A plan holds no module twice, even
/// one that several dependents need, and never a module already present; so
/// a second request for a module plans nothing, and every caller finds the
/// one instance installed by the first.
pub proof fn lemma_constructed_once<T, C, R>(
    b: RegistryBuilder<T, C, R>,
    target: ModuleId,
    order: Seq<ModuleId>,
    m: ModuleId,
)
    requires
        b.wf(),
        is_build_plan(b.deps(), b.modules().dom(), target, order),
    ensures
        order.no_duplicates(),
        b.modules().contains_key(m) ==> !order.contains(m),
        b.modules().contains_key(target) ==> order.len() == 0,
{
    let built = b.modules().dom();
    if b.modules().contains_key(m) && order.contains(m) {
        let p = choose|p: Seq<ModuleId>| #[trigger] is_pending_path(b.deps(), built, target, p) && p.last() == m;
        assert(!built.contains(p[p.len() - 1]));
    }
    if b.modules().contains_key(target) && order.len() > 0 {
        assert(order.contains(order[0]));
        let p = choose|p: Seq<ModuleId>| #[trigger] is_pending_path(b.deps(), built, target, p) && p.last() == order[0];
        assert(!built.contains(p[0]));
    }
}

/// Over a catalog without dependency cycles, planning any module of it
/// succeeds, and the modules present were installed each once, every
/// dependency before its dependents.
pub proof fn lemma_acyclic_builds<T, C, R>(b: RegistryBuilder<T, C, R>, target: ModuleId)
    requires
        b.wf(),
        acyclic(b.deps()),
    ensures
        !pending_cycle(b.deps(), b.modules().dom(), target),
        b.log().no_duplicates(),
        forall|i: int, j: int|
            0 <= i < b.log().len() && 0 <= j < b.deps()[b.log()[i] as int].len()
                ==> b.log().subrange(0, i).contains(#[trigger] b.deps()[b.log()[i] as int][j]),
{
    assert forall|p: Seq<ModuleId>| #[trigger] is_pending_path(b.deps(), b.modules().dom(), target, p) implies p.no_duplicates() by {
        assert(is_dep_path(b.deps(), p));
    }
    assert forall|i: int, j: int|
        0 <= i < b.log().len() && 0 <= j < b.deps()[b.log()[i] as int].len()
            implies b.log().subrange(0, i).contains(#[trigger] b.deps()[b.log()[i] as int][j]) by {
        assert(deps_ready(b.deps(), Set::empty(), b.log(), i));
    }
}


} // verus!
