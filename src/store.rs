use vstd::prelude::*;
use crate::kvmap::KvMap;
use crate::op::OpType;

verus! {

/// A rule that runs the command named `cmd_name` whenever an operation of
/// kind `run_on` is performed on `key`.
pub struct Hook {
    pub name: String,
    pub cmd_name: String,
    pub run_on: OpType,
    pub key: String,
}

/// The mathematical value of a hook.
pub struct HookView {
    pub name: Seq<char>,
    pub cmd_name: Seq<char>,
    pub run_on: OpType,
    pub key: Seq<char>,
}

impl View for Hook {
    type V = HookView;

    open spec fn view(&self) -> HookView {
        HookView { name: self.name@, cmd_name: self.cmd_name@, run_on: self.run_on, key: self.key@ }
    }
}

/// The views of a sequence of hooks.
pub open spec fn hooks_view(hs: Seq<Hook>) -> Seq<HookView> {
    hs.map_values(|h: Hook| h@)
}

/// No two hooks share a name.
pub open spec fn names_unique(hs: Seq<HookView>) -> bool {
    forall|i: int, j: int| 0 <= i < j < hs.len() ==> (#[trigger] hs[i]).name != (#[trigger] hs[j]).name
}

/// Some hook in `hs` is called `name`.
pub open spec fn has_hook(hs: Seq<HookView>, name: Seq<char>) -> bool {
    exists|i: int| 0 <= i < hs.len() && (#[trigger] hs[i]).name == name
}

/// Why a change to the hooks was refused.
#[derive(PartialEq, Eq, Structural, Debug, Clone, Copy)]
pub enum HookError {
    /// A hook of that name exists already.
    DuplicateHookName,
    /// No hook has that name.
    HookNotFound,
}

/// The whole persisted state: stored values, named commands, and the hooks
/// in the order they were added.
pub struct KVStore {
    kvs: KvMap,
    cmds: KvMap,
    hooks: Vec<Hook>,
}

/// The mathematical value of a store.
pub struct StoreView {
    pub kvs: Map<Seq<char>, Seq<char>>,
    pub cmds: Map<Seq<char>, Seq<char>>,
    pub hooks: Seq<HookView>,
}

/// `s` with `v` stored under the data key `k`.
pub open spec fn with_value(s: StoreView, k: Seq<char>, v: Seq<char>) -> StoreView {
    StoreView { kvs: s.kvs.insert(k, v), ..s }
}

/// `s` without the data key `k`.
pub open spec fn without_value(s: StoreView, k: Seq<char>) -> StoreView {
    StoreView { kvs: s.kvs.remove(k), ..s }
}

/// `s` with the command `v` stored under the name `k`.
pub open spec fn with_command(s: StoreView, k: Seq<char>, v: Seq<char>) -> StoreView {
    StoreView { cmds: s.cmds.insert(k, v), ..s }
}

/// The map that the pairs `es` make when each is stored in turn, so that of
/// two pairs with one key the later one counts.
pub open spec fn pairs_map(es: Seq<(String, String)>) -> Map<Seq<char>, Seq<char>>
    decreases es.len(),
{
    if es.len() == 0 {
        Map::empty()
    } else {
        pairs_map(es.drop_last()).insert(es.last().0@, es.last().1@)
    }
}

/// The hooks `hs` added in turn, so that of two hooks with one name the
/// earlier one stays and the later one is refused.
pub open spec fn keep_first(hs: Seq<HookView>) -> Seq<HookView>
    decreases hs.len(),
{
    if hs.len() == 0 {
        Seq::empty()
    } else {
        let r = keep_first(hs.drop_last());
        if has_hook(r, hs.last().name) {
            r
        } else {
            r.push(hs.last())
        }
    }
}

/// The plain contents of a store, as a serialised file holds them.
pub struct StoreParts {
    pub kvs: Vec<(String, String)>,
    pub cmds: Vec<(String, String)>,
    pub hooks: Vec<Hook>,
}

/// The store that `p` describes.
pub open spec fn parts_view(p: StoreParts) -> StoreView {
    StoreView {
        kvs: pairs_map(p.kvs@),
        cmds: pairs_map(p.cmds@),
        hooks: keep_first(hooks_view(p.hooks@)),
    }
}

impl Hook {
    /// A copy of this hook.
    pub fn duplicate(&self) -> (r: Hook)
        ensures
            r@ == self@,
    {
        Hook {
            name: self.name.clone(),
            cmd_name: self.cmd_name.clone(),
            run_on: self.run_on,
            key: self.key.clone(),
        }
    }
}

impl View for KVStore {
    type V = StoreView;

    closed spec fn view(&self) -> StoreView {
        StoreView { kvs: self.kvs@, cmds: self.cmds@, hooks: hooks_view(self.hooks@) }
    }
}

impl KVStore {
    #[verifier::type_invariant]
    closed spec fn inv(self) -> bool {
        names_unique(hooks_view(self.hooks@))
    }

    /// The store that a missing or unreadable file stands for: nothing stored,
    /// no commands, no hooks.
    pub fn new() -> (r: KVStore)
        ensures
            r@.kvs == Map::<Seq<char>, Seq<char>>::empty(),
            r@.cmds == Map::<Seq<char>, Seq<char>>::empty(),
            r@.hooks == Seq::<HookView>::empty(),
    {
        let r = KVStore { kvs: KvMap::new(), cmds: KvMap::new(), hooks: Vec::new() };
        proof {
            assert(hooks_view(r.hooks@) =~= Seq::<HookView>::empty());
        }
        r
    }

    /// The store that the plain contents `p` describe: the pairs stored in
    /// turn, then the hooks added in turn.
    pub fn from_parts(p: StoreParts) -> (r: KVStore)
        ensures
            r@ == parts_view(p),
    {
        let mut store = KVStore::new();
        let mut i: usize = 0;
        while i < p.kvs.len()
            invariant
                i <= p.kvs.len(),
                store@.kvs == pairs_map(p.kvs@.subrange(0, i as int)),
                store@.cmds == Map::<Seq<char>, Seq<char>>::empty(),
                store@.hooks == Seq::<HookView>::empty(),
            decreases p.kvs.len() - i,
        {
            proof {
                assert(p.kvs@.subrange(0, i + 1).drop_last() =~= p.kvs@.subrange(0, i as int));
            }
            store.set_value(p.kvs[i].0.as_str(), p.kvs[i].1.as_str());
            i = i + 1;
        }
        proof {
            assert(p.kvs@.subrange(0, i as int) =~= p.kvs@);
        }
        let mut i: usize = 0;
        while i < p.cmds.len()
            invariant
                i <= p.cmds.len(),
                store@.kvs == pairs_map(p.kvs@),
                store@.cmds == pairs_map(p.cmds@.subrange(0, i as int)),
                store@.hooks == Seq::<HookView>::empty(),
            decreases p.cmds.len() - i,
        {
            proof {
                assert(p.cmds@.subrange(0, i + 1).drop_last() =~= p.cmds@.subrange(0, i as int));
            }
            store.set_command(p.cmds[i].0.as_str(), p.cmds[i].1.as_str());
            i = i + 1;
        }
        proof {
            assert(p.cmds@.subrange(0, i as int) =~= p.cmds@);
            assert(keep_first(hooks_view(p.hooks@).subrange(0, 0)) =~= Seq::<HookView>::empty());
        }
        let mut i: usize = 0;
        while i < p.hooks.len()
            invariant
                i <= p.hooks.len(),
                store@.kvs == pairs_map(p.kvs@),
                store@.cmds == pairs_map(p.cmds@),
                store@.hooks == keep_first(hooks_view(p.hooks@).subrange(0, i as int)),
            decreases p.hooks.len() - i,
        {
            let ghost hv = hooks_view(p.hooks@);
            proof {
                assert(hv.subrange(0, i + 1).drop_last() =~= hv.subrange(0, i as int));
                assert(hv.subrange(0, i + 1).last() == p.hooks@[i as int]@);
            }
            let h = p.hooks[i].duplicate();
            let _ = add_hook(&mut store, h.name, h.cmd_name, h.run_on, h.key);
            i = i + 1;
        }
        proof {
            assert(hooks_view(p.hooks@).subrange(0, i as int) =~= hooks_view(p.hooks@));
        }
        store
    }

    /// The store that a load hands over: the one described by what was
    /// decoded, or the empty store when the file was missing, empty or could
    /// not be decoded.
    pub fn from_loaded(decoded: Option<StoreParts>) -> (r: KVStore)
        ensures
            match decoded {
                Some(p) => r@ == parts_view(p),
                None => r@ == (StoreView {
                    kvs: Map::empty(),
                    cmds: Map::empty(),
                    hooks: Seq::empty(),
                }),
            },
    {
        match decoded {
            Some(p) => KVStore::from_parts(p),
            None => KVStore::new(),
        }
    }

    /// The plain contents of this store: each pair once, and the hooks in
    /// order.
    pub fn to_parts(&self) -> (r: StoreParts)
        ensures
            crate::kvmap::entries_match(r.kvs@, self@.kvs),
            crate::kvmap::entries_match(r.cmds@, self@.cmds),
            hooks_view(r.hooks@) == self@.hooks,
    {
        let mut hooks: Vec<Hook> = Vec::new();
        let mut i: usize = 0;
        while i < self.hooks.len()
            invariant
                i <= self.hooks.len(),
                hooks_view(hooks@) == hooks_view(self.hooks@).subrange(0, i as int),
            decreases self.hooks.len() - i,
        {
            let h = self.hooks[i].duplicate();
            let ghost before = hooks@;
            hooks.push(h);
            proof {
                assert(hooks_view(hooks@) =~= hooks_view(before).push(h@));
                assert(hooks_view(self.hooks@).subrange(0, i + 1) =~= hooks_view(
                    self.hooks@,
                ).subrange(0, i as int).push(h@));
            }
            i = i + 1;
        }
        proof {
            assert(hooks_view(self.hooks@).subrange(0, i as int) =~= hooks_view(self.hooks@));
        }
        StoreParts { kvs: self.kvs.entries(), cmds: self.cmds.entries(), hooks }
    }

    /// The stored values.
    pub fn kvs(&self) -> (r: &KvMap)
        ensures
            r@ == self@.kvs,
    {
        &self.kvs
    }

    /// The named commands.
    pub fn cmds(&self) -> (r: &KvMap)
        ensures
            r@ == self@.cmds,
    {
        &self.cmds
    }

    /// The hooks, in order.
    pub fn hooks(&self) -> (r: &Vec<Hook>)
        ensures
            hooks_view(r@) == self@.hooks,
            names_unique(self@.hooks),
    {
        proof {
            use_type_invariant(self);
        }
        &self.hooks
    }

    /// Stores `v` under the data key `k`.
    pub fn set_value(&mut self, k: &str, v: &str)
        ensures
            final(self)@ == with_value(old(self)@, k@, v@),
    {
        let mut taken = KVStore::new();
        std::mem::swap(&mut taken, self);
        proof {
            use_type_invariant(&taken);
        }
        let KVStore { mut kvs, mut cmds, hooks } = taken;
        crate::kvmap::set_key(k, v, &mut kvs);
        *self = KVStore { kvs, cmds, hooks };
    }

    /// Removes the data key `k`, handing back its value if it had one.
    pub fn del_value(&mut self, k: &str) -> (r: Option<String>)
        ensures
            crate::kvmap::opt_view(r) == crate::kvmap::lookup(old(self)@.kvs, k@),
            final(self)@ == without_value(old(self)@, k@),
    {
        let mut taken = KVStore::new();
        std::mem::swap(&mut taken, self);
        proof {
            use_type_invariant(&taken);
        }
        let KVStore { mut kvs, cmds, hooks } = taken;
        let r = crate::kvmap::del_key(k, &mut kvs);
        *self = KVStore { kvs, cmds, hooks };
        r
    }

    /// Stores the command `v` under the name `k`.
    pub fn set_command(&mut self, k: &str, v: &str)
        ensures
            final(self)@ == with_command(old(self)@, k@, v@),
    {
        let mut taken = KVStore::new();
        std::mem::swap(&mut taken, self);
        proof {
            use_type_invariant(&taken);
        }
        let KVStore { mut kvs, mut cmds, hooks } = taken;
        crate::kvmap::set_key(k, v, &mut cmds);
        *self = KVStore { kvs, cmds, hooks };
    }
}

impl Default for KVStore {
    fn default() -> (r: KVStore)
        ensures
            r@.kvs == Map::<Seq<char>, Seq<char>>::empty(),
            r@.cmds == Map::<Seq<char>, Seq<char>>::empty(),
            r@.hooks == Seq::<HookView>::empty(),
    {
        KVStore::new()
    }
}

/// Appends a hook, unless one of that name exists already; then the store
/// is left as it was.
pub fn add_hook(store: &mut KVStore, name: String, cmd_name: String, run_on: OpType, key: String) -> (r:
    Result<(), HookError>)
    ensures
        r is Err <==> has_hook(old(store)@.hooks, name@),
        r matches Err(e) ==> e == HookError::DuplicateHookName && final(store)@ == old(store)@,
        r is Ok ==> final(store)@ == (StoreView {
            hooks: old(store)@.hooks.push(
                HookView { name: name@, cmd_name: cmd_name@, run_on, key: key@ },
            ),
            ..old(store)@
        }),
{
    proof {
        use_type_invariant(&*store);
    }
    let mut i: usize = 0;
    while i < store.hooks.len()
        invariant
            i <= store.hooks.len(),
            forall|j: int| 0 <= j < i ==> (#[trigger] store.hooks@[j]).name@ != name@,
        decreases store.hooks.len() - i,
    {
        if store.hooks[i].name == name {
            proof {
                assert(hooks_view(store.hooks@)[i as int].name == name@);
            }
            return Err(HookError::DuplicateHookName);
        }
        i = i + 1;
    }
    let ghost old_hooks = store.hooks@;
    let new_hook = Hook { name, cmd_name, run_on, key };
    let mut taken = KVStore::new();
    std::mem::swap(&mut taken, store);
    let KVStore { kvs, cmds, mut hooks } = taken;
    hooks.push(new_hook);
    proof {
        assert(hooks_view(hooks@) =~= hooks_view(old_hooks).push(new_hook@));
        assert forall|a: int, b: int| 0 <= a < b < hooks@.len() implies (#[trigger] hooks_view(
            hooks@)[a]).name != (#[trigger] hooks_view(hooks@)[b]).name by {
            assert(hooks_view(old_hooks)[a].name == old_hooks[a].name@);
            if b < old_hooks.len() {
                assert(hooks_view(old_hooks)[b].name == old_hooks[b].name@);
            }
        }
    }
    *store = KVStore { kvs, cmds, hooks };
    Ok(())
}

/// Removes the hook called `name`; when there is none, reports it and leaves
/// the store as it was.
pub fn rm_hook(store: &mut KVStore, name: &str) -> (r: Result<(), HookError>)
    ensures
        r is Err <==> !has_hook(old(store)@.hooks, name@),
        r matches Err(e) ==> e == HookError::HookNotFound && final(store)@ == old(store)@,
        r is Ok ==> exists|i: int|
            0 <= i < old(store)@.hooks.len() && (#[trigger] old(store)@.hooks[i]).name == name@
                && final(store)@ == (StoreView { hooks: old(store)@.hooks.remove(i), ..old(store)@ }),
{
    proof {
        use_type_invariant(&*store);
    }
    let target = name.to_owned();
    let mut i: usize = 0;
    while i < store.hooks.len()
        invariant
            i <= store.hooks.len(),
            target@ == name@,
            *store == *old(store),
            names_unique(hooks_view(store.hooks@)),
            forall|j: int| 0 <= j < i ==> (#[trigger] store.hooks@[j]).name@ != name@,
        decreases store.hooks.len() - i,
    {
        if store.hooks[i].name == target {
            let ghost old_hooks = store.hooks@;
            let mut taken = KVStore::new();
            std::mem::swap(&mut taken, store);
            let KVStore { kvs, cmds, mut hooks } = taken;
            hooks.remove(i);
            proof {
                assert(hooks_view(hooks@) =~= hooks_view(old_hooks).remove(i as int));
                let hv = hooks_view(old_hooks);
                assert forall|a: int, b: int| 0 <= a < b < hooks@.len() implies (
                #[trigger] hooks_view(hooks@)[a]).name != (#[trigger] hooks_view(hooks@)[b]).name by {
                    let oa = if a < i { a } else { a + 1 };
                    let ob = if b < i { b } else { b + 1 };
                    assert(hooks_view(hooks@)[a] == hv[oa]);
                    assert(hooks_view(hooks@)[b] == hv[ob]);
                }
                assert(hv[i as int].name == name@);
            }
            *store = KVStore { kvs, cmds, hooks };
            return Ok(());
        }
        i = i + 1;
    }
    proof {
        assert forall|j: int| 0 <= j < old(store)@.hooks.len() implies (
        #[trigger] old(store)@.hooks[j]).name != name@ by {
            assert(old(store)@.hooks[j] == store.hooks@[j]@);
        }
    }
    Err(HookError::HookNotFound)
}

} // verus!
