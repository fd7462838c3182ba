//! Properties that relate several operations of the store.
use vstd::prelude::*;
use crate::kvmap::{entries_match, lemma_entries_rebuild, lookup};
use crate::store::{
    has_hook, hooks_view, keep_first, names_unique, parts_view, with_value, without_value,
    HookView, StoreParts, StoreView,
};

verus! {

/// Storing a value twice under one key leaves the store as storing it once.
pub proof fn set_twice_same_as_once(s: StoreView, k: Seq<char>, v: Seq<char>)
    ensures
        with_value(with_value(s, k, v), k, v) == with_value(s, k, v),
{
    assert(s.kvs.insert(k, v).insert(k, v) =~= s.kvs.insert(k, v));
}

/// Reading a key that is not stored gives nothing, not an error.
pub proof fn get_absent_is_empty(s: StoreView, k: Seq<char>)
    requires
        !s.kvs.contains_key(k),
    ensures
        lookup(s.kvs, k) is None,
{
}

/// Deleting a key that is not stored gives nothing and leaves the store as
/// it was.
pub proof fn delete_absent_unchanged(s: StoreView, k: Seq<char>)
    requires
        !s.kvs.contains_key(k),
    ensures
        lookup(s.kvs, k) is None,
        without_value(s, k) == s,
{
    assert(s.kvs.remove(k) =~= s.kvs);
}

/// Adding hooks of distinct names in turn keeps them all, in order.
proof fn lemma_keep_first_unique(hs: Seq<HookView>)
    requires
        names_unique(hs),
    ensures
        keep_first(hs) == hs,
    decreases hs.len(),
{
    if hs.len() > 0 {
        let rest = hs.drop_last();
        assert(names_unique(rest)) by {
            assert forall|i: int, j: int| 0 <= i < j < rest.len() implies (#[trigger] rest[i]).name
                != (#[trigger] rest[j]).name by {
                assert(rest[i] == hs[i]);
                assert(rest[j] == hs[j]);
            }
        }
        lemma_keep_first_unique(rest);
        assert(!has_hook(rest, hs.last().name)) by {
            assert forall|i: int| 0 <= i < rest.len() implies (#[trigger] rest[i]).name
                != hs.last().name by {
                assert(rest[i] == hs[i]);
            }
        }
        assert(rest.push(hs.last()) =~= hs);
    }
}

/// The plain contents of a store describe that store again: its values,
/// its commands and its hooks in their order.
pub proof fn parts_round_trip(s: StoreView, p: StoreParts)
    requires
        entries_match(p.kvs@, s.kvs),
        entries_match(p.cmds@, s.cmds),
        hooks_view(p.hooks@) == s.hooks,
        names_unique(s.hooks),
    ensures
        parts_view(p) == s,
{
    lemma_entries_rebuild(p.kvs@, s.kvs);
    lemma_entries_rebuild(p.cmds@, s.cmds);
    lemma_keep_first_unique(s.hooks);
}

} // verus!
