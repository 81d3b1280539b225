use dashmap::DashMap;
use tree_sitter::{InputEdit, Parser, Tree};
use vstd::prelude::*;

use crate::language::parse::{edit_tree, parse_text};

verus! {

/// For how long an entry that is not used stays in the cache: 300 seconds,
/// in nanoseconds.
pub const RETENTION_NANOS: u64 = 300_000_000_000;

/// The address of a compiled function without parameters, by the kind of
/// value that the function returns.
#[derive(Debug, Clone, Copy, PartialEq, Eq, Structural)]
pub enum CompiledFnPtr {
    Integer(usize),
    Float(usize),
}

/// A compiled function and the time of its last use, in nanoseconds on the
/// caller's clock.
#[derive(Debug, Clone, Copy, PartialEq, Eq, Structural)]
pub struct CompiledFunction {
    pub code_ptr: CompiledFnPtr,
    pub last_used: u64,
}

impl CompiledFunction {
    /// Whether the function was used less than the retention window before
    /// `now`. A use that lies after `now` counts as a use at `now`.
    pub open spec fn fresh_at(&self, now: u64) -> bool {
        self.last_used >= now || now - self.last_used < RETENTION_NANOS
    }

    /// The function, used at `now`.
    pub open spec fn touched(self, now: u64) -> CompiledFunction {
        CompiledFunction { code_ptr: self.code_ptr, last_used: now }
    }

    /// The function at `address` that returns an integer, used at `now`.
    pub fn new_int(address: usize, now: u64) -> (f: Self)
        ensures
            f == (CompiledFunction { code_ptr: CompiledFnPtr::Integer(address), last_used: now }),
    {
        CompiledFunction { code_ptr: CompiledFnPtr::Integer(address), last_used: now }
    }

    /// The function at `address` that returns a float, used at `now`.
    pub fn new_float(address: usize, now: u64) -> (f: Self)
        ensures
            f == (CompiledFunction { code_ptr: CompiledFnPtr::Float(address), last_used: now }),
    {
        CompiledFunction { code_ptr: CompiledFnPtr::Float(address), last_used: now }
    }

    /// Records a use at `now`.
    pub fn update(&mut self, now: u64)
        ensures
            *final(self) == old(self).touched(now),
    {
        self.last_used = now;
    }

    /// Whether the function was used less than the retention window before
    /// `now`.
    #[verifier::when_used_as_spec(fresh_at)]
    pub fn is_fresh(&self, now: u64) -> (r: bool)
        ensures
            r == self.fresh_at(now),
    {
        self.last_used >= now || now - self.last_used < RETENTION_NANOS
    }
}

#[verifier::external_type_specification]
#[verifier::external_body]
#[verifier::reject_recursive_types(K)]
#[verifier::reject_recursive_types(V)]
#[verifier::reject_recursive_types(S)]
pub struct ExDashMap<K, V, S>(DashMap<K, V, S>);

/// The entries that a map of compiled functions holds, by key.
pub uninterp spec fn entries_of(map: DashMap<u64, CompiledFunction>) -> Map<u64, CompiledFunction>;

/// The entries of a cache that holds nothing.
pub open spec fn no_entries() -> Map<u64, CompiledFunction> {
    Map::empty()
}

/// The entries of `entries` that are fresh at `now`.
pub open spec fn swept(entries: Map<u64, CompiledFunction>, now: u64) -> Map<
    u64,
    CompiledFunction,
> {
    entries.restrict(Set::new(|key: u64| entries.contains_key(key) && entries[key].fresh_at(now)))
}

/// Trusted: `DashMap::new` returns a map without entries.
#[verifier::external_body]
fn map_new() -> (made: DashMap<u64, CompiledFunction>)
    ensures
        entries_of(made) == no_entries(),
{
    DashMap::new()
}

/// Trusted: `DashMap::get` finds the entry under `key`, if the map holds
/// one; the entry's value is copied out.
#[verifier::external_body]
fn map_get(map: &DashMap<u64, CompiledFunction>, key: u64) -> (r: Option<CompiledFunction>)
    ensures
        r == if entries_of(*map).contains_key(key) {
            Some(entries_of(*map)[key])
        } else {
            None
        },
{
    map.get(&key).map(|entry| *entry.value())
}

/// Trusted: `DashMap::insert` puts `value` under `key`, in place of what was
/// there.
#[verifier::external_body]
fn map_insert(map: &mut DashMap<u64, CompiledFunction>, key: u64, value: CompiledFunction)
    ensures
        entries_of(*final(map)) == entries_of(*old(map)).insert(key, value),
{
    map.insert(key, value);
}

/// Trusted: `DashMap::retain` keeps the entries for which the closure
/// returns true and removes the others.
#[verifier::external_body]
fn map_retain_fresh(map: &mut DashMap<u64, CompiledFunction>, now: u64)
    ensures
        entries_of(*final(map)) == swept(entries_of(*old(map)), now),
{
    map.retain(|_, entry| entry.is_fresh(now));
}

/// Trusted: `DashMap::len` is the number of entries.
#[verifier::external_body]
fn map_len(map: &DashMap<u64, CompiledFunction>) -> (n: usize)
    ensures
        n == entries_of(*map).len(),
{
    map.len()
}

/// The retained parse tree and the compiled functions, by the structural
/// hash of the expression that each was compiled from.
pub struct CompilationCache {
    last_tree: Option<Tree>,
    function_cache: DashMap<u64, CompiledFunction>,
}

impl CompilationCache {
    /// The compiled functions that the cache holds, by key.
    pub closed spec fn entries(&self) -> Map<u64, CompiledFunction> {
        entries_of(self.function_cache)
    }

    /// Whether a parse tree is retained.
    pub closed spec fn has_tree(&self) -> bool {
        self.last_tree is Some
    }

    /// A cache without entries and without a tree.
    pub fn new() -> (cache: Self)
        ensures
            cache.entries() == no_entries(),
            !cache.has_tree(),
    {
        CompilationCache { last_tree: None, function_cache: map_new() }
    }

    /// The retained parse tree.
    pub fn last_tree(&self) -> (r: Option<&Tree>)
        ensures
            r is Some == self.has_tree(),
    {
        self.last_tree.as_ref()
    }

    /// Parses `text` anew. A retained tree is first told of `edit`, so that
    /// the parser can reuse what the edit left untouched. The new tree is
    /// retained; where the parser yields none, the old one stays.
    pub fn reparse(&mut self, parser: &mut Parser, text: &[u8], edit: &InputEdit) -> (parsed: bool)
        ensures
            final(self).entries() == old(self).entries(),
            parsed ==> final(self).has_tree(),
            !parsed ==> final(self).has_tree() == old(self).has_tree(),
    {
        let previous = self.last_tree.take();
        match previous {
            Some(mut old_tree) => {
                edit_tree(&mut old_tree, edit);
                let parsed = parse_text(parser, text, Some(&old_tree));
                self.keep_tree(Some(old_tree), parsed)
            },
            None => {
                let parsed = parse_text(parser, text, None);
                self.keep_tree(None, parsed)
            },
        }
    }

    /// The retained parse tree.
    pub closed spec fn retained(&self) -> Option<Tree> {
        self.last_tree
    }

    /// Retains what a parse left: the tree that the parser yielded, or,
    /// where it yielded none, the tree `edited` that was retained before and
    /// has been told of the edit. Says whether the parser yielded a tree.
    pub fn keep_tree(&mut self, edited: Option<Tree>, parsed: Option<Tree>) -> (kept: bool)
        ensures
            kept == parsed is Some,
            final(self).retained() == if parsed is Some {
                parsed
            } else {
                edited
            },
            final(self).has_tree() == (parsed is Some || edited is Some),
            final(self).entries() == old(self).entries(),
    {
        match parsed {
            Some(tree) => {
                self.last_tree = Some(tree);
                true
            },
            None => {
                self.last_tree = edited;
                false
            },
        }
    }

    /// Looks up the function under `key`. A hit counts as a use at `now`.
    pub fn lookup(&mut self, key: u64, now: u64) -> (r: Option<CompiledFunction>)
        ensures
            final(self).has_tree() == old(self).has_tree(),
            match r {
                Some(f) => old(self).entries().contains_key(key) && f == old(self).entries()[key].touched(
                    now,
                ) && final(self).entries() == old(self).entries().insert(key, f),
                None => !old(self).entries().contains_key(key) && final(self).entries() == old(
                    self,
                ).entries(),
            },
    {
        match map_get(&self.function_cache, key) {
            Some(found) => {
                let mut entry = found;
                entry.update(now);
                map_insert(&mut self.function_cache, key, entry);
                Some(entry)
            },
            None => None,
        }
    }

    /// Puts `function` under `key`, in place of what was there.
    pub fn insert(&mut self, key: u64, function: CompiledFunction)
        ensures
            final(self).has_tree() == old(self).has_tree(),
            final(self).entries() == old(self).entries().insert(key, function),
    {
        map_insert(&mut self.function_cache, key, function);
    }

    /// Removes every entry that was last used the retention window or longer
    /// before `now`.
    pub fn sweep(&mut self, now: u64)
        ensures
            final(self).has_tree() == old(self).has_tree(),
            final(self).entries() == swept(old(self).entries(), now),
    {
        map_retain_fresh(&mut self.function_cache, now);
    }

    /// The number of entries.
    pub fn len(&self) -> (n: usize)
        ensures
            n == self.entries().len(),
    {
        map_len(&self.function_cache)
    }
}

/// An entry that was last used the retention window or longer before a sweep
/// is removed by the sweep.
pub proof fn lemma_stale_entry_is_evicted(entries: Map<u64, CompiledFunction>, key: u64, now: u64)
    requires
        entries.contains_key(key),
        now - entries[key].last_used >= RETENTION_NANOS,
    ensures
        !swept(entries, now).contains_key(key),
{
}

/// An entry that was hit less than the retention window before a sweep
/// outlasts the sweep, and so does every other entry that is fresh then; a
/// sweep changes no entry that it leaves.
pub proof fn lemma_recent_hit_is_kept(
    entries: Map<u64, CompiledFunction>,
    key: u64,
    hit: u64,
    now: u64,
)
    requires
        entries.contains_key(key),
        now - hit < RETENTION_NANOS,
    ensures
        swept(entries.insert(key, entries[key].touched(hit)), now).contains_key(key),
        swept(entries.insert(key, entries[key].touched(hit)), now)[key] == entries[key].touched(
            hit,
        ),
{
}

} // verus!
