use vstd::prelude::*;
use vstd::utf8::*;
use vstd::string::*;
use crate::module::{quoted, remove_surrounding_quotes};

verus! {

broadcast use vstd::utf8::encode_utf8_decode_utf8;

/// The name a module is cached under when it is asked for by `name`: the name without its
/// surrounding double quotes, if it has them.
pub open spec fn cache_key(name: Seq<char>) -> Seq<char> {
    let b = encode_utf8(name);
    if quoted(b) {
        decode_utf8(b.subrange(1, b.len() - 1))
    } else {
        name
    }
}

/// The map the entries make, later entries over earlier ones.
pub open spec fn entries_map<M>(es: Seq<(String, M)>) -> Map<Seq<char>, M>
    decreases es.len(),
{
    if es.len() == 0 {
        Map::empty()
    } else {
        entries_map(es.drop_last()).insert(es.last().0@, es.last().1)
    }
}

/// Whether no two entries have the same name.
pub open spec fn names_unique<M>(es: Seq<(String, M)>) -> bool {
    forall|i: int, j: int| 0 <= i < j < es.len() ==> #[trigger] es[i].0@ != #[trigger] es[j].0@
}

/// With names unique, the map holds a name exactly when an entry has it, with that
/// entry's module.
proof fn lemma_entries_map<M>(es: Seq<(String, M)>, k: Seq<char>)
    requires
        names_unique(es),
    ensures
        entries_map(es).dom().contains(k) <==> exists|i: int| 0 <= i < es.len() && #[trigger] es[i].0@ == k,
        forall|i: int| 0 <= i < es.len() && #[trigger] es[i].0@ == k ==> entries_map(es)[k] == es[i].1,
    decreases es.len(),
{
    if es.len() > 0 {
        let init = es.drop_last();
        assert(names_unique(init)) by {
            assert forall|i: int, j: int| 0 <= i < j < init.len() implies #[trigger] init[i].0@ != #[trigger] init[j].0@ by {
                assert(init[i] == es[i] && init[j] == es[j]);
            }
        }
        lemma_entries_map(init, k);
        if entries_map(es).dom().contains(k) && es.last().0@ != k {
            let i = choose|i: int| 0 <= i < init.len() && #[trigger] init[i].0@ == k;
            assert(es[i] == init[i]);
        }
        assert forall|i: int| 0 <= i < es.len() && #[trigger] es[i].0@ == k implies entries_map(es)[k] == es[i].1 by {
            if i < es.len() - 1 {
                assert(es[i] == init[i]);
                assert(es[i].0@ != es[es.len() - 1].0@);
            }
        }
        if exists|i: int| 0 <= i < es.len() && #[trigger] es[i].0@ == k {
            let i = choose|i: int| 0 <= i < es.len() && #[trigger] es[i].0@ == k;
            if i < es.len() - 1 {
                assert(init[i] == es[i]);
            }
        }
    }
}

/// Replacing the module of an entry replaces it in the map.
proof fn lemma_entries_map_update<M>(es: Seq<(String, M)>, i: int, e: (String, M))
    requires
        names_unique(es),
        0 <= i < es.len(),
        e.0@ == es[i].0@,
    ensures
        entries_map(es.update(i, e)) == entries_map(es).insert(e.0@, e.1),
        names_unique(es.update(i, e)),
    decreases es.len(),
{
    let u = es.update(i, e);
    assert(names_unique(u)) by {
        assert forall|a: int, b: int| 0 <= a < b < u.len() implies #[trigger] u[a].0@ != #[trigger] u[b].0@ by {
            assert(u[a].0@ == es[a].0@ && u[b].0@ == es[b].0@);
        }
    }
    lemma_entries_map(es, e.0@);
    lemma_entries_map(u, e.0@);
    assert forall|k: Seq<char>| #![auto] entries_map(u).dom().contains(k) <==> entries_map(es).insert(e.0@, e.1).dom().contains(k) by {
        lemma_entries_map(es, k);
        lemma_entries_map(u, k);
        if entries_map(es).dom().contains(k) {
            let j = choose|j: int| 0 <= j < es.len() && #[trigger] es[j].0@ == k;
            assert(u[j].0@ == k);
        }
        if entries_map(u).dom().contains(k) {
            let j = choose|j: int| 0 <= j < u.len() && #[trigger] u[j].0@ == k;
            assert(es[j].0@ == k);
        }
    }
    assert forall|k: Seq<char>| #[trigger] entries_map(u).dom().contains(k) implies entries_map(u)[k] == entries_map(es).insert(e.0@, e.1)[k] by {
        lemma_entries_map(es, k);
        lemma_entries_map(u, k);
        let j = choose|j: int| 0 <= j < u.len() && #[trigger] u[j].0@ == k;
        assert(u[i].0@ == e.0@);
        if j != i {
            assert(es[j] == u[j]);
        }
    }
    assert(entries_map(u) =~= entries_map(es).insert(e.0@, e.1));
}

/// A module loader that keeps the modules it has loaded, by name. Loading a module asks
/// the cache first, under the name without its quotes; a module loaded from a file is
/// then cached under its canonical path (see `insert`).
#[derive(Debug)]
pub struct BasicModuleLoader<M> {
    modules: Vec<(String, M)>,
}

impl<M> BasicModuleLoader<M> {
    /// The cached modules by name.
    pub closed spec fn cache(&self) -> Map<Seq<char>, M> {
        entries_map(self.modules@)
    }

    #[verifier::type_invariant]
    closed spec fn names_are_unique(&self) -> bool {
        names_unique(self.modules@)
    }

    /// A loader with an empty cache of modules.
    pub fn new() -> (loader: Self)
        ensures
            loader.cache() == Map::<Seq<char>, M>::empty(),
    {
        BasicModuleLoader { modules: Vec::new() }
    }

    /// The position of the entry of the given name.
    fn position(&self, name: &str) -> (r: Option<usize>)
        ensures
            match r {
                Some(i) => i < self.modules@.len() && self.modules@[i as int].0@ == name@,
                None => forall|i: int| 0 <= i < self.modules@.len() ==> #[trigger] self.modules@[i].0@ != name@,
            },
    {
        let key = name.to_owned();
        let mut i: usize = 0;
        while i < self.modules.len()
            invariant
                i <= self.modules@.len(),
                key@ == name@,
                forall|j: int| 0 <= j < i ==> #[trigger] self.modules@[j].0@ != name@,
            decreases self.modules@.len() - i,
        {
            if self.modules[i].0 == key {
                return Some(i);
            }
            i = i + 1;
        }
        None
    }

    /// The cached module of the given name, where the name may stand in double quotes as
    /// a module specifier is written.
    pub fn get(&self, name: &str) -> (r: Option<&M>)
        ensures
            match r {
                Some(m) => self.cache().dom().contains(cache_key(name@)) && *m == self.cache()[cache_key(name@)],
                None => !self.cache().dom().contains(cache_key(name@)),
            },
    {
        proof {
            use_type_invariant(self);
        }
        let key = remove_surrounding_quotes(name);
        proof {
            if quoted(name.spec_bytes()) {
                assert(decode_utf8(encode_utf8(key@)) == key@);
            }
            assert(key@ == cache_key(name@));
            lemma_entries_map(self.modules@, key@);
        }
        match self.position(key) {
            Some(i) => Some(&self.modules[i].1),
            None => None,
        }
    }

    /// Caches the module under the name as given, in place of any module cached under it.
    pub fn insert(&mut self, name: String, module: M)
        ensures
            final(self).cache() == old(self).cache().insert(name@, module),
    {
        proof {
            use_type_invariant(&*self);
        }
        let found = self.position(name.as_str());
        let mut modules: Vec<(String, M)> = Vec::new();
        std::mem::swap(&mut modules, &mut self.modules);
        let ghost before = modules@;
        match found {
            Some(i) => {
                proof {
                    lemma_entries_map_update(modules@, i as int, (name, module));
                }
                modules.set(i, (name, module));
            },
            None => {
                modules.push((name, module));
                proof {
                    assert(modules@.drop_last() =~= before);
                    assert(names_unique(modules@)) by {
                        let es = modules@;
                        assert forall|a: int, b: int| 0 <= a < b < es.len() implies #[trigger] es[a].0@ != #[trigger] es[b].0@ by {
                            if b < es.len() - 1 {
                                assert(es[a] == before[a] && es[b] == before[b]);
                            } else {
                                assert(es[a] == before[a]);
                            }
                        }
                    }
                }
            },
        }
        self.modules = modules;
    }

    /// The names the modules are cached under, each once.
    pub fn keys(&self) -> (keys: Vec<String>)
        ensures
            forall|k: Seq<char>| self.cache().dom().contains(k) <==> exists|i: int| 0 <= i < keys@.len() && #[trigger] keys@[i]@ == k,
            keys@.len() == self.cache().dom().len(),
    {
        proof {
            use_type_invariant(self);
        }
        let mut keys: Vec<String> = Vec::new();
        let mut i: usize = 0;
        while i < self.modules.len()
            invariant
                i <= self.modules@.len(),
                keys@.len() == i,
                forall|j: int| 0 <= j < i ==> #[trigger] keys@[j]@ == self.modules@[j].0@,
            decreases self.modules@.len() - i,
        {
            keys.push(self.modules[i].0.clone());
            i = i + 1;
        }
        proof {
            assert forall|k: Seq<char>| self.cache().dom().contains(k) <==> exists|i: int| 0 <= i < keys@.len() && #[trigger] keys@[i]@ == k by {
                lemma_entries_map(self.modules@, k);
                if self.cache().dom().contains(k) {
                    let j = choose|j: int| 0 <= j < self.modules@.len() && #[trigger] self.modules@[j].0@ == k;
                    assert(keys@[j]@ == k);
                }
                if exists|i: int| 0 <= i < keys@.len() && #[trigger] keys@[i]@ == k {
                    let j = choose|j: int| 0 <= j < keys@.len() && #[trigger] keys@[j]@ == k;
                    assert(self.modules@[j].0@ == k);
                }
            }
            lemma_cache_len(self.modules@);
        }
        keys
    }
}

/// With names unique, the map has one name per entry.
proof fn lemma_cache_len<M>(es: Seq<(String, M)>)
    requires
        names_unique(es),
    ensures
        entries_map(es).dom().len() == es.len(),
        entries_map(es).dom().finite(),
    decreases es.len(),
{
    if es.len() > 0 {
        let init = es.drop_last();
        assert(names_unique(init)) by {
            assert forall|i: int, j: int| 0 <= i < j < init.len() implies #[trigger] init[i].0@ != #[trigger] init[j].0@ by {
                assert(init[i] == es[i] && init[j] == es[j]);
            }
        }
        lemma_cache_len(init);
        lemma_entries_map(init, es.last().0@);
        if entries_map(init).dom().contains(es.last().0@) {
            let i = choose|i: int| 0 <= i < init.len() && #[trigger] init[i].0@ == es.last().0@;
            assert(es[i] == init[i]);
        }
    }
}

/// Asking for a module by the name it was last inserted under gives it back, when that
/// name has no surrounding quotes; and inserting under one name leaves what asking for any
/// other name gives.
pub proof fn lemma_get_after_insert<M>(cache: Map<Seq<char>, M>, name: Seq<char>, module: M, asked: Seq<char>)
    requires
        !quoted(encode_utf8(name)),
    ensures
        cache.insert(name, module).dom().contains(cache_key(name)),
        cache.insert(name, module)[cache_key(name)] == module,
        cache_key(asked) != name ==> cache.insert(name, module).dom().contains(cache_key(asked)) == cache.dom().contains(cache_key(asked)),
        cache_key(asked) != name ==> cache.insert(name, module)[cache_key(asked)] == cache[cache_key(asked)],
{
}

} // verus!
