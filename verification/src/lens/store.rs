//! The application's store of lens rules: kept in the order the user made
//! them, changed by name, and saved after every change.

use vstd::prelude::*;
use vstd::relations::injective_on;
use vstd::set_lib::{lemma_int_range, lemma_len_subset, lemma_map_size, set_int_range};
use crate::keyed::{
    has_key, index_of, inserted, keys_distinct, keys_of, lemma_index_of, lemma_index_of_found,
    lookup, removed, renamed,
};
use crate::lens::mapping::{LensMap, LensMapEntry};
use crate::ordmap::{
    rule_entries, rules_contains_key, rules_insert, rules_new, rules_shift_insert,
    rules_len, rules_shift_remove_full,
};
use crate::preferences::{data_file_of, lens_map_path};
use crate::text::{lemma_numbered_name_injective, numbered, numbered_name};

verus! {

broadcast use lemma_index_of;

/// The user's lens rules, with the file they are saved in. Every change
/// marks the store as unsaved; whoever owns the file saves it and clears the
/// mark with [`LensStore::take_unsaved`].
pub struct LensStore {
    map: LensMap,
    path: String,
    unsaved: bool,
}

impl LensStore {
    /// No two rules have the same name.
    #[verifier::type_invariant]
    spec fn names_distinct(&self) -> bool {
        keys_distinct(rule_entries(self.map))
    }

    /// The rules, in order, by name.
    pub closed spec fn entries(&self) -> Seq<(String, LensMapEntry)> {
        rule_entries(self.map)
    }

    /// The file the rules are saved in.
    pub closed spec fn file(&self) -> Seq<char> {
        self.path@
    }

    /// Whether a change has been made since the rules were last saved.
    pub closed spec fn unsaved(&self) -> bool {
        self.unsaved
    }

    /// A store of the given rules, saved in `path`, with nothing to save.
    pub fn new(map: LensMap, path: String) -> (r: LensStore)
        ensures
            r.entries() == rule_entries(map),
            keys_distinct(r.entries()),
            r.file() == path@,
            !r.unsaved(),
    {
        let _n = rules_len(&map);
        LensStore { map, path, unsaved: false }
    }

    /// The rules saved in the application's data folder: `read` is handed
    /// the file's path and gives what reading it gave, and whether the file
    /// exists. See [`LensStore::load_from`] for what follows from that; the
    /// second result says whether the unreadable file must be moved aside.
    pub fn load<E, F: FnOnce(&str) -> (Result<LensMap, E>, bool)>(read: F) -> (r: (LensStore, bool))
        requires
            forall|path: &str| call_requires(read, (path,)),
        ensures
            exists|d: Option<String>| r.0.file() == #[trigger] data_file_of(d, "lens_map.json"@),
            !r.0.unsaved(),
            keys_distinct(r.0.entries()),
            exists|path: &str, got: (Result<LensMap, E>, bool)|
                #![trigger call_ensures(read, (path,), got)]
                path@ == r.0.file() && call_ensures(read, (path,), got) && match got.0 {
                    Ok(m) => r.0.entries() == rule_entries(m) && !r.1,
                    Err(_) => r.0.entries().len() == 0 && r.1 == got.1,
                },
    {
        let path = lens_map_path();
        let (loaded, exists) = read(path.as_str());
        Self::load_from(path, loaded, exists)
    }

    /// Start from what reading `path` gave. Rules that were read are kept.
    /// On a failure the store starts empty; the second result says whether
    /// the unreadable file must be moved aside as a backup, which is so
    /// exactly when the file exists (a missing file is a first launch).
    pub fn load_from<E>(path: String, loaded: Result<LensMap, E>, path_exists: bool) -> (r: (
        LensStore,
        bool,
    ))
        ensures
            r.0.file() == path@,
            !r.0.unsaved(),
            keys_distinct(r.0.entries()),
            match loaded {
                Ok(m) => r.0.entries() == rule_entries(m) && !r.1,
                Err(_) => r.0.entries().len() == 0 && r.1 == path_exists,
            },
    {
        match loaded {
            Ok(m) => {
                let _n = rules_len(&m);
                (LensStore { map: m, path, unsaved: false }, false)
            },
            Err(_) => {
                let empty = rules_new();
                proof {
                    assert(keys_of(rule_entries(empty)) =~= Seq::<Seq<char>>::empty());
                }
                (LensStore { map: empty, path, unsaved: false }, path_exists)
            },
        }
    }

    /// The rules, in order.
    pub fn rules(&self) -> (r: &LensMap)
        ensures
            rule_entries(*r) == self.entries(),
            keys_distinct(self.entries()),
    {
        proof {
            use_type_invariant(self);
        }
        &self.map
    }

    /// The file the rules are saved in.
    pub fn path(&self) -> (r: &str)
        ensures
            r@ == self.file(),
    {
        self.path.as_str()
    }

    /// Report whether there are changes to save, and mark them saved.
    pub fn take_unsaved(&mut self) -> (r: bool)
        ensures
            r == old(self).unsaved(),
            !final(self).unsaved(),
            final(self).entries() == old(self).entries(),
            keys_distinct(final(self).entries()),
            final(self).file() == old(self).file(),
    {
        proof {
            use_type_invariant(&*self);
        }
        let r = self.unsaved;
        self.unsaved = false;
        r
    }

    /// Add a rule. A rule of the same name is replaced in its place;
    /// otherwise the new rule goes last.
    pub fn add(&mut self, name: String, entry: LensMapEntry)
        ensures
            final(self).entries() == inserted(old(self).entries(), name, entry),
            keys_distinct(final(self).entries()),
            final(self).unsaved(),
            final(self).file() == old(self).file(),
    {
        proof {
            use_type_invariant(&*self);
            add_then_lookup(self.entries(), name, entry);
        }
        let mut map = self.take_map();
        rules_insert(&mut map, name, entry);
        self.map = map;
        self.unsaved = true;
    }

    /// Remove the rule called `name`; the rules after it keep their order.
    pub fn remove(&mut self, name: &str)
        ensures
            final(self).entries() == removed(old(self).entries(), name@),
            keys_distinct(final(self).entries()),
            final(self).unsaved(),
            final(self).file() == old(self).file(),
    {
        proof {
            use_type_invariant(&*self);
            remove_forgets(self.entries(), name@);
        }
        let mut map = self.take_map();
        rules_shift_remove_full(&mut map, name);
        self.map = map;
        self.unsaved = true;
    }

    /// Apply an edit to the named rule, in place. Returns whether there was
    /// such a rule; only then is the store changed.
    pub fn update<F: FnOnce(LensMapEntry) -> LensMapEntry>(&mut self, name: &str, f: F) -> (r: bool)
        requires
            has_key(old(self).entries(), name@) ==> call_requires(
                f,
                (old(self).entries()[index_of(old(self).entries(), name@)].1,),
            ),
        ensures
            ({
                let e = old(self).entries();
                let i = index_of(e, name@);
                &&& r == (i >= 0)
                &&& r ==> exists|edited: LensMapEntry|
                    call_ensures(f, (e[i].1,), edited) && final(self).entries() == e.update(
                        i,
                        (e[i].0, edited),
                    )
                &&& r ==> final(self).unsaved()
                &&& !r ==> final(self).entries() == e && final(self).unsaved() == old(self).unsaved()
            }),
            keys_distinct(final(self).entries()),
            final(self).file() == old(self).file(),
    {
        proof {
            use_type_invariant(&*self);
        }
        let ghost e = self.entries();
        let mut map = self.take_map();
        match rules_shift_remove_full(&mut map, name) {
            None => {
                self.map = map;
                false
            },
            Some((index, key, entry)) => {
                let ghost i = index_of(e, name@);
                let edited = f(entry);
                rules_shift_insert(&mut map, index, key, edited);
                proof {
                    assert(e.remove(i).insert(i, (e[i].0, edited)) =~= e.update(i, (e[i].0, edited)));
                    assert(keys_of(e.update(i, (e[i].0, edited))) =~= keys_of(e));
                }
                self.map = map;
                self.unsaved = true;
                true
            },
        }
    }

    /// The map of rules, taken out of the store, which is left empty.
    fn take_map(&mut self) -> (m: LensMap)
        ensures
            rule_entries(m) == old(self).entries(),
            final(self).entries().len() == 0,
            final(self).file() == old(self).file(),
            final(self).unsaved() == old(self).unsaved(),
    {
        let mut m = rules_new();
        proof {
            assert(keys_of(rule_entries(m)) =~= Seq::<Seq<char>>::empty());
        }
        std::mem::swap(&mut m, &mut self.map);
        m
    }

    /// Rename a rule, preserving its position in the list. Returns whether
    /// the rename succeeded: renaming to the same name succeeds and changes
    /// nothing; a name another rule has, or a rule that does not exist, is
    /// refused and nothing changes.
    pub fn rename(&mut self, old_name: &str, new_name: String) -> (r: bool)
        ensures
            ({
                let e = old(self).entries();
                let i = index_of(e, old_name@);
                if old_name@ == new_name@ {
                    r && final(self).entries() == e && final(self).unsaved() == old(self).unsaved()
                } else if has_key(e, new_name@) || i < 0 {
                    !r && final(self).entries() == e && final(self).unsaved() == old(
                        self,
                    ).unsaved()
                } else {
                    r && final(self).entries() == renamed(e, old_name@, new_name)
                        && final(self).unsaved()
                }
            }),
            keys_distinct(final(self).entries()),
            final(self).file() == old(self).file(),
    {
        proof {
            use_type_invariant(&*self);
        }
        let ghost e = self.entries();
        if new_name == old_name.to_owned() {
            return true;
        }
        if rules_contains_key(&self.map, new_name.as_str()) {
            return false;
        }
        let mut map = self.take_map();
        match rules_shift_remove_full(&mut map, old_name) {
            None => {
                self.map = map;
                false
            },
            Some((index, _, entry)) => {
                let ghost i = index_of(e, old_name@);
                proof {
                    assert forall|j: int| 0 <= j < e.remove(i).len() implies e.remove(i)[j].0@
                        != new_name@ by {
                        if j < i {
                            assert(e.remove(i)[j] == e[j]);
                        } else {
                            assert(e.remove(i)[j] == e[j + 1]);
                        }
                    }
                    lemma_absent(e.remove(i), new_name@);
                }
                let ghost back = e[i].0;
                let ghost newn = new_name;
                rules_shift_insert(&mut map, index, new_name, entry);
                proof {
                    assert(e.remove(i).insert(i, (newn, e[i].1)) =~= e.update(
                        i,
                        (newn, e[i].1),
                    ));
                    rename_round_trip(e, old_name@, newn, back);
                }
                self.map = map;
                self.unsaved = true;
                true
            },
        }
    }

    /// A name that no rule has: `base` itself if it is free, else `base`
    /// followed by a space and the smallest number from 2 on that makes it
    /// free.
    pub fn unique_name(&self, base: &str) -> (r: String)
        requires
            self.entries().len() + 2 <= u32::MAX,
        ensures
            is_unique_name_for(self.entries(), base@, r@),
    {
        let ghost e = self.entries();
        if !rules_contains_key(&self.map, base) {
            return base.to_owned();
        }
        let mut i: u32 = 2;
        loop
            invariant
                e == self.entries(),
                e.len() + 2 <= u32::MAX,
                has_key(e, base@),
                2 <= i <= e.len() + 2,
                forall|j: nat| 2 <= j < i ==> has_key(e, #[trigger] numbered_name(base@, j)),
            decreases e.len() + 2 - i,
        {
            let candidate = numbered(base, i);
            if !rules_contains_key(&self.map, candidate.as_str()) {
                return candidate;
            }
            proof {
                if i == e.len() + 2 {
                    lemma_numbered_names_run_out(e, base@);
                }
            }
            i = i + 1;
        }
    }
}

/// `name` is the one [`LensStore::unique_name`] gives for `base`: `base`
/// itself if no rule has it, else `base` with the smallest number from 2 on
/// that no rule has; in either case a name no rule has.
pub open spec fn is_unique_name_for<V>(e: Seq<(String, V)>, base: Seq<char>, name: Seq<char>) -> bool {
    &&& !has_key(e, name)
    &&& !has_key(e, base) ==> name == base
    &&& has_key(e, base) ==> exists|n: nat|
        2 <= n && name == numbered_name(base, n) && forall|j: nat|
            2 <= j < n ==> has_key(e, #[trigger] numbered_name(base, j))
}

/// With no pair holding the key, the key is not found.
proof fn lemma_absent<V>(s: Seq<(String, V)>, k: Seq<char>)
    requires
        forall|j: int| 0 <= j < s.len() ==> s[j].0@ != k,
    ensures
        !has_key(s, k),
{
    lemma_index_of(s, k);
}

/// Among the names `base 2` to `base n+2`, all different, a sequence of `n`
/// pairs lacks at least one.
proof fn lemma_numbered_names_run_out<V>(e: Seq<(String, V)>, base: Seq<char>)
    ensures
        exists|j: nat| 2 <= j <= e.len() + 2 && !has_key(e, #[trigger] numbered_name(base, j)),
{
    if forall|j: nat| 2 <= j <= e.len() + 2 ==> has_key(e, #[trigger] numbered_name(base, j)) {
        lemma_all_numbered_names_held(e, base);
        keys_of(e).lemma_cardinality_of_set();
    }
}

/// Were all of `base 2` to `base n+2` held, there would be more different
/// keys than pairs.
proof fn lemma_all_numbered_names_held<V>(e: Seq<(String, V)>, base: Seq<char>)
    requires
        forall|j: nat| 2 <= j <= e.len() + 2 ==> has_key(e, #[trigger] numbered_name(base, j)),
    ensures
        keys_of(e).to_set().len() > e.len(),
{
    let keys = keys_of(e);
    let ks = keys.to_set();
    keys.lemma_cardinality_of_set();
    let range = set_int_range(2, e.len() as int + 3);
    lemma_int_range(2, e.len() as int + 3);
    let f = |j: int| numbered_name(base, j as nat);
    let c = range.map(f);
    assert(injective_on(f, range)) by {
        assert forall|a: int, b: int|
            range.contains(a) && range.contains(b) && #[trigger] f(a) == #[trigger] f(b) implies a
            == b by {
            lemma_numbered_name_injective(base, a as nat, b as nat);
        }
    }
    lemma_map_size(range, c, f);
    assert(c.subset_of(ks)) by {
        assert forall|x: Seq<char>| c.contains(x) implies ks.contains(x) by {
            let j = choose|j: int| range.contains(j) && f(j) == x;
            assert(has_key(e, numbered_name(base, j as nat)));
            let idx = index_of(e, x);
            assert(keys[idx] == x);
        }
    }
    lemma_len_subset(c, ks);
    assert(keys_of(e).to_set().len() <= e.len());
}

/// With distinct keys, a pair is found exactly where it stands.
proof fn lemma_found_at<V>(s: Seq<(String, V)>, j: int)
    requires
        keys_distinct(s),
        0 <= j < s.len(),
    ensures
        index_of(s, s[j].0@) == j,
{
    lemma_index_of_found(s, s[j].0@, j);
    lemma_index_of(s, s[j].0@);
    let i = index_of(s, s[j].0@);
    assert(keys_of(s)[i] == keys_of(s)[j]);
}

/// Adding a rule and looking its name up gives that rule back; every other
/// name finds what it found before; the list grows by one exactly when the
/// name was new, and no name comes to occur twice.
pub proof fn add_then_lookup<V>(e: Seq<(String, V)>, name: String, entry: V)
    ensures
        lookup(inserted(e, name, entry), name@) == Some(entry),
        forall|k: Seq<char>|
            k != name@ ==> #[trigger] lookup(inserted(e, name, entry), k) == lookup(e, k),
        inserted(e, name, entry).len() == if has_key(e, name@) {
            e.len()
        } else {
            e.len() + 1
        },
        keys_distinct(e) ==> keys_distinct(inserted(e, name, entry)),
{
    let i = index_of(e, name@);
    let f = inserted(e, name, entry);
    lemma_index_of(e, name@);
    if i >= 0 {
        assert forall|k: Seq<char>| true implies index_of(f, k) == index_of(e, k) by {
            crate::keyed::lemma_index_of_same_keys(f, e, k);
        }
        assert(keys_of(f) =~= keys_of(e));
    } else {
        assert forall|k: Seq<char>| true implies index_of(f, k) == if index_of(e, k) >= 0 {
            index_of(e, k)
        } else if name@ == k {
            e.len() as int
        } else {
            -1
        } by {
            crate::keyed::lemma_index_of_push(e, (name, entry), k);
        }
        assert forall|k: Seq<char>| k != name@ implies #[trigger] lookup(f, k) == lookup(e, k) by {
            lemma_index_of(e, k);
        }
        if keys_distinct(e) {
            assert forall|a: int, b: int|
                0 <= a < b < keys_of(f).len() implies keys_of(f)[a] != keys_of(f)[b] by {
                assert(keys_of(f)[a] == e[a].0@);
                if b == e.len() {
                    assert(e[a].0@ != name@);
                } else {
                    assert(keys_of(f)[b] == keys_of(e)[b]);
                    assert(keys_of(e)[a] != keys_of(e)[b]);
                }
            }
        }
    }
}

/// Removing a rule forgets its name; every other name finds what it found
/// before, and no name comes to occur twice.
pub proof fn remove_forgets<V>(e: Seq<(String, V)>, name: Seq<char>)
    requires
        keys_distinct(e),
    ensures
        !has_key(removed(e, name), name),
        forall|k: Seq<char>| k != name ==> #[trigger] lookup(removed(e, name), k) == lookup(e, k),
        keys_distinct(removed(e, name)),
        removed(e, name).len() == if has_key(e, name) {
            e.len() - 1
        } else {
            e.len() as int
        },
{
    let i = index_of(e, name);
    lemma_index_of(e, name);
    if i >= 0 {
        let f = e.remove(i);
        assert(keys_distinct(f)) by {
            assert forall|a: int, b: int|
                0 <= a < b < keys_of(f).len() implies keys_of(f)[a] != keys_of(f)[b] by {
                let a0 = if a < i { a } else { a + 1 };
                let b0 = if b < i { b } else { b + 1 };
                assert(keys_of(f)[a] == keys_of(e)[a0]);
                assert(keys_of(f)[b] == keys_of(e)[b0]);
            }
        }
        assert(!has_key(f, name)) by {
            lemma_index_of(f, name);
            if index_of(f, name) >= 0 {
                let j = index_of(f, name);
                let j0 = if j < i { j } else { j + 1 };
                assert(f[j] == e[j0]);
                assert(keys_of(e)[j0] == keys_of(e)[i]);
            }
        }
        assert forall|k: Seq<char>| k != name implies #[trigger] lookup(f, k) == lookup(e, k) by {
            lemma_index_of(e, k);
            lemma_index_of(f, k);
            if index_of(e, k) >= 0 {
                let j = index_of(e, k);
                let j1 = if j < i { j } else { j - 1 };
                assert(f[j1] == e[j]);
                lemma_found_at(f, j1);
            } else if index_of(f, k) >= 0 {
                let j = index_of(f, k);
                let j0 = if j < i { j } else { j + 1 };
                assert(f[j] == e[j0]);
            }
        }
    }
}

/// Renaming a rule to a name no rule has puts the new name in the rule's
/// place and forgets the old one; renaming it back then gives the rules as
/// they were, names and order and all. No name comes to occur twice.
pub proof fn rename_round_trip<V>(e: Seq<(String, V)>, a: Seq<char>, b: String, back: String)
    requires
        keys_distinct(e),
        has_key(e, a),
        !has_key(e, b@),
        back@ == a,
    ensures
        index_of(renamed(e, a, b), b@) == index_of(e, a),
        !has_key(renamed(e, a, b), a),
        keys_distinct(renamed(e, a, b)),
        keys_of(renamed(renamed(e, a, b), b@, back)) == keys_of(e),
        renamed(renamed(e, a, b), b@, back).len() == e.len(),
        forall|j: int|
            0 <= j < e.len() ==> #[trigger] renamed(renamed(e, a, b), b@, back)[j].1 == e[j].1,
{
    let i = index_of(e, a);
    lemma_index_of(e, a);
    lemma_index_of(e, b@);
    let f = renamed(e, a, b);
    assert(keys_distinct(f)) by {
        assert forall|x: int, y: int|
            0 <= x < y < keys_of(f).len() implies keys_of(f)[x] != keys_of(f)[y] by {
            if x == i {
                assert(keys_of(f)[y] == e[y].0@);
            } else if y == i {
                assert(keys_of(f)[x] == e[x].0@);
            } else {
                assert(keys_of(f)[x] == keys_of(e)[x]);
                assert(keys_of(f)[y] == keys_of(e)[y]);
            }
        }
    }
    lemma_found_at(f, i);
    assert(!has_key(f, a)) by {
        lemma_index_of(f, a);
        if index_of(f, a) >= 0 {
            let j = index_of(f, a);
            assert(j != i);
            assert(keys_of(e)[j] == keys_of(e)[i]);
        }
    }
    let g = renamed(f, b@, back);
    assert(keys_of(g) =~= keys_of(e));
}

} // verus!
