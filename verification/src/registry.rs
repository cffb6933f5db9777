//! The program registry: the unique-keyed, ordered in-memory store of
//! programs.  Entries are kept strictly sorted by name (lexicographic by
//! Unicode scalar value), which is also the display and search order.
//! The registry is built once by folding the catalog's program list; a later
//! catalog entry overwrites an earlier one with the same name.

use vstd::prelude::*;

use crate::program::{ConfigLoad, Programm, ProgrammStatus, SpecProgram};
use crate::strings::{
    lemma_lex_lt_neq, lemma_lex_lt_trans, lemma_lex_lt_trichotomy, lex_lt, str_eq, str_lt,
};
use crate::views::{lemma_deep_view_insert, lemma_deep_view_push, lemma_deep_view_update};

verus! {

/// The names of a sequence of entries, in the same order.
pub open spec fn names_of(s: Seq<SpecProgram>) -> Seq<Seq<char>> {
    s.map_values(|p: SpecProgram| p.name)
}

/// Strictly ascending lexicographic order; rules out duplicate names.
pub open spec fn sorted_strict(names: Seq<Seq<char>>) -> bool {
    forall|i: int, j: int| 0 <= i < j < names.len() ==> lex_lt(names[i], names[j])
}

pub open spec fn seq_contains_name(s: Seq<SpecProgram>, n: Seq<char>) -> bool {
    exists|i: int| 0 <= i < s.len() && s[i].name == n
}

/// The entry stored under a name, if any.  Meaningful when names are unique.
pub open spec fn seq_lookup(s: Seq<SpecProgram>, n: Seq<char>) -> Option<SpecProgram> {
    if seq_contains_name(s, n) {
        let i = choose|i: int| 0 <= i < s.len() && s[i].name == n;
        Some(s[i])
    } else {
        None
    }
}

/// Every entry named `n` gets the given status; all others are untouched.
pub open spec fn seq_set_status(
    s: Seq<SpecProgram>,
    n: Seq<char>,
    status: ProgrammStatus,
) -> Seq<SpecProgram> {
    s.map_values(
        |p: SpecProgram|
            if p.name == n {
                SpecProgram { status, ..p }
            } else {
                p
            },
    )
}

/// The entry a catalog yields for a name: the last one with that name wins.
pub open spec fn spec_catalog_lookup(cat: Seq<SpecProgram>, n: Seq<char>) -> Option<SpecProgram>
    decreases cat.len(),
{
    if cat.len() == 0 {
        None
    } else if cat.last().name == n {
        Some(cat.last())
    } else {
        spec_catalog_lookup(cat.drop_last(), n)
    }
}

/// A catalog yields an entry for exactly the names that occur in it.
pub proof fn lemma_catalog_lookup_contains(cat: Seq<SpecProgram>, n: Seq<char>)
    ensures
        spec_catalog_lookup(cat, n) is Some <==> seq_contains_name(cat, n),
    decreases cat.len(),
{
    if cat.len() > 0 {
        lemma_catalog_lookup_contains(cat.drop_last(), n);
        if cat.last().name == n {
            assert(cat[cat.len() - 1].name == n);
        } else {
            if seq_contains_name(cat.drop_last(), n) {
                let i = choose|i: int|
                    0 <= i < cat.drop_last().len() && cat.drop_last()[i].name == n;
                assert(cat[i].name == n);
            }
            if seq_contains_name(cat, n) {
                let i = choose|i: int| 0 <= i < cat.len() && cat[i].name == n;
                assert(i < cat.len() - 1);
                assert(cat.drop_last()[i].name == n);
            }
        }
    }
}

/// The ordered registry.  Invariant: entry names strictly ascend.
pub struct Registry {
    programms: Vec<Programm>,
}

impl View for Registry {
    type V = Seq<SpecProgram>;

    closed spec fn view(&self) -> Seq<SpecProgram> {
        self.programms.deep_view()
    }
}

impl Registry {
    pub open spec fn names(&self) -> Seq<Seq<char>> {
        names_of(self@)
    }

    pub open spec fn wf(&self) -> bool {
        sorted_strict(self.names())
    }

    pub open spec fn contains_name(&self, n: Seq<char>) -> bool {
        seq_contains_name(self@, n)
    }

    pub open spec fn spec_lookup(&self, n: Seq<char>) -> Option<SpecProgram> {
        seq_lookup(self@, n)
    }

    /// Distinct positions hold distinct names.
    pub proof fn lemma_unique(&self)
        requires
            self.wf(),
        ensures
            forall|i: int, j: int|
                0 <= i < self@.len() && 0 <= j < self@.len() && i != j ==> (#[trigger] self@[i].name)
                    != (#[trigger] self@[j].name),
    {
        assert forall|i: int, j: int|
            0 <= i < self@.len() && 0 <= j < self@.len() && i != j implies (
        #[trigger] self@[i].name) != (#[trigger] self@[j].name) by {
            if i < j {
                assert(lex_lt(self.names()[i], self.names()[j]));
                lemma_lex_lt_neq(self@[i].name, self@[j].name);
            } else {
                assert(lex_lt(self.names()[j], self.names()[i]));
                lemma_lex_lt_neq(self@[j].name, self@[i].name);
            }
        }
    }

    /// Looking up the name stored at a position finds exactly that entry.
    pub proof fn lemma_lookup_at(&self, i: int)
        requires
            self.wf(),
            0 <= i < self@.len(),
        ensures
            self.spec_lookup(self@[i].name) == Some(self@[i]),
    {
        self.lemma_unique();
        assert(seq_contains_name(self@, self@[i].name));
        let j = choose|j: int| 0 <= j < self@.len() && self@[j].name == self@[i].name;
        assert(j == i);
    }

    /// An empty registry.
    pub fn new() -> (r: Registry)
        ensures
            r@ == Seq::<SpecProgram>::empty(),
            r.wf(),
    {
        let r = Registry { programms: Vec::new() };
        proof {
            assert(r@ =~= Seq::<SpecProgram>::empty());
        }
        r
    }

    pub fn len(&self) -> (n: usize)
        ensures
            n == self@.len(),
    {
        self.programms.len()
    }

    /// A copy of the entry stored under `name`, if any.
    pub fn lookup(&self, name: &str) -> (r: Option<Programm>)
        requires
            self.wf(),
        ensures
            match r {
                Some(p) => self.spec_lookup(name@) == Some(p@),
                None => self.spec_lookup(name@) == None::<SpecProgram>,
            },
    {
        let ghost n = name@;
        let mut i: usize = 0;
        while i < self.programms.len()
            invariant
                self.wf(),
                i <= self@.len(),
                n == name@,
                forall|j: int| 0 <= j < i ==> (#[trigger] self@[j].name) != n,
            decreases self@.len() - i,
        {
            if str_eq(self.programms[i].name.as_str(), name) {
                proof {
                    self.lemma_lookup_at(i as int);
                }
                return Some(self.programms[i].duplicate());
            }
            i = i + 1;
        }
        proof {
            if seq_contains_name(self@, n) {
                let j = choose|j: int| 0 <= j < self@.len() && self@[j].name == n;
                assert(self@[j].name != n);
            }
        }
        None
    }

    /// The names of all entries, in registry order.
    pub fn ordered_names(&self) -> (r: Vec<String>)
        ensures
            r.deep_view() == self.names(),
    {
        let mut r: Vec<String> = Vec::new();
        let mut i: usize = 0;
        proof {
            assert(r.deep_view() =~= self.names().take(0));
        }
        while i < self.programms.len()
            invariant
                i <= self@.len(),
                r.deep_view() == self.names().take(i as int),
            decreases self@.len() - i,
        {
            let ghost pre = r;
            let s = self.programms[i].name.clone();
            let ghost sg = s;
            r.push(s);
            i = i + 1;
            proof {
                lemma_deep_view_push(pre, r, sg);
                assert(self.names().take(i as int) =~= self.names().take(i - 1).push(
                    self@[i - 1].name,
                ));
            }
        }
        proof {
            assert(self.names().take(self@.len() as int) =~= self.names());
        }
        r
    }

    /// Copies of all entries, in registry order.
    pub fn iter_ordered(&self) -> (r: Vec<Programm>)
        ensures
            r.deep_view() == self@,
    {
        let mut r: Vec<Programm> = Vec::new();
        let mut i: usize = 0;
        proof {
            assert(r.deep_view() =~= self@.take(0));
        }
        while i < self.programms.len()
            invariant
                i <= self@.len(),
                r.deep_view() == self@.take(i as int),
            decreases self@.len() - i,
        {
            let ghost pre = r;
            let p = self.programms[i].duplicate();
            let ghost pg = p;
            r.push(p);
            i = i + 1;
            proof {
                lemma_deep_view_push(pre, r, pg);
                assert(self@.take(i as int) =~= self@.take(i - 1).push(self@[i - 1]));
            }
        }
        proof {
            assert(self@.take(self@.len() as int) =~= self@);
        }
        r
    }

    /// Give the entry stored under `name` the given status; a no-op when the
    /// name is absent.
    pub fn set_status(&mut self, name: &str, status: ProgrammStatus)
        requires
            old(self).wf(),
        ensures
            final(self).wf(),
            final(self)@ == seq_set_status(old(self)@, name@, status),
    {
        let ghost n = name@;
        let ghost orig = self@;
        let mut i: usize = 0;
        while i < self.programms.len()
            invariant
                self.wf(),
                self@ == orig,
                orig == old(self)@,
                i <= self@.len(),
                n == name@,
                forall|j: int| 0 <= j < i ==> (#[trigger] self@[j].name) != n,
            decreases self@.len() - i,
        {
            if str_eq(self.programms[i].name.as_str(), name) {
                proof {
                    self.lemma_unique();
                }
                let ghost pre = self.programms;
                let p = &mut self.programms[i];
                p.status = status;
                proof {
                    let cur = self.programms;
                    lemma_deep_view_update(pre, cur, i as int, cur@[i as int]);
                    assert(orig[i as int].name == n);
                    assert(cur@[i as int].deep_view() =~= (SpecProgram {
                        status,
                        ..orig[i as int]
                    }));
                    assert forall|j: int| 0 <= j < orig.len() implies self@[j] == seq_set_status(
                        orig,
                        n,
                        status,
                    )[j] by {
                        if j != i {
                            assert(orig[j].name != n);
                        }
                    }
                    assert(self@ =~= seq_set_status(orig, n, status));
                    assert(self.names() =~= names_of(orig));
                }
                return ;
            }
            i = i + 1;
        }
        proof {
            assert forall|j: int| 0 <= j < orig.len() implies self@[j] == seq_set_status(
                orig,
                n,
                status,
            )[j] by {
                assert(orig[j].name != n);
            }
            assert(self@ =~= seq_set_status(orig, n, status));
        }
    }

    /// Insert an entry at its ordered position, overwriting an entry that
    /// already carries the same name.
    pub fn upsert(&mut self, p: Programm)
        requires
            old(self).wf(),
        ensures
            final(self).wf(),
            final(self).spec_lookup(p@.name) == Some(p@),
            forall|n: Seq<char>|
                n != p@.name ==> #[trigger] final(self).spec_lookup(n) == old(self).spec_lookup(n),
            old(self).contains_name(p@.name) ==> final(self)@.len() == old(self)@.len(),
            !old(self).contains_name(p@.name) ==> final(self)@.len() == old(self)@.len() + 1,
    {
        let ghost orig = self@;
        let ghost pn = p@.name;
        let mut i: usize = 0;
        while i < self.programms.len() && str_lt(self.programms[i].name.as_str(), p.name.as_str())
            invariant
                self.wf(),
                self@ == orig,
                orig == old(self)@,
                i <= self@.len(),
                pn == p@.name,
                forall|j: int| 0 <= j < i ==> lex_lt(#[trigger] self@[j].name, pn),
            decreases self@.len() - i,
        {
            i = i + 1;
        }
        proof {
            self.lemma_unique();
        }
        if i < self.programms.len() && str_eq(self.programms[i].name.as_str(), p.name.as_str()) {
            let ghost pre = self.programms;
            let ghost pg = p;
            let slot = &mut self.programms[i];
            *slot = p;
            proof {
                lemma_deep_view_update(pre, self.programms, i as int, pg);
                assert(self@ == orig.update(i as int, pg.deep_view()));
                assert(self@[i as int] == pg.deep_view());
                self.lemma_after_replace(orig, i as int);
                assert(seq_contains_name(orig, pn));
            }
        } else {
            let ghost ii = i as int;
            proof {
                if i < self.programms.len() {
                    assert(!lex_lt(orig[ii].name, pn));
                    lemma_lex_lt_trichotomy(orig[ii].name, pn);
                    assert(lex_lt(pn, orig[ii].name));
                }
                assert forall|j: int| ii <= j < orig.len() implies lex_lt(
                    pn,
                    #[trigger] orig[j].name,
                ) by {
                    if j > ii {
                        assert(lex_lt(names_of(orig)[ii], names_of(orig)[j]));
                        lemma_lex_lt_trans(pn, orig[ii].name, orig[j].name);
                    }
                }
                assert forall|j: int| 0 <= j < orig.len() implies (#[trigger] orig[j].name)
                    != pn by {
                    if j < ii {
                        lemma_lex_lt_neq(orig[j].name, pn);
                    } else {
                        lemma_lex_lt_neq(pn, orig[j].name);
                    }
                }
                assert(!seq_contains_name(orig, pn));
            }
            let ghost pre = self.programms;
            let ghost pg = p;
            self.programms.insert(i, p);
            proof {
                lemma_deep_view_insert(pre, self.programms, ii, pg);
                assert(self@ == orig.insert(ii, pg.deep_view()));
                assert(self@[ii] == pg.deep_view());
                self.lemma_after_insert(orig, ii);
            }
        }
    }

    /// After replacing position `i` by an entry with the same name, the
    /// registry is still sorted and lookups change only for that name.
    proof fn lemma_after_replace(&self, orig: Seq<SpecProgram>, i: int)
        requires
            sorted_strict(names_of(orig)),
            0 <= i < orig.len(),
            self@.len() == orig.len(),
            self@ == orig.update(i, self@[i]),
            self@[i].name == orig[i].name,
        ensures
            self.wf(),
            self.spec_lookup(self@[i].name) == Some(self@[i]),
            forall|n: Seq<char>|
                n != self@[i].name ==> #[trigger] self.spec_lookup(n) == seq_lookup(orig, n),
    {
        assert(self.names() =~= names_of(orig));
        self.lemma_lookup_at(i);
        assert forall|n: Seq<char>| n != self@[i].name implies #[trigger] self.spec_lookup(n)
            == seq_lookup(orig, n) by {
            self.lemma_unique();
            if seq_contains_name(self@, n) {
                let j = choose|j: int| 0 <= j < self@.len() && self@[j].name == n;
                assert(j != i);
                assert(orig[j].name == n);
                assert(seq_contains_name(orig, n));
                let k = choose|k: int| 0 <= k < orig.len() && orig[k].name == n;
                assert(names_of(orig)[k] == n);
                assert(self@[k].name == n);
                assert(k == j);
            } else {
                if seq_contains_name(orig, n) {
                    let k = choose|k: int| 0 <= k < orig.len() && orig[k].name == n;
                    assert(self@[k].name == n || k == i);
                    assert(orig[i].name == self@[i].name);
                }
            }
        }
    }

    /// After inserting an entry at position `i`, between names below it and
    /// names above it, the registry is sorted and lookups gain one name.
    proof fn lemma_after_insert(&self, orig: Seq<SpecProgram>, i: int)
        requires
            sorted_strict(names_of(orig)),
            0 <= i <= orig.len(),
            self@.len() == orig.len() + 1,
            self@ == orig.insert(i, self@[i]),
            forall|j: int| 0 <= j < i ==> lex_lt(#[trigger] orig[j].name, self@[i].name),
            forall|j: int| i <= j < orig.len() ==> lex_lt(self@[i].name, #[trigger] orig[j].name),
        ensures
            self.wf(),
            self.spec_lookup(self@[i].name) == Some(self@[i]),
            forall|n: Seq<char>|
                n != self@[i].name ==> #[trigger] self.spec_lookup(n) == seq_lookup(orig, n),
    {
        let pn = self@[i].name;
        assert forall|a: int, b: int| 0 <= a < b < self@.len() implies lex_lt(
            self.names()[a],
            self.names()[b],
        ) by {
            if a < i && b == i {
                assert(self@[a] == orig[a]);
            } else if a == i && b > i {
                assert(self@[b] == orig[b - 1]);
            } else if a < i && b > i {
                assert(self@[a] == orig[a]);
                assert(self@[b] == orig[b - 1]);
                assert(lex_lt(orig[a].name, pn));
                assert(lex_lt(pn, orig[b - 1].name));
                lemma_lex_lt_trans(orig[a].name, pn, orig[b - 1].name);
            } else if a < i && b < i {
                assert(self@[a] == orig[a]);
                assert(self@[b] == orig[b]);
                assert(lex_lt(names_of(orig)[a], names_of(orig)[b]));
            } else if a > i && b > i {
                assert(self@[a] == orig[a - 1]);
                assert(self@[b] == orig[b - 1]);
                assert(lex_lt(names_of(orig)[a - 1], names_of(orig)[b - 1]));
            }
        }
        self.lemma_lookup_at(i);
        self.lemma_unique();
        assert forall|n: Seq<char>| n != pn implies #[trigger] self.spec_lookup(n) == seq_lookup(
            orig,
            n,
        ) by {
            if seq_contains_name(self@, n) {
                let j = choose|j: int| 0 <= j < self@.len() && self@[j].name == n;
                assert(j != i);
                let ghost oj = if j < i {
                    j
                } else {
                    j - 1
                };
                assert(orig[oj].name == n);
                assert(seq_contains_name(orig, n));
                let k = choose|k: int| 0 <= k < orig.len() && orig[k].name == n;
                let ghost sk = if k < i {
                    k
                } else {
                    k + 1
                };
                assert(self@[sk].name == n);
                assert(sk == j);
                assert(k == oj);
            } else {
                if seq_contains_name(orig, n) {
                    let k = choose|k: int| 0 <= k < orig.len() && orig[k].name == n;
                    let ghost sk = if k < i {
                        k
                    } else {
                        k + 1
                    };
                    assert(self@[sk].name == n);
                }
            }
        }
    }

    /// Fold the catalog's program list into a registry.  Exactly the distinct
    /// catalog names are present, each mapped to the last entry carrying it.
    pub fn from_catalog(cfg: &ConfigLoad) -> (r: Registry)
        ensures
            r.wf(),
            forall|n: Seq<char>|
                #[trigger] r.spec_lookup(n) == spec_catalog_lookup(cfg.programms.deep_view(), n),
            r@.len() == names_of(cfg.programms.deep_view()).to_set().len(),
    {
        let ghost cat = cfg.programms.deep_view();
        let mut r = Registry::new();
        let mut k: usize = 0;
        proof {
            assert forall|n: Seq<char>| #[trigger]
                r.spec_lookup(n) == spec_catalog_lookup(cat.take(0), n) by {
                assert(cat.take(0).len() == 0);
                assert(r@.len() == 0);
            }
        }
        while k < cfg.programms.len()
            invariant
                r.wf(),
                k <= cat.len(),
                cat == cfg.programms.deep_view(),
                cat.len() == cfg.programms@.len(),
                forall|n: Seq<char>| #[trigger]
                    r.spec_lookup(n) == spec_catalog_lookup(cat.take(k as int), n),
            decreases cat.len() - k,
        {
            let ghost prev = r;
            let p = cfg.programms[k].duplicate();
            proof {
                assert(p@ == cat[k as int]);
            }
            r.upsert(p);
            k = k + 1;
            proof {
                let pre = cat.take((k - 1) as int);
                let cur = cat.take(k as int);
                assert(cur.drop_last() =~= pre);
                assert(cur.last() == cat[k - 1]);
                assert forall|n: Seq<char>| #[trigger]
                    r.spec_lookup(n) == spec_catalog_lookup(cur, n) by {
                    if n == cat[k - 1].name {
                        assert(spec_catalog_lookup(cur, n) == Some(cat[k - 1]));
                    } else {
                        assert(r.spec_lookup(n) == prev.spec_lookup(n));
                        assert(spec_catalog_lookup(cur, n) == spec_catalog_lookup(pre, n));
                    }
                }
            }
        }
        proof {
            assert(cat.take(cat.len() as int) =~= cat);
            r.lemma_count_distinct(cat);
        }
        r
    }

    /// The registry holds exactly one entry per distinct catalog name.
    proof fn lemma_count_distinct(&self, cat: Seq<SpecProgram>)
        requires
            self.wf(),
            forall|n: Seq<char>| #[trigger] self.spec_lookup(n) == spec_catalog_lookup(cat, n),
        ensures
            self@.len() == names_of(cat).to_set().len(),
    {
        self.lemma_unique();
        assert(self.names().no_duplicates()) by {
            assert forall|i: int, j: int|
                0 <= i < self.names().len() && 0 <= j < self.names().len() && i != j implies
            self.names()[i] != self.names()[j] by {
                assert(self@[i].name != self@[j].name);
            }
        }
        assert(self.names().to_set() =~= names_of(cat).to_set()) by {
            assert forall|n: Seq<char>| #[trigger]
                self.names().to_set().contains(n) == names_of(cat).to_set().contains(n) by {
                lemma_catalog_lookup_contains(cat, n);
                assert(self.names().contains(n) == seq_contains_name(self@, n)) by {
                    if self.names().contains(n) {
                        let i = choose|i: int|
                            0 <= i < self.names().len() && self.names()[i] == n;
                        assert(self@[i].name == n);
                    }
                    if seq_contains_name(self@, n) {
                        let i = choose|i: int| 0 <= i < self@.len() && self@[i].name == n;
                        assert(self.names()[i] == n);
                    }
                }
                assert(names_of(cat).contains(n) == seq_contains_name(cat, n)) by {
                    if names_of(cat).contains(n) {
                        let i = choose|i: int|
                            0 <= i < names_of(cat).len() && names_of(cat)[i] == n;
                        assert(cat[i].name == n);
                    }
                    if seq_contains_name(cat, n) {
                        let i = choose|i: int| 0 <= i < cat.len() && cat[i].name == n;
                        assert(names_of(cat)[i] == n);
                    }
                }
                assert(seq_contains_name(self@, n) == (self.spec_lookup(n) is Some));
            }
        }
        self.names().unique_seq_to_set();
    }
}

} // verus!
