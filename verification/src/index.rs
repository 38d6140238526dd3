//! The application index: a name-to-path mapping of the executables found
//! on the search path, built once at startup and read-only afterwards.
//! Names are unique; when two directories offer the same name, the entry
//! inserted last wins.

use vstd::prelude::*;

verus! {

/// One executable: the file's base name and its fully qualified path.
#[derive(Debug)]
pub struct AppEntry {
    pub name: String,
    pub path: String,
}

/// The mathematical image of an entry: both texts as character sequences.
#[verifier::ext_equal]
pub ghost struct EntryV {
    pub name: Seq<char>,
    pub path: Seq<char>,
}

impl View for AppEntry {
    type V = EntryV;

    open spec fn view(&self) -> EntryV {
        EntryV { name: self.name@, path: self.path@ }
    }
}

/// The images of a sequence of entries.
pub open spec fn evs(s: Seq<AppEntry>) -> Seq<EntryV> {
    s.map_values(|e: AppEntry| e@)
}

/// Some entry of `s` carries this name.
pub open spec fn contains_name(s: Seq<EntryV>, name: Seq<char>) -> bool {
    exists|i: int| 0 <= i < s.len() && s[i].name == name
}

/// The position of the entry carrying `name`, meaningful when one exists.
pub open spec fn idx_of(s: Seq<EntryV>, name: Seq<char>) -> int {
    choose|i: int| 0 <= i < s.len() && s[i].name == name
}

/// The path recorded under `name`, or nothing when the name is absent.
pub open spec fn lookup_in(s: Seq<EntryV>, name: Seq<char>) -> Option<Seq<char>> {
    if contains_name(s, name) {
        Some(s[idx_of(s, name)].path)
    } else {
        None
    }
}

/// One last-wins insertion, as the index performs it: a fresh name is
/// appended, a known name keeps its place and takes the new path.
pub open spec fn insert_entry(s: Seq<EntryV>, e: EntryV) -> Seq<EntryV> {
    if contains_name(s, e.name) {
        s.update(idx_of(s, e.name), e)
    } else {
        s.push(e)
    }
}

/// Folding a batch of discovered executables into an index, first to
/// last; on a name collision the entry inserted last wins.
pub open spec fn load_entries(s: Seq<EntryV>, files: Seq<EntryV>) -> Seq<EntryV>
    decreases files.len(),
{
    if files.len() == 0 {
        s
    } else {
        load_entries(insert_entry(s, files.first()), files.drop_first())
    }
}

/// Makes a copy of an entry; the copy has the same name and path.
pub fn copy_entry(e: &AppEntry) -> (r: AppEntry)
    ensures
        r@ == e@,
{
    AppEntry { name: e.name.clone(), path: e.path.clone() }
}

/// The application index. Its view is the sequence of entry images in
/// insertion order; well-formedness says the names are unique, so the
/// sequence denotes a mapping.
pub struct AppIndex {
    entries: Vec<AppEntry>,
}

impl View for AppIndex {
    type V = Seq<EntryV>;

    closed spec fn view(&self) -> Seq<EntryV> {
        evs(self.entries@)
    }
}

impl AppIndex {
    /// No two entries of the index carry the same name.
    pub open spec fn wf(&self) -> bool {
        forall|i: int, j: int|
            0 <= i < j < self@.len() ==> (#[trigger] self@[i]).name != (#[trigger] self@[j]).name
    }

    pub fn new() -> (r: AppIndex)
        ensures
            r@ == Seq::<EntryV>::empty(),
            r.wf(),
    {
        let r = AppIndex { entries: Vec::new() };
        proof {
            assert(r@ =~= Seq::<EntryV>::empty());
        }
        r
    }

    /// A read-only look at the entries, for the match engine.
    pub fn entries(&self) -> (r: &Vec<AppEntry>)
        ensures
            evs(r@) == self@,
    {
        &self.entries
    }

    /// The position of the first entry carrying `name`, if any.
    fn position(&self, name: &String) -> (r: Option<usize>)
        ensures
            match r {
                Some(i) => i < self@.len() && self@[i as int].name == name@,
                None => !contains_name(self@, name@),
            },
    {
        let mut i: usize = 0;
        while i < self.entries.len()
            invariant
                i <= self.entries.len(),
                self@ == evs(self.entries@),
                forall|j: int| 0 <= j < i ==> (#[trigger] self@[j]).name != name@,
            decreases self.entries.len() - i,
        {
            proof {
                assert(self@[i as int] == self.entries@[i as int]@);
            }
            if self.entries[i].name == *name {
                return Some(i);
            }
            i = i + 1;
        }
        None
    }

    /// Records `name -> path`. A fresh name is appended; a name already
    /// present keeps its place and has its path overwritten, so the entry
    /// inserted last wins.
    pub fn insert(&mut self, name: String, path: String)
        requires
            old(self).wf(),
        ensures
            final(self).wf(),
            contains_name(old(self)@, name@) ==> final(self)@ == old(self)@.update(
                idx_of(old(self)@, name@),
                EntryV { name: name@, path: path@ },
            ),
            !contains_name(old(self)@, name@) ==> final(self)@ == old(self)@.push(
                EntryV { name: name@, path: path@ },
            ),
    {
        let pos = self.position(&name);
        match pos {
            Some(i) => {
                let ghost pre = self@;
                proof {
                    assert(contains_name(pre, name@));
                    let k = idx_of(pre, name@);
                    assert(0 <= k < pre.len() && pre[k].name == name@);
                    assert(k == i as int) by {
                        if k != i as int {
                            assert(pre[k].name == pre[i as int].name);
                        }
                    }
                }
                self.entries.remove(i);
                self.entries.insert(i, AppEntry { name, path });
                proof {
                    assert(self@ =~= pre.update(i as int, EntryV { name: name@, path: path@ }));
                }
            },
            None => {
                let ghost pre = self@;
                self.entries.push(AppEntry { name, path });
                proof {
                    assert(self@ =~= pre.push(EntryV { name: name@, path: path@ }));
                }
            },
        }
    }

    /// Records a whole batch of discovered executables, first to last,
    /// each by a last-wins insertion.
    pub fn insert_all(&mut self, files: Vec<AppEntry>)
        requires
            old(self).wf(),
        ensures
            final(self).wf(),
            final(self)@ == load_entries(old(self)@, evs(files@)),
    {
        let ghost target = load_entries(self@, evs(files@));
        let mut files = files;
        while files.len() > 0
            invariant
                self.wf(),
                load_entries(self@, evs(files@)) == target,
            decreases files@.len(),
        {
            let ghost pre_files = evs(files@);
            let ghost pre = self@;
            let e = files.remove(0);
            proof {
                assert(pre_files.first() == e@);
                assert(evs(files@) =~= pre_files.drop_first());
            }
            self.insert(e.name, e.path);
            proof {
                assert(self@ == insert_entry(pre, pre_files.first()));
            }
        }
        proof {
            assert(evs(files@) =~= Seq::<EntryV>::empty());
        }
    }

    /// Resolves a name to the recorded path, as the confirm action does.
    pub fn lookup(&self, name: &String) -> (r: Option<String>)
        requires
            self.wf(),
        ensures
            match r {
                Some(p) => lookup_in(self@, name@) == Some(p@),
                None => lookup_in(self@, name@) is None,
            },
    {
        let pos = self.position(name);
        match pos {
            Some(i) => {
                proof {
                    assert(contains_name(self@, name@));
                    let k = idx_of(self@, name@);
                    assert(0 <= k < self@.len() && self@[k].name == name@);
                    assert(k == i as int) by {
                        if k != i as int {
                            assert(self@[k].name == self@[i as int].name);
                        }
                    }
                }
                Some(self.entries[i].path.clone())
            },
            None => None,
        }
    }
}

} // verus!
