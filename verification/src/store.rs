use vstd::prelude::*;
use vstd::pervasive::VecAdditionalExecFns;

verus! {

/// The effect of storing `contents` under `path` in a directory whose
/// state is the map from each filename to the bytes it holds: any file
/// already under that path is silently overwritten.
pub open spec fn store_write(
    files: Map<Seq<char>, Seq<u8>>,
    path: Seq<char>,
    contents: Seq<u8>,
) -> Map<Seq<char>, Seq<u8>> {
    files.insert(path, contents)
}

/// After a write, the directory holds exactly the written bytes under
/// the written path, and every other path is untouched.
pub proof fn lemma_write_stores_exact(
    files: Map<Seq<char>, Seq<u8>>,
    path: Seq<char>,
    contents: Seq<u8>,
)
    ensures
        store_write(files, path, contents).contains_key(path),
        store_write(files, path, contents)[path] == contents,
        forall|other: Seq<char>|
            other != path ==> (store_write(files, path, contents).contains_key(other)
                <==> files.contains_key(other)),
        forall|other: Seq<char>|
            other != path && files.contains_key(other) ==> store_write(
                files,
                path,
                contents,
            )[other] == files[other],
{
}

/// Last write wins: two sequential writes to the same path leave exactly
/// the second contents there, with no merge and no versioning, whatever
/// was written first.
pub proof fn lemma_last_write_wins(
    files: Map<Seq<char>, Seq<u8>>,
    path: Seq<char>,
    first: Seq<u8>,
    second: Seq<u8>,
)
    ensures
        store_write(store_write(files, path, first), path, second) == store_write(
            files,
            path,
            second,
        ),
        store_write(store_write(files, path, first), path, second)[path] == second,
{
    assert(store_write(store_write(files, path, first), path, second) =~= store_write(
        files,
        path,
        second,
    ));
}

/// Idempotence: re-storing identical contents under the same path leaves
/// the directory byte-identical to what one write leaves.
pub proof fn lemma_rewrite_idempotent(
    files: Map<Seq<char>, Seq<u8>>,
    path: Seq<char>,
    contents: Seq<u8>,
)
    ensures
        store_write(store_write(files, path, contents), path, contents) == store_write(
            files,
            path,
            contents,
        ),
{
    lemma_last_write_wins(files, path, contents, contents);
}

/// The directory state that a sequence of entries represents: later
/// entries shadow earlier ones with the same name.
pub open spec fn entries_map(s: Seq<(String, Vec<u8>)>) -> Map<Seq<char>, Seq<u8>>
    decreases s.len(),
{
    if s.len() == 0 {
        Map::empty()
    } else {
        entries_map(s.drop_last()).insert(s.last().0@, s.last().1@)
    }
}

/// In a well-formed model no two entries carry the same name.
pub open spec fn entries_unique(s: Seq<(String, Vec<u8>)>) -> bool {
    forall|i: int, j: int| 0 <= i < j < s.len() ==> s[i].0@ != s[j].0@
}

/// A name stands in the represented directory exactly when some entry
/// carries it.
proof fn lemma_entries_map_contains(s: Seq<(String, Vec<u8>)>, path: Seq<char>)
    ensures
        entries_map(s).contains_key(path) <==> exists|i: int|
            0 <= i < s.len() && s[i].0@ == path,
    decreases s.len(),
{
    if s.len() > 0 {
        lemma_entries_map_contains(s.drop_last(), path);
        if s.last().0@ == path {
            assert(s[s.len() - 1].0@ == path);
        } else if entries_map(s).contains_key(path) {
            let i = choose|i: int| 0 <= i < s.drop_last().len() && s.drop_last()[i].0@ == path;
            assert(s[i].0@ == path);
        } else if exists|i: int| 0 <= i < s.len() && s[i].0@ == path {
            let i = choose|i: int| 0 <= i < s.len() && s[i].0@ == path;
            assert(s.drop_last()[i].0@ == path);
        }
    }
}

/// With unique names, the entry that carries a name decides what the
/// represented directory holds under it.
proof fn lemma_entries_map_lookup(s: Seq<(String, Vec<u8>)>, k: int)
    requires
        entries_unique(s),
        0 <= k < s.len(),
    ensures
        entries_map(s).contains_key(s[k].0@),
        entries_map(s)[s[k].0@] == s[k].1@,
    decreases s.len(),
{
    if k == s.len() - 1 {
        assert(s[k] == s.last());
    } else {
        assert(entries_unique(s.drop_last()));
        assert(s.drop_last()[k] == s[k]);
        lemma_entries_map_lookup(s.drop_last(), k);
        assert(s[k].0@ != s.last().0@);
    }
}

/// Replacing the entry that carries a name changes the represented
/// directory the same way an overwrite of that name does.
proof fn lemma_entries_map_update(s: Seq<(String, Vec<u8>)>, k: int, entry: (String, Vec<u8>))
    requires
        entries_unique(s),
        0 <= k < s.len(),
        entry.0@ == s[k].0@,
    ensures
        entries_map(s.update(k, entry)) == entries_map(s).insert(entry.0@, entry.1@),
    decreases s.len(),
{
    let t = s.update(k, entry);
    if k == s.len() - 1 {
        assert(t.drop_last() =~= s.drop_last());
        assert(t.last() == entry);
        assert(entries_map(t) =~= entries_map(s).insert(entry.0@, entry.1@));
    } else {
        assert(entries_unique(s.drop_last()));
        assert(s.drop_last()[k] == s[k]);
        lemma_entries_map_update(s.drop_last(), k, entry);
        assert(t.drop_last() =~= s.drop_last().update(k, entry));
        assert(t.last() == s.last());
        assert(s[k].0@ != s.last().0@);
        assert(entries_map(t) =~= entries_map(s).insert(entry.0@, entry.1@));
    }
}

/// An in-memory model of the upload directory: the mapping from each
/// stored filename to the bytes last written under it. Its view is that
/// map, and a write behaves exactly as `store_write` says, so the
/// overwrite semantics of the real directory can be stated and exercised
/// without any filesystem.
pub struct DirectoryModel {
    entries: Vec<(String, Vec<u8>)>,
}

impl View for DirectoryModel {
    type V = Map<Seq<char>, Seq<u8>>;

    closed spec fn view(&self) -> Map<Seq<char>, Seq<u8>> {
        entries_map(self.entries@)
    }
}

impl DirectoryModel {
    /// No two entries carry the same name, so each name's bytes are
    /// decided by exactly one entry.
    pub closed spec fn wf(&self) -> bool {
        entries_unique(self.entries@)
    }

    /// An empty directory: no file is stored under any name.
    pub fn new() -> (d: DirectoryModel)
        ensures
            d.wf(),
            d@ == Map::<Seq<char>, Seq<u8>>::empty(),
    {
        DirectoryModel { entries: Vec::new() }
    }

    /// Stores `contents` under `path`, overwriting whatever was there:
    /// the new state is exactly `store_write` of the old one.
    pub fn write(&mut self, path: String, contents: Vec<u8>)
        requires
            old(self).wf(),
        ensures
            final(self).wf(),
            final(self)@ == store_write(old(self)@, path@, contents@),
    {
        let mut i: usize = 0;
        while i < self.entries.len()
            invariant
                i <= self.entries@.len(),
                self.entries@ == old(self).entries@,
                entries_unique(self.entries@),
                forall|k: int| 0 <= k < i ==> self.entries@[k].0@ != path@,
            decreases self.entries@.len() - i,
        {
            if self.entries[i].0.eq(&path) {
                proof {
                    lemma_entries_map_update(self.entries@, i as int, (path, contents));
                }
                let ghost s = self.entries@;
                self.entries.set(i, (path, contents));
                proof {
                    let t = self.entries@;
                    assert forall|a: int, b: int| 0 <= a < b < t.len() implies t[a].0@
                        != t[b].0@ by {
                        assert(s[a].0@ != s[b].0@);
                    }
                }
                return ;
            }
            i += 1;
        }
        proof {
            let s = self.entries@;
            let t = s.push((path, contents));
            assert(t.drop_last() =~= s);
            assert(t.last() == (path, contents));
            assert forall|a: int, b: int| 0 <= a < b < t.len() implies t[a].0@ != t[b].0@ by {
                if b < s.len() {
                    assert(s[a].0@ != s[b].0@);
                } else {
                    assert(t[a].0@ == s[a].0@ && s[a].0@ != path@);
                }
            }
        }
        self.entries.push((path, contents));
    }

    /// Looks up the bytes stored under `path`: exactly the directory
    /// view's value there, and nothing when no file carries that name.
    pub fn read(&self, path: &String) -> (r: Option<&Vec<u8>>)
        requires
            self.wf(),
        ensures
            match r {
                Some(contents) => self@.contains_key(path@) && contents@ == self@[path@],
                None => !self@.contains_key(path@),
            },
    {
        let mut i: usize = 0;
        while i < self.entries.len()
            invariant
                i <= self.entries@.len(),
                entries_unique(self.entries@),
                forall|k: int| 0 <= k < i ==> self.entries@[k].0@ != path@,
            decreases self.entries@.len() - i,
        {
            if self.entries[i].0.eq(path) {
                proof {
                    lemma_entries_map_lookup(self.entries@, i as int);
                }
                return Some(&self.entries[i].1);
            }
            i += 1;
        }
        proof {
            lemma_entries_map_contains(self.entries@, path@);
        }
        None
    }
}

} // verus!
