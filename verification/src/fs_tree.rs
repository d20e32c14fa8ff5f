//! The model of a scanned directory tree.
//!
//! A scan of the root directory yields its files and its subfolders; each
//! subfolder is scanned in turn, so a whole subtree arrives as a `Folder`
//! value.  A file discovered below the root is identified by the chain of
//! folder names leading to it together with its own name.

use vstd::prelude::*;

verus! {

/// One subfolder of a scanned directory, with everything found inside it.
#[derive(Debug)]
pub struct Folder {
    /// The folder's own name (one path component).
    pub name: String,
    /// Names of the files lying directly in this folder.
    pub files: Vec<String>,
    /// The folders lying directly in this folder, scanned recursively.
    pub subs: Vec<Folder>,
}

/// Ghost identity of a discovered file: the folder names on the way down to
/// it, then its own name.
pub struct FilePath {
    pub dirs: Seq<Seq<char>>,
    pub name: Seq<char>,
}

/// A file discovered somewhere below the scan root.
#[derive(Debug, PartialEq, Eq)]
pub struct FoundFile {
    /// The folder names leading from the scan root down to the file.
    pub dirs: Vec<String>,
    /// The file's own name.
    pub name: String,
}

impl View for FoundFile {
    type V = FilePath;

    open spec fn view(&self) -> FilePath {
        FilePath { dirs: self.dirs.deep_view(), name: self.name@ }
    }
}

impl DeepView for FoundFile {
    type V = FilePath;

    open spec fn deep_view(&self) -> FilePath {
        self.view()
    }
}

/// The names of a sequence of folders, in order.
pub open spec fn sub_names(subs: Seq<Folder>) -> Seq<Seq<char>> {
    subs.map(|i: int, f: Folder| f.name@)
}

/// The files lying directly in a folder reached at `here`, as paths.
pub open spec fn files_at(here: Seq<Seq<char>>, files: Seq<Seq<char>>) -> Seq<FilePath> {
    files.map(|i: int, n: Seq<char>| FilePath { dirs: here, name: n })
}

/// Every file lying at any depth inside `f`, reached through `prefix`:
/// first the files directly in `f`, then those of its subfolders in order.
pub open spec fn folder_deep_files(prefix: Seq<Seq<char>>, f: Folder) -> Seq<FilePath>
    decreases f,
{
    let here = prefix.push(f.name@);
    files_at(here, f.files.deep_view()) + subs_deep_files(here, f.subs@)
}

/// Every file lying at any depth inside one of `subs`, reached through
/// `prefix`, folder by folder.
pub open spec fn subs_deep_files(prefix: Seq<Seq<char>>, subs: Seq<Folder>) -> Seq<FilePath>
    decreases subs,
{
    if subs.len() == 0 {
        Seq::empty()
    } else {
        subs_deep_files(prefix, subs.drop_last()) + folder_deep_files(prefix, subs.last())
    }
}

/// A file at `p` can be reached by walking down `f` from `prefix`.
pub open spec fn folder_contains(prefix: Seq<Seq<char>>, f: Folder, p: FilePath) -> bool
    decreases f,
{
    let here = prefix.push(f.name@);
    (p.dirs == here && f.files.deep_view().contains(p.name)) || subs_contain(here, f.subs@, p)
}

/// A file at `p` can be reached by walking down one of `subs` from `prefix`.
pub open spec fn subs_contain(prefix: Seq<Seq<char>>, subs: Seq<Folder>, p: FilePath) -> bool
    decreases subs,
{
    exists|i: int| 0 <= i < subs.len() && folder_contains(prefix, #[trigger] subs[i], p)
}

/// No two entries of `names` are the same.
pub open spec fn names_distinct(names: Seq<Seq<char>>) -> bool {
    forall|i: int, j: int| 0 <= i < j < names.len() ==> names[i] != names[j]
}

/// No two entries of `paths` name the same file.
pub open spec fn paths_distinct(paths: Seq<FilePath>) -> bool {
    forall|i: int, j: int| 0 <= i < j < paths.len() ==> paths[i] != paths[j]
}

/// What the shape lemmas state of one collected path: it lies strictly below
/// `prefix`, and the folder names down to depth `prefix.len() + 1` are
/// exactly `prefix` followed by `head`.
pub open spec fn path_under(p: FilePath, prefix: Seq<Seq<char>>, head: Seq<char>) -> bool {
    p.dirs.len() > prefix.len() && p.dirs.take(prefix.len() + 1 as int) == prefix.push(head)
}

/// Every file collected from inside `f` lies strictly below `prefix`, and
/// the first folder name past the prefix is `f`'s own.
pub proof fn lemma_folder_deep_files_shape(prefix: Seq<Seq<char>>, f: Folder)
    ensures
        forall|k: int|
            0 <= k < folder_deep_files(prefix, f).len() ==> path_under(
                #[trigger] folder_deep_files(prefix, f)[k],
                prefix,
                f.name@,
            ),
    decreases f,
{
    let here = prefix.push(f.name@);
    let m = files_at(here, f.files.deep_view());
    let sd = subs_deep_files(here, f.subs@);
    lemma_subs_deep_files_shape(here, f.subs@);
    assert forall|k: int| 0 <= k < folder_deep_files(prefix, f).len() implies path_under(
        folder_deep_files(prefix, f)[k],
        prefix,
        f.name@,
    ) by {
        let p = folder_deep_files(prefix, f)[k];
        if k < m.len() {
            assert(p == m[k]);
            assert(p.dirs == here);
            assert(p.dirs.take(prefix.len() + 1 as int) =~= here);
        } else {
            assert(p == sd[k - m.len()]);
            let i = choose|i: int|
                0 <= i < f.subs@.len() && path_under(p, here, f.subs@[i].name@);
            assert(p.dirs.take(here.len() + 1 as int) == here.push(f.subs@[i].name@));
            assert(p.dirs.take(prefix.len() + 1 as int) =~= p.dirs.take(here.len() + 1 as int).take(
                prefix.len() + 1 as int,
            ));
            assert(here.push(f.subs@[i].name@).take(prefix.len() + 1 as int) =~= here);
        }
    }
}

/// Every file collected from inside one of `subs` lies strictly below
/// `prefix`, and the first folder name past the prefix is the name of one of
/// `subs`.
pub proof fn lemma_subs_deep_files_shape(prefix: Seq<Seq<char>>, subs: Seq<Folder>)
    ensures
        forall|k: int|
            0 <= k < subs_deep_files(prefix, subs).len() ==> exists|i: int|
                0 <= i < subs.len() && path_under(
                    #[trigger] subs_deep_files(prefix, subs)[k],
                    prefix,
                    subs[i].name@,
                ),
    decreases subs,
{
    if subs.len() > 0 {
        let s1 = subs_deep_files(prefix, subs.drop_last());
        let s2 = folder_deep_files(prefix, subs.last());
        lemma_subs_deep_files_shape(prefix, subs.drop_last());
        lemma_folder_deep_files_shape(prefix, subs.last());
        assert forall|k: int|
            #![trigger subs_deep_files(prefix, subs)[k]]
            0 <= k < subs_deep_files(prefix, subs).len() implies exists|i: int|
            0 <= i < subs.len() && path_under(
                subs_deep_files(prefix, subs)[k],
                prefix,
                (#[trigger] subs[i]).name@,
            ) by {
            let p = subs_deep_files(prefix, subs)[k];
            if k < s1.len() {
                assert(p == s1[k]);
                let i = choose|i: int|
                    0 <= i < subs.drop_last().len() && path_under(
                        p,
                        prefix,
                        subs.drop_last()[i].name@,
                    );
                assert(subs.drop_last()[i] == subs[i]);
                assert(0 <= i < subs.len() && path_under(p, prefix, subs[i].name@));
            } else {
                assert(p == s2[k - s1.len()]);
                let i = subs.len() - 1;
                assert(subs[i] == subs.last());
                assert(0 <= i < subs.len() && path_under(p, prefix, subs[i].name@));
            }
        }
    }
}

/// A scanned folder is well formed when, at every level, the file names are
/// distinct and the subfolder names are distinct: what one directory listing
/// of a filesystem always yields.
pub open spec fn folder_wf(f: Folder) -> bool
    decreases f,
{
    names_distinct(f.files.deep_view()) && names_distinct(sub_names(f.subs@)) && forall|i: int|
        0 <= i < f.subs@.len() ==> folder_wf(#[trigger] f.subs@[i])
}

/// A whole scan result is well formed when its folders have distinct names
/// and each is well formed.
pub open spec fn subs_wf(subs: Seq<Folder>) -> bool {
    names_distinct(sub_names(subs)) && forall|i: int|
        0 <= i < subs.len() ==> folder_wf(#[trigger] subs[i])
}

proof fn lemma_subs_wf_drop_last(subs: Seq<Folder>)
    requires
        subs.len() > 0,
        subs_wf(subs),
    ensures
        subs_wf(subs.drop_last()),
{
    let dl = subs.drop_last();
    assert forall|i: int, j: int|
        0 <= i < j < sub_names(dl).len() implies sub_names(dl)[i] != sub_names(dl)[j] by {
        assert(dl[i] == subs[i] && dl[j] == subs[j]);
        assert(sub_names(subs)[i] != sub_names(subs)[j]);
    }
    assert forall|i: int| 0 <= i < dl.len() implies folder_wf(#[trigger] dl[i]) by {
        assert(dl[i] == subs[i]);
    }
}

/// Inside one well-formed folder no file is collected twice.
pub proof fn lemma_folder_deep_files_distinct(prefix: Seq<Seq<char>>, f: Folder)
    requires
        folder_wf(f),
    ensures
        paths_distinct(folder_deep_files(prefix, f)),
    decreases f,
{
    let here = prefix.push(f.name@);
    let m = files_at(here, f.files.deep_view());
    let sd = subs_deep_files(here, f.subs@);
    lemma_subs_deep_files_distinct(here, f.subs@);
    lemma_subs_deep_files_shape(here, f.subs@);
    assert forall|a: int, b: int|
        0 <= a < b < folder_deep_files(prefix, f).len() implies folder_deep_files(prefix, f)[a]
            != folder_deep_files(prefix, f)[b] by {
        let pa = folder_deep_files(prefix, f)[a];
        let pb = folder_deep_files(prefix, f)[b];
        if b < m.len() {
            assert(pa == m[a] && pb == m[b]);
            assert(pa.name == f.files.deep_view()[a]);
            assert(pb.name == f.files.deep_view()[b]);
        } else if a >= m.len() {
            assert(pa == sd[a - m.len()] && pb == sd[b - m.len()]);
        } else {
            assert(pa == m[a] && pb == sd[b - m.len()]);
            assert(pa.dirs == here);
            let i = choose|i: int|
                0 <= i < f.subs@.len() && path_under(pb, here, (#[trigger] f.subs@[i]).name@);
            assert(pb.dirs.len() > here.len());
        }
    }
}

/// Across well-formed folders with distinct names no file is collected
/// twice.
pub proof fn lemma_subs_deep_files_distinct(prefix: Seq<Seq<char>>, subs: Seq<Folder>)
    requires
        subs_wf(subs),
    ensures
        paths_distinct(subs_deep_files(prefix, subs)),
    decreases subs,
{
    if subs.len() > 0 {
        let s1 = subs_deep_files(prefix, subs.drop_last());
        let s2 = folder_deep_files(prefix, subs.last());
        lemma_subs_wf_drop_last(subs);
        lemma_subs_deep_files_distinct(prefix, subs.drop_last());
        assert(folder_wf(subs.last())) by {
            assert(subs[subs.len() - 1] == subs.last());
        }
        lemma_folder_deep_files_distinct(prefix, subs.last());
        lemma_subs_deep_files_shape(prefix, subs.drop_last());
        lemma_folder_deep_files_shape(prefix, subs.last());
        assert forall|a: int, b: int|
            0 <= a < b < subs_deep_files(prefix, subs).len() implies subs_deep_files(
            prefix,
            subs,
        )[a] != subs_deep_files(prefix, subs)[b] by {
            let pa = subs_deep_files(prefix, subs)[a];
            let pb = subs_deep_files(prefix, subs)[b];
            if b < s1.len() {
                assert(pa == s1[a] && pb == s1[b]);
            } else if a >= s1.len() {
                assert(pa == s2[a - s1.len()] && pb == s2[b - s1.len()]);
            } else {
                assert(pa == s1[a] && pb == s2[b - s1.len()]);
                let i = choose|i: int|
                    0 <= i < subs.drop_last().len() && path_under(
                        pa,
                        prefix,
                        (#[trigger] subs.drop_last()[i]).name@,
                    );
                assert(subs.drop_last()[i] == subs[i]);
                assert(path_under(pb, prefix, subs.last().name@));
                assert(sub_names(subs)[i] == subs[i].name@);
                assert(sub_names(subs)[subs.len() - 1] == subs.last().name@);
                assert(subs[i].name@ != subs.last().name@);
                assert(pa.dirs.take(prefix.len() + 1 as int)[prefix.len() as int]
                    == subs[i].name@);
                assert(pb.dirs.take(prefix.len() + 1 as int)[prefix.len() as int]
                    == subs.last().name@);
                assert(pa.dirs[prefix.len() as int] != pb.dirs[prefix.len() as int]);
            }
        }
    }
}

proof fn lemma_concat_contains(s1: Seq<FilePath>, s2: Seq<FilePath>, p: FilePath)
    ensures
        (s1 + s2).contains(p) <==> s1.contains(p) || s2.contains(p),
{
    if s1.contains(p) {
        let k = choose|k: int| 0 <= k < s1.len() && s1[k] == p;
        assert((s1 + s2)[k] == p);
    }
    if s2.contains(p) {
        let k = choose|k: int| 0 <= k < s2.len() && s2[k] == p;
        assert((s1 + s2)[s1.len() + k] == p);
    }
    if (s1 + s2).contains(p) {
        let k = choose|k: int| 0 <= k < (s1 + s2).len() && (s1 + s2)[k] == p;
        if k < s1.len() {
            assert(s1[k] == p);
        } else {
            assert(s2[k - s1.len()] == p);
        }
    }
}

/// The collector's sequence for one folder holds a path exactly when the
/// folder's subtree holds a file there.
pub proof fn lemma_folder_deep_files_exact(prefix: Seq<Seq<char>>, f: Folder, p: FilePath)
    ensures
        folder_deep_files(prefix, f).contains(p) <==> folder_contains(prefix, f, p),
    decreases f,
{
    let here = prefix.push(f.name@);
    let m = files_at(here, f.files.deep_view());
    let sd = subs_deep_files(here, f.subs@);
    lemma_concat_contains(m, sd, p);
    lemma_subs_deep_files_exact(here, f.subs@, p);
    if m.contains(p) {
        let k = choose|k: int| 0 <= k < m.len() && m[k] == p;
        assert(f.files.deep_view()[k] == p.name);
        assert(f.files.deep_view().contains(p.name));
    }
    if p.dirs == here && f.files.deep_view().contains(p.name) {
        let k = choose|k: int|
            0 <= k < f.files.deep_view().len() && f.files.deep_view()[k] == p.name;
        assert(m[k] == p);
        assert(m.contains(p));
    }
}

/// The collector's sequence for a scan holds a path exactly when one of the
/// scanned folders holds a file there.
pub proof fn lemma_subs_deep_files_exact(prefix: Seq<Seq<char>>, subs: Seq<Folder>, p: FilePath)
    ensures
        subs_deep_files(prefix, subs).contains(p) <==> subs_contain(prefix, subs, p),
    decreases subs,
{
    if subs.len() == 0 {
        assert(!Seq::<FilePath>::empty().contains(p));
    } else {
        let s1 = subs_deep_files(prefix, subs.drop_last());
        let s2 = folder_deep_files(prefix, subs.last());
        lemma_concat_contains(s1, s2, p);
        lemma_subs_deep_files_exact(prefix, subs.drop_last(), p);
        lemma_folder_deep_files_exact(prefix, subs.last(), p);
        if subs_contain(prefix, subs, p) {
            let i = choose|i: int|
                0 <= i < subs.len() && folder_contains(prefix, #[trigger] subs[i], p);
            if i < subs.len() - 1 {
                assert(subs.drop_last()[i] == subs[i]);
                assert(subs_contain(prefix, subs.drop_last(), p));
            } else {
                assert(subs[i] == subs.last());
            }
        }
        if subs_contain(prefix, subs.drop_last(), p) {
            let i = choose|i: int|
                0 <= i < subs.drop_last().len() && folder_contains(
                    prefix,
                    #[trigger] subs.drop_last()[i],
                    p,
                );
            assert(subs[i] == subs.drop_last()[i]);
            assert(subs_contain(prefix, subs, p));
        }
        if folder_contains(prefix, subs.last(), p) {
            assert(folder_contains(prefix, subs[subs.len() - 1], p));
            assert(subs_contain(prefix, subs, p));
        }
    }
}

/// What the recursive collector yields for the subfolders of a scanned root:
/// exactly the files the subtrees hold at any depth, each strictly below one
/// of the subfolders — so none from the root listing itself — and none
/// twice.
pub proof fn lemma_collector_exact(subs: Seq<Folder>)
    requires
        subs_wf(subs),
    ensures
        forall|p: FilePath|
            subs_deep_files(Seq::empty(), subs).contains(p) <==> subs_contain(
                Seq::empty(),
                subs,
                p,
            ),
        forall|k: int|
            0 <= k < subs_deep_files(Seq::empty(), subs).len() ==> (#[trigger] subs_deep_files(
                Seq::empty(),
                subs,
            )[k]).dirs.len() >= 1,
        paths_distinct(subs_deep_files(Seq::empty(), subs)),
{
    assert forall|p: FilePath|
        subs_deep_files(Seq::empty(), subs).contains(p) <==> subs_contain(
            Seq::empty(),
            subs,
            p,
        ) by {
        lemma_subs_deep_files_exact(Seq::empty(), subs, p);
    }
    lemma_subs_deep_files_shape(Seq::empty(), subs);
    assert forall|k: int|
        0 <= k < subs_deep_files(Seq::empty(), subs).len() implies (#[trigger] subs_deep_files(
        Seq::empty(),
        subs,
    )[k]).dirs.len() >= 1 by {
        let p = subs_deep_files(Seq::empty(), subs)[k];
        let i = choose|i: int|
            0 <= i < subs.len() && path_under(p, Seq::empty(), (#[trigger] subs[i]).name@);
        assert(p.dirs.len() > 0);
    }
    lemma_subs_deep_files_distinct(Seq::empty(), subs);
}

} // verus!
