//! The extractor: from a scanned tree it plans which deep files are copied
//! up to the root — those whose extension is in the caller's set — and which
//! subfolders are removed afterwards — every one whose name does not start
//! with a dot.  Carrying the plan out is the caller's task; the plan itself
//! is exact.

use vstd::prelude::*;

use crate::collect::{clone_strings, collect_deep_files, lemma_deep_view_push};
use crate::fs_tree::{sub_names, subs_deep_files, FilePath, Folder, FoundFile};
use crate::text::{extension_of, extension_spec};

verus! {

/// The failure of an extraction request that names no extension at all.
#[derive(Debug, Clone, Copy, PartialEq, Eq, Structural)]
pub enum ExtractError {
    NoExtensions,
}

impl ExtractError {
    /// The human-readable report of the failure.
    pub fn message(&self) -> (m: String)
        ensures
            m@ == "No file extensions given!"@,
    {
        "No file extensions given!".to_owned()
    }
}

/// What one run of the extractor will do: copy these files to the root, then
/// remove these subfolders.
#[derive(Debug)]
pub struct ExtractPlan {
    /// The deep files to copy into the root, in collection order.
    pub copies: Vec<FoundFile>,
    /// The names of the root's subfolders to delete, in listing order.
    pub remove: Vec<String>,
}

/// Whether a file name carries an extension that the set holds (an exact,
/// case-sensitive match).
pub open spec fn has_wanted_extension(name: Seq<char>, exts: Seq<Seq<char>>) -> bool {
    match extension_spec(name) {
        Some(e) => exts.contains(e),
        None => false,
    }
}

/// The deep files the extractor copies: those whose extension is wanted, in
/// collection order.
pub open spec fn wanted_copies(paths: Seq<FilePath>, exts: Seq<Seq<char>>) -> Seq<FilePath> {
    paths.filter(|p: FilePath| has_wanted_extension(p.name, exts))
}

/// A name the extractor must leave alone: one starting with a dot.
pub open spec fn hidden_name(s: Seq<char>) -> bool {
    s.len() > 0 && s[0] == '.'
}

/// The folder names the extractor removes: every scanned subfolder except
/// the hidden ones.
pub open spec fn removable_names(names: Seq<Seq<char>>) -> Seq<Seq<char>> {
    names.filter(|n: Seq<char>| !hidden_name(n))
}

/// Whether this name designates a hidden entry.
pub fn is_hidden_name(name: &String) -> (r: bool)
    ensures
        r == hidden_name(name@),
{
    if name.as_str().unicode_len() == 0 {
        false
    } else {
        name.as_str().get_char(0) == '.'
    }
}

fn contains_string(v: &Vec<String>, x: &String) -> (r: bool)
    ensures
        r == v.deep_view().contains(x@),
{
    let mut i: usize = 0;
    while i < v.len()
        invariant
            i <= v.len(),
            forall|k: int| 0 <= k < i ==> v@[k]@ != x@,
        decreases v.len() - i,
    {
        if v[i] == *x {
            proof {
                assert(v.deep_view()[i as int] == x@);
            }
            return true;
        }
        i = i + 1;
    }
    proof {
        assert forall|k: int| 0 <= k < v.deep_view().len() implies v.deep_view()[k] != x@ by {
            assert(v.deep_view()[k] == v@[k]@);
        }
    }
    false
}

/// Whether the file's extension is one of those in `exts`.
pub fn extension_matches(name: &String, exts: &Vec<String>) -> (r: bool)
    ensures
        r == has_wanted_extension(name@, exts.deep_view()),
{
    match extension_of(name.as_str()) {
        Some(e) => contains_string(exts, &e),
        None => false,
    }
}

fn clone_found_file(x: &FoundFile) -> (r: FoundFile)
    ensures
        r.deep_view() == x.deep_view(),
{
    FoundFile { dirs: clone_strings(&x.dirs), name: x.name.clone() }
}

/// Plans one run of the extractor over a scanned tree.  With an empty
/// extension set it refuses; otherwise the plan copies exactly the deep
/// files with a wanted extension and removes exactly the non-hidden
/// subfolders.
pub fn extract_plan(folders: &Vec<Folder>, extensions: &Vec<String>) -> (r: Result<
    ExtractPlan,
    ExtractError,
>)
    ensures
        extensions@.len() == 0 <==> r is Err,
        r matches Err(e) ==> e == ExtractError::NoExtensions,
        r matches Ok(plan) ==> plan.copies.deep_view() == wanted_copies(
            subs_deep_files(Seq::empty(), folders@),
            extensions.deep_view(),
        ) && plan.remove.deep_view() == removable_names(sub_names(folders@)),
{
    if extensions.len() == 0 {
        return Err(ExtractError::NoExtensions);
    }
    let deep = collect_deep_files(folders);
    let ghost all = deep.deep_view();
    let ghost exts = extensions.deep_view();
    let mut copies: Vec<FoundFile> = Vec::new();
    let mut i: usize = 0;
    while i < deep.len()
        invariant
            i <= deep.len(),
            all == deep.deep_view(),
            exts == extensions.deep_view(),
            copies.deep_view() == wanted_copies(all.take(i as int), exts),
        decreases deep.len() - i,
    {
        proof {
            reveal(Seq::filter);
            assert(all.take(i + 1 as int).drop_last() =~= all.take(i as int));
            assert(all.take(i + 1 as int).last() == deep.deep_view()[i as int]);
            assert(deep.deep_view()[i as int] == deep@[i as int].deep_view());
        }
        if extension_matches(&deep[i].name, extensions) {
            let nf = clone_found_file(&deep[i]);
            let ghost copies_pre = copies;
            copies.push(nf);
            proof {
                lemma_deep_view_push(copies_pre, copies, nf);
            }
        }
        i = i + 1;
    }
    proof {
        assert(all.take(deep@.len() as int) =~= all);
    }
    let ghost names = sub_names(folders@);
    let mut remove: Vec<String> = Vec::new();
    let mut k: usize = 0;
    while k < folders.len()
        invariant
            k <= folders.len(),
            names == sub_names(folders@),
            remove.deep_view() == removable_names(names.take(k as int)),
        decreases folders.len() - k,
    {
        proof {
            reveal(Seq::filter);
            assert(names.take(k + 1 as int).drop_last() =~= names.take(k as int));
            assert(names.take(k + 1 as int).last() == names[k as int]);
            assert(names[k as int] == folders@[k as int].name@);
        }
        if !is_hidden_name(&folders[k].name) {
            let nm = folders[k].name.clone();
            let ghost remove_pre = remove;
            remove.push(nm);
            proof {
                lemma_deep_view_push(remove_pre, remove, nm);
            }
        }
        k = k + 1;
    }
    proof {
        assert(names.take(folders@.len() as int) =~= names);
    }
    Ok(ExtractPlan { copies, remove })
}

/// A hidden subfolder — its name starts with `.` — is never scheduled for
/// removal, whatever else the scan holds.
pub proof fn lemma_hidden_never_removed(names: Seq<Seq<char>>, n: Seq<char>)
    requires
        hidden_name(n),
    ensures
        !removable_names(names).contains(n),
{
    broadcast use vstd::seq_lib::group_filter_ensures;

    if removable_names(names).contains(n) {
        let k = choose|k: int|
            0 <= k < removable_names(names).len() && removable_names(names)[k] == n;
        assert(!hidden_name(removable_names(names)[k]));
    }
}

/// Extraction from an already-flat directory plans nothing: a scan without
/// subfolders yields no deep file to copy and no folder to remove, so
/// running the extractor again over a directory the first run flattened
/// changes nothing, whatever the extension set.
pub proof fn lemma_flat_scan_plans_nothing(exts: Seq<Seq<char>>)
    ensures
        wanted_copies(subs_deep_files(Seq::empty(), Seq::<Folder>::empty()), exts)
            == Seq::<FilePath>::empty(),
        removable_names(sub_names(Seq::<Folder>::empty())) == Seq::<Seq<char>>::empty(),
{
    reveal(Seq::filter);
    assert(sub_names(Seq::<Folder>::empty()) =~= Seq::<Seq<char>>::empty());
}

} // verus!
