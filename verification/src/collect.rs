//! The recursive collector: walks a scanned tree of folders depth-first and
//! accumulates every file found at any depth.

use vstd::prelude::*;

use crate::fs_tree::{
    files_at, folder_deep_files, subs_deep_files, FilePath, Folder, FoundFile,
};

verus! {

pub(crate) proof fn lemma_deep_view_push<T: DeepView>(a: Vec<T>, b: Vec<T>, x: T)
    requires
        b@ == a@.push(x),
    ensures
        b.deep_view() == a.deep_view().push(x.deep_view()),
{
    assert forall|k: int| 0 <= k < b.deep_view().len() implies b.deep_view()[k]
        == a.deep_view().push(x.deep_view())[k] by {
        if k < a@.len() {
            assert(b@[k] == a@[k]);
        } else {
            assert(b@[k] == x);
        }
    }
    assert(b.deep_view() =~= a.deep_view().push(x.deep_view()));
}

/// Copy of a vector of names, element by element.
pub(crate) fn clone_strings(v: &Vec<String>) -> (r: Vec<String>)
    ensures
        r.deep_view() == v.deep_view(),
{
    let mut r: Vec<String> = Vec::new();
    let mut i: usize = 0;
    while i < v.len()
        invariant
            i <= v.len(),
            r@.len() == i,
            forall|k: int| 0 <= k < i ==> r@[k]@ == v@[k]@,
        decreases v.len() - i,
    {
        r.push(v[i].clone());
        i = i + 1;
    }
    proof {
        assert forall|k: int| 0 <= k < v@.len() implies r.deep_view()[k]
            == v.deep_view()[k] by {
            assert(r@[k]@ == v@[k]@);
        }
        assert(r.deep_view() =~= v.deep_view());
    }
    r
}

/// Appends to `acc` every file lying at any depth inside `f`, each tagged
/// with the folder names leading to it: `prefix`, then `f`'s name, then the
/// names walked below.
fn collect_from_folder(prefix: &Vec<String>, f: &Folder, acc: &mut Vec<FoundFile>)
    ensures
        final(acc).deep_view() == old(acc).deep_view() + folder_deep_files(
            prefix.deep_view(),
            *f,
        ),
    decreases *f,
{
    let mut here = clone_strings(prefix);
    here.push(f.name.clone());
    proof {
        assert(here.deep_view() =~= prefix.deep_view().push(f.name@));
    }
    let ghost here_dv = here.deep_view();
    let ghost files_m = files_at(here_dv, f.files.deep_view());
    let mut j: usize = 0;
    while j < f.files.len()
        invariant
            j <= f.files.len(),
            here.deep_view() == here_dv,
            files_m == files_at(here_dv, f.files.deep_view()),
            acc.deep_view() == old(acc).deep_view() + files_m.take(j as int),
        decreases f.files.len() - j,
    {
        let nf = FoundFile { dirs: clone_strings(&here), name: f.files[j].clone() };
        let ghost acc_pre = *acc;
        proof {
            assert(nf.deep_view() == files_m[j as int]);
        }
        acc.push(nf);
        proof {
            lemma_deep_view_push(acc_pre, *acc, nf);
            assert(files_m.take(j + 1 as int) =~= files_m.take(j as int).push(
                files_m[j as int],
            ));
            assert(acc.deep_view() =~= old(acc).deep_view() + files_m.take(j + 1 as int));
        }
        j = j + 1;
    }
    proof {
        assert(files_m.take(f.files@.len() as int) =~= files_m);
    }
    collect_from_subs(&here, &f.subs, acc);
}

/// Appends to `acc` every file lying at any depth inside one of `subs`,
/// folder by folder.
fn collect_from_subs(prefix: &Vec<String>, subs: &Vec<Folder>, acc: &mut Vec<FoundFile>)
    ensures
        final(acc).deep_view() == old(acc).deep_view() + subs_deep_files(
            prefix.deep_view(),
            subs@,
        ),
    decreases subs@,
{
    let mut k: usize = 0;
    while k < subs.len()
        invariant
            k <= subs.len(),
            acc.deep_view() == old(acc).deep_view() + subs_deep_files(
                prefix.deep_view(),
                subs@.take(k as int),
            ),
        decreases subs.len() - k,
    {
        collect_from_folder(prefix, &subs[k], acc);
        proof {
            assert(subs@.take(k + 1 as int).drop_last() =~= subs@.take(k as int));
            assert(subs@.take(k + 1 as int).last() == subs@[k as int]);
            assert(acc.deep_view() =~= old(acc).deep_view() + subs_deep_files(
                prefix.deep_view(),
                subs@.take(k + 1 as int),
            ));
        }
        k = k + 1;
    }
    proof {
        assert(subs@.take(subs@.len() as int) =~= subs@);
    }
}

/// Recursively collects every file found at any depth inside the given
/// folders, depth-first: exactly the deep files of the scan, in order, each
/// tagged with the chain of folder names that leads to it.
pub fn collect_deep_files(folders: &Vec<Folder>) -> (r: Vec<FoundFile>)
    ensures
        r.deep_view() == subs_deep_files(Seq::empty(), folders@),
{
    let prefix: Vec<String> = Vec::new();
    let mut acc: Vec<FoundFile> = Vec::new();
    proof {
        assert(prefix.deep_view() =~= Seq::<Seq<char>>::empty());
        assert(acc.deep_view() =~= Seq::<FilePath>::empty());
    }
    collect_from_subs(&prefix, &folders, &mut acc);
    proof {
        assert(acc.deep_view() =~= subs_deep_files(Seq::empty(), folders@));
    }
    acc
}

} // verus!
