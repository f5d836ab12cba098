//! What is removed from the vendor directory after prefixing.

use vstd::prelude::*;
use crate::config::strauss_config::StraussConfig;
use crate::strs::seqs;
use crate::types::discovered_files::{DiscoveredFiles, file_views};
use crate::types::file::FileView;

verus! {

/// What the cleanup removes.
#[derive(Debug, Clone, Copy, PartialEq, Eq, Structural)]
pub enum CleanupMode {
    /// Whole vendor packages.
    Packages,
    /// Individual vendor files marked for deletion.
    Files,
    /// Nothing.
    Nothing,
}

/// Package deletion wins over file deletion.
pub open spec fn spec_cleanup_mode(delete_vendor_packages: bool, delete_vendor_files: bool) -> CleanupMode {
    if delete_vendor_packages {
        CleanupMode::Packages
    } else if delete_vendor_files {
        CleanupMode::Files
    } else {
        CleanupMode::Nothing
    }
}

/// What the configuration asks the cleanup to remove.
pub fn cleanup_mode(config: &StraussConfig) -> (r: CleanupMode)
    ensures
        r == spec_cleanup_mode(config.delete_vendor_packages, config.delete_vendor_files),
{
    if config.delete_vendor_packages {
        CleanupMode::Packages
    } else if config.delete_vendor_files {
        CleanupMode::Files
    } else {
        CleanupMode::Nothing
    }
}

/// A file marked for deletion and not yet deleted.
pub open spec fn due_for_deletion(f: FileView) -> bool {
    f.do_delete == Some(true) && !f.did_delete
}

/// The source paths of the files due for deletion, in order.
pub fn files_to_delete(files: &DiscoveredFiles) -> (r: Vec<String>)
    ensures
        seqs(r@) == files@.filter(|f: FileView| due_for_deletion(f)).map_values(|f: FileView| f.source_absolute_path),
{
    let v = files.get_files();
    let ghost views = file_views(v@);
    let mut out: Vec<String> = Vec::new();
    let mut i: usize = 0;
    proof {
        reveal(Seq::filter);
        assert(views.take(0).filter(|f: FileView| due_for_deletion(f)) =~= Seq::<FileView>::empty());
    }
    assert(seqs(out@) =~= Seq::<Seq<char>>::empty());
    while i < v.len()
        invariant
            views == file_views(v@),
            i <= v.len(),
            seqs(out@) == views.take(i as int).filter(|f: FileView| due_for_deletion(f)).map_values(|f: FileView| f.source_absolute_path),
        decreases v.len() - i,
    {
        proof {
            reveal(Seq::filter);
            assert(views.take(i + 1).drop_last() == views.take(i as int));
            assert(views.take(i + 1).last() == v@[i as int]@);
        }
        let f = &v[i];
        let due = match f.do_delete {
            Some(b) => b,
            None => false,
        } && !f.did_delete;
        if due {
            let ghost pre = out@;
            out.push(f.source_absolute_path.clone());
            proof {
                let g = views.take(i as int).filter(|x: FileView| due_for_deletion(x));
                assert(views.take(i + 1).filter(|x: FileView| due_for_deletion(x)) == g.push(f@));
                assert(g.push(f@).map_values(|x: FileView| x.source_absolute_path)
                    =~= g.map_values(|x: FileView| x.source_absolute_path).push(f.source_absolute_path@));
                assert(seqs(out@) == seqs(pre).push(f.source_absolute_path@));
            }
        }
        i += 1;
    }
    assert(views.take(v.len() as int) == views);
    out
}

} // verus!
