//! Where the window's images come from: names under `service-icons/` or
//! `icons/` are read from the `icons` folder of the working directory when
//! such a file exists; everything else, and any file that is missing,
//! comes from the UI kit's bundled assets.

use vstd::prelude::*;

use crate::paths::{join, path_join};
use crate::text::{chars_of, has_prefix, matches_at, slice_chars, string_of};

verus! {

/// The combined asset source.
pub struct CombinedAssets {
    /// The folder that `service-icons/` and `icons/` names are read from.
    pub icons_dir: String,
}

/// The icons folder: `icons` under the working directory, or under `.`
/// when the working directory cannot be told.
pub open spec fn icons_dir_for(cwd: Option<Seq<char>>) -> Seq<char> {
    path_join(
        match cwd {
            Some(c) => c,
            None => "."@,
        },
        "icons"@,
    )
}

/// The file on disk that an asset name is first looked up in.
pub open spec fn disk_file_for(icons_dir: Seq<char>, name: Seq<char>) -> Option<Seq<char>> {
    if has_prefix(name, "service-icons/"@) {
        Some(path_join(icons_dir, name.subrange(14, name.len() as int)))
    } else if has_prefix(name, "icons/"@) {
        Some(path_join(icons_dir, name.subrange(6, name.len() as int)))
    } else {
        None
    }
}

impl CombinedAssets {
    /// The asset source for a working directory (`None` when it cannot be
    /// told).
    pub fn new(cwd: Option<String>) -> (r: Self)
        ensures
            r.icons_dir@ == icons_dir_for(match cwd {
                Some(c) => Some(c@),
                None => None,
            }),
    {
        let icons_dir = match cwd {
            Some(c) => join(c.as_str(), "icons"),
            None => join(".", "icons"),
        };
        CombinedAssets { icons_dir }
    }

    /// The file on disk to try for the asset `name`, if it is one of ours;
    /// when that file cannot be read the bundled asset of the same name is
    /// used.
    pub fn disk_file(&self, name: &str) -> (r: Option<String>)
        ensures
            match disk_file_for(self.icons_dir@, name@) {
                Some(p) => r matches Some(f) && f@ == p,
                None => r is None,
            },
    {
        let v = chars_of(name);
        let svc = chars_of("service-icons/");
        let icons = chars_of("icons/");
        proof {
            reveal_strlit("service-icons/");
            reveal_strlit("icons/");
            assert(v@.subrange(0, v@.len() as int) == v@);
        }
        if matches_at(v.as_slice(), 0, svc.as_slice()) {
            assert(v@.subrange(0, 14) == svc@);
            let rel = slice_chars(v.as_slice(), 14, v.len());
            let rel_s = string_of(rel.as_slice());
            Some(join(self.icons_dir.as_str(), rel_s.as_str()))
        } else if matches_at(v.as_slice(), 0, icons.as_slice()) {
            assert(v@.subrange(0, 6) == icons@);
            let rel = slice_chars(v.as_slice(), 6, v.len());
            let rel_s = string_of(rel.as_slice());
            Some(join(self.icons_dir.as_str(), rel_s.as_str()))
        } else {
            None
        }
    }
}

} // verus!
