//! Picking the files to upload out of what a directory walk has seen.
//!
//! The walk itself is the caller's. It hands over one item per directory
//! entry, in the order of the walk; an entry that could not be read is an item
//! too, and is passed over here without ending the scan.

use vstd::prelude::*;
use vstd::string::*;

verus! {

/// The characters a file name has to end with to count as an image file.
pub open spec fn target_suffix() -> Seq<char> {
    seq!['.', 'd', 'c', 'm']
}

/// `name` ends with the target suffix. The comparison is exact: `.DCM` does
/// not match.
pub open spec fn has_target_suffix(name: Seq<char>) -> bool {
    &&& name.len() >= target_suffix().len()
    &&& name.subrange(name.len() - target_suffix().len(), name.len() as int) == target_suffix()
}

/// Tells whether a file name ends with the target suffix.
pub fn name_matches(name: &str) -> (b: bool)
    ensures
        b == has_target_suffix(name@),
{
    let n: usize = name.unicode_len();
    if n < 4 {
        return false;
    }
    let b = name.get_char(n - 4) == '.' && name.get_char(n - 3) == 'd' && name.get_char(n - 2)
        == 'c' && name.get_char(n - 1) == 'm';
    proof {
        let tail = name@.subrange(n - 4, n as int);
        if b {
            assert(tail =~= target_suffix());
        } else {
            assert(tail[0] == name@[n - 4]);
            assert(tail[1] == name@[n - 3]);
            assert(tail[2] == name@[n - 2]);
            assert(tail[3] == name@[n - 1]);
        }
    }
    b
}

/// One directory entry that the walk could read.
#[derive(Debug, Clone, PartialEq, Eq)]
pub struct WalkEntry {
    /// The entry's path, as text.
    pub path: String,
    /// The last component of the path, or `None` where it is not valid
    /// Unicode.
    pub file_name: Option<String>,
    /// Whether the entry is a regular file, and not a directory, a link or
    /// anything else.
    pub is_file: bool,
}

/// One step of the walk.
#[derive(Debug, Clone, PartialEq, Eq)]
pub enum WalkItem {
    /// An entry that was read.
    Entry(WalkEntry),
    /// An entry that could not be read: no permission, a broken link.
    Unreadable,
}

/// A file to upload: its place in the walk, by which the caller finds the
/// entry again, and its path.
#[derive(Debug, Clone, PartialEq, Eq)]
pub struct Candidate {
    pub position: usize,
    pub path: String,
}

impl WalkEntry {
    /// The entry has a name, and the name ends with the target suffix.
    pub open spec fn named_as_image(&self) -> bool {
        match self.file_name {
            Some(name) => has_target_suffix(name@),
            None => false,
        }
    }

    /// The entry is an image file: a regular file whose name ends with the
    /// target suffix. A directory or a link with such a name is not.
    pub open spec fn is_image_file(&self) -> bool {
        self.is_file && self.named_as_image()
    }
}

impl WalkItem {
    /// The item is selected for upload: an entry that was read and that is an
    /// image file.
    pub open spec fn selected(&self) -> bool {
        match *self {
            WalkItem::Entry(entry) => entry.is_image_file(),
            WalkItem::Unreadable => false,
        }
    }
}

/// `found` is what discovery makes of `walk`: it holds the selected items of
/// the walk and nothing else, each once, in the order of the walk, each with
/// its place in the walk and its path.
pub open spec fn is_discovery_of(found: Seq<Candidate>, walk: Seq<WalkItem>) -> bool {
    &&& forall|k: int|
        0 <= k < found.len() ==> {
            &&& (#[trigger] found[k]).position < walk.len()
            &&& walk[found[k].position as int].selected()
            &&& found[k].path@ == walk[found[k].position as int]->Entry_0.path@
        }
    &&& forall|j: int, k: int|
        0 <= j < k < found.len() ==> (#[trigger] found[j]).position < (#[trigger] found[k]).position
    &&& forall|i: int|
        0 <= i < walk.len() && (#[trigger] walk[i]).selected() ==> exists|k: int|
            0 <= k < found.len() && (#[trigger] found[k]).position == i
}

/// The places in the walk of the files that `found` holds.
pub open spec fn places(found: Seq<Candidate>) -> Set<int> {
    Set::new(|i: int| exists|k: int| 0 <= k < found.len() && (#[trigger] found[k]).position == i)
}

/// Tells whether an entry is an image file: a regular file whose name ends
/// with the target suffix. An entry whose name is not valid Unicode is not.
pub fn is_dicom(entry: &WalkEntry) -> (b: bool)
    ensures
        b == (entry.is_file && entry.named_as_image()),
{
    if !entry.is_file {
        return false;
    }
    match &entry.file_name {
        Some(name) => name_matches(name.as_str()),
        None => false,
    }
}

/// Selects the files to upload. The result holds exactly the regular files of
/// the walk whose name ends with the target suffix, each once, in the order of
/// the walk. Unreadable items are passed over, and so is a directory with
/// such a name.
pub fn discover(walk: &Vec<WalkItem>) -> (found: Vec<Candidate>)
    ensures
        is_discovery_of(found@, walk@),
{
    let mut found: Vec<Candidate> = Vec::new();
    let mut i: usize = 0;
    while i < walk.len()
        invariant
            i <= walk.len(),
            forall|k: int|
                0 <= k < found.len() ==> {
                    &&& (#[trigger] found[k]).position < i
                    &&& walk[found[k].position as int].selected()
                    &&& found[k].path@ == walk[found[k].position as int]->Entry_0.path@
                },
            forall|j: int, k: int|
                0 <= j < k < found.len() ==> (#[trigger] found[j]).position < (
                #[trigger] found[k]).position,
            forall|p: int|
                0 <= p < i && (#[trigger] walk[p]).selected() ==> exists|k: int|
                    0 <= k < found.len() && (#[trigger] found[k]).position == p,
        decreases walk.len() - i,
    {
        let ghost before = found@;
        match &walk[i] {
            WalkItem::Entry(entry) => {
                if is_dicom(entry) {
                    found.push(Candidate { position: i, path: entry.path.clone() });
                    assert(found[before.len() as int].position == i);
                }
            },
            WalkItem::Unreadable => {},
        }
        proof {
            assert forall|p: int| 0 <= p < i + 1 && (#[trigger] walk[p]).selected() implies exists|
                k: int,
            | 0 <= k < found.len() && (#[trigger] found[k]).position == p by {
                if p < i {
                    let k = choose|k: int|
                        0 <= k < before.len() && (#[trigger] before[k]).position == p;
                    assert(found[k] == before[k]);
                } else {
                    assert(found[before.len() as int].position == i);
                }
            }
        }
        i += 1;
    }
    found
}

/// What discovery finds is exactly the regular files of the walk whose name
/// ends with the target suffix: none is left out and nothing else comes in.
pub proof fn law_discovery_finds_the_image_files(walk: Seq<WalkItem>, found: Seq<Candidate>)
    requires
        is_discovery_of(found, walk),
    ensures
        places(found) == Set::new(
            |i: int|
                0 <= i < walk.len() && walk[i] is Entry && walk[i]->Entry_0.is_file
                    && walk[i]->Entry_0.named_as_image(),
        ),
{
    let files = Set::new(
        |i: int|
            0 <= i < walk.len() && walk[i] is Entry && walk[i]->Entry_0.is_file
                && walk[i]->Entry_0.named_as_image(),
    );
    assert forall|i: int| places(found).contains(i) implies files.contains(i) by {
        let k = choose|k: int| 0 <= k < found.len() && (#[trigger] found[k]).position == i;
        assert(walk[found[k].position as int].selected());
    }
    assert forall|i: int| files.contains(i) implies places(found).contains(i) by {
        assert(walk[i].selected());
    }
    assert(places(found) =~= files);
}

} // verus!
