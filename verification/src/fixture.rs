//! Planning of executable fixtures: the fixed `a`, `b`, `c` subdirectory
//! layout, the path of the one canonical binary inside each, the joined
//! search-path string over them, and the permission mode that marks a
//! placeholder file executable.
//!
//! Everything here computes over plain path strings; putting the planned
//! layout onto a real disk is input/output work and happens outside this
//! crate's verified core.

use vstd::prelude::*;
use vstd::string::StrSliceExecFns;
use vstd::string::StringExecFns;
use crate::pathlist::{join_spec, join_path_list, split_spec, lemma_join_split_roundtrip};

verus! {

/// The fixed, ordered subdirectory names every fixture is built from.
pub open spec fn subdir_names_spec() -> Seq<Seq<char>> {
    seq!["a"@, "b"@, "c"@]
}

/// The canonical name of the one executable placeholder in each subdirectory.
pub open spec fn bin_name_spec() -> Seq<char> {
    "bin"@
}

/// The fixed subdirectory names, in creation order.
pub fn subdir_names() -> (r: Vec<String>)
    ensures
        r.deep_view() == subdir_names_spec(),
{
    let mut r: Vec<String> = Vec::new();
    r.push("a".to_owned());
    r.push("b".to_owned());
    r.push("c".to_owned());
    proof {
        assert(r.deep_view() =~~= subdir_names_spec());
    }
    r
}

/// The canonical binary name.
pub fn bin_name() -> (r: String)
    ensures
        r@ == bin_name_spec(),
{
    "bin".to_owned()
}

/// The path of entry `name` directly under `dir`.
pub open spec fn path_under_spec(dir: Seq<char>, dirsep: char, name: Seq<char>) -> Seq<char> {
    dir + seq![dirsep] + name
}

/// The absolute path of the fixture's `i`-th subdirectory under `root`.
pub open spec fn subdir_path_spec(root: Seq<char>, dirsep: char, i: int) -> Seq<char> {
    path_under_spec(root, dirsep, subdir_names_spec()[i])
}

/// The absolute path of the canonical binary inside the `i`-th subdirectory.
pub open spec fn bin_path_spec(root: Seq<char>, dirsep: char, i: int) -> Seq<char> {
    path_under_spec(subdir_path_spec(root, dirsep, i), dirsep, bin_name_spec())
}

/// The three subdirectory paths in creation order.
pub open spec fn subdir_paths_spec(root: Seq<char>, dirsep: char) -> Seq<Seq<char>> {
    Seq::new(3, |i: int| subdir_path_spec(root, dirsep, i))
}

/// Joins `dir` and `name` with the directory separator between them.
pub fn path_under(dir: &str, dirsep: char, name: &str) -> (r: String)
    ensures
        r@ == path_under_spec(dir@, dirsep, name@),
{
    let mut out = dir.to_owned();
    out.push(dirsep);
    out.append(name);
    proof {
        assert(out@ =~= path_under_spec(dir@, dirsep, name@));
    }
    out
}

/// A planned fixture layout: where the three subdirectories go, where the one
/// canonical binary in each goes, and the search-path string joining the
/// subdirectories in creation order.
pub struct FixtureLayout {
    /// The subdirectory paths, index-aligned with `a`, `b`, `c`.
    pub subdirs: Vec<String>,
    /// The search-path string: the subdirectory paths joined in order.
    pub paths: String,
    /// The binary paths, one inside each subdirectory, same order.
    pub bins: Vec<String>,
}

/// Plans the fixture layout under `root`: exactly three subdirectories named
/// `a`, `b`, `c` in that fixed order, one canonical binary path in each, and
/// the subdirectory paths joined with `listsep` into a search-path string.
/// Planning succeeds exactly when no planned subdirectory path holds the list
/// separator itself; otherwise the search-path string could not be split back
/// apart and `None` comes back.
pub fn plan_fixture(root: &str, dirsep: char, listsep: char) -> (r: Option<FixtureLayout>)
    ensures
        r is Some <==> (forall|i: int|
            0 <= i < 3 ==> !(#[trigger] subdir_path_spec(root@, dirsep, i)).contains(listsep)),
        r matches Some(layout) ==> {
            &&& layout.subdirs.deep_view() == subdir_paths_spec(root@, dirsep)
            &&& layout.bins.deep_view().len() == 3
            &&& (forall|i: int| 0 <= i < 3
                ==> layout.bins.deep_view()[i] == bin_path_spec(root@, dirsep, i))
            &&& layout.paths@ == join_spec(subdir_paths_spec(root@, dirsep), listsep)
        },
{
    let names = subdir_names();
    proof {
        assert(names@.len() == names.deep_view().len());
    }
    let mut subdirs: Vec<String> = Vec::new();
    let mut bins: Vec<String> = Vec::new();
    let mut i: usize = 0;
    while i < 3
        invariant
            0 <= i <= 3,
            names.deep_view() == subdir_names_spec(),
            names@.len() == 3,
            subdirs@.len() == i,
            bins@.len() == i,
            forall|j: int| 0 <= j < i
                ==> #[trigger] subdirs.deep_view()[j] == subdir_path_spec(root@, dirsep, j),
            forall|j: int| 0 <= j < i
                ==> #[trigger] bins.deep_view()[j] == bin_path_spec(root@, dirsep, j),
        decreases 3 - i,
    {
        let sub = path_under(root, dirsep, names[i].as_str());
        let bin = path_under(sub.as_str(), dirsep, "bin");
        proof {
            assert(names.deep_view()[i as int] == subdir_names_spec()[i as int]);
            assert(names@[i as int]@ == names.deep_view()[i as int]);
            assert(sub@ == subdir_path_spec(root@, dirsep, i as int));
            assert(bin@ == bin_path_spec(root@, dirsep, i as int));
        }
        let ghost pre_subdirs = subdirs.deep_view();
        let ghost pre_bins = bins.deep_view();
        let ghost sub_view = sub@;
        let ghost bin_view = bin@;
        subdirs.push(sub);
        bins.push(bin);
        proof {
            assert(subdirs.deep_view() =~~= pre_subdirs.push(sub_view));
            assert(bins.deep_view() =~~= pre_bins.push(bin_view));
        }
        i = i + 1;
    }
    proof {
        assert(subdirs.deep_view() =~~= subdir_paths_spec(root@, dirsep));
    }
    let joined = join_path_list(&subdirs, listsep);
    proof {
        let dv = subdirs.deep_view();
        assert(joined is Some ==> forall|i: int|
            0 <= i < 3 ==> !(#[trigger] subdir_path_spec(root@, dirsep, i)).contains(listsep)) by {
            if joined is Some {
                assert forall|i: int| 0 <= i < 3
                    implies !(#[trigger] subdir_path_spec(root@, dirsep, i)).contains(listsep) by {
                    assert(dv[i] == subdir_path_spec(root@, dirsep, i));
                    assert(!dv[i].contains(listsep));
                }
            }
        }
        assert((forall|i: int|
            0 <= i < 3 ==> !(#[trigger] subdir_path_spec(root@, dirsep, i)).contains(listsep))
            ==> joined is Some) by {
            if forall|i: int|
                0 <= i < 3 ==> !(#[trigger] subdir_path_spec(root@, dirsep, i)).contains(listsep) {
                assert forall|i: int| 0 <= i < dv.len()
                    implies !(#[trigger] dv[i]).contains(listsep) by {
                    assert(dv[i] == subdir_path_spec(root@, dirsep, i));
                }
            }
        }
    }
    match joined {
        Some(paths) => Some(FixtureLayout { subdirs, paths, bins }),
        None => None,
    }
}

/// Relies on `libc::S_IXUSR`: the owner-execute permission bit, octal `100`
/// on every platform libc covers.
#[verifier::external_body]
fn owner_execute_bit() -> (r: u32)
    ensures
        r == 0o100,
{
    libc::S_IXUSR as u32
}

/// The permission mode an executable placeholder file is created with on
/// POSIX-like systems: readable and writable by all, plus the owner-execute
/// bit — so the file always carries owner-execute.
pub fn executable_file_mode() -> (r: u32)
    ensures
        r == 0o766,
        r & 0o100 == 0o100,
{
    let m = 0o666u32 | owner_execute_bit();
    proof {
        assert(0o666u32 | 0o100u32 == 0o766u32) by (bit_vector);
        assert(0o766u32 & 0o100u32 == 0o100u32) by (bit_vector);
    }
    m
}

/// Whenever one string holds a character, so does any concatenation it is
/// part of — and conversely, a concatenation only holds characters its parts
/// hold.
proof fn lemma_contains_concat(a: Seq<char>, b: Seq<char>, x: char)
    ensures
        (a + b).contains(x) <==> a.contains(x) || b.contains(x),
{
    if (a + b).contains(x) {
        let i = choose|i: int| 0 <= i < (a + b).len() && (a + b)[i] == x;
        if i < a.len() {
            assert(a[i] == x);
        } else {
            assert(b[i - a.len()] == x);
        }
    }
    if a.contains(x) {
        let i = choose|i: int| 0 <= i < a.len() && a[i] == x;
        assert((a + b)[i] == x);
    }
    if b.contains(x) {
        let i = choose|i: int| 0 <= i < b.len() && b[i] == x;
        assert((a + b)[a.len() + i] == x);
    }
}

/// Planning cannot fail for a realistic root: when the root path is free of
/// the list separator and the two separators differ — as `/` and `:` do on
/// POSIX-like systems, `\` and `;` elsewhere — no planned subdirectory path
/// holds the list separator, so [`plan_fixture`] returns a layout.
pub proof fn lemma_plan_succeeds_for_clean_root(root: Seq<char>, dirsep: char, listsep: char)
    requires
        !root.contains(listsep),
        dirsep != listsep,
        listsep != 'a',
        listsep != 'b',
        listsep != 'c',
    ensures
        forall|i: int|
            0 <= i < 3 ==> !(#[trigger] subdir_path_spec(root, dirsep, i)).contains(listsep),
{
    reveal_strlit("a");
    reveal_strlit("b");
    reveal_strlit("c");
    assert forall|i: int| 0 <= i < 3
        implies !(#[trigger] subdir_path_spec(root, dirsep, i)).contains(listsep) by {
        let name = subdir_names_spec()[i];
        assert(name.len() == 1 && name[0] != listsep);
        assert(!name.contains(listsep));
        assert(!seq![dirsep].contains(listsep)) by {
            if seq![dirsep].contains(listsep) {
                let j = choose|j: int| 0 <= j < 1 && seq![dirsep][j] == listsep;
                assert(dirsep == listsep);
            }
        }
        lemma_contains_concat(root, seq![dirsep], listsep);
        lemma_contains_concat(root + seq![dirsep], name, listsep);
    }
}

/// Round-trip law for the fixture: the search-path string a layout joins,
/// split back at the same list separator, reproduces exactly the three
/// subdirectory paths in creation order `a`, `b`, `c`.
pub proof fn lemma_fixture_paths_roundtrip(root: Seq<char>, dirsep: char, listsep: char)
    requires
        forall|i: int|
            0 <= i < 3 ==> !(#[trigger] subdir_path_spec(root, dirsep, i)).contains(listsep),
    ensures
        split_spec(join_spec(subdir_paths_spec(root, dirsep), listsep), listsep)
            == subdir_paths_spec(root, dirsep),
{
    let paths = subdir_paths_spec(root, dirsep);
    assert(forall|i: int| 0 <= i < paths.len() ==> !(#[trigger] paths[i]).contains(listsep));
    lemma_join_split_roundtrip(paths, listsep);
}

} // verus!
