//! The path resolver: walks relative components against the real directory
//! tree, optionally accepting entries that differ from the request only in
//! letter case or in Unicode normalization form, and falls back to the
//! requested text verbatim where no entry matches.
use vstd::prelude::*;
use vstd::string::*;

use crate::boundary::{encode_string_list, OwnedStringList};
use crate::paths::{components_of, join_under, joined, split_components};

verus! {

/// The canonical caseless key of a string: the character sequence after
/// Unicode canonical decomposition, default case folding, and decomposition
/// again. Two strings render as the same visible text up to letter case
/// exactly when their keys are equal.
pub uninterp spec fn fold_key(s: Seq<char>) -> Seq<char>;

/// Relies on caseless::canonical_caseless_match_str: it compares the two
/// strings' canonical caseless keys (nfd, default case fold, nfd), each a
/// function of that string's characters alone.
#[verifier::external_body]
fn caseless_match(a: &str, b: &str) -> (r: bool)
    ensures
        r == (fold_key(a@) == fold_key(b@)),
{
    caseless::canonical_caseless_match_str(a, b)
}

/// Relies on std::path::Path::read_dir (std::fs::read_dir on the path) and
/// DirEntry::file_name / DirEntry::metadata: returns each entry's name paired
/// with whether it is a directory, in enumeration order, or None where the
/// path cannot be read as a directory. Entries whose names are not valid
/// UTF-8, or whose metadata cannot be read, are skipped or marked
/// accordingly; the outcome depends on what is on disk, so nothing more is
/// promised of it.
#[verifier::external_body]
fn read_dir_entries(path: &str) -> (r: Option<Vec<(String, bool)>>) {
    match std::path::Path::new(path).read_dir() {
        Ok(iter) => Some(
            iter.filter_map(|e| e.ok()).filter_map(|e| {
                let is_dir = e.metadata().map(|m| m.is_dir()).unwrap_or(false);
                e.file_name().into_string().ok().map(|name| (name, is_dir))
            }).collect(),
        ),
        Err(_) => None,
    }
}

/// Relies on std::path::Path::exists: whether the path points at an entity
/// that exists on disk as of the call; the outcome depends on what is on
/// disk, so nothing is promised of it.
#[verifier::external_body]
fn disk_exists(path: &str) -> bool {
    std::path::Path::new(path).exists()
}

/// Character-for-character string equality.
pub fn str_eq(a: &str, b: &str) -> (r: bool)
    ensures
        r == (a@ == b@),
{
    let n = a.unicode_len();
    if n != b.unicode_len() {
        proof {
            assert(a@ != b@);
        }
        return false;
    }
    let mut i: usize = 0;
    while i < n
        invariant
            i <= n,
            n == a@.len(),
            n == b@.len(),
            forall|k: int| 0 <= k < i ==> a@[k] == b@[k],
        decreases n - i,
    {
        if a.get_char(i) != b.get_char(i) {
            return false;
        }
        i = i + 1;
    }
    proof {
        assert(a@ =~= b@);
    }
    true
}

/// The names of the listed entries, in enumeration order.
fn entry_names(entries: &Vec<(String, bool)>) -> (r: Vec<String>)
    ensures
        r.deep_view().len() == entries@.len(),
        forall|k: int| 0 <= k < entries@.len() ==> r.deep_view()[k] == entries@[k].0@,
{
    let mut r: Vec<String> = Vec::new();
    let mut i: usize = 0;
    while i < entries.len()
        invariant
            i <= entries@.len(),
            r.deep_view().len() == i,
            forall|k: int| 0 <= k < i ==> r.deep_view()[k] == entries@[k].0@,
        decreases entries.len() - i,
    {
        let ghost pre = r.deep_view();
        r.push(entries[i].0.clone());
        proof {
            assert(r.deep_view() =~= pre.push(r@[i as int]@));
        }
        i = i + 1;
    }
    r
}

/// The on-disk name `actual` is acceptable for the request `req`: equal
/// verbatim, or, caselessly, equal under case folding and normalization.
pub open spec fn name_matches(req: Seq<char>, actual: Seq<char>, caseless: bool) -> bool {
    actual == req || (caseless && fold_key(actual) == fold_key(req))
}

/// Every chosen name answers the request at its position, and a non-caseless
/// walk chooses the requested text itself everywhere.
pub open spec fn names_answer(
    req: Seq<Seq<char>>,
    names: Seq<Seq<char>>,
    caseless: bool,
) -> bool {
    &&& names.len() == req.len()
    &&& forall|k: int| 0 <= k < req.len() ==> name_matches(req[k], names[k], caseless)
    &&& !caseless ==> names == req
}

/// Picks the entry to descend into for one requested component: the first
/// entry whose name equals the request verbatim; failing that, caselessly,
/// the first entry whose name has the same canonical caseless key as the
/// request; failing both, none.
pub fn match_component(entries: &Vec<String>, requested: &str, caseless: bool) -> (r: Option<
    usize,
>)
    ensures
        (exists|k: int|
            0 <= k < entries.deep_view().len() && entries.deep_view()[k] == requested@) ==> {
            &&& r is Some
            &&& entries.deep_view()[r.unwrap() as int] == requested@
            &&& forall|k: int| 0 <= k < r.unwrap() ==> entries.deep_view()[k] != requested@
        },
        (!(exists|k: int|
            0 <= k < entries.deep_view().len() && entries.deep_view()[k] == requested@) && caseless
            && exists|k: int|
            0 <= k < entries.deep_view().len() && fold_key(entries.deep_view()[k]) == fold_key(
                requested@,
            )) ==> {
            &&& r is Some
            &&& fold_key(entries.deep_view()[r.unwrap() as int]) == fold_key(requested@)
            &&& forall|k: int|
                0 <= k < r.unwrap() ==> fold_key(entries.deep_view()[k]) != fold_key(requested@)
        },
        (!(exists|k: int|
            0 <= k < entries.deep_view().len() && entries.deep_view()[k] == requested@) && !(
        caseless && exists|k: int|
            0 <= k < entries.deep_view().len() && fold_key(entries.deep_view()[k]) == fold_key(
                requested@,
            ))) ==> r is None,
        r is Some ==> r.unwrap() < entries.len() && name_matches(
            requested@,
            entries.deep_view()[r.unwrap() as int],
            caseless,
        ),
{
    let ghost dv = entries.deep_view();
    let n = entries.len();
    let mut i: usize = 0;
    while i < n
        invariant
            i <= n,
            n == entries@.len(),
            dv == entries.deep_view(),
            dv.len() == n,
            forall|k: int| 0 <= k < i ==> dv[k] != requested@,
        decreases n - i,
    {
        proof {
            assert(dv[i as int] == entries@[i as int]@);
        }
        if str_eq(entries[i].as_str(), requested) {
            proof {
                assert(dv[i as int] == requested@);
            }
            return Some(i);
        }
        i = i + 1;
    }
    if caseless {
        let mut i: usize = 0;
        while i < n
            invariant
                caseless,
                i <= n,
                n == entries@.len(),
                dv == entries.deep_view(),
                dv.len() == n,
                forall|k: int| 0 <= k < n ==> dv[k] != requested@,
                forall|k: int| 0 <= k < i ==> fold_key(dv[k]) != fold_key(requested@),
            decreases n - i,
        {
            proof {
                assert(dv[i as int] == entries@[i as int]@);
            }
            if caseless_match(entries[i].as_str(), requested) {
                proof {
                    assert(0 <= i < entries.deep_view().len() && fold_key(
                        entries.deep_view()[i as int],
                    ) == fold_key(requested@));
                }
                return Some(i);
            }
            i = i + 1;
        }
    }
    None
}

/// Picks the text to descend with for one requested component: the first
/// entry equal to the request verbatim (so the text is the request itself);
/// failing that, caselessly, the text of the first entry whose canonical
/// caseless key equals the request's — the name as stored on disk, not as
/// requested; failing both, nothing.
pub fn choose_name(entries: &Vec<String>, requested: &str, caseless: bool) -> (r: Option<String>)
    ensures
        (exists|k: int|
            0 <= k < entries.deep_view().len() && entries.deep_view()[k] == requested@) ==> {
            &&& r is Some
            &&& r.unwrap()@ == requested@
        },
        (!(exists|k: int|
            0 <= k < entries.deep_view().len() && entries.deep_view()[k] == requested@) && caseless
            && exists|k: int|
            0 <= k < entries.deep_view().len() && fold_key(entries.deep_view()[k]) == fold_key(
                requested@,
            )) ==> {
            &&& r is Some
            &&& exists|k: int|
                {
                    &&& 0 <= k < entries.deep_view().len()
                    &&& fold_key(#[trigger] entries.deep_view()[k]) == fold_key(requested@)
                    &&& forall|j: int|
                        0 <= j < k ==> fold_key(entries.deep_view()[j]) != fold_key(requested@)
                    &&& r.unwrap()@ == entries.deep_view()[k]
                }
        },
        (!(exists|k: int|
            0 <= k < entries.deep_view().len() && entries.deep_view()[k] == requested@) && !(
        caseless && exists|k: int|
            0 <= k < entries.deep_view().len() && fold_key(entries.deep_view()[k]) == fold_key(
                requested@,
            ))) ==> r is None,
        r is Some ==> name_matches(requested@, r.unwrap()@, caseless),
{
    match match_component(entries, requested, caseless) {
        Some(k) => {
            let name = entries[k].clone();
            proof {
                assert(entries.deep_view()[k as int] == entries@[k as int]@);
                assert(name@ == entries.deep_view()[k as int]);
            }
            Some(name)
        },
        None => None,
    }
}

/// Walks the requested components against the directory tree under `base`
/// and returns the chosen on-disk (or, where nothing matched, requested)
/// name for each position. Once a component finds no match — also where a
/// directory cannot be read, or the base does not exist — the remaining
/// requested components are taken verbatim.
pub fn resolve_components(base: &str, relative: &Vec<String>, caseless: bool) -> (names: Vec<
    String,
>)
    ensures
        names_answer(relative.deep_view(), names.deep_view(), caseless),
{
    let ghost req = relative.deep_view();
    let mut names: Vec<String> = Vec::new();
    let mut here: String = base.to_owned();
    let mut walking: bool = true;
    let mut i: usize = 0;
    proof {
        assert(names.deep_view() =~= Seq::<Seq<char>>::empty());
        assert(req.take(0) =~= Seq::<Seq<char>>::empty());
    }
    while i < relative.len()
        invariant
            i <= relative.len(),
            req == relative.deep_view(),
            req.len() == relative@.len(),
            names.deep_view().len() == i,
            forall|k: int|
                0 <= k < i ==> name_matches(req[k], names.deep_view()[k], caseless),
            !caseless ==> names.deep_view() =~= req.take(i as int),
        decreases relative.len() - i,
    {
        let ghost pre = names.deep_view();
        proof {
            assert(req[i as int] == relative@[i as int]@);
        }
        let mut chosen: Option<String> = None;
        if walking {
            match read_dir_entries(here.as_str()) {
                Some(entries) => {
                    let listed = entry_names(&entries);
                    match choose_name(&listed, relative[i].as_str(), caseless) {
                        Some(name) => {
                            chosen = Some(name);
                        },
                        None => {
                            walking = false;
                        },
                    }
                },
                None => {
                    walking = false;
                },
            }
        }
        let name: String = match chosen {
            Some(name) => name,
            None => relative[i].clone(),
        };
        here.append("/");
        here.append(name.as_str());
        names.push(name);
        proof {
            assert(names.deep_view() =~= pre.push(names@[i as int]@));
            if !caseless {
                assert(names.deep_view() =~= req.take(i + 1));
            }
        }
        i = i + 1;
    }
    proof {
        if !caseless {
            assert(req.take(req.len() as int) =~= req);
        }
    }
    names
}

/// Resolves a sequence of relative components against `base`: the result is
/// `base` followed by one name per requested component, each matching its
/// request verbatim or — caselessly — up to letter case and Unicode
/// normalization form. An empty sequence returns the base unchanged, and a
/// non-caseless resolve returns the requested components verbatim under the
/// base.
pub fn resolve(base: &str, relative: &Vec<String>, caseless: bool) -> (r: String)
    ensures
        exists|names: Seq<Seq<char>>|
            #[trigger] names_answer(relative.deep_view(), names, caseless) && r@ == joined(
                base@,
                names,
            ),
        !caseless ==> r@ == joined(base@, relative.deep_view()),
        relative@.len() == 0 ==> r@ == base@,
{
    let names = resolve_components(base, relative, caseless);
    let r = join_under(base, &names);
    proof {
        assert(names_answer(relative.deep_view(), names.deep_view(), caseless));
    }
    r
}

/// Resolves the relative components against the base as `resolve` does and
/// reports whether the resolved path exists on the filesystem as of the
/// check. A base that does not exist gives false, never an error.
pub fn exists_relative(base: &str, relative: &Vec<String>, caseless: bool) -> bool {
    let r = resolve(base, relative, caseless);
    disk_exists(r.as_str())
}

/// Resolves a relative path string against `base` as `resolve` does, after
/// splitting it into its `/`-separated components. An empty relative path
/// returns the base unchanged, and a non-caseless resolve returns the
/// requested text verbatim under the base.
pub fn resolve_path(base: &str, relative: &str, caseless: bool) -> (r: String)
    ensures
        exists|names: Seq<Seq<char>>|
            #[trigger] names_answer(components_of(relative@), names, caseless) && r@ == joined(
                base@,
                names,
            ),
        !caseless ==> r@ == joined(base@, components_of(relative@)),
        components_of(relative@).len() == 0 ==> r@ == base@,
        relative@.len() == 0 ==> r@ == base@,
{
    let comps = split_components(relative);
    let names = resolve_components(base, &comps, caseless);
    let r = join_under(base, &names);
    proof {
        assert(names_answer(components_of(relative@), names.deep_view(), caseless));
        if relative@.len() == 0 {
            assert(components_of(relative@) =~= Seq::<Seq<char>>::empty());
        }
    }
    r
}

/// The names of the entries flagged as directories, in order.
pub open spec fn directory_names_of(s: Seq<(String, bool)>) -> Seq<Seq<char>>
    decreases s.len(),
{
    if s.len() == 0 {
        Seq::empty()
    } else if s.last().1 {
        directory_names_of(s.drop_last()).push(s.last().0@)
    } else {
        directory_names_of(s.drop_last())
    }
}

/// Keeps exactly the names of the entries flagged as directories, in
/// enumeration order.
pub fn subdirectory_names(entries: &Vec<(String, bool)>) -> (r: Vec<String>)
    ensures
        r.deep_view() == directory_names_of(entries@),
{
    let mut r: Vec<String> = Vec::new();
    let mut i: usize = 0;
    proof {
        assert(entries@.take(0) =~= Seq::<(String, bool)>::empty());
        assert(r.deep_view() =~= Seq::<Seq<char>>::empty());
    }
    while i < entries.len()
        invariant
            i <= entries@.len(),
            r.deep_view() == directory_names_of(entries@.take(i as int)),
        decreases entries.len() - i,
    {
        let ghost pre = r.deep_view();
        if entries[i].1 {
            r.push(entries[i].0.clone());
            proof {
                assert(r.deep_view() =~= pre.push(entries@[i as int].0@));
            }
        }
        proof {
            assert(entries@.take(i + 1).drop_last() =~= entries@.take(i as int));
            assert(entries@.take(i + 1).last() == entries@[i as int]);
            assert(r.deep_view() =~= directory_names_of(entries@.take(i + 1)));
        }
        i = i + 1;
    }
    proof {
        assert(entries@.take(entries@.len() as int) =~= entries@);
    }
    r
}

/// Lists the names of the subdirectory entries of `container`, encoded for
/// the boundary: `subdirectory_names` keeps exactly the directories of the
/// listing, and `encode_string_list` carries them over in order. A container
/// that cannot be read — absent, unreadable, or not a directory — yields the
/// valid empty list, never an absent one.
pub fn list_subdirectories(container: &str) -> (r: OwnedStringList)
    ensures
        r.wf(),
{
    match read_dir_entries(container) {
        Some(entries) => {
            let names = subdirectory_names(&entries);
            encode_string_list(&names)
        },
        None => OwnedStringList::new(),
    }
}

/// Resolves the relative path against the base as `resolve_path` does and
/// reports whether the resolved path exists on the filesystem as of the
/// check. A base that does not exist gives false, never an error.
pub fn path_exists(base: &str, relative: &str, caseless: bool) -> bool {
    let comps = split_components(relative);
    exists_relative(base, &comps, caseless)
}

} // verus!
