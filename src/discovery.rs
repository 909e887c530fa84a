//! Filtered file discovery: which walked entries are reported, by an ignore
//! list of case-insensitive substrings and an allow-list of extensions.

use vstd::prelude::*;
use vstd::string::StringExecFns;
use crate::text::{
    contains_str, extension_of, has_substring, lower_of, path_extension, relative_to,
    strip_root, to_lower,
};

verus! {

/// One entry met by the directory walk below the root.
#[derive(Debug)]
pub struct WalkEntry {
    pub path: String,
    pub is_file: bool,
}

/// The text that the ignore patterns are matched against: the path relative
/// to the root, or the full path where it does not lie below the root.
pub open spec fn ignore_subject(root: Seq<char>, full: Seq<char>) -> Seq<char> {
    match relative_to(root, full) {
        Some(r) => r,
        None => full,
    }
}

/// Some pattern, case-folded, occurs in the case-folded ignore subject.
pub open spec fn is_ignored(root: Seq<char>, full: Seq<char>, pats: Seq<String>) -> bool {
    exists|i: int|
        0 <= i < pats.len() && has_substring(
            lower_of(ignore_subject(root, full)),
            lower_of(#[trigger] pats[i]@),
        )
}

/// The case-folded extension with its leading dot, or empty without one.
pub open spec fn dotted_ext(path: Seq<char>) -> Seq<char> {
    match extension_of(path) {
        Some(e) => seq!['.'] + lower_of(e),
        None => Seq::empty(),
    }
}

/// Some allowed extension, case-folded, equals the path's dotted extension.
pub open spec fn ext_allowed(path: Seq<char>, exts: Seq<String>) -> bool {
    exists|j: int| 0 <= j < exts.len() && lower_of(#[trigger] exts[j]@) == dotted_ext(path)
}

/// The entry is a regular file, not ignored, with an allowed extension.
pub open spec fn is_kept(root: Seq<char>, e: WalkEntry, pats: Seq<String>, exts: Seq<String>) -> bool {
    e.is_file && !is_ignored(root, e.path@, pats) && ext_allowed(e.path@, exts)
}

/// The paths of the kept entries, in walk order.
pub open spec fn selected(
    root: Seq<char>,
    entries: Seq<WalkEntry>,
    pats: Seq<String>,
    exts: Seq<String>,
) -> Seq<Seq<char>>
    decreases entries.len(),
{
    if entries.len() == 0 {
        Seq::empty()
    } else {
        let prev = selected(root, entries.drop_last(), pats, exts);
        if is_kept(root, entries.last(), pats, exts) {
            prev.push(entries.last().path@)
        } else {
            prev
        }
    }
}

/// Whether the entry at `full_path` is excluded by one of the ignore patterns.
pub fn should_ignore(root: &str, full_path: &str, ignore_patterns: &Vec<String>) -> (r: bool)
    ensures
        r == is_ignored(root@, full_path@, ignore_patterns@),
{
    let rel = match strip_root(root, full_path) {
        Some(r) => r,
        None => String::from_str(full_path),
    };
    let rel_lc = to_lower(rel.as_str());
    assert(rel_lc@ == lower_of(ignore_subject(root@, full_path@)));
    let mut i: usize = 0;
    while i < ignore_patterns.len()
        invariant
            i <= ignore_patterns@.len(),
            rel_lc@ == lower_of(ignore_subject(root@, full_path@)),
            forall|k: int| 0 <= k < i ==> !has_substring(rel_lc@, lower_of(#[trigger] ignore_patterns@[k]@)),
        decreases ignore_patterns@.len() - i,
    {
        let p = to_lower(ignore_patterns[i].as_str());
        if contains_str(rel_lc.as_str(), p.as_str()) {
            return true;
        }
        i = i + 1;
    }
    false
}

/// The path's extension with a leading dot, case-folded; empty without one.
pub fn ext_with_dot(path: &str) -> (r: String)
    ensures
        r@ == dotted_ext(path@),
{
    match path_extension(path) {
        Some(e) => {
            let lowered = to_lower(e.as_str());
            proof {
                reveal_strlit(".");
            }
            let dot = String::from_str(".");
            dot.concat(lowered.as_str())
        },
        None => String::new(),
    }
}

/// Whether `ext` is one of `exts_lc`.
fn ext_listed(ext: &String, exts_lc: &Vec<String>) -> (r: bool)
    ensures
        r == exists|j: int| 0 <= j < exts_lc@.len() && (#[trigger] exts_lc@[j])@ == ext@,
{
    let mut j: usize = 0;
    while j < exts_lc.len()
        invariant
            j <= exts_lc@.len(),
            forall|k: int| 0 <= k < j ==> (#[trigger] exts_lc@[k])@ != ext@,
        decreases exts_lc@.len() - j,
    {
        if exts_lc[j] == *ext {
            return true;
        }
        j = j + 1;
    }
    false
}

/// Each extension of the allow-list, case-folded.
pub fn lowercase_all(exts: &Vec<String>) -> (r: Vec<String>)
    ensures
        r@.len() == exts@.len(),
        forall|j: int| 0 <= j < exts@.len() ==> (#[trigger] r@[j])@ == lower_of(exts@[j]@),
{
    let mut r: Vec<String> = Vec::new();
    let mut j: usize = 0;
    while j < exts.len()
        invariant
            j <= exts@.len(),
            r@.len() == j,
            forall|k: int| 0 <= k < j ==> (#[trigger] r@[k])@ == lower_of(exts@[k]@),
        decreases exts@.len() - j,
    {
        r.push(to_lower(exts[j].as_str()));
        j = j + 1;
    }
    r
}

/// The walk bound below the root: files may sit one level deeper than
/// `max_depth` directories.
pub fn walk_depth(max_depth: u32) -> (r: u64)
    ensures
        r == max_depth + 1,
{
    max_depth as u64 + 1
}

/// The paths of the walked entries that are regular files, not ignored, and
/// have an allowed extension, in walk order.
pub fn discover_files(
    root: &str,
    entries: &Vec<WalkEntry>,
    ignore_patterns: &Vec<String>,
    supported_extensions: &Vec<String>,
) -> (r: Vec<String>)
    ensures
        r@.map_values(|s: String| s@) == selected(root@, entries@, ignore_patterns@, supported_extensions@),
{
    let exts_lc = lowercase_all(supported_extensions);
    let mut out: Vec<String> = Vec::new();
    let mut i: usize = 0;
    while i < entries.len()
        invariant
            i <= entries@.len(),
            exts_lc@.len() == supported_extensions@.len(),
            forall|j: int| 0 <= j < exts_lc@.len() ==> (#[trigger] exts_lc@[j])@ == lower_of(supported_extensions@[j]@),
            out@.map_values(|s: String| s@) == selected(root@, entries@.subrange(0, i as int), ignore_patterns@, supported_extensions@),
        decreases entries@.len() - i,
    {
        let e = &entries[i];
        assert(entries@.subrange(0, i + 1).drop_last() == entries@.subrange(0, i as int));
        if !should_ignore(root, e.path.as_str(), ignore_patterns) && e.is_file {
            let ext = ext_with_dot(e.path.as_str());
            let listed = ext_listed(&ext, &exts_lc);
            assert(listed == ext_allowed(e.path@, supported_extensions@)) by {
                if listed {
                    let j = choose|j: int| 0 <= j < exts_lc@.len() && (#[trigger] exts_lc@[j])@ == ext@;
                    assert(lower_of(supported_extensions@[j]@) == dotted_ext(e.path@));
                }
                if ext_allowed(e.path@, supported_extensions@) {
                    let j = choose|j: int| 0 <= j < supported_extensions@.len() && lower_of(#[trigger] supported_extensions@[j]@) == dotted_ext(e.path@);
                    assert(exts_lc@[j]@ == ext@);
                }
            }
            if listed {
                out.push(e.path.clone());
            }
        }
        proof {
            assert(out@.map_values(|s: String| s@) =~= selected(root@, entries@.subrange(0, i + 1), ignore_patterns@, supported_extensions@));
        }
        i = i + 1;
    }
    assert(entries@.subrange(0, entries@.len() as int) == entries@);
    out
}

/// A path is discovered exactly when some walked entry with that path is kept.
pub proof fn lemma_selected_members(
    root: Seq<char>,
    entries: Seq<WalkEntry>,
    pats: Seq<String>,
    exts: Seq<String>,
)
    ensures
        forall|p: Seq<char>|
            #[trigger] selected(root, entries, pats, exts).contains(p) <==> exists|j: int|
                0 <= j < entries.len() && is_kept(root, #[trigger] entries[j], pats, exts)
                    && entries[j].path@ == p,
    decreases entries.len(),
{
    if entries.len() > 0 {
        let init = entries.drop_last();
        lemma_selected_members(root, init, pats, exts);
        let sel = selected(root, entries, pats, exts);
        let prev = selected(root, init, pats, exts);
        assert forall|p: Seq<char>|
            #[trigger] sel.contains(p) <==> exists|j: int|
                0 <= j < entries.len() && is_kept(root, #[trigger] entries[j], pats, exts)
                    && entries[j].path@ == p by {
            if sel.contains(p) {
                if prev.contains(p) {
                    let j = choose|j: int|
                        0 <= j < init.len() && is_kept(root, #[trigger] init[j], pats, exts)
                            && init[j].path@ == p;
                    assert(entries[j] == init[j]);
                } else {
                    let k = choose|k: int| 0 <= k < sel.len() && sel[k] == p;
                    if is_kept(root, entries.last(), pats, exts) {
                        assert(k == prev.len());
                        assert(entries[entries.len() - 1] == entries.last());
                    } else {
                        assert(prev.contains(p));
                    }
                }
            }
            if exists|j: int|
                0 <= j < entries.len() && is_kept(root, #[trigger] entries[j], pats, exts)
                    && entries[j].path@ == p {
                let j = choose|j: int|
                    0 <= j < entries.len() && is_kept(root, #[trigger] entries[j], pats, exts)
                        && entries[j].path@ == p;
                if j < entries.len() - 1 {
                    assert(init[j] == entries[j]);
                    assert(prev.contains(p));
                    let k = choose|k: int| 0 <= k < prev.len() && prev[k] == p;
                    if is_kept(root, entries.last(), pats, exts) {
                        assert(sel[k] == p);
                    }
                } else {
                    assert(sel[sel.len() - 1] == p);
                }
            }
        }
    }
}

/// Where every walked entry lies below the root, so does every discovered path.
pub proof fn lemma_discovered_within_root(
    root: Seq<char>,
    entries: Seq<WalkEntry>,
    pats: Seq<String>,
    exts: Seq<String>,
)
    requires
        forall|j: int| 0 <= j < entries.len() ==> relative_to(root, (#[trigger] entries[j]).path@).is_some(),
    ensures
        forall|k: int|
            0 <= k < selected(root, entries, pats, exts).len() ==> relative_to(
                root,
                #[trigger] selected(root, entries, pats, exts)[k],
            ).is_some(),
{
    lemma_selected_members(root, entries, pats, exts);
    let sel = selected(root, entries, pats, exts);
    assert forall|k: int| 0 <= k < sel.len() implies relative_to(root, #[trigger] sel[k]).is_some() by {
        assert(sel.contains(sel[k]));
    }
}

/// No discovered path is matched by an ignore pattern.
pub proof fn lemma_discovered_not_ignored(
    root: Seq<char>,
    entries: Seq<WalkEntry>,
    pats: Seq<String>,
    exts: Seq<String>,
)
    ensures
        forall|k: int|
            0 <= k < selected(root, entries, pats, exts).len() ==> !is_ignored(
                root,
                #[trigger] selected(root, entries, pats, exts)[k],
                pats,
            ),
{
    lemma_selected_members(root, entries, pats, exts);
    let sel = selected(root, entries, pats, exts);
    assert forall|k: int| 0 <= k < sel.len() implies !is_ignored(root, #[trigger] sel[k], pats) by {
        assert(sel.contains(sel[k]));
    }
}

/// A walked regular file that no pattern ignores is discovered exactly when
/// its case-folded extension is allowed.
pub proof fn lemma_discovered_iff_ext_allowed(
    root: Seq<char>,
    entries: Seq<WalkEntry>,
    pats: Seq<String>,
    exts: Seq<String>,
)
    ensures
        forall|j: int|
            0 <= j < entries.len() && (#[trigger] entries[j]).is_file && !is_ignored(
                root,
                entries[j].path@,
                pats,
            ) ==> (selected(root, entries, pats, exts).contains(entries[j].path@)
                <==> ext_allowed(entries[j].path@, exts)),
{
    lemma_selected_members(root, entries, pats, exts);
}

/// Walking more entries never loses a discovered path: where every entry of
/// the smaller walk also occurs in the larger one (as a deeper bound gives),
/// every path discovered in the smaller is discovered in the larger.
pub proof fn lemma_discovered_monotonic(
    root: Seq<char>,
    smaller: Seq<WalkEntry>,
    larger: Seq<WalkEntry>,
    pats: Seq<String>,
    exts: Seq<String>,
)
    requires
        forall|j: int| 0 <= j < smaller.len() ==> larger.contains(#[trigger] smaller[j]),
    ensures
        forall|p: Seq<char>|
            #[trigger] selected(root, smaller, pats, exts).contains(p) ==> selected(
                root,
                larger,
                pats,
                exts,
            ).contains(p),
{
    lemma_selected_members(root, smaller, pats, exts);
    lemma_selected_members(root, larger, pats, exts);
    assert forall|p: Seq<char>|
        #[trigger] selected(root, smaller, pats, exts).contains(p) implies selected(
            root,
            larger,
            pats,
            exts,
        ).contains(p) by {
        let j = choose|j: int|
            0 <= j < smaller.len() && is_kept(root, #[trigger] smaller[j], pats, exts)
                && smaller[j].path@ == p;
        let k = choose|k: int| 0 <= k < larger.len() && larger[k] == smaller[j];
        assert(is_kept(root, larger[k], pats, exts));
    }
}

} // verus!
