//! Reading versions off tag names with a pattern, as several collectors do.

use vstd::prelude::*;
use crate::config::{CleaningRules, VersionCleaning};
use crate::domain::{bare_cycles, bare_rows, cycles_outcome, opt_view, rows, CycleRow, ProductCycle};
use crate::error::{Error, Failure};
use crate::normalize::{clean_tag, lemma_normalized_is_canonical, no_leading_v, normalized_version};
use crate::pattern::{captures, group, group_at, regex_captures};
use crate::semver::{is_release, is_semver, parse_version, semver_parse, triple_lt, SemVer};
use crate::seqs::{filter_mapped, lemma_filter_mapped, lemma_unique, unique};
use crate::text::{count_char, occurrences, text_eq, views};

verus! {

/// A version with `.0` added where padding is asked for and it has one dot only.
pub open spec fn padded(version: Seq<char>, pad: bool) -> Seq<char> {
    if pad && occurrences(version, '.') == 1 {
        version + ".0"@
    } else {
        version
    }
}

/// The version that the first capture group of the pattern picks out of a tag, padded.
pub open spec fn extracted_version(pattern: Seq<char>, tag: Seq<char>, pad: bool) -> Option<
    Seq<char>,
> {
    match regex_captures(pattern, tag) {
        Some(groups) => match group_at(groups, 1) {
            Some(version) => Some(padded(version, pad)),
            None => None,
        },
        None => None,
    }
}

/// Whether a text was read as a version that is not below the floor.
pub open spec fn meets_floor(
    parsed: Option<(u64, u64, u64, Seq<char>, Seq<char>)>,
    floor: (u64, u64, u64),
) -> bool {
    parsed matches Some(v) && !triple_lt((v.0, v.1, v.2), floor)
}

/// The version of a tag: what the pattern picks out, where that is a semantic version not
/// below the floor.
pub open spec fn tag_version(pattern: Seq<char>, tag: Seq<char>, pad: bool, floor: (u64, u64, u64))
    -> Option<Seq<char>> {
    match extracted_version(pattern, tag, pad) {
        Some(version) => if meets_floor(semver_parse(version), floor) {
            Some(version)
        } else {
            None
        },
        None => None,
    }
}

/// The versions of the tags, each once, in the order of their first occurrence.
pub open spec fn tag_versions(
    pattern: Seq<char>,
    tags: Seq<Seq<char>>,
    pad: bool,
    floor: (u64, u64, u64),
) -> Seq<Seq<char>> {
    unique(filter_mapped(tags, |t: Seq<char>| tag_version(pattern, t, pad, floor)))
}

/// Whether every text is a semantic version that does not begin with `v`.
pub open spec fn texts_canonical(texts: Seq<Seq<char>>) -> bool {
    forall|i: int|
        0 <= i < texts.len() ==> is_semver(#[trigger] texts[i]) && no_leading_v(texts[i])
}

/// Whether the name of every cycle is a semantic version that does not begin with `v`.
pub open spec fn names_canonical(table: Seq<CycleRow>) -> bool {
    forall|i: int|
        0 <= i < table.len() ==> is_semver((#[trigger] table[i]).name) && no_leading_v(
            table[i].name,
        )
}

/// The cycles of a list of versions, or `NotFound` where the list is empty.
pub open spec fn cycles_or_not_found(versions: Seq<Seq<char>>) -> Result<Seq<CycleRow>, Failure> {
    if versions.len() == 0 {
        Err(Failure::NotFound)
    } else {
        Ok(bare_rows(versions))
    }
}

/// The fields of a version that was read, if one was.
pub open spec fn parsed_fields(parsed: Option<SemVer>) -> Option<
    (u64, u64, u64, Seq<char>, Seq<char>),
> {
    match parsed {
        Some(v) => Some(v.fields()),
        None => None,
    }
}

/// Adds `.0` to a version that has one dot only, where padding is asked for.
pub fn pad_version(version: String, pad: bool) -> (out: String)
    ensures
        out@ == padded(version@, pad),
{
    if pad && count_char(version.as_str(), '.') == 1 {
        let mut out = version;
        out.append(".0");
        out
    } else {
        version
    }
}

/// Whether a text was read as a version that is not below the floor.
pub fn admits(parsed: &Option<SemVer>, floor: (u64, u64, u64)) -> (ok: bool)
    ensures
        ok == meets_floor(parsed_fields(*parsed), floor),
{
    match parsed {
        Some(v) => {
            let below = v.major < floor.0 || (v.major == floor.0 && (v.minor < floor.1 || (v.minor
                == floor.1 && v.patch < floor.2)));
            !below
        },
        None => false,
    }
}

/// Whether the list holds the text.
pub fn text_in(list: &Vec<String>, text: &str) -> (found: bool)
    ensures
        found == views(list@).contains(text@),
{
    let mut i: usize = 0;
    while i < list.len()
        invariant
            i <= list.len(),
            forall|j: int| 0 <= j < i ==> views(list@)[j] != text@,
        decreases list.len() - i,
    {
        if text_eq(list[i].as_str(), text) {
            assert(views(list@)[i as int] == text@);
            return true;
        }
        i += 1;
    }
    false
}

/// Reads the version off one tag.
pub fn version_of(pattern: &str, tag: &str, pad: bool, floor: (u64, u64, u64)) -> (version: Option<
    String,
>)
    ensures
        opt_view(version) == tag_version(pattern@, tag@, pad, floor),
        version matches Some(v) ==> is_semver(v@) && no_leading_v(v@),
{
    match captures(pattern, tag) {
        Some(groups) => match group(&groups, 1) {
            Some(picked) => {
                let version = pad_version(picked, pad);
                let parsed = parse_version(version.as_str());
                if admits(&parsed, floor) {
                    Some(version)
                } else {
                    None
                }
            },
            None => None,
        },
        None => None,
    }
}

/// Reads the versions off the tags, each once.
pub fn versions_of(pattern: &str, tags: &Vec<String>, pad: bool, floor: (u64, u64, u64)) -> (
versions: Vec<String>)
    ensures
        views(versions@) == tag_versions(pattern@, views(tags@), pad, floor),
        texts_canonical(views(versions@)),
{
    let ghost all = views(tags@);
    let ghost f = |t: Seq<char>| tag_version(pattern@, t, pad, floor);
    let mut versions: Vec<String> = Vec::new();
    let mut i: usize = 0;
    assert(all.take(0) =~= Seq::<Seq<char>>::empty());
    assert(views(versions@) =~= Seq::<Seq<char>>::empty());
    while i < tags.len()
        invariant
            i <= tags.len(),
            all == views(tags@),
            f == |t: Seq<char>| tag_version(pattern@, t, pad, floor),
            views(versions@) == unique(filter_mapped(all.take(i as int), f)),
            texts_canonical(views(versions@)),
        decreases tags.len() - i,
    {
        assert(all.take(i + 1).drop_last() =~= all.take(i as int));
        assert(all.take(i + 1).last() == tags@[i as int]@);
        let ghost seen = filter_mapped(all.take(i as int), f);
        match version_of(pattern, tags[i].as_str(), pad, floor) {
            Some(version) => {
                assert(seen.push(version@).drop_last() =~= seen);
                if !text_in(&versions, version.as_str()) {
                    let ghost before = views(versions@);
                    versions.push(version);
                    assert(views(versions@) =~= before.push(version@));
                }
            },
            None => {},
        }
        i += 1;
    }
    assert(all.take(tags.len() as int) =~= all);
    versions
}

/// Makes the cycles of a list of versions. Their names are the versions, so they are
/// semantic versions without a leading `v` where the versions are.
pub fn named_cycles(versions: Vec<String>) -> (cycles: Vec<ProductCycle>)
    ensures
        rows(cycles@) == bare_rows(views(versions@)),
        texts_canonical(views(versions@)) ==> names_canonical(rows(cycles@)),
{
    let ghost texts = views(versions@);
    let cycles = bare_cycles(versions);
    proof {
        if texts_canonical(texts) {
            assert forall|i: int| 0 <= i < rows(cycles@).len() implies is_semver(
                (#[trigger] rows(cycles@)[i]).name,
            ) && no_leading_v(rows(cycles@)[i].name) by {
                assert(rows(cycles@)[i].name == texts[i]);
            }
        }
    }
    cycles
}

/// Makes the cycles of a list of versions; an empty list is `NotFound`.
pub fn cycles_of_versions(versions: Vec<String>) -> (out: Result<Vec<ProductCycle>, Error>)
    ensures
        cycles_outcome(out) == cycles_or_not_found(views(versions@)),
        texts_canonical(views(versions@)) ==> (out matches Ok(cycles) ==> names_canonical(
            rows(cycles@),
        )),
{
    if versions.len() == 0 {
        Err(Error::NotFound)
    } else {
        Ok(named_cycles(versions))
    }
}

/// The stable version of a raw tag under cleaning rules: its canonical version, where that
/// has no pre-release part.
pub open spec fn stable_version(raw: Seq<char>, rules: CleaningRules) -> Option<Seq<char>> {
    match normalized_version(raw, rules) {
        Some(version) => if is_release(version) {
            Some(version)
        } else {
            None
        },
        None => None,
    }
}

/// The stable versions of the tags, each once, in the order of their first occurrence.
pub open spec fn stable_versions(tags: Seq<Seq<char>>, rules: CleaningRules) -> Seq<Seq<char>> {
    unique(filter_mapped(tags, |t: Seq<char>| stable_version(t, rules)))
}

/// The cleaned tag where it was read as a version without a pre-release part.
pub open spec fn kept_release(
    cleaned: Seq<char>,
    parsed: Option<(u64, u64, u64, Seq<char>, Seq<char>)>,
) -> Option<Seq<char>> {
    match parsed {
        Some(v) => if v.3.len() == 0 {
            Some(cleaned)
        } else {
            None
        },
        None => None,
    }
}

/// A stable version is a semantic version without a pre-release part and without a leading
/// `v`, whatever the tag and the rules.
pub proof fn lemma_stable_version(raw: Seq<char>, rules: CleaningRules)
    ensures
        stable_version(raw, rules) matches Some(v) ==> is_semver(v) && is_release(v)
            && no_leading_v(v),
{
    lemma_normalized_is_canonical(raw, rules);
}

/// Among the stable versions of a list of tags, none occurs twice, and each is a semantic
/// version without a pre-release part and without a leading `v`.
pub proof fn lemma_stable_versions(tags: Seq<Seq<char>>, rules: CleaningRules)
    ensures
        stable_versions(tags, rules).no_duplicates(),
        texts_canonical(stable_versions(tags, rules)),
        forall|i: int|
            0 <= i < stable_versions(tags, rules).len() ==> is_release(
                #[trigger] stable_versions(tags, rules)[i],
            ),
{
    let f = |t: Seq<char>| stable_version(t, rules);
    let found = filter_mapped(tags, f);
    lemma_filter_mapped(tags, f);
    lemma_unique(found);
    let out = unique(found);
    assert forall|i: int| 0 <= i < out.len() implies is_semver(#[trigger] out[i]) && no_leading_v(
        out[i],
    ) && is_release(out[i]) by {
        assert(out.contains(out[i]));
        assert(found.contains(out[i]));
        let k = choose|k: int| 0 <= k < found.len() && found[k] == out[i];
        let t = choose|t: int| 0 <= t < tags.len() && f(tags[t]) == Some(found[k]);
        lemma_stable_version(tags[t], rules);
    }
}

/// Keeps a cleaned tag where it was read as a version without a pre-release part.
pub fn keep_release(cleaned: String, parsed: &Option<SemVer>) -> (version: Option<String>)
    ensures
        opt_view(version) == kept_release(cleaned@, parsed_fields(*parsed)),
{
    match parsed {
        Some(v) => if v.is_prerelease() {
            None
        } else {
            Some(cleaned)
        },
        None => None,
    }
}

/// Reads the stable version off a raw tag under cleaning rules.
pub fn stable_version_of(raw: &str, rules: &VersionCleaning) -> (version: Option<String>)
    ensures
        opt_view(version) == stable_version(raw@, rules@),
        version matches Some(v) ==> is_semver(v@) && is_release(v@) && no_leading_v(v@),
{
    proof {
        lemma_stable_version(raw@, rules@);
    }
    match clean_tag(raw, rules) {
        Some(cleaned) => {
            let parsed = parse_version(cleaned.as_str());
            keep_release(cleaned, &parsed)
        },
        None => None,
    }
}

/// Reads the stable versions off the tags, each once.
pub fn stable_versions_of(tags: &Vec<String>, rules: &VersionCleaning) -> (versions: Vec<String>)
    ensures
        views(versions@) == stable_versions(views(tags@), rules@),
        views(versions@).no_duplicates(),
        texts_canonical(views(versions@)),
{
    let ghost all = views(tags@);
    let ghost f = |t: Seq<char>| stable_version(t, rules@);
    let mut versions: Vec<String> = Vec::new();
    let mut i: usize = 0;
    assert(all.take(0) =~= Seq::<Seq<char>>::empty());
    assert(views(versions@) =~= Seq::<Seq<char>>::empty());
    while i < tags.len()
        invariant
            i <= tags.len(),
            all == views(tags@),
            f == |t: Seq<char>| stable_version(t, rules@),
            views(versions@) == unique(filter_mapped(all.take(i as int), f)),
        decreases tags.len() - i,
    {
        assert(all.take(i + 1).drop_last() =~= all.take(i as int));
        assert(all.take(i + 1).last() == tags@[i as int]@);
        let ghost seen = filter_mapped(all.take(i as int), f);
        match stable_version_of(tags[i].as_str(), rules) {
            Some(version) => {
                assert(seen.push(version@).drop_last() =~= seen);
                if !text_in(&versions, version.as_str()) {
                    let ghost before = views(versions@);
                    versions.push(version);
                    assert(views(versions@) =~= before.push(version@));
                }
            },
            None => {},
        }
        i += 1;
    }
    assert(all.take(tags.len() as int) =~= all);
    proof {
        lemma_stable_versions(all, rules@);
    }
    versions
}

} // verus!
