//! Turning the raw tags of a source into canonical versions.

use vstd::prelude::*;
use crate::config::{CleaningRules, VersionCleaning};
use crate::domain::{clone_opt, opt_view};
use crate::pattern::{captures, group, group_at, regex_captures};
use crate::semver::{is_semver, parse_version, semver_parse, triple_lt, SemVer};
use crate::text::{
    lemma_without_leading_first, strip_prefix, strip_suffix, trim_leading, without_leading,
    without_prefix, without_suffix,
};

verus! {

/// One observation of a source, before normalization.
#[derive(Debug, PartialEq, Eq)]
pub struct CandidateRecord {
    pub name: String,
    pub raw_version: String,
    pub release_date: Option<i32>,
    pub end_of_life_date: Option<i32>,
    pub is_long_term_support: bool,
    pub source_url: Option<String>,
}

/// What a [`CandidateRecord`] holds, as plain values.
pub struct CandidateRow {
    pub name: Seq<char>,
    pub raw_version: Seq<char>,
    pub release_date: Option<i32>,
    pub end_of_life_date: Option<i32>,
    pub is_long_term_support: bool,
    pub source_url: Option<Seq<char>>,
}

impl View for CandidateRecord {
    type V = CandidateRow;

    open spec fn view(&self) -> CandidateRow {
        CandidateRow {
            name: self.name@,
            raw_version: self.raw_version@,
            release_date: self.release_date,
            end_of_life_date: self.end_of_life_date,
            is_long_term_support: self.is_long_term_support,
            source_url: opt_view(self.source_url),
        }
    }
}

/// A candidate whose tag has been cleaned and read as a semantic version.
#[derive(Debug, PartialEq, Eq)]
pub struct CanonicalFragment {
    pub product_name: String,
    pub version: String,
    pub major: u64,
    pub minor: u64,
    pub patch: u64,
    pub prerelease: bool,
    pub release_date: Option<i32>,
    pub end_of_life_date: Option<i32>,
    pub is_long_term_support: bool,
    pub source_url: Option<String>,
}

/// What a [`CanonicalFragment`] holds, as plain values.
pub struct FragmentRow {
    pub product_name: Seq<char>,
    pub version: Seq<char>,
    pub major: u64,
    pub minor: u64,
    pub patch: u64,
    pub prerelease: bool,
    pub release_date: Option<i32>,
    pub end_of_life_date: Option<i32>,
    pub is_long_term_support: bool,
    pub source_url: Option<Seq<char>>,
}

impl FragmentRow {
    /// Major, minor and patch number.
    pub open spec fn triple(self) -> (u64, u64, u64) {
        (self.major, self.minor, self.patch)
    }
}

impl View for CanonicalFragment {
    type V = FragmentRow;

    open spec fn view(&self) -> FragmentRow {
        FragmentRow {
            product_name: self.product_name@,
            version: self.version@,
            major: self.major,
            minor: self.minor,
            patch: self.patch,
            prerelease: self.prerelease,
            release_date: self.release_date,
            end_of_life_date: self.end_of_life_date,
            is_long_term_support: self.is_long_term_support,
            source_url: opt_view(self.source_url),
        }
    }
}

impl Clone for CanonicalFragment {
    fn clone(&self) -> (copy: Self)
        ensures
            copy@ == self@,
    {
        CanonicalFragment {
            product_name: self.product_name.clone(),
            version: self.version.clone(),
            major: self.major,
            minor: self.minor,
            patch: self.patch,
            prerelease: self.prerelease,
            release_date: self.release_date,
            end_of_life_date: self.end_of_life_date,
            is_long_term_support: self.is_long_term_support,
            source_url: clone_opt(&self.source_url),
        }
    }
}

/// The rows of a list of fragments.
pub open spec fn fragment_rows(fragments: Seq<CanonicalFragment>) -> Seq<FragmentRow> {
    fragments.map_values(|f: CanonicalFragment| f@)
}

/// The rows of a list of candidates.
pub open spec fn candidate_rows(candidates: Seq<CandidateRecord>) -> Seq<CandidateRow> {
    candidates.map_values(|c: CandidateRecord| c@)
}

/// A tag after prefix trim, suffix trim and the removal of leading `v`s, in that order.
/// Disabled rules trim neither prefix nor suffix.
pub open spec fn trimmed(tag: Seq<char>, rules: CleaningRules) -> Seq<char> {
    let a = if rules.enabled && rules.trim_prefix is Some {
        without_prefix(tag, rules.trim_prefix->0)
    } else {
        tag
    };
    let b = if rules.enabled && rules.trim_suffix is Some {
        without_suffix(a, rules.trim_suffix->0)
    } else {
        a
    };
    without_leading(b, 'v')
}

/// What the extraction pattern of the rules picks out of a raw tag: the tag itself where
/// the rules are disabled or name no pattern, else the first capture group of the first
/// match, and nothing where the pattern finds no such group.
pub open spec fn extracted(raw: Seq<char>, rules: CleaningRules) -> Option<Seq<char>> {
    if rules.enabled && rules.regex is Some {
        match regex_captures(rules.regex->0, raw) {
            Some(groups) => group_at(groups, 1),
            None => None,
        }
    } else {
        Some(raw)
    }
}

/// The cleaned form of a raw tag, if the rules leave one.
pub open spec fn cleaned(raw: Seq<char>, rules: CleaningRules) -> Option<Seq<char>> {
    match extracted(raw, rules) {
        Some(tag) => Some(trimmed(tag, rules)),
        None => None,
    }
}

/// The canonical version of a raw tag: its cleaned form where that is a semantic version.
pub open spec fn normalized_version(raw: Seq<char>, rules: CleaningRules) -> Option<Seq<char>> {
    match cleaned(raw, rules) {
        Some(tag) => if is_semver(tag) {
            Some(tag)
        } else {
            None
        },
        None => None,
    }
}

/// The fragment that a candidate gives with `version` as its canonical version, read as
/// `parsed`.
pub open spec fn assembled(
    candidate: CandidateRow,
    version: Seq<char>,
    parsed: (u64, u64, u64, Seq<char>, Seq<char>),
) -> FragmentRow {
    FragmentRow {
        product_name: candidate.name,
        version,
        major: parsed.0,
        minor: parsed.1,
        patch: parsed.2,
        prerelease: parsed.3.len() > 0,
        release_date: candidate.release_date,
        end_of_life_date: candidate.end_of_life_date,
        is_long_term_support: candidate.is_long_term_support,
        source_url: candidate.source_url,
    }
}

/// The fragment that normalization makes of a candidate, if any.
pub open spec fn normalized(candidate: CandidateRow, rules: CleaningRules) -> Option<FragmentRow> {
    match normalized_version(candidate.raw_version, rules) {
        Some(version) => Some(assembled(candidate, version, semver_parse(version)->0)),
        None => None,
    }
}

/// Whether a text is free of a leading `v`.
pub open spec fn no_leading_v(text: Seq<char>) -> bool {
    text.len() == 0 || text[0] != 'v'
}

/// Whatever the rules and the raw tag, a canonical version is a semantic version and does
/// not begin with `v`.
pub proof fn lemma_normalized_is_canonical(raw: Seq<char>, rules: CleaningRules)
    ensures
        normalized_version(raw, rules) matches Some(version) ==> is_semver(version)
            && no_leading_v(version),
{
    if let Some(tag) = extracted(raw, rules) {
        let a = if rules.enabled && rules.trim_prefix is Some {
            without_prefix(tag, rules.trim_prefix->0)
        } else {
            tag
        };
        let b = if rules.enabled && rules.trim_suffix is Some {
            without_suffix(a, rules.trim_suffix->0)
        } else {
            a
        };
        lemma_without_leading_first(b, 'v');
    }
}

/// Applies prefix trim, suffix trim and the removal of leading `v`s to a tag.
pub fn trim_tag<'a>(tag: &'a str, rules: &VersionCleaning) -> (out: &'a str)
    ensures
        out@ == trimmed(tag@, rules@),
        no_leading_v(out@),
{
    let a = match &rules.trim_prefix {
        Some(prefix) => if rules.enabled {
            strip_prefix(tag, prefix.as_str())
        } else {
            tag
        },
        None => tag,
    };
    let b = match &rules.trim_suffix {
        Some(suffix) => if rules.enabled {
            strip_suffix(a, suffix.as_str())
        } else {
            a
        },
        None => a,
    };
    proof {
        lemma_without_leading_first(b@, 'v');
    }
    trim_leading(b, 'v')
}

/// Cleans a raw tag: extraction by the pattern of the rules, if they name one, then
/// [`trim_tag`].
pub fn clean_tag(raw: &str, rules: &VersionCleaning) -> (out: Option<String>)
    ensures
        opt_view(out) == cleaned(raw@, rules@),
{
    match &rules.regex {
        Some(pattern) => {
            if rules.enabled {
                match captures(pattern.as_str(), raw) {
                    Some(groups) => match group(&groups, 1) {
                        Some(tag) => Some(String::from_str(trim_tag(tag.as_str(), rules))),
                        None => None,
                    },
                    None => None,
                }
            } else {
                Some(String::from_str(trim_tag(raw, rules)))
            }
        },
        None => Some(String::from_str(trim_tag(raw, rules))),
    }
}

/// Reads the canonical version off a raw tag: its cleaned form, where that is a semantic
/// version.
pub fn normalize_version(raw: &str, rules: &VersionCleaning) -> (out: Option<String>)
    ensures
        opt_view(out) == normalized_version(raw@, rules@),
        out matches Some(v) ==> is_semver(v@) && no_leading_v(v@),
{
    proof {
        lemma_normalized_is_canonical(raw@, rules@);
    }
    match clean_tag(raw, rules) {
        Some(version) => match parse_version(version.as_str()) {
            Some(_) => Some(version),
            None => None,
        },
        None => None,
    }
}

impl CanonicalFragment {
    /// Builds the fragment of `candidate` from its canonical version and what that version
    /// reads as.
    pub fn assemble(candidate: &CandidateRecord, version: String, parsed: &SemVer) -> (fragment:
        CanonicalFragment)
        ensures
            fragment@ == assembled(candidate@, version@, parsed.fields()),
    {
        CanonicalFragment {
            product_name: candidate.name.clone(),
            version,
            major: parsed.major,
            minor: parsed.minor,
            patch: parsed.patch,
            prerelease: parsed.is_prerelease(),
            release_date: candidate.release_date,
            end_of_life_date: candidate.end_of_life_date,
            is_long_term_support: candidate.is_long_term_support,
            source_url: clone_opt(&candidate.source_url),
        }
    }
}

/// Normalizes one candidate under the rules of its target. A candidate whose cleaned tag is
/// no semantic version gives `None`.
pub fn normalize(candidate: &CandidateRecord, rules: &VersionCleaning) -> (out: Option<
    CanonicalFragment,
>)
    ensures
        out is Some == normalized(candidate@, rules@) is Some,
        out matches Some(f) ==> f@ == normalized(candidate@, rules@)->0,
        out matches Some(f) ==> is_semver(f.version@) && no_leading_v(f.version@),
{
    proof {
        lemma_normalized_is_canonical(candidate.raw_version@, rules@);
    }
    match clean_tag(candidate.raw_version.as_str(), rules) {
        Some(version) => match parse_version(version.as_str()) {
            Some(parsed) => Some(CanonicalFragment::assemble(candidate, version, &parsed)),
            None => None,
        },
        None => None,
    }
}

/// Whether some row carries `version`.
pub open spec fn has_version(rows: Seq<FragmentRow>, version: Seq<char>) -> bool {
    exists|i: int| 0 <= i < rows.len() && (#[trigger] rows[i]).version == version
}

/// The rows with each canonical version kept once, at its first occurrence.
pub open spec fn deduplicated(rows: Seq<FragmentRow>) -> Seq<FragmentRow>
    decreases rows.len(),
{
    if rows.len() == 0 {
        Seq::empty()
    } else {
        let head = deduplicated(rows.drop_last());
        if has_version(head, rows.last().version) {
            head
        } else {
            head.push(rows.last())
        }
    }
}

/// The rows that are not pre-releases, in order.
pub open spec fn releases_only(rows: Seq<FragmentRow>) -> Seq<FragmentRow> {
    rows.filter(|r: FragmentRow| !r.prerelease)
}

/// The fragments that the candidates normalize to, in order, those that give none left out.
pub open spec fn normalized_all(candidates: Seq<CandidateRow>, rules: CleaningRules) -> Seq<
    FragmentRow,
>
    decreases candidates.len(),
{
    if candidates.len() == 0 {
        Seq::empty()
    } else {
        let head = normalized_all(candidates.drop_last(), rules);
        match normalized(candidates.last(), rules) {
            Some(row) => head.push(row),
            None => head,
        }
    }
}

/// The highest release among the rows by major, minor and patch number; of several equally
/// high the first. Pre-releases never count.
pub open spec fn latest(rows: Seq<FragmentRow>) -> Option<FragmentRow>
    decreases rows.len(),
{
    if rows.len() == 0 {
        None
    } else {
        let best = latest(rows.drop_last());
        let x = rows.last();
        if x.prerelease {
            best
        } else {
            match best {
                None => Some(x),
                Some(b) => if triple_lt(b.triple(), x.triple()) {
                    Some(x)
                } else {
                    Some(b)
                },
            }
        }
    }
}

/// In a deduplicated list no version occurs twice, every row comes from the input, and every
/// version of the input is still there.
pub proof fn lemma_deduplicated(rows: Seq<FragmentRow>)
    ensures
        forall|i: int, j: int|
            0 <= i < j < deduplicated(rows).len() ==> (#[trigger] deduplicated(rows)[i]).version != (
            #[trigger] deduplicated(rows)[j]).version,
        forall|i: int|
            0 <= i < deduplicated(rows).len() ==> rows.contains(#[trigger] deduplicated(rows)[i]),
        forall|i: int| 0 <= i < rows.len() ==> has_version(deduplicated(rows), (#[trigger] rows[i]).version),
        deduplicated(rows).len() <= rows.len(),
    decreases rows.len(),
{
    if rows.len() > 0 {
        let front = rows.drop_last();
        lemma_deduplicated(front);
        let head = deduplicated(front);
        let out = deduplicated(rows);
        assert forall|i: int| 0 <= i < out.len() implies rows.contains(#[trigger] out[i]) by {
            if i < head.len() {
                assert(front.contains(head[i]));
                let k = choose|k: int| 0 <= k < front.len() && front[k] == head[i];
                assert(rows[k] == head[i]);
            } else {
                assert(rows[rows.len() - 1] == out[i]);
            }
        }
        assert forall|i: int| 0 <= i < rows.len() implies has_version(
            out,
            (#[trigger] rows[i]).version,
        ) by {
            if i < front.len() {
                assert(front[i] == rows[i]);
                assert(has_version(head, front[i].version));
                let k = choose|k: int| 0 <= k < head.len() && head[k].version == rows[i].version;
                assert(out[k].version == rows[i].version);
            } else if has_version(head, rows.last().version) {
            } else {
                assert(out[out.len() - 1].version == rows[i].version);
            }
        }
    }
}

/// The latest row is a release of the list that no other release of the list exceeds, and
/// there is one exactly where the list holds a release.
pub proof fn lemma_latest_is_highest(rows: Seq<FragmentRow>)
    ensures
        latest(rows) matches Some(best) ==> rows.contains(best) && !best.prerelease,
        latest(rows) matches Some(best) ==> forall|i: int|
            0 <= i < rows.len() && !(#[trigger] rows[i]).prerelease ==> !triple_lt(
                best.triple(),
                rows[i].triple(),
            ),
        latest(rows) is None <==> forall|i: int| 0 <= i < rows.len() ==> (#[trigger] rows[i]).prerelease,
    decreases rows.len(),
{
    if rows.len() > 0 {
        let front = rows.drop_last();
        lemma_latest_is_highest(front);
        let x = rows.last();
        assert(rows[rows.len() - 1] == x);
        assert(forall|i: int| 0 <= i < front.len() ==> front[i] == rows[i]);
        if let Some(b) = latest(front) {
            let k = choose|k: int| 0 <= k < front.len() && front[k] == b;
            assert(rows[k] == b);
        }
        if latest(rows) is None {
            assert forall|i: int| 0 <= i < rows.len() implies (#[trigger] rows[i]).prerelease by {
                if i < front.len() {
                    assert(front[i].prerelease);
                }
            }
        }
    }
}

/// Whether a fragment with this version is in the list.
pub fn contains_version(fragments: &Vec<CanonicalFragment>, version: &str) -> (found: bool)
    ensures
        found == has_version(fragment_rows(fragments@), version@),
{
    let mut i: usize = 0;
    while i < fragments.len()
        invariant
            i <= fragments.len(),
            forall|j: int| 0 <= j < i ==> (#[trigger] fragment_rows(fragments@)[j]).version != version@,
        decreases fragments.len() - i,
    {
        if crate::text::text_eq(fragments[i].version.as_str(), version) {
            assert(fragment_rows(fragments@)[i as int].version == version@);
            return true;
        }
        i += 1;
    }
    false
}

/// Keeps each canonical version once, at its first occurrence.
pub fn deduplicate(fragments: &Vec<CanonicalFragment>) -> (out: Vec<CanonicalFragment>)
    ensures
        fragment_rows(out@) == deduplicated(fragment_rows(fragments@)),
{
    let mut out: Vec<CanonicalFragment> = Vec::new();
    let mut i: usize = 0;
    let ghost all = fragment_rows(fragments@);
    assert(all.take(0) =~= Seq::<FragmentRow>::empty());
    while i < fragments.len()
        invariant
            i <= fragments.len(),
            all == fragment_rows(fragments@),
            fragment_rows(out@) == deduplicated(all.take(i as int)),
        decreases fragments.len() - i,
    {
        assert(all.take(i + 1).drop_last() =~= all.take(i as int));
        assert(all.take(i + 1).last() == fragments@[i as int]@);
        if !contains_version(&out, fragments[i].version.as_str()) {
            let ghost before = fragment_rows(out@);
            out.push(fragments[i].clone());
            assert(fragment_rows(out@) =~= before.push(fragments@[i as int]@));
        }
        i += 1;
    }
    assert(all.take(fragments.len() as int) =~= all);
    out
}

/// Drops the pre-releases.
pub fn drop_prereleases(fragments: &Vec<CanonicalFragment>) -> (out: Vec<CanonicalFragment>)
    ensures
        fragment_rows(out@) == releases_only(fragment_rows(fragments@)),
{
    let mut out: Vec<CanonicalFragment> = Vec::new();
    let mut i: usize = 0;
    let ghost all = fragment_rows(fragments@);
    let ghost keep = |r: FragmentRow| !r.prerelease;
    assert(all.take(0) =~= Seq::<FragmentRow>::empty());
    while i < fragments.len()
        invariant
            i <= fragments.len(),
            all == fragment_rows(fragments@),
            keep == |r: FragmentRow| !r.prerelease,
            fragment_rows(out@) == all.take(i as int).filter(keep),
        decreases fragments.len() - i,
    {
        assert(all.take(i + 1).drop_last() =~= all.take(i as int));
        assert(all.take(i + 1).last() == fragments@[i as int]@);
        reveal(Seq::filter);
        if !fragments[i].prerelease {
            let ghost before = fragment_rows(out@);
            out.push(fragments[i].clone());
            assert(fragment_rows(out@) =~= before.push(fragments@[i as int]@));
        }
        i += 1;
    }
    assert(all.take(fragments.len() as int) =~= all);
    out
}

/// Normalizes every candidate of one source and leaves out those that give no version.
pub fn normalize_all(candidates: &Vec<CandidateRecord>, rules: &VersionCleaning) -> (out: Vec<
    CanonicalFragment,
>)
    ensures
        fragment_rows(out@) == normalized_all(candidate_rows(candidates@), rules@),
        forall|i: int|
            0 <= i < out@.len() ==> is_semver((#[trigger] out@[i]).version@) && no_leading_v(
                out@[i].version@,
            ),
{
    let mut out: Vec<CanonicalFragment> = Vec::new();
    let mut i: usize = 0;
    let ghost all = candidate_rows(candidates@);
    assert(all.take(0) =~= Seq::<CandidateRow>::empty());
    while i < candidates.len()
        invariant
            i <= candidates.len(),
            all == candidate_rows(candidates@),
            fragment_rows(out@) == normalized_all(all.take(i as int), rules@),
            forall|j: int|
                0 <= j < out@.len() ==> is_semver((#[trigger] out@[j]).version@) && no_leading_v(
                    out@[j].version@,
                ),
        decreases candidates.len() - i,
    {
        assert(all.take(i + 1).drop_last() =~= all.take(i as int));
        assert(all.take(i + 1).last() == candidates@[i as int]@);
        match normalize(&candidates[i], rules) {
            Some(fragment) => {
                let ghost before = fragment_rows(out@);
                out.push(fragment);
                assert(fragment_rows(out@) =~= before.push(fragment@));
            },
            None => {},
        }
        i += 1;
    }
    assert(all.take(candidates.len() as int) =~= all);
    out
}

/// Picks the highest release of the list by major, minor and patch number; of several
/// equally high the first.
pub fn pick_latest(fragments: &Vec<CanonicalFragment>) -> (best: Option<CanonicalFragment>)
    ensures
        best is Some == latest(fragment_rows(fragments@)) is Some,
        best matches Some(b) ==> latest(fragment_rows(fragments@)) == Some(b@),
{
    let mut best: Option<usize> = None;
    let mut i: usize = 0;
    let ghost all = fragment_rows(fragments@);
    assert(all.take(0) =~= Seq::<FragmentRow>::empty());
    while i < fragments.len()
        invariant
            i <= fragments.len(),
            all == fragment_rows(fragments@),
            best is Some == latest(all.take(i as int)) is Some,
            best matches Some(k) ==> k < i && latest(all.take(i as int)) == Some(all[k as int]),
        decreases fragments.len() - i,
    {
        assert(all.take(i + 1).drop_last() =~= all.take(i as int));
        assert(all.take(i + 1).last() == all[i as int]);
        let x = &fragments[i];
        if !x.prerelease {
            match best {
                None => {
                    best = Some(i);
                },
                Some(k) => {
                    let b = &fragments[k];
                    let older = b.major < x.major || (b.major == x.major && (b.minor < x.minor || (
                    b.minor == x.minor && b.patch < x.patch)));
                    if older {
                        best = Some(i);
                    }
                },
            }
        }
        i += 1;
    }
    assert(all.take(fragments.len() as int) =~= all);
    match best {
        Some(k) => Some(fragments[k].clone()),
        None => None,
    }
}

/// Whether two rows belong to one release branch: they share major and minor number.
pub open spec fn same_branch(a: FragmentRow, b: FragmentRow) -> bool {
    a.major == b.major && a.minor == b.minor
}

/// The place of the first row on the branch of `x`.
pub open spec fn branch_place(rows: Seq<FragmentRow>, x: FragmentRow) -> Option<int>
    decreases rows.len(),
{
    if rows.len() == 0 {
        None
    } else {
        match branch_place(rows.drop_last(), x) {
            Some(i) => Some(i),
            None => if same_branch(rows.last(), x) {
                Some(rows.len() - 1)
            } else {
                None
            },
        }
    }
}

/// The rows after one more version was taken in: it opens its branch where the rows have
/// none on it, and replaces the row on its branch where its patch number is higher.
pub open spec fn absorbed(rows: Seq<FragmentRow>, x: FragmentRow) -> Seq<FragmentRow> {
    match branch_place(rows, x) {
        Some(i) => if rows[i].patch < x.patch {
            rows.update(i, x)
        } else {
            rows
        },
        None => rows.push(x),
    }
}

/// The rows with one row for each release branch: the one with the highest patch number,
/// of several equally high the first. The branches stand in the order in which they first
/// occur.
pub open spec fn collapsed(rows: Seq<FragmentRow>) -> Seq<FragmentRow>
    decreases rows.len(),
{
    if rows.len() == 0 {
        Seq::empty()
    } else {
        absorbed(collapsed(rows.drop_last()), rows.last())
    }
}

/// Whether no two rows share a branch.
pub open spec fn branches_distinct(rows: Seq<FragmentRow>) -> bool {
    forall|i: int, j: int|
        0 <= i < j < rows.len() ==> !same_branch(#[trigger] rows[i], #[trigger] rows[j])
}

/// Whether the rows hold a row on the branch of `x` whose patch number is at least as high.
pub open spec fn covers(rows: Seq<FragmentRow>, x: FragmentRow) -> bool {
    exists|i: int| 0 <= i < rows.len() && same_branch(#[trigger] rows[i], x) && rows[i].patch >= x.patch
}

/// The place of a branch is the first place on it; a branch has none exactly where no row
/// is on it.
pub proof fn lemma_branch_place(rows: Seq<FragmentRow>, x: FragmentRow)
    ensures
        branch_place(rows, x) matches Some(i) ==> 0 <= i < rows.len() && same_branch(rows[i], x)
            && forall|j: int| 0 <= j < i ==> !same_branch(#[trigger] rows[j], x),
        branch_place(rows, x) is None ==> forall|j: int|
            0 <= j < rows.len() ==> !same_branch(#[trigger] rows[j], x),
    decreases rows.len(),
{
    if rows.len() > 0 {
        let front = rows.drop_last();
        lemma_branch_place(front, x);
        assert(forall|j: int| 0 <= j < front.len() ==> front[j] == rows[j]);
    }
}

/// Taking a version in keeps branches distinct, covers the version, and keeps covered what
/// was covered.
pub proof fn lemma_absorbed(rows: Seq<FragmentRow>, x: FragmentRow, r: FragmentRow)
    requires
        branches_distinct(rows),
    ensures
        branches_distinct(absorbed(rows, x)),
        covers(absorbed(rows, x), x),
        covers(rows, r) ==> covers(absorbed(rows, x), r),
        absorbed(rows, x).len() <= rows.len() + 1,
{
    let out = absorbed(rows, x);
    lemma_branch_place(rows, x);
    match branch_place(rows, x) {
        Some(p) => {
            assert(same_branch(out[p], x) && out[p].patch >= x.patch);
            assert forall|i: int, j: int| 0 <= i < j < out.len() implies !same_branch(
                #[trigger] out[i],
                #[trigger] out[j],
            ) by {
                assert(!same_branch(rows[i], rows[j]));
            }
            if covers(rows, r) {
                let k = choose|k: int|
                    0 <= k < rows.len() && same_branch(#[trigger] rows[k], r) && rows[k].patch
                        >= r.patch;
                assert(same_branch(out[k], r) && out[k].patch >= r.patch);
            }
        },
        None => {
            let n = rows.len() as int;
            assert(same_branch(out[n], x) && out[n].patch >= x.patch);
            assert forall|i: int, j: int| 0 <= i < j < out.len() implies !same_branch(
                #[trigger] out[i],
                #[trigger] out[j],
            ) by {
                if j < n {
                    assert(!same_branch(rows[i], rows[j]));
                } else {
                    assert(!same_branch(rows[i], x));
                }
            }
            if covers(rows, r) {
                let k = choose|k: int|
                    0 <= k < rows.len() && same_branch(#[trigger] rows[k], r) && rows[k].patch
                        >= r.patch;
                assert(same_branch(out[k], r) && out[k].patch >= r.patch);
            }
        },
    }
}

/// After collapsing, no two rows share a branch, and every row of the input has a row on
/// its branch whose patch number is at least as high.
pub proof fn lemma_collapsed(rows: Seq<FragmentRow>)
    ensures
        branches_distinct(collapsed(rows)),
        forall|k: int| 0 <= k < rows.len() ==> covers(collapsed(rows), #[trigger] rows[k]),
        collapsed(rows).len() <= rows.len(),
    decreases rows.len(),
{
    if rows.len() > 0 {
        let front = rows.drop_last();
        let x = rows.last();
        lemma_collapsed(front);
        let head = collapsed(front);
        lemma_absorbed(head, x, x);
        assert forall|k: int| 0 <= k < rows.len() implies covers(
            collapsed(rows),
            #[trigger] rows[k],
        ) by {
            if k < front.len() {
                assert(front[k] == rows[k]);
                lemma_absorbed(head, x, front[k]);
            }
        }
    }
}

/// Every row that collapsing keeps is a row of the input.
pub proof fn lemma_collapsed_from_input(rows: Seq<FragmentRow>)
    ensures
        forall|i: int| 0 <= i < collapsed(rows).len() ==> rows.contains(#[trigger] collapsed(rows)[i]),
    decreases rows.len(),
{
    if rows.len() > 0 {
        let front = rows.drop_last();
        let x = rows.last();
        lemma_collapsed_from_input(front);
        let head = collapsed(front);
        let out = collapsed(rows);
        lemma_branch_place(head, x);
        assert(rows[rows.len() - 1] == x);
        assert forall|i: int| 0 <= i < out.len() implies rows.contains(#[trigger] out[i]) by {
            if out[i] != x {
                assert(head[i] == out[i]);
                assert(front.contains(head[i]));
                let m = choose|m: int| 0 <= m < front.len() && front[m] == head[i];
                assert(rows[m] == out[i]);
            }
        }
    }
}

/// Finds the first row on the branch of a version.
pub fn find_branch(fragments: &Vec<CanonicalFragment>, x: &CanonicalFragment) -> (place: Option<
    usize,
>)
    ensures
        place is Some == branch_place(fragment_rows(fragments@), x@) is Some,
        place matches Some(i) ==> i < fragments@.len() && branch_place(
            fragment_rows(fragments@),
            x@,
        ) == Some(i as int),
{
    let ghost all = fragment_rows(fragments@);
    let mut i: usize = 0;
    while i < fragments.len()
        invariant
            i <= fragments.len(),
            all == fragment_rows(fragments@),
            forall|j: int| 0 <= j < i ==> !same_branch(#[trigger] all[j], x@),
        decreases fragments.len() - i,
    {
        if fragments[i].major == x.major && fragments[i].minor == x.minor {
            assert(same_branch(all[i as int], x@));
            proof {
                lemma_branch_place(all, x@);
            }
            return Some(i);
        }
        assert(!same_branch(all[i as int], x@));
        i += 1;
    }
    proof {
        lemma_branch_place(all, x@);
    }
    None
}

/// Keeps one version for each release branch: the one with the highest patch number.
pub fn collapse_branches(fragments: &Vec<CanonicalFragment>) -> (out: Vec<CanonicalFragment>)
    ensures
        fragment_rows(out@) == collapsed(fragment_rows(fragments@)),
{
    let mut out: Vec<CanonicalFragment> = Vec::new();
    let mut i: usize = 0;
    let ghost all = fragment_rows(fragments@);
    assert(all.take(0) =~= Seq::<FragmentRow>::empty());
    while i < fragments.len()
        invariant
            i <= fragments.len(),
            all == fragment_rows(fragments@),
            fragment_rows(out@) == collapsed(all.take(i as int)),
        decreases fragments.len() - i,
    {
        assert(all.take(i + 1).drop_last() =~= all.take(i as int));
        assert(all.take(i + 1).last() == fragments@[i as int]@);
        let ghost before = fragment_rows(out@);
        let x = &fragments[i];
        match find_branch(&out, x) {
            Some(p) => {
                if out[p].patch < x.patch {
                    out.set(p, x.clone());
                    assert(fragment_rows(out@) =~= before.update(p as int, x@));
                }
            },
            None => {
                out.push(x.clone());
                assert(fragment_rows(out@) =~= before.push(x@));
            },
        }
        i += 1;
    }
    assert(all.take(fragments.len() as int) =~= all);
    out
}

} // verus!
