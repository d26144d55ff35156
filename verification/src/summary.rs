//! The outcome of a sweep: the data it gathered, the files its matches lie
//! in, how many of those files have each extension, and the summary handed
//! back after an export.

use vstd::prelude::*;

use crate::paths::path_extension;
use crate::records::{record_views, FileError, MatchRecord, MatchRecordView};
use crate::text::{chars_less, chars_of, text_less, lemma_text_less_irreflexive,
    lemma_text_less_total, lemma_text_less_transitive, texts};

verus! {

/// Everything a sweep found.
pub struct SweepData {
    pub folder_scanned: String,
    pub scan_date_time: String,
    pub patterns: Vec<String>,
    pub matches: Vec<MatchRecord>,
    pub files_scanned: usize,
    pub errors: Vec<FileError>,
    pub include_capture_groups: bool,
}

/// The summary of an export.
pub struct SweepResult {
    pub output_path: String,
    pub matches_written: usize,
    pub files_scanned: usize,
    pub files_skipped: usize,
    pub affected_files: usize,
    pub errors_count: usize,
    pub export_type: String,
}

/// Each text comes before the next, so none occurs twice.
pub open spec fn strictly_sorted(s: Seq<Seq<char>>) -> bool {
    forall|i: int, j: int| 0 <= i < j < s.len() ==> text_less(#[trigger] s[i], #[trigger] s[j])
}

/// The paths that the records name.
pub open spec fn record_paths(records: Seq<MatchRecordView>) -> Set<Seq<char>> {
    records.map_values(|r: MatchRecordView| r.path).to_set()
}

/// A strictly sorted sequence holds no text twice.
pub proof fn lemma_sorted_no_duplicates(s: Seq<Seq<char>>)
    requires
        strictly_sorted(s),
    ensures
        s.no_duplicates(),
        s.to_set().len() == s.len(),
{
    assert forall|i: int, j: int| 0 <= i < s.len() && 0 <= j < s.len() && i != j implies s[i]
        != s[j] by {
        if i < j {
            lemma_text_less_irreflexive(s[i]);
            assert(text_less(s[i], s[j]));
        } else {
            lemma_text_less_irreflexive(s[j]);
            assert(text_less(s[j], s[i]));
        }
    }
    s.unique_seq_to_set();
}

/// Inserts `s` into the sorted `v` unless it is already there.
fn insert_sorted(v: &mut Vec<String>, s: &String)
    requires
        strictly_sorted(texts(old(v)@)),
    ensures
        strictly_sorted(texts(final(v)@)),
        texts(final(v)@).to_set() == texts(old(v)@).to_set().insert(s@),
{
    let ghost old_texts = texts(v@);
    let key = chars_of(s.as_str());
    let mut k: usize = 0;
    while k < v.len() && chars_less(&chars_of(v[k].as_str()), &key)
        invariant
            k <= v@.len(),
            v@ == old(v)@,
            old_texts == texts(v@),
            key@ == s@,
            forall|j: int| 0 <= j < k ==> text_less(#[trigger] old_texts[j], s@),
        decreases v.len() - k,
    {
        k += 1;
    }
    if k < v.len() && v[k] == *s {
        assert(old_texts[k as int] == s@);
        assert(old_texts.to_set().insert(s@) =~= old_texts.to_set());
        return;
    }
    proof {
        if k < old_texts.len() {
            lemma_text_less_total(old_texts[k as int], s@);
        }
    }
    v.insert(k, s.clone());
    let ghost new_texts = texts(v@);
    assert(new_texts =~= old_texts.insert(k as int, s@));
    assert forall|i: int, j: int| 0 <= i < j < new_texts.len() implies text_less(
        #[trigger] new_texts[i],
        #[trigger] new_texts[j],
    ) by {
        if j < k {
        } else if j == k {
        } else if i < k {
            assert(new_texts[j] == old_texts[j - 1]);
            if j - 1 > k {
                assert(text_less(old_texts[k as int], old_texts[j - 1]));
                lemma_text_less_transitive(s@, old_texts[k as int], old_texts[j - 1]);
            }
            lemma_text_less_transitive(new_texts[i], s@, new_texts[j]);
        } else if i == k {
            if j - 1 > k {
                assert(text_less(old_texts[k as int], old_texts[j - 1]));
                lemma_text_less_transitive(s@, old_texts[k as int], old_texts[j - 1]);
            }
        } else {
            assert(new_texts[i] == old_texts[i - 1]);
            assert(new_texts[j] == old_texts[j - 1]);
        }
    }
    assert(new_texts.to_set() =~= old_texts.to_set().insert(s@)) by {
        assert forall|x: Seq<char>| new_texts.to_set().contains(x) implies old_texts.to_set().insert(
            s@,
        ).contains(x) by {
            let i = choose|i: int| 0 <= i < new_texts.len() && new_texts[i] == x;
            if i < k {
                assert(old_texts[i] == x);
            } else if i > k {
                assert(old_texts[i - 1] == x);
            }
        }
        assert forall|x: Seq<char>| old_texts.to_set().insert(s@).contains(x) implies new_texts.to_set().contains(
            x,
        ) by {
            if x == s@ {
                assert(new_texts[k as int] == x);
            } else {
                let i = choose|i: int| 0 <= i < old_texts.len() && old_texts[i] == x;
                if i < k {
                    assert(new_texts[i] == x);
                } else {
                    assert(new_texts[i + 1] == x);
                }
            }
        }
    }
}

/// The distinct paths of the files that hold at least one match, in the
/// order of `String`.
pub fn affected_files(data: &SweepData) -> (r: Vec<String>)
    ensures
        strictly_sorted(texts(r@)),
        texts(r@).to_set() == record_paths(record_views(data.matches@)),
        r@.len() == record_paths(record_views(data.matches@)).len(),
{
    let ghost paths = record_views(data.matches@).map_values(|r: MatchRecordView| r.path);
    let mut out: Vec<String> = Vec::new();
    let mut i: usize = 0;
    assert(texts(out@).to_set() =~= paths.take(0).to_set());
    while i < data.matches.len()
        invariant
            i <= data.matches@.len(),
            paths == record_views(data.matches@).map_values(|r: MatchRecordView| r.path),
            strictly_sorted(texts(out@)),
            texts(out@).to_set() == paths.take(i as int).to_set(),
        decreases data.matches.len() - i,
    {
        insert_sorted(&mut out, &data.matches[i].path);
        assert(paths.take(i + 1) =~= paths.take(i as int).push(data.matches@[i as int].path@));
        proof {
            Seq::lemma_to_set_insert_commutes(
                paths.take(i as int),
                data.matches@[i as int].path@,
            );
            assert(paths.take(i as int) + seq![data.matches@[i as int].path@] =~= paths.take(
                i + 1,
            ));
        }
        i += 1;
    }
    assert(paths.take(i as int) =~= paths);
    proof {
        lemma_sorted_no_duplicates(texts(out@));
    }
    out
}

/// `s` in lower case, as `str::to_lowercase` gives it: each character by its
/// Unicode lowercase mapping.
pub uninterp spec fn unicode_lowercase(s: Seq<char>) -> Seq<char>;

/// Calls `str::to_lowercase`.
#[verifier::external_body]
fn to_lowercase(s: &str) -> (r: String)
    ensures
        r@ == unicode_lowercase(s@),
{
    s.to_lowercase()
}

/// The file type under which a path is counted: its extension in lower case
/// after a dot, or "No extension".
pub open spec fn file_type_label(path: Seq<char>) -> Seq<char> {
    match path_extension(path) {
        Some(ext) => seq!['.'] + unicode_lowercase(ext),
        None => "No extension"@,
    }
}

/// The file type of `path`.
pub fn file_type_of(path: &str) -> (label: String)
    ensures
        label@ == file_type_label(path@),
{
    match crate::paths::extension_of(path) {
        Some(ext) => {
            let mut label = String::from_str(".");
            let lower = to_lowercase(ext.as_str());
            label.append(lower.as_str());
            proof {
                reveal_strlit(".");
            }
            assert(label@ =~= seq!['.'] + unicode_lowercase(ext@));
            label
        },
        None => String::from_str("No extension"),
    }
}

/// How many of `paths` have the file type `label`.
pub open spec fn label_count(paths: Seq<Seq<char>>, label: Seq<char>) -> nat
    decreases paths.len(),
{
    if paths.len() == 0 {
        0
    } else {
        label_count(paths.drop_last(), label) + if file_type_label(paths.last()) == label {
            1nat
        } else {
            0nat
        }
    }
}

/// The paths in `paths` with the file type `label`.
pub open spec fn paths_with_type(paths: Set<Seq<char>>, label: Seq<char>) -> Set<Seq<char>> {
    paths.filter(|p: Seq<char>| file_type_label(p) == label)
}

/// At most one count per path.
proof fn lemma_label_count_bound(paths: Seq<Seq<char>>, label: Seq<char>)
    ensures
        label_count(paths, label) <= paths.len(),
    decreases paths.len(),
{
    if paths.len() > 0 {
        lemma_label_count_bound(paths.drop_last(), label);
    }
}

/// No path in `paths` has a type that none of them has.
proof fn lemma_label_count_zero(paths: Seq<Seq<char>>, label: Seq<char>)
    requires
        forall|i: int| 0 <= i < paths.len() ==> file_type_label(#[trigger] paths[i]) != label,
    ensures
        label_count(paths, label) == 0,
    decreases paths.len(),
{
    if paths.len() > 0 {
        lemma_label_count_zero(paths.drop_last(), label);
    }
}

/// Over paths that occur once each, the count is the size of the set of
/// paths with that type.
proof fn lemma_label_count_set(paths: Seq<Seq<char>>, label: Seq<char>)
    requires
        paths.no_duplicates(),
    ensures
        label_count(paths, label) == paths_with_type(paths.to_set(), label).len(),
        paths_with_type(paths.to_set(), label).finite(),
    decreases paths.len(),
{
    broadcast use vstd::set::group_set_axioms, vstd::seq_lib::seq_to_set_is_finite;

    let f = |p: Seq<char>| file_type_label(p) == label;
    if paths.len() == 0 {
        assert(paths_with_type(paths.to_set(), label) =~= Set::empty());
    } else {
        let rest = paths.drop_last();
        let x = paths.last();
        assert(rest.no_duplicates());
        lemma_label_count_set(rest, label);
        assert(!rest.contains(x));
        Seq::lemma_to_set_insert_commutes(rest, x);
        assert(rest + seq![x] =~= paths);
        assert(!rest.to_set().contains(x));
        if f(x) {
            assert(paths_with_type(paths.to_set(), label) =~= paths_with_type(rest.to_set(), label).insert(x));
        } else {
            assert(paths_with_type(paths.to_set(), label) =~= paths_with_type(rest.to_set(), label));
        }
    }
}

/// The view of a list of file types with their counts.
pub open spec fn type_count_views(v: Seq<(String, usize)>) -> Seq<(Seq<char>, usize)> {
    v.map_values(|e: (String, usize)| (e.0@, e.1))
}

/// The file types of a list of (type, count) entries.
pub open spec fn type_keys(v: Seq<(Seq<char>, usize)>) -> Seq<Seq<char>> {
    v.map_values(|e: (Seq<char>, usize)| e.0)
}

/// `v` lists each file type of `paths` once, in the order of `String`, with
/// the number of paths of that type.
pub open spec fn type_counts_ok(paths: Set<Seq<char>>, v: Seq<(Seq<char>, usize)>) -> bool {
    &&& strictly_sorted(type_keys(v))
    &&& type_keys(v).to_set() == paths.map(|p: Seq<char>| file_type_label(p))
    &&& forall|j: int|
        0 <= j < v.len() ==> (#[trigger] v[j]).1 == paths_with_type(paths, v[j].0).len()
}

/// The file types of `paths` with their counts, in the order of `String`.
pub open spec fn file_type_table(paths: Set<Seq<char>>) -> Seq<(Seq<char>, usize)> {
    choose|v: Seq<(Seq<char>, usize)>| type_counts_ok(paths, v)
}

/// Two strictly sorted sequences with the same elements are equal.
pub proof fn lemma_sorted_unique(s1: Seq<Seq<char>>, s2: Seq<Seq<char>>)
    requires
        strictly_sorted(s1),
        strictly_sorted(s2),
        s1.to_set() == s2.to_set(),
    ensures
        s1 == s2,
    decreases s1.len(),
{
    if s1.len() == 0 {
        if s2.len() > 0 {
            assert(s2.to_set().contains(s2[0]));
        }
        assert(s1 =~= s2);
    } else if s2.len() == 0 {
        assert(s1.to_set().contains(s1[0]));
    } else {
        assert(s1.to_set().contains(s1[0]));
        assert(s2.to_set().contains(s2[0]));
        let j = choose|j: int| 0 <= j < s2.len() && s2[j] == s1[0];
        let i = choose|i: int| 0 <= i < s1.len() && s1[i] == s2[0];
        if j > 0 {
            assert(text_less(s2[0], s2[j]));
            if i == 0 {
                lemma_text_less_irreflexive(s2[0]);
            } else {
                assert(text_less(s1[0], s1[i]));
                lemma_text_less_transitive(s1[0], s1[i], s1[0]);
                lemma_text_less_irreflexive(s1[0]);
            }
        }
        let t1 = s1.drop_first();
        let t2 = s2.drop_first();
        assert forall|x: Seq<char>| t1.to_set().contains(x) implies t2.to_set().contains(x) by {
            let a = choose|a: int| 0 <= a < t1.len() && t1[a] == x;
            assert(s1[a + 1] == x);
            assert(text_less(s1[0], s1[a + 1]));
            assert(s1.to_set().contains(x));
            let b = choose|b: int| 0 <= b < s2.len() && s2[b] == x;
            if b == 0 {
                lemma_text_less_irreflexive(x);
            }
            assert(t2[b - 1] == x);
        }
        assert forall|x: Seq<char>| t2.to_set().contains(x) implies t1.to_set().contains(x) by {
            let a = choose|a: int| 0 <= a < t2.len() && t2[a] == x;
            assert(s2[a + 1] == x);
            assert(text_less(s2[0], s2[a + 1]));
            assert(s2.to_set().contains(x));
            let b = choose|b: int| 0 <= b < s1.len() && s1[b] == x;
            if b == 0 {
                lemma_text_less_irreflexive(x);
            }
            assert(t1[b - 1] == x);
        }
        assert(t1.to_set() =~= t2.to_set());
        lemma_sorted_unique(t1, t2);
        assert forall|k: int| 0 <= k < s1.len() implies s1[k] == s2[k] by {
            if k > 0 {
                assert(s1[k] == t1[k - 1]);
                assert(s2[k] == t2[k - 1]);
            }
        }
        assert(s1 =~= s2);
    }
}

/// There is one table of file types with their counts for a set of paths.
pub proof fn lemma_type_counts_unique(
    paths: Set<Seq<char>>,
    v1: Seq<(Seq<char>, usize)>,
    v2: Seq<(Seq<char>, usize)>,
)
    requires
        type_counts_ok(paths, v1),
        type_counts_ok(paths, v2),
    ensures
        v1 == v2,
{
    lemma_sorted_unique(type_keys(v1), type_keys(v2));
    assert forall|j: int| 0 <= j < v1.len() implies v1[j] == v2[j] by {
        assert(type_keys(v1)[j] == type_keys(v2)[j]);
    }
    assert(v1 =~= v2);
}

/// How many affected files have each file type: one entry per type that
/// occurs, in the order of `String`, each with the number of distinct paths
/// of that type among the records.
pub fn file_type_counts(data: &SweepData) -> (r: Vec<(String, usize)>)
    ensures
        type_count_views(r@) == file_type_table(record_paths(record_views(data.matches@))),
        type_counts_ok(record_paths(record_views(data.matches@)), type_count_views(r@)),
        record_paths(record_views(data.matches@)).finite(),
        forall|j: int| 0 <= j < r@.len() ==> (#[trigger] r@[j]).1 > 0,
{
    let affected = affected_files(data);
    let ghost a = texts(affected@);
    let mut keys: Vec<String> = Vec::new();
    let mut counts: Vec<usize> = Vec::new();
    let mut i: usize = 0;
    while i < affected.len()
        invariant
            i <= a.len(),
            a == texts(affected@),
            keys@.len() == counts@.len(),
            strictly_sorted(texts(keys@)),
            forall|j: int|
                0 <= j < keys@.len() ==> (#[trigger] counts@[j]) == label_count(
                    a.take(i as int),
                    keys@[j]@,
                ) && counts@[j] > 0,
            forall|m: int|
                0 <= m < i ==> texts(keys@).contains(file_type_label(#[trigger] a[m])),
            forall|j: int|
                0 <= j < keys@.len() ==> exists|m: int|
                    0 <= m < i && file_type_label(#[trigger] a[m]) == (#[trigger] keys@[j])@,
        decreases a.len() - i,
    {
        let label = file_type_of(affected[i].as_str());
        let ghost prefix = a.take(i as int);
        let ghost next = a.take(i + 1);
        assert(next.drop_last() =~= prefix);
        assert(next.last() == a[i as int]);
        proof {
            lemma_label_count_bound(prefix, label@);
        }
        let key = chars_of(label.as_str());
        let mut k: usize = 0;
        while k < keys.len() && chars_less(&chars_of(keys[k].as_str()), &key)
            invariant
                k <= keys@.len(),
                key@ == label@,
                forall|j: int| 0 <= j < k ==> text_less(#[trigger] keys@[j]@, label@),
            decreases keys.len() - k,
        {
            k += 1;
        }
        let ghost old_keys = texts(keys@);
        let ghost old_counts = counts@;
        assert(forall|j: int|
            0 <= j < old_keys.len() ==> exists|m: int|
                0 <= m < i && file_type_label(a[m]) == #[trigger] old_keys[j]);
        if k < keys.len() && keys[k] == label {
            let c = counts[k];
            assert(c == label_count(prefix, label@));
            counts.set(k, c + 1);
            assert forall|j: int| 0 <= j < keys@.len() implies (#[trigger] counts@[j]) == label_count(
                next,
                keys@[j]@,
            ) && counts@[j] > 0 by {
                if j != k {
                    assert(keys@[j]@ != label@) by {
                        lemma_sorted_no_duplicates(old_keys);
                        assert(old_keys[j] == keys@[j]@);
                        assert(old_keys[k as int] == keys@[k as int]@);
                    }
                }
            }
            assert forall|m: int| 0 <= m < i + 1 implies texts(keys@).contains(
                file_type_label(#[trigger] a[m]),
            ) by {
                if m == i {
                    assert(texts(keys@)[k as int] == label@);
                }
            }
        } else {
            proof {
                if k < old_keys.len() {
                    lemma_text_less_total(old_keys[k as int], label@);
                }
                assert(!old_keys.contains(label@)) by {
                    if old_keys.contains(label@) {
                        let j = choose|j: int| 0 <= j < old_keys.len() && old_keys[j] == label@;
                        if j < k {
                            lemma_text_less_irreflexive(label@);
                        } else if j > k {
                            assert(text_less(old_keys[k as int], old_keys[j]));
                            lemma_text_less_transitive(label@, old_keys[k as int], old_keys[j]);
                            lemma_text_less_irreflexive(label@);
                        }
                    }
                }
                assert forall|m: int| 0 <= m < prefix.len() implies file_type_label(
                    #[trigger] prefix[m],
                ) != label@ by {
                    assert(prefix[m] == a[m]);
                    if file_type_label(a[m]) == label@ {
                        assert(old_keys.contains(label@));
                    }
                }
                lemma_label_count_zero(prefix, label@);
            }
            keys.insert(k, label);
            counts.insert(k, 1);
            let ghost new_keys = texts(keys@);
            assert(new_keys =~= old_keys.insert(k as int, label@));
            assert forall|x: int, y: int| 0 <= x < y < new_keys.len() implies text_less(
                #[trigger] new_keys[x],
                #[trigger] new_keys[y],
            ) by {
                if y < k {
                } else if y == k {
                } else if x < k {
                    if y - 1 > k {
                        assert(text_less(old_keys[k as int], old_keys[y - 1]));
                        lemma_text_less_transitive(label@, old_keys[k as int], old_keys[y - 1]);
                    }
                    lemma_text_less_transitive(new_keys[x], label@, new_keys[y]);
                } else if x == k {
                    if y - 1 > k {
                        assert(text_less(old_keys[k as int], old_keys[y - 1]));
                        lemma_text_less_transitive(label@, old_keys[k as int], old_keys[y - 1]);
                    }
                } else {
                    assert(new_keys[x] == old_keys[x - 1]);
                    assert(new_keys[y] == old_keys[y - 1]);
                }
            }
            assert forall|j: int| 0 <= j < keys@.len() implies (#[trigger] counts@[j]) == label_count(
                next,
                keys@[j]@,
            ) && counts@[j] > 0 by {
                if j < k {
                    assert(keys@[j]@ == old_keys[j]);
                    assert(text_less(old_keys[j], label@));
                    lemma_text_less_irreflexive(label@);
                } else if j > k {
                    assert(keys@[j]@ == old_keys[j - 1]);
                    assert(counts@[j] == old_counts[j - 1]);
                    assert(old_keys[j - 1] != label@);
                }
            }
            assert forall|j: int| 0 <= j < keys@.len() implies exists|m: int|
                0 <= m < i + 1 && file_type_label(#[trigger] a[m]) == (#[trigger] keys@[j])@ by {
                if j == k {
                    assert(file_type_label(a[i as int]) == keys@[j]@);
                } else if j < k {
                    assert(keys@[j]@ == old_keys[j]);
                    assert(exists|m: int| 0 <= m < i && file_type_label(a[m]) == old_keys[j]);
                } else {
                    assert(keys@[j]@ == old_keys[j - 1]);
                    assert(exists|m: int| 0 <= m < i && file_type_label(a[m]) == old_keys[j - 1]);
                }
            }
            assert forall|m: int| 0 <= m < i + 1 implies new_keys.contains(
                file_type_label(#[trigger] a[m]),
            ) by {
                if m == i {
                    assert(new_keys[k as int] == label@);
                } else {
                    assert(old_keys.contains(file_type_label(a[m])));
                    let j = choose|j: int| 0 <= j < old_keys.len() && old_keys[j] == file_type_label(a[m]);
                    if j < k {
                        assert(new_keys[j] == old_keys[j]);
                    } else {
                        assert(new_keys[j + 1] == old_keys[j]);
                    }
                }
            }
        }
        i += 1;
    }
    assert(a.take(i as int) =~= a);
    let mut out: Vec<(String, usize)> = Vec::new();
    let mut j: usize = 0;
    proof {
        lemma_sorted_no_duplicates(a);
    }
    while j < keys.len()
        invariant
            j <= keys@.len(),
            keys@.len() == counts@.len(),
            out@.len() == j,
            forall|x: int| 0 <= x < j ==> (#[trigger] out@[x]).0@ == keys@[x]@ && out@[x].1 == counts@[x],
        decreases keys.len() - j,
    {
        out.push((keys[j].clone(), counts[j]));
        j += 1;
    }
    let ghost v = type_count_views(out@);
    let ghost paths = record_paths(record_views(data.matches@));
    let ghost labels = paths.map(|p: Seq<char>| file_type_label(p));
    assert(type_keys(v) =~= texts(keys@));
    assert forall|x: int| 0 <= x < v.len() implies (#[trigger] v[x]).1 == paths_with_type(
        paths,
        v[x].0,
    ).len() by {
        lemma_label_count_set(a, keys@[x]@);
    }
    assert forall|y: Seq<char>| type_keys(v).to_set().contains(y) implies labels.contains(y) by {
        let x = choose|x: int| 0 <= x < type_keys(v).len() && type_keys(v)[x] == y;
        assert(texts(keys@)[x] == y);
        assert(keys@[x]@ == y);
        let m = choose|m: int| 0 <= m < a.len() && file_type_label(a[m]) == keys@[x]@;
        assert(a.to_set().contains(a[m]));
    }
    assert forall|y: Seq<char>| labels.contains(y) implies type_keys(v).to_set().contains(y) by {
        let p = choose|p: Seq<char>| paths.contains(p) && file_type_label(p) == y;
        assert(a.to_set().contains(p));
        let m = choose|m: int| 0 <= m < a.len() && a[m] == p;
        assert(texts(keys@).contains(file_type_label(a[m])));
    }
    assert(type_keys(v).to_set() =~= labels);
    assert(type_counts_ok(paths, v));
    proof {
        lemma_type_counts_unique(paths, v, file_type_table(paths));
        vstd::seq_lib::seq_to_set_is_finite(a);
    }
    out
}

/// The summary of an export written to `output_path`.
pub fn sweep_result(output_path: String, data: &SweepData, export_type: &str) -> (r: SweepResult)
    ensures
        r.output_path@ == output_path@,
        r.matches_written == data.matches@.len(),
        r.files_scanned == data.files_scanned,
        r.files_skipped == data.errors@.len(),
        r.affected_files == record_paths(record_views(data.matches@)).len(),
        r.errors_count == data.errors@.len(),
        r.export_type@ == export_type@,
{
    let affected = affected_files(data);
    SweepResult {
        output_path,
        matches_written: data.matches.len(),
        files_scanned: data.files_scanned,
        files_skipped: data.errors.len(),
        affected_files: affected.len(),
        errors_count: data.errors.len(),
        export_type: String::from_str(export_type),
    }
}

} // verus!
