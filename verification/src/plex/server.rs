use vstd::prelude::*;

use crate::plex::library::{is_library_directory_type, spec_is_library_directory_type, Library, LibraryView};
use crate::plex::models::{
    string_equals, Directory, Feature, LibraryItemsMediaContainer, MediaProvider,
    ProvidersMediaContainer, RootMediaContainer, StatisticsBandwidth,
};

verus! {

// ---------------------------------------------------------------------------
// Libraries.
// ---------------------------------------------------------------------------

/// The library that a directory of a content feature describes; its item
/// count is not known yet.
pub open spec fn directory_library(d: Directory) -> LibraryView {
    LibraryView {
        id: d.identifier@,
        name: d.title@,
        library_type: d.directory_type@,
        duration_total: d.duration_total,
        storage_total: d.storage_total,
        item_count: 0,
    }
}

pub open spec fn directory_entry() -> spec_fn(Directory) -> Option<LibraryView> {
    |d: Directory|
        if spec_is_library_directory_type(d.directory_type@) {
            Some(directory_library(d))
        } else {
            None
        }
}

/// The libraries of a feature: those of its directories that are libraries,
/// when the feature lists content.
pub open spec fn feature_libraries(f: Feature) -> Seq<LibraryView> {
    if f.feature_type@ == "content"@ {
        f.directories@.filter_map(directory_entry())
    } else {
        Seq::empty()
    }
}

/// The libraries of a provider: those of its features, when it is the
/// library provider.
pub open spec fn provider_libraries(p: MediaProvider) -> Seq<LibraryView> {
    if p.identifier@ == "com.plexapp.plugins.library"@ {
        p.features@.map_values(|f: Feature| feature_libraries(f)).flatten_alt()
    } else {
        Seq::empty()
    }
}

/// The libraries that a `/media/providers` answer lists, in its order.
pub open spec fn spec_libraries(c: ProvidersMediaContainer) -> Seq<LibraryView> {
    c.media_providers@.map_values(|p: MediaProvider| provider_libraries(p)).flatten_alt()
}

pub open spec fn libraries_view(v: Seq<Library>) -> Seq<LibraryView> {
    v.map_values(|l: Library| l@)
}

fn push_feature_libraries(out: &mut Vec<Library>, f: &Feature)
    ensures
        libraries_view(final(out)@) == libraries_view(old(out)@) + feature_libraries(*f),
{
    let ghost base = libraries_view(out@);
    if string_equals(&f.feature_type, "content") {
        let mut k: usize = 0;
        while k < f.directories.len()
            invariant
                k <= f.directories@.len(),
                libraries_view(out@) == base + f.directories@.subrange(0, k as int).filter_map(directory_entry()),
            decreases f.directories@.len() - k,
        {
            let d = &f.directories[k];
            proof {
                let pre = f.directories@.subrange(0, k + 1);
                assert(pre.drop_last() =~= f.directories@.subrange(0, k as int));
                assert(pre.last() == *d);
            }
            if is_library_directory_type(&d.directory_type) {
                let lib = Library {
                    id: d.identifier.clone(),
                    name: d.title.clone(),
                    library_type: d.directory_type.clone(),
                    duration_total: d.duration_total,
                    storage_total: d.storage_total,
                    item_count: 0,
                };
                let ghost before = libraries_view(out@);
                out.push(lib);
                assert(libraries_view(out@) =~= before.push(lib@));
                assert(lib@ == directory_library(*d));
            }
            proof {
                assert(base + f.directories@.subrange(0, k + 1).filter_map(directory_entry())
                    =~= libraries_view(out@));
            }
            k = k + 1;
        }
        assert(f.directories@.subrange(0, k as int) =~= f.directories@);
    } else {
        assert(libraries_view(out@) =~= base + Seq::<LibraryView>::empty());
    }
}

fn push_provider_libraries(out: &mut Vec<Library>, p: &MediaProvider)
    ensures
        libraries_view(final(out)@) == libraries_view(old(out)@) + provider_libraries(*p),
{
    let ghost base = libraries_view(out@);
    let ghost fl = |f: Feature| feature_libraries(f);
    if string_equals(&p.identifier, "com.plexapp.plugins.library") {
        let mut j: usize = 0;
        while j < p.features.len()
            invariant
                j <= p.features@.len(),
                fl == (|f: Feature| feature_libraries(f)),
                libraries_view(out@) == base + p.features@.subrange(0, j as int).map_values(fl).flatten_alt(),
            decreases p.features@.len() - j,
        {
            push_feature_libraries(out, &p.features[j]);
            proof {
                let pre = p.features@.subrange(0, j + 1).map_values(fl);
                assert(pre.drop_last() =~= p.features@.subrange(0, j as int).map_values(fl));
                assert(pre.last() == feature_libraries(p.features@[j as int]));
                assert(libraries_view(out@) =~= base + pre.flatten_alt());
            }
            j = j + 1;
        }
        assert(p.features@.subrange(0, j as int) =~= p.features@);
    } else {
        assert(libraries_view(out@) =~= base + Seq::<LibraryView>::empty());
    }
}

/// The libraries that a `/media/providers` answer lists: the directories of
/// the library provider's content features whose type is a library type.
pub fn libraries_from_providers(container: &ProvidersMediaContainer) -> (r: Vec<Library>)
    ensures
        libraries_view(r@) == spec_libraries(*container),
{
    let ghost pl = |p: MediaProvider| provider_libraries(p);
    let mut out: Vec<Library> = Vec::new();
    let mut i: usize = 0;
    assert(libraries_view(out@) =~= container.media_providers@.subrange(0, 0).map_values(pl).flatten_alt());
    while i < container.media_providers.len()
        invariant
            i <= container.media_providers@.len(),
            pl == (|p: MediaProvider| provider_libraries(p)),
            libraries_view(out@) == container.media_providers@.subrange(0, i as int).map_values(pl).flatten_alt(),
        decreases container.media_providers@.len() - i,
    {
        push_provider_libraries(&mut out, &container.media_providers[i]);
        proof {
            let pre = container.media_providers@.subrange(0, i + 1).map_values(pl);
            assert(pre.drop_last() =~= container.media_providers@.subrange(0, i as int).map_values(pl));
            assert(pre.last() == provider_libraries(container.media_providers@[i as int]));
        }
        i = i + 1;
    }
    assert(container.media_providers@.subrange(0, i as int) =~= container.media_providers@);
    out
}

/// The number of items of a library from a zero-size page of its listing:
/// the total size when the server gives one, else the page size.
pub fn library_item_count_from(container: &LibraryItemsMediaContainer) -> (r: i64)
    ensures
        r == if container.total_size > 0 {
            container.total_size
        } else {
            container.size
        },
{
    if container.total_size > 0 {
        container.total_size
    } else {
        container.size
    }
}

/// A library after its item count was fetched: a count that came replaces the
/// library's own, and a library whose count could not be fetched keeps it.
pub open spec fn with_item_count(lib: LibraryView, count: Option<i64>) -> LibraryView {
    match count {
        Some(c) => LibraryView { item_count: c, ..lib },
        None => lib,
    }
}

/// Gives each library the item count fetched for it (`counts[i]` for
/// `libraries[i]`, `None` where the fetch failed); libraries with no count
/// keep theirs.
pub fn set_item_counts(libraries: &mut Vec<Library>, counts: &Vec<Option<i64>>)
    ensures
        final(libraries)@.len() == old(libraries)@.len(),
        forall|i: int|
            0 <= i < old(libraries)@.len() ==> (#[trigger] final(libraries)@[i])@ == with_item_count(
                old(libraries)@[i]@,
                if i < counts@.len() {
                    counts@[i]
                } else {
                    None
                },
            ),
{
    let ghost orig = libraries@;
    let mut i: usize = 0;
    while i < libraries.len() && i < counts.len()
        invariant
            i <= libraries@.len(),
            i <= counts@.len(),
            libraries@.len() == orig.len(),
            forall|j: int| 0 <= j < i ==> (#[trigger] libraries@[j])@ == with_item_count(orig[j]@, counts@[j]),
            forall|j: int| i <= j < orig.len() ==> #[trigger] libraries@[j] == orig[j],
        decreases libraries@.len() - i,
    {
        if let Some(c) = counts[i] {
            libraries[i].item_count = c;
        }
        i = i + 1;
    }
    assert forall|j: int| 0 <= j < orig.len() implies (#[trigger] libraries@[j])@ == with_item_count(
        orig[j]@,
        if j < counts@.len() {
            counts@[j]
        } else {
            None
        },
    ) by {
        if j >= i {
            assert(libraries@[j] == orig[j]);
        }
    }
}

// ---------------------------------------------------------------------------
// Label values.
// ---------------------------------------------------------------------------

pub open spec fn strings_view(v: Seq<String>) -> Seq<Seq<char>> {
    v.map_values(|s: String| s@)
}

/// The values of the server info labels.
pub fn server_info_label_values(
    server_name: &str,
    server_id: &str,
    root: &RootMediaContainer,
) -> (r: Vec<String>)
    ensures
        strings_view(r@) == seq![
            "plex"@,
            server_name@,
            server_id@,
            root.version@,
            root.platform@,
            root.platform_version@,
        ],
{
    let mut v: Vec<String> = Vec::new();
    v.push("plex".to_owned());
    v.push(server_name.to_owned());
    v.push(server_id.to_owned());
    v.push(root.version.clone());
    v.push(root.platform.clone());
    v.push(root.platform_version.clone());
    assert(strings_view(v@) =~= seq![
        "plex"@,
        server_name@,
        server_id@,
        root.version@,
        root.platform@,
        root.platform_version@,
    ]);
    v
}

/// The values of the library labels of `lib`.
pub fn library_label_values(server_name: &str, server_id: &str, lib: &Library) -> (r: Vec<String>)
    ensures
        strings_view(r@) == seq!["plex"@, server_name@, server_id@, lib.library_type@, lib.name@, lib.id@],
{
    let mut v: Vec<String> = Vec::new();
    v.push("plex".to_owned());
    v.push(server_name.to_owned());
    v.push(server_id.to_owned());
    v.push(lib.library_type.clone());
    v.push(lib.name.clone());
    v.push(lib.id.clone());
    assert(strings_view(v@) =~= seq!["plex"@, server_name@, server_id@, lib.library_type@, lib.name@, lib.id@]);
    v
}


// ---------------------------------------------------------------------------
// Bandwidth statistics.
// ---------------------------------------------------------------------------

/// Whether an update is newer than `last`.
pub open spec fn newer_than(last: i64) -> spec_fn(StatisticsBandwidth) -> bool {
    |u: StatisticsBandwidth| u.at > last
}

/// Where `x` goes into `s`: after the last update of `s` that is not later
/// than `x`.
pub open spec fn insert_position(s: Seq<StatisticsBandwidth>, x: StatisticsBandwidth) -> int
    decreases s.len(),
{
    if s.len() == 0 {
        0
    } else if s.last().at > x.at {
        insert_position(s.drop_last(), x)
    } else {
        s.len() as int
    }
}

/// `s` ordered by time; updates of the same time keep their order.
pub open spec fn sort_by_at(s: Seq<StatisticsBandwidth>) -> Seq<StatisticsBandwidth>
    decreases s.len(),
{
    if s.len() == 0 {
        s
    } else {
        let sorted = sort_by_at(s.drop_last());
        sorted.insert(insert_position(sorted, s.last()), s.last())
    }
}

/// The latest time among `last` and the updates of `s`.
pub open spec fn max_at(last: i64, s: Seq<StatisticsBandwidth>) -> i64
    decreases s.len(),
{
    if s.len() == 0 {
        last
    } else {
        let m = max_at(last, s.drop_last());
        if s.last().at > m {
            s.last().at
        } else {
            m
        }
    }
}

pub open spec fn sorted_by_at(s: Seq<StatisticsBandwidth>) -> bool {
    forall|i: int, j: int| 0 <= i < j < s.len() ==> #[trigger] s[i].at <= #[trigger] s[j].at
}

/// The bandwidth updates to count and the time of the latest one seen.
#[derive(Debug)]
pub struct BandwidthUpdate {
    pub increments: Vec<StatisticsBandwidth>,
    pub last_at: i64,
}

/// Given the server's recent bandwidth statistics and the time of the latest
/// update counted so far, the updates newer than that, ordered by time, and
/// the time of the latest update now seen.
pub fn bandwidth_update(updates: &Vec<StatisticsBandwidth>, last_at: i64) -> (r: BandwidthUpdate)
    ensures
        r.increments@ == sort_by_at(updates@.filter(newer_than(last_at))),
        r.last_at == max_at(last_at, updates@),
{
    let ghost pred = newer_than(last_at);
    let mut fresh: Vec<StatisticsBandwidth> = Vec::new();
    let mut highest = last_at;
    let mut i: usize = 0;
    while i < updates.len()
        invariant
            i <= updates@.len(),
            pred == newer_than(last_at),
            fresh@ == updates@.subrange(0, i as int).filter(pred),
            highest == max_at(last_at, updates@.subrange(0, i as int)),
        decreases updates@.len() - i,
    {
        let u = updates[i];
        proof {
            let pre = updates@.subrange(0, i + 1);
            assert(pre.drop_last() =~= updates@.subrange(0, i as int));
            assert(pre.last() == u);
            reveal_with_fuel(Seq::filter, 1);
        }
        if u.at > last_at {
            fresh.push(u);
        }
        if u.at > highest {
            highest = u.at;
        }
        i = i + 1;
    }
    assert(updates@.subrange(0, i as int) =~= updates@);
    let ghost f = fresh@;
    let mut sorted: Vec<StatisticsBandwidth> = Vec::new();
    let mut k: usize = 0;
    assert(f.subrange(0, 0) =~= Seq::<StatisticsBandwidth>::empty());
    while k < fresh.len()
        invariant
            k <= fresh@.len(),
            f == fresh@,
            sorted@ == sort_by_at(f.subrange(0, k as int)),
        decreases fresh@.len() - k,
    {
        let x = fresh[k];
        let mut j: usize = sorted.len();
        assert(sorted@.subrange(0, j as int) =~= sorted@);
        while j > 0 && sorted[j - 1].at > x.at
            invariant
                j <= sorted@.len(),
                insert_position(sorted@, x) == insert_position(sorted@.subrange(0, j as int), x),
            decreases j,
        {
            assert(sorted@.subrange(0, j as int).drop_last() =~= sorted@.subrange(0, j - 1));
            j = j - 1;
        }
        proof {
            if j > 0 {
                assert(sorted@.subrange(0, j as int).last() == sorted@[j - 1]);
            }
            let pre = f.subrange(0, k + 1);
            assert(pre.drop_last() =~= f.subrange(0, k as int));
            assert(pre.last() == x);
        }
        sorted.insert(j, x);
        k = k + 1;
    }
    assert(f.subrange(0, k as int) =~= f);
    BandwidthUpdate { increments: sorted, last_at: highest }
}

proof fn lemma_insert_position(s: Seq<StatisticsBandwidth>, x: StatisticsBandwidth)
    requires
        sorted_by_at(s),
    ensures
        0 <= insert_position(s, x) <= s.len(),
        forall|k: int| 0 <= k < insert_position(s, x) ==> #[trigger] s[k].at <= x.at,
        forall|k: int| insert_position(s, x) <= k < s.len() ==> #[trigger] s[k].at > x.at,
    decreases s.len(),
{
    if s.len() > 0 {
        let rest = s.drop_last();
        if s.last().at > x.at {
            assert forall|i: int, j: int| 0 <= i < j < rest.len() implies #[trigger] rest[i].at <= #[trigger] rest[j].at by {
                assert(s[i].at <= s[j].at);
            }
            lemma_insert_position(rest, x);
            assert forall|k: int| 0 <= k < insert_position(s, x) implies #[trigger] s[k].at <= x.at by {
                assert(s[k] == rest[k]);
            }
            assert forall|k: int| insert_position(s, x) <= k < s.len() implies #[trigger] s[k].at > x.at by {
                if k < s.len() - 1 {
                    assert(s[k] == rest[k]);
                }
            }
        } else {
            assert forall|k: int| 0 <= k < s.len() implies #[trigger] s[k].at <= x.at by {
                if k < s.len() - 1 {
                    assert(s[k].at <= s[s.len() - 1].at);
                }
            }
        }
    }
}

/// Ordering by time yields updates in time order.
pub proof fn lemma_sort_by_at_sorted(s: Seq<StatisticsBandwidth>)
    ensures
        sorted_by_at(sort_by_at(s)),
    decreases s.len(),
{
    if s.len() > 0 {
        let sorted = sort_by_at(s.drop_last());
        lemma_sort_by_at_sorted(s.drop_last());
        let x = s.last();
        let p = insert_position(sorted, x);
        lemma_insert_position(sorted, x);
        let t = sorted.insert(p, x);
        assert forall|i: int, j: int| 0 <= i < j < t.len() implies #[trigger] t[i].at <= #[trigger] t[j].at by {
            if j < p {
            } else if j == p {
            } else if i < p {
                assert(t[i] == sorted[i]);
                assert(t[j] == sorted[j - 1]);
            } else if i == p {
                assert(t[j] == sorted[j - 1]);
            } else {
                assert(t[i] == sorted[i - 1]);
                assert(t[j] == sorted[j - 1]);
            }
        }
    }
}

/// Ordering by time neither drops nor adds an update.
pub proof fn lemma_sort_by_at_permutes(s: Seq<StatisticsBandwidth>)
    ensures
        sort_by_at(s).to_multiset() == s.to_multiset(),
    decreases s.len(),
{
    broadcast use vstd::seq_lib::group_to_multiset_ensures;
    if s.len() > 0 {
        let rest = s.drop_last();
        let sorted = sort_by_at(rest);
        lemma_sort_by_at_permutes(rest);
        let x = s.last();
        let p = insert_position(sorted, x);
        lemma_sort_by_at_sorted(rest);
        lemma_insert_position(sorted, x);
        let t = sorted.insert(p, x);
        assert(t.remove(p) =~= sorted);
        assert(t.to_multiset().remove(x) == sorted.to_multiset());
        assert(t.contains(x)) by {
            assert(t[p] == x);
        }
        assert(rest.push(x) =~= s);
        assert(t.to_multiset() =~= sorted.to_multiset().insert(x));
    }
}

/// Whether an update is of time `t`.
pub open spec fn at_time(t: i64) -> spec_fn(StatisticsBandwidth) -> bool {
    |u: StatisticsBandwidth| u.at == t
}

/// Ordering by time keeps the order of the updates of each time: the updates
/// of any one time come out as they went in.
pub proof fn lemma_sort_by_at_stable(s: Seq<StatisticsBandwidth>, t: i64)
    ensures
        sort_by_at(s).filter(at_time(t)) == s.filter(at_time(t)),
    decreases s.len(),
{
    broadcast use Seq::filter_distributes_over_add;
    if s.len() > 0 {
        let pred = at_time(t);
        let rest = s.drop_last();
        let sorted = sort_by_at(rest);
        let x = s.last();
        lemma_sort_by_at_stable(rest, t);
        lemma_sort_by_at_sorted(rest);
        let p = insert_position(sorted, x);
        lemma_insert_position(sorted, x);
        let a = sorted.subrange(0, p);
        let b = sorted.subrange(p, sorted.len() as int);
        assert(sorted =~= a + b);
        assert(sorted.insert(p, x) =~= (a + seq![x]) + b);
        assert(s =~= rest + seq![x]);
        reveal_with_fuel(Seq::filter, 2);
        assert(seq![x].drop_last() =~= Seq::<StatisticsBandwidth>::empty());
        if x.at == t {
            assert(b.filter(pred).len() == 0) by {
                assert forall|k: int| 0 <= k < b.len() implies !pred(#[trigger] b[k]) by {
                    assert(b[k] == sorted[p + k]);
                }
                b.lemma_all_neg_filter_empty(pred);
            }
            assert(b.filter(pred) =~= Seq::<StatisticsBandwidth>::empty());
            assert(sorted.filter(pred) =~= a.filter(pred) + b.filter(pred));
        }
    }
}

/// The time of the latest update seen never goes back, and no update is
/// later than it.
pub proof fn lemma_max_at_bounds(last: i64, s: Seq<StatisticsBandwidth>)
    ensures
        max_at(last, s) >= last,
        forall|i: int| 0 <= i < s.len() ==> #[trigger] s[i].at <= max_at(last, s),
    decreases s.len(),
{
    if s.len() > 0 {
        lemma_max_at_bounds(last, s.drop_last());
        assert forall|i: int| 0 <= i < s.len() implies #[trigger] s[i].at <= max_at(last, s) by {
            if i < s.len() - 1 {
                assert(s[i] == s.drop_last()[i]);
            }
        }
    }
}

/// The latest time seen is one that was seen: `last` itself or the time of
/// one of the updates; it is never a time that no update carries.
pub proof fn lemma_max_at_attained(last: i64, s: Seq<StatisticsBandwidth>)
    ensures
        max_at(last, s) == last || exists|i: int| 0 <= i < s.len() && #[trigger] s[i].at == max_at(last, s),
    decreases s.len(),
{
    if s.len() > 0 {
        let rest = s.drop_last();
        lemma_max_at_attained(last, rest);
        if s.last().at > max_at(last, rest) {
            assert(s[s.len() - 1].at == max_at(last, s));
        } else if max_at(last, rest) != last {
            let i = choose|i: int| 0 <= i < rest.len() && #[trigger] rest[i].at == max_at(last, rest);
            assert(s[i].at == max_at(last, s));
        }
    }
}

/// Statistics are counted once: after an update, the same statistics bring
/// nothing more to count and leave the latest time where it is.
pub proof fn lemma_bandwidth_counted_once(updates: Seq<StatisticsBandwidth>, last_at: i64)
    ensures
        sort_by_at(updates.filter(newer_than(max_at(last_at, updates)))).len() == 0,
        max_at(max_at(last_at, updates), updates) == max_at(last_at, updates),
{
    let m = max_at(last_at, updates);
    lemma_max_at_bounds(last_at, updates);
    lemma_max_at_bounds(m, updates);
    lemma_max_at_unchanged(m, updates);
    let f = updates.filter(newer_than(m));
    lemma_sort_by_at_permutes(f);
    broadcast use vstd::seq_lib::group_to_multiset_ensures;
    if f.len() > 0 {
        updates.lemma_filter_pred(newer_than(m), 0);
        updates.lemma_filter_contains_rev(newer_than(m), f[0]);
        assert(f.contains(f[0]));
    }
}

proof fn lemma_max_at_unchanged(m: i64, s: Seq<StatisticsBandwidth>)
    requires
        forall|i: int| 0 <= i < s.len() ==> #[trigger] s[i].at <= m,
    ensures
        max_at(m, s) == m,
    decreases s.len(),
{
    if s.len() > 0 {
        assert forall|i: int| 0 <= i < s.drop_last().len() implies #[trigger] s.drop_last()[i].at <= m by {
            assert(s.drop_last()[i] == s[i]);
        }
        lemma_max_at_unchanged(m, s.drop_last());
        assert(s[s.len() - 1].at <= m);
    }
}


// ---------------------------------------------------------------------------
// Wall-clock time.
// ---------------------------------------------------------------------------

#[verifier::external_type_specification]
#[verifier::external_body]
pub struct ExSystemTime(std::time::SystemTime);

/// Calls `std::time::SystemTime::now`; what it returns depends on the clock,
/// so nothing is claimed of it.
#[verifier::external_body]
fn system_time_now() -> std::time::SystemTime {
    std::time::SystemTime::now()
}

/// Calls `SystemTime::duration_since` with the Unix epoch, keeping the
/// duration when the time is not before the epoch. Nothing is claimed of the
/// value: it depends on the clock reading it is given.
#[verifier::external_body]
fn duration_since_unix_epoch(t: std::time::SystemTime) -> Option<std::time::Duration> {
    t.duration_since(std::time::UNIX_EPOCH).ok()
}

/// Calls `Duration::as_secs`, the number of whole seconds of `d`. A
/// `Duration` is opaque here, so nothing is claimed of the count.
#[verifier::external_body]
fn whole_seconds(d: std::time::Duration) -> u64 {
    d.as_secs()
}

/// Seconds since the Unix epoch as a signed count: a reading after the epoch
/// is reinterpreted as `i64` (as `as` does), a failed reading counts as 0.
pub fn unix_secs_from(secs: Option<u64>) -> (r: i64)
    ensures
        r == match secs {
            Some(s) => s as i64,
            None => 0i64,
        },
{
    match secs {
        Some(s) => s as i64,
        None => 0,
    }
}

/// The current time in whole seconds since the Unix epoch, or 0 when the
/// clock reads a time before the epoch.
pub fn unix_now() -> i64 {
    let now = system_time_now();
    let secs = match duration_since_unix_epoch(now) {
        Some(d) => Some(whole_seconds(d)),
        None => None,
    };
    unix_secs_from(secs)
}

} // verus!
