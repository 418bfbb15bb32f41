//! The scanner itself: from a probed listing to a classified, aggregated
//! and sorted result, or a precise error.
//!
//! The whole pipeline is a mathematical function of the listing,
//! `scan_spec`: validation first, then each child in listing order — a
//! failed child record aborts the scan, a child whose metadata was
//! unavailable is skipped silently, a child whose timestamp was
//! unavailable after its metadata was obtained aborts the scan — then
//! aggregation and the stable case-insensitive sort.

use vstd::prelude::*;
use crate::sort::{insert_sorted, insort, lemma_insort, sorted_ci, views_of, sort_entries};
use crate::types::{build_info, category_ok, item_views, spec_info, FileInfo, FileInfoV, Listing,
    ListingV, MetaOutcome, MetaOutcomeV, RawEntry, RawItem, RawItemV, ScanError, ScanErrorV,
    ScanResult, ScanResultV, TimeOutcome, TimeOutcomeV};

verus! {

/// Processes the listed children in order: a failed record or an
/// unreadable timestamp aborts with the matching error, a child without
/// metadata is skipped, every other child becomes a classified entry.
pub open spec fn collect(items: Seq<RawItemV>) -> Result<Seq<FileInfoV>, ScanErrorV>
    decreases items.len(),
{
    if items.len() == 0 {
        Ok(Seq::empty())
    } else {
        match items[0] {
            RawItemV::Failed(cause) => Err(ScanErrorV::ReadEntryFailed(cause)),
            RawItemV::Entry(e) => match e.meta {
                MetaOutcomeV::Unavailable => collect(items.drop_first()),
                MetaOutcomeV::Available { size, is_directory, modified } => match modified {
                    TimeOutcomeV::Unavailable(cause) => Err(
                        ScanErrorV::TimestampUnavailable(cause),
                    ),
                    TimeOutcomeV::At(ts) => match collect(items.drop_first()) {
                        Ok(rest) => Ok(
                            seq![spec_info(e.name, e.path, size, is_directory, ts)] + rest,
                        ),
                        Err(err) => Err(err),
                    },
                },
            },
        }
    }
}

/// The sum of the sizes of a sequence of entries.
pub open spec fn sum_sizes(s: Seq<FileInfoV>) -> int
    decreases s.len(),
{
    if s.len() == 0 {
        0
    } else {
        s[0].size + sum_sizes(s.drop_first())
    }
}

/// Sums split across concatenation.
pub proof fn lemma_sum_append(a: Seq<FileInfoV>, b: Seq<FileInfoV>)
    ensures
        sum_sizes(a + b) == sum_sizes(a) + sum_sizes(b),
    decreases a.len(),
{
    if a.len() == 0 {
        assert(a + b =~= b);
    } else {
        assert((a + b).drop_first() =~= a.drop_first() + b);
        assert((a + b)[0] == a[0]);
        lemma_sum_append(a.drop_first(), b);
    }
}

/// Sizes are nonnegative, so sums are.
pub proof fn lemma_sum_nonneg(s: Seq<FileInfoV>)
    ensures
        0 <= sum_sizes(s),
    decreases s.len(),
{
    if s.len() > 0 {
        lemma_sum_nonneg(s.drop_first());
    }
}

/// The sum of one entry's sizes is its size.
pub proof fn lemma_sum_singleton(x: FileInfoV)
    ensures
        sum_sizes(seq![x]) == x.size,
{
    assert(seq![x].drop_first() =~= Seq::<FileInfoV>::empty());
    assert(sum_sizes(Seq::<FileInfoV>::empty()) == 0);
    assert(sum_sizes(seq![x]) == seq![x][0].size + sum_sizes(seq![x].drop_first()));
}

/// Inserting an entry adds its size to the sum.
pub proof fn lemma_sum_insert_sorted(e: FileInfoV, s: Seq<FileInfoV>)
    ensures
        sum_sizes(insert_sorted(e, s)) == e.size + sum_sizes(s),
    decreases s.len(),
{
    if s.len() == 0 {
        lemma_sum_singleton(e);
        assert(insert_sorted(e, s) == seq![e]);
    } else if crate::sort::fi_le(s[0], e) {
        let inner = insert_sorted(e, s.drop_first());
        lemma_sum_insert_sorted(e, s.drop_first());
        lemma_sum_append(seq![s[0]], inner);
        lemma_sum_singleton(s[0]);
        assert(insert_sorted(e, s) == seq![s[0]] + inner);
        assert(sum_sizes(s) == s[0].size + sum_sizes(s.drop_first()));
    } else {
        lemma_sum_append(seq![e], s);
        lemma_sum_singleton(e);
        assert(insert_sorted(e, s) == seq![e] + s);
    }
}

/// Sorting does not change the sum of sizes.
pub proof fn lemma_sum_insort(s: Seq<FileInfoV>)
    ensures
        sum_sizes(insort(s)) == sum_sizes(s),
    decreases s.len(),
{
    if s.len() > 0 {
        let rest = s.drop_last();
        lemma_sum_insort(rest);
        lemma_sum_insert_sorted(s.last(), insort(rest));
        assert(s =~= rest + seq![s.last()]);
        lemma_sum_append(rest, seq![s.last()]);
        lemma_sum_singleton(s.last());
    }
}

/// An entry is well formed when its category and extension are the ones
/// derived from its own name and directory flag.
pub open spec fn entry_wf(f: FileInfoV) -> bool {
    f == spec_info(f.name, f.path, f.size, f.is_directory, f.modified)
}

/// Every entry satisfies the classification invariant.
pub open spec fn all_wf(s: Seq<FileInfoV>) -> bool {
    forall|i: int| 0 <= i < s.len() ==> entry_wf(#[trigger] s[i])
}

/// Every entry's category marks a directory exactly when it is one.
pub open spec fn all_category_ok(s: Seq<FileInfoV>) -> bool {
    forall|i: int| 0 <= i < s.len() ==> category_ok(#[trigger] s[i])
}

/// Everything the processing yields is well formed.
pub proof fn lemma_collect_wf(items: Seq<RawItemV>)
    ensures
        collect(items) matches Ok(es) ==> all_wf(es),
    decreases items.len(),
{
    if items.len() > 0 {
        lemma_collect_wf(items.drop_first());
        match collect(items) {
            Ok(es) => {
                match items[0] {
                    RawItemV::Entry(e) => match e.meta {
                        MetaOutcomeV::Available { size, is_directory, modified } => match modified {
                            TimeOutcomeV::At(ts) => {
                                let rest = collect(items.drop_first())->Ok_0;
                                let head = spec_info(e.name, e.path, size, is_directory, ts);
                                assert(entry_wf(head));
                                assert(forall|i: int|
                                    1 <= i < es.len() ==> es[i] == rest[i - 1]);
                            },
                            TimeOutcomeV::Unavailable(_) => {},
                        },
                        MetaOutcomeV::Unavailable => {},
                    },
                    RawItemV::Failed(_) => {},
                }
            },
            Err(_) => {},
        }
    }
}

/// The whole scan as a function of the probed listing.
pub open spec fn scan_spec(probe: ListingV) -> Result<ScanResultV, ScanErrorV> {
    match probe {
        ListingV::Missing => Err(ScanErrorV::NotFound),
        ListingV::NotDirectory => Err(ScanErrorV::NotADirectory),
        ListingV::ListFailed(cause) => Err(ScanErrorV::ReadDirectoryFailed(cause)),
        ListingV::Entries(items) => match collect(items) {
            Err(e) => Err(e),
            Ok(entries) => Ok(
                ScanResultV {
                    files: insort(entries),
                    total_count: entries.len(),
                    total_size: sum_sizes(entries),
                },
            ),
        },
    }
}

/// Whether the total size of the scanned entries fits the reported
/// 64-bit total. Anything but a successful collection fits trivially.
pub open spec fn sum_fits(probe: ListingV) -> bool {
    match probe {
        ListingV::Entries(items) => match collect(items) {
            Ok(entries) => sum_sizes(entries) <= u64::MAX,
            Err(_) => true,
        },
        _ => true,
    }
}

/// The view of an exec scan outcome.
pub open spec fn outcome_view(r: Result<ScanResult, ScanError>) -> Result<
    ScanResultV,
    ScanErrorV,
> {
    match r {
        Ok(sr) => Ok(sr@),
        Err(e) => Err(e@),
    }
}

/// The processing state after some prefix: what the whole collection
/// equals, given what the remaining suffix yields.
pub open spec fn collect_from(iv: Seq<RawItemV>, done: Seq<FileInfoV>, i: int) -> Result<
    Seq<FileInfoV>,
    ScanErrorV,
> {
    match collect(iv.skip(i)) {
        Ok(rest) => Ok(done + rest),
        Err(e) => Err(e),
    }
}

/// Processes the listed children in order, as `collect` describes.
#[verifier::loop_isolation(false)]
fn collect_entries(items: Vec<RawItem>) -> (r: Result<Vec<FileInfo>, ScanError>)
    ensures
        (match r {
            Ok(v) => collect(item_views(items@)) == Ok::<Seq<FileInfoV>, ScanErrorV>(
                views_of(v@),
            ) && all_category_ok(views_of(v@)),
            Err(e) => collect(item_views(items@)) == Err::<Seq<FileInfoV>, ScanErrorV>(e@),
        }),
{
    let ghost iv = item_views(items@);
    let mut rest = items;
    let mut done: Vec<FileInfo> = Vec::new();
    let ghost mut i: int = 0;
    proof {
        assert(item_views(rest@) =~= iv.skip(0));
        assert(views_of(done@) =~= Seq::<FileInfoV>::empty());
    }
    while rest.len() > 0
        invariant
            0 <= i,
            i + rest.len() == iv.len(),
            item_views(rest@) == iv.skip(i),
            collect(iv) == collect_from(iv, views_of(done@), i),
            all_category_ok(views_of(done@)),
        decreases rest.len(),
    {
        let ghost prevv = rest@;
        let item = rest.remove(0);
        proof {
            assert(item@ == item_views(prevv)[0]);
            assert(item@ == iv.skip(i)[0]);
            assert(item_views(rest@) =~= item_views(prevv).drop_first());
            assert(item_views(prevv).drop_first() =~= iv.skip(i + 1));
            assert(iv.skip(i).drop_first() =~= iv.skip(i + 1));
        }
        match item {
            RawItem::Failed(cause) => {
                proof {
                    assert(collect(iv.skip(i)) == Err::<Seq<FileInfoV>, ScanErrorV>(
                        ScanErrorV::ReadEntryFailed(cause@),
                    ));
                }
                return Err(ScanError::ReadEntryFailed(cause));
            },
            RawItem::Entry(entry) => {
                let RawEntry { name, path, meta } = entry;
                match meta {
                    MetaOutcome::Unavailable => {
                        proof {
                            assert(collect(iv.skip(i)) == collect(iv.skip(i + 1)));
                            i = i + 1;
                        }
                    },
                    MetaOutcome::Available { size, is_directory, modified } => {
                        match modified {
                            TimeOutcome::Unavailable(cause) => {
                                proof {
                                    assert(collect(iv.skip(i)) == Err::<
                                        Seq<FileInfoV>,
                                        ScanErrorV,
                                    >(ScanErrorV::TimestampUnavailable(cause@)));
                                }
                                return Err(ScanError::TimestampUnavailable(cause));
                            },
                            TimeOutcome::At(ts) => {
                                let ghost dv = views_of(done@);
                                let ghost head = spec_info(name@, path@, size, is_directory, ts);
                                let info = build_info(name, path, size, is_directory, ts);
                                done.push(info);
                                proof {
                                    assert(views_of(done@) =~= dv + seq![head]);
                                    match collect(iv.skip(i + 1)) {
                                        Ok(tail) => {
                                            assert(collect(iv.skip(i)) == Ok::<
                                                Seq<FileInfoV>,
                                                ScanErrorV,
                                            >(seq![head] + tail));
                                            assert((dv + seq![head]) + tail =~= dv + (
                                            seq![head] + tail));
                                        },
                                        Err(_) => {},
                                    }
                                    assert(all_category_ok(views_of(done@)));
                                    i = i + 1;
                                }
                            },
                        }
                    },
                }
            },
        }
    }
    proof {
        assert(iv.skip(iv.len() as int) =~= Seq::<RawItemV>::empty());
        assert(collect(iv.skip(iv.len() as int)) == Ok::<Seq<FileInfoV>, ScanErrorV>(
            Seq::empty(),
        ));
        assert(views_of(done@) + Seq::<FileInfoV>::empty() =~= views_of(done@));
    }
    Ok(done)
}

/// Sums the entry sizes, watching for 64-bit overflow.
#[verifier::loop_isolation(false)]
fn sum_entries(entries: &Vec<FileInfo>) -> (r: Option<u64>)
    ensures
        (match r {
            Some(t) => t == sum_sizes(views_of(entries@)),
            None => sum_sizes(views_of(entries@)) > u64::MAX,
        }),
{
    let ghost ev = views_of(entries@);
    let mut total: u64 = 0;
    let mut i: usize = 0;
    proof {
        assert(ev.take(0) =~= Seq::<FileInfoV>::empty());
    }
    while i < entries.len()
        invariant
            i <= entries.len(),
            entries@.len() == ev.len(),
            total == sum_sizes(ev.take(i as int)),
        decreases entries.len() - i,
    {
        proof {
            assert(ev.take(i + 1) =~= ev.take(i as int) + seq![ev[i as int]]);
            lemma_sum_append(ev.take(i as int), seq![ev[i as int]]);
            lemma_sum_singleton(ev[i as int]);
            assert(sum_sizes(ev.take(i + 1)) == total + ev[i as int].size);
        }
        match total.checked_add(entries[i].size) {
            Some(t) => {
                total = t;
            },
            None => {
                proof {
                    assert(sum_sizes(ev.take(i + 1)) > u64::MAX);
                    assert(ev =~= ev.take(i + 1) + ev.skip(i + 1));
                    lemma_sum_append(ev.take(i + 1), ev.skip(i + 1));
                    lemma_sum_nonneg(ev.skip(i + 1));
                }
                return None;
            },
        }
        i = i + 1;
    }
    proof {
        assert(ev.take(ev.len() as int) =~= ev);
    }
    Some(total)
}

/// Scans a probed listing, reporting whether the size total fits the
/// 64-bit counter: `None` exactly when the scanned sizes overflow it,
/// otherwise the scan's outcome.
pub fn try_scan(probe: Listing) -> (r: Option<Result<ScanResult, ScanError>>)
    ensures
        r is Some <==> sum_fits(probe@),
        (match r {
            Some(res) => outcome_view(res) == scan_spec(probe@),
            None => true,
        }),
        (match r {
            Some(Ok(sr)) => all_category_ok(sr@.files),
            _ => true,
        }),
{
    match probe {
        Listing::Missing => Some(Err(ScanError::NotFound)),
        Listing::NotDirectory => Some(Err(ScanError::NotADirectory)),
        Listing::ListFailed(cause) => Some(Err(ScanError::ReadDirectoryFailed(cause))),
        Listing::Entries(items) => {
            let ghost iv = item_views(items@);
            match collect_entries(items) {
                Err(e) => Some(Err(e)),
                Ok(entries) => {
                    let ghost ev = views_of(entries@);
                    match sum_entries(&entries) {
                        None => None,
                        Some(total) => {
                            let count = entries.len();
                            let sorted = sort_entries(entries);
                            proof {
                                lemma_insort(ev);
                                assert forall|k: int|
                                    0 <= k < views_of(sorted@).len() implies category_ok(
                                    #[trigger] views_of(sorted@)[k],
                                ) by {
                                    let x = views_of(sorted@)[k];
                                    assert(insort(ev).contains(x));
                                    assert(ev.contains(x));
                                    let m = choose|m: int| 0 <= m < ev.len() && ev[m] == x;
                                    assert(category_ok(ev[m]));
                                }
                            }
                            let sr = ScanResult { files: sorted, total_count: count, total_size: total };
                            proof {
                                assert(sr@ =~= ScanResultV {
                                    files: insort(ev),
                                    total_count: ev.len(),
                                    total_size: sum_sizes(ev),
                                });
                            }
                            Some(Ok(sr))
                        },
                    }
                },
            }
        },
    }
}

/// Scans a probed listing whose size total is known to fit.
pub fn scan(probe: Listing) -> (r: Result<ScanResult, ScanError>)
    requires
        sum_fits(probe@),
    ensures
        outcome_view(r) == scan_spec(probe@),
        (match r {
            Ok(sr) => all_category_ok(sr@.files),
            Err(_) => true,
        }),
{
    match try_scan(probe) {
        Some(res) => res,
        None => vstd::pervasive::unreached(),
    }
}

// ---------------------------------------------------------------------
// Laws of the scan.

/// The reported count is the number of entries in the result.
pub proof fn lemma_scan_count(probe: ListingV, sr: ScanResultV)
    requires
        scan_spec(probe) == Ok::<ScanResultV, ScanErrorV>(sr),
    ensures
        sr.total_count == sr.files.len(),
{
    match probe {
        ListingV::Entries(items) => match collect(items) {
            Ok(entries) => {
                lemma_insort(entries);
            },
            Err(_) => {},
        },
        _ => {},
    }
}

/// The reported total size is the sum of the sizes of the entries in the
/// result.
pub proof fn lemma_scan_sum(probe: ListingV, sr: ScanResultV)
    requires
        scan_spec(probe) == Ok::<ScanResultV, ScanErrorV>(sr),
    ensures
        sr.total_size == sum_sizes(sr.files),
{
    match probe {
        ListingV::Entries(items) => match collect(items) {
            Ok(entries) => {
                lemma_sum_insort(entries);
            },
            Err(_) => {},
        },
        _ => {},
    }
}

/// The entries of a result are sorted ascending by case-insensitive name.
pub proof fn lemma_scan_sorted(probe: ListingV, sr: ScanResultV)
    requires
        scan_spec(probe) == Ok::<ScanResultV, ScanErrorV>(sr),
    ensures
        sorted_ci(sr.files),
{
    match probe {
        ListingV::Entries(items) => match collect(items) {
            Ok(entries) => {
                lemma_insort(entries);
            },
            Err(_) => {},
        },
        _ => {},
    }
}

/// The entries of a result keep exactly the scanned contents: sorting
/// reorders, never drops, duplicates or edits.
pub proof fn lemma_scan_permutes(items: Seq<RawItemV>, sr: ScanResultV)
    requires
        scan_spec(ListingV::Entries(items)) == Ok::<ScanResultV, ScanErrorV>(sr),
    ensures
        collect(items) matches Ok(entries) && sr.files.to_multiset() == entries.to_multiset(),
{
    match collect(items) {
        Ok(entries) => {
            lemma_insort(entries);
        },
        Err(_) => {},
    }
}

/// Every entry of a result is classified from its own name and kind: a
/// directory's category is "Directory", and a file's category equals its
/// extension whenever it has one.
pub proof fn lemma_scan_classified(probe: ListingV, sr: ScanResultV, k: int)
    requires
        scan_spec(probe) == Ok::<ScanResultV, ScanErrorV>(sr),
        0 <= k < sr.files.len(),
    ensures
        entry_wf(sr.files[k]),
        sr.files[k].is_directory ==> sr.files[k].file_type == "Directory"@,
        sr.files[k].extension matches Some(e) ==> (!sr.files[k].is_directory
            ==> sr.files[k].file_type == e),
{
    match probe {
        ListingV::Entries(items) => match collect(items) {
            Ok(entries) => {
                lemma_insort(entries);
                lemma_collect_wf(items);
                let x = sr.files[k];
                assert(insort(entries).contains(x));
                assert(entries.contains(x));
                let m = choose|m: int| 0 <= m < entries.len() && entries[m] == x;
                assert(entry_wf(entries[m]));
            },
            Err(_) => {},
        },
        _ => {},
    }
}

/// Scanning the same listing twice yields the very same outcome: the
/// scan is a function of the listing alone.
pub proof fn lemma_scan_deterministic(
    probe1: ListingV,
    probe2: ListingV,
    r1: Result<ScanResultV, ScanErrorV>,
    r2: Result<ScanResultV, ScanErrorV>,
)
    requires
        probe1 == probe2,
        r1 == scan_spec(probe1),
        r2 == scan_spec(probe2),
    ensures
        r1 == r2,
{
}

} // verus!
