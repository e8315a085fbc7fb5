//! Recency listing: from observed directory entries to a newest-first list.
//!
//! The caller enumerates the target directory and records, for each entry,
//! its path and what the metadata reads showed. The functions here keep the
//! regular files whose creation time could be read, sort them by creation
//! time descending, and report one diagnostic per skipped entry.

use vstd::prelude::*;
use vstd::seq_lib::lemma_multiset_commutative;

verus! {

/// What the per-entry metadata reads showed for one directory entry.
#[derive(Clone, Debug)]
pub enum EntryInfo {
    /// The metadata read itself failed.
    MetadataUnreadable,
    /// Metadata was read and the entry is not a regular file.
    NotRegularFile,
    /// The entry is a regular file but its creation time could not be read.
    CreationUnreadable,
    /// The entry is a regular file created at this time
    /// (nanoseconds of the filesystem's creation timestamp).
    RegularFile { created: u128 },
}

/// One raw directory entry, as the caller observed it.
#[derive(Clone, Debug)]
pub struct RawEntry {
    pub path: String,
    pub info: EntryInfo,
}

/// One qualifying file: a regular file whose creation time was read.
#[derive(Clone, Debug)]
pub struct Entry {
    pub created: u128,
    pub path: String,
}

/// Why an entry was skipped; each skipped entry yields one diagnostic.
#[derive(Clone, Copy, Debug, PartialEq, Eq, Structural)]
pub enum SkipReason {
    /// Its metadata could not be read.
    MetadataUnreadable,
    /// It is a regular file whose creation time could not be read.
    CreationUnreadable,
}

/// A diagnostic record for one skipped entry.
#[derive(Clone, Debug)]
pub struct Skip {
    pub reason: SkipReason,
    pub path: String,
}

/// The qualifying files contributed by one raw entry: one for a regular
/// file with a readable creation time, none otherwise.
pub open spec fn kept_of(r: RawEntry) -> Seq<Entry> {
    match r.info {
        EntryInfo::RegularFile { created } => seq![Entry { created, path: r.path }],
        _ => Seq::empty(),
    }
}

/// All qualifying files of a directory listing, in enumeration order.
pub open spec fn kept_seq(s: Seq<RawEntry>) -> Seq<Entry>
    decreases s.len(),
{
    if s.len() == 0 {
        Seq::empty()
    } else {
        kept_seq(s.drop_last()) + kept_of(s.last())
    }
}

/// The diagnostics contributed by one raw entry: one for a failed metadata
/// or creation-time read, none otherwise (non-regular files skip silently).
pub open spec fn skip_of(r: RawEntry) -> Seq<Skip> {
    match r.info {
        EntryInfo::MetadataUnreadable => seq![
            Skip { reason: SkipReason::MetadataUnreadable, path: r.path },
        ],
        EntryInfo::CreationUnreadable => seq![
            Skip { reason: SkipReason::CreationUnreadable, path: r.path },
        ],
        _ => Seq::empty(),
    }
}

/// All diagnostics of a directory listing, in enumeration order.
pub open spec fn skips_seq(s: Seq<RawEntry>) -> Seq<Skip>
    decreases s.len(),
{
    if s.len() == 0 {
        Seq::empty()
    } else {
        skips_seq(s.drop_last()) + skip_of(s.last())
    }
}

/// Creation times are non-increasing: newest first.
pub open spec fn sorted_desc(s: Seq<Entry>) -> bool {
    forall|i: int, j: int| 0 <= i < j < s.len() ==> s[i].created >= s[j].created
}

/// Inserting an element anywhere in a sequence inserts it into the
/// sequence's multiset.
proof fn lemma_to_multiset_insert<A>(s: Seq<A>, i: int, a: A)
    requires
        0 <= i <= s.len(),
    ensures
        s.insert(i, a).to_multiset() == s.to_multiset().insert(a),
{
    broadcast use vstd::seq_lib::group_to_multiset_ensures;
    broadcast use vstd::multiset::group_multiset_axioms;

    let s1 = s.subrange(0, i);
    let s2 = s.subrange(i, s.len() as int);
    lemma_multiset_commutative(s1.push(a), s2);
    lemma_multiset_commutative(s1, s2);
    assert(s =~= s1 + s2);
    assert(s.insert(i, a).to_multiset() =~= s.to_multiset().insert(a));
}

/// The first position whose entry was created strictly earlier than
/// `created`; the length when there is none.
fn insert_pos(out: &Vec<Entry>, created: u128) -> (p: usize)
    requires
        sorted_desc(out@),
    ensures
        p <= out@.len(),
        forall|k: int| 0 <= k < p ==> out@[k].created >= created,
        p < out@.len() ==> out@[p as int].created < created,
{
    let mut p: usize = 0;
    while p < out.len()
        invariant
            p <= out@.len(),
            forall|k: int| 0 <= k < p ==> out@[k].created >= created,
        decreases out@.len() - p,
    {
        if out[p].created < created {
            return p;
        }
        p = p + 1;
    }
    p
}

/// Insert one qualifying file into a newest-first list, keeping it sorted.
/// An entry is placed after every entry at least as new, so equal creation
/// times keep their insertion order.
fn insert_sorted(out: &mut Vec<Entry>, e: Entry)
    requires
        sorted_desc(old(out)@),
    ensures
        sorted_desc(final(out)@),
        final(out)@.to_multiset() == old(out)@.to_multiset().insert(e),
        final(out)@.len() == old(out)@.len() + 1,
{
    broadcast use vstd::seq_lib::group_to_multiset_ensures;

    let p: usize = insert_pos(out, e.created);
    let ghost s0 = out@;
    proof {
        lemma_to_multiset_insert(s0, p as int, e);
        s0.insert_ensures(p as int, e);
    }
    out.insert(p, e);
    proof {
        assert forall|i: int, j: int| 0 <= i < j < out@.len() implies out@[i].created
            >= out@[j].created by {
            if j < p {
            } else if i < p && j == p {
            } else if i == p {
                assert(out@[j] == s0[j - 1]);
                assert(s0[j - 1].created <= s0[p as int].created);
            } else if i < p {
                assert(out@[j] == s0[j - 1]);
                assert(s0[j - 1].created >= e.created || s0[j - 1].created < e.created);
            } else {
                assert(out@[i] == s0[i - 1]);
                assert(out@[j] == s0[j - 1]);
            }
        }
    }
}

/// List the qualifying files of a directory, newest first.
///
/// The first component holds exactly the regular files whose creation time
/// was read (as a multiset: ties in creation time carry no fixed order),
/// sorted by creation time descending. The second holds one diagnostic per
/// entry whose metadata or creation-time read failed, in enumeration order;
/// non-regular files are skipped silently. Per-entry failures are never
/// fatal: the listing always covers every other entry.
pub fn find_most_recent_download(entries: Vec<RawEntry>) -> (r: (Vec<Entry>, Vec<Skip>))
    ensures
        sorted_desc(r.0@),
        r.0@.to_multiset() == kept_seq(entries@).to_multiset(),
        r.0@.len() == kept_seq(entries@).len(),
        r.1@ == skips_seq(entries@),
{
    broadcast use vstd::seq_lib::group_to_multiset_ensures;

    let mut out: Vec<Entry> = Vec::new();
    let mut skips: Vec<Skip> = Vec::new();
    let mut i: usize = 0;
    proof {
        assert(entries@.take(0) =~= Seq::<RawEntry>::empty());
        assert(out@ =~= kept_seq(entries@.take(0)));
        assert(skips@ =~= skips_seq(entries@.take(0)));
    }
    while i < entries.len()
        invariant
            i <= entries@.len(),
            sorted_desc(out@),
            out@.to_multiset() == kept_seq(entries@.take(i as int)).to_multiset(),
            out@.len() == kept_seq(entries@.take(i as int)).len(),
            skips@ == skips_seq(entries@.take(i as int)),
        decreases entries@.len() - i,
    {
        let ghost pre = entries@.take(i as int);
        let ghost post = entries@.take(i as int + 1);
        proof {
            assert(post.drop_last() =~= pre);
            assert(post.last() == entries@[i as int]);
            assert(kept_seq(post) == kept_seq(pre) + kept_of(entries@[i as int]));
            assert(skips_seq(post) == skips_seq(pre) + skip_of(entries@[i as int]));
        }
        let re = &entries[i];
        match &re.info {
            EntryInfo::MetadataUnreadable => {
                skips.push(
                    Skip { reason: SkipReason::MetadataUnreadable, path: re.path.clone() },
                );
                proof {
                    assert(skips@ =~= skips_seq(post));
                    assert(kept_seq(post) =~= kept_seq(pre));
                }
            },
            EntryInfo::NotRegularFile => {
                proof {
                    assert(skips_seq(post) =~= skips_seq(pre));
                    assert(kept_seq(post) =~= kept_seq(pre));
                }
            },
            EntryInfo::CreationUnreadable => {
                skips.push(
                    Skip { reason: SkipReason::CreationUnreadable, path: re.path.clone() },
                );
                proof {
                    assert(skips@ =~= skips_seq(post));
                    assert(kept_seq(post) =~= kept_seq(pre));
                }
            },
            EntryInfo::RegularFile { created } => {
                let e = Entry { created: *created, path: re.path.clone() };
                proof {
                    assert(kept_of(entries@[i as int]) =~= seq![e]);
                    assert(kept_seq(post) =~= kept_seq(pre).push(e));
                    vstd::seq_lib::to_multiset_build(kept_seq(pre), e);
                    assert(kept_seq(post).to_multiset() == kept_seq(pre).to_multiset().insert(e));
                    assert(skips_seq(post) =~= skips_seq(pre));
                }
                insert_sorted(&mut out, e);
            },
        }
        i = i + 1;
    }
    proof {
        assert(entries@.take(entries@.len() as int) =~= entries@);
    }
    (out, skips)
}

/// Keep the first `n` entries: all of them when fewer than `n` exist.
/// The result has `min(n, len)` entries, the prefix in unchanged order.
pub fn take_count(downloads: Vec<Entry>, n: usize) -> (r: Vec<Entry>)
    ensures
        r@ == downloads@.take(vstd::math::min(n as int, downloads@.len() as int)),
{
    let ghost orig = downloads@;
    let mut downloads = downloads;
    downloads.truncate(n);
    proof {
        assert(downloads@ =~= orig.take(vstd::math::min(n as int, orig.len() as int)));
    }
    downloads
}

/// Project the paths out of a list of entries, in order.
pub fn paths_of(downloads: Vec<Entry>) -> (r: Vec<String>)
    ensures
        r@.len() == downloads@.len(),
        forall|i: int| 0 <= i < downloads@.len() ==> r@[i] == downloads@[i].path,
{
    let mut r: Vec<String> = Vec::new();
    let mut i: usize = 0;
    while i < downloads.len()
        invariant
            i <= downloads@.len(),
            r@.len() == i,
            forall|k: int| 0 <= k < i ==> r@[k] == downloads@[k].path,
        decreases downloads@.len() - i,
    {
        r.push(downloads[i].path.clone());
        i = i + 1;
    }
    r
}

/// Every qualifying file comes from some raw entry that was a regular file
/// with that creation time and that path.
proof fn lemma_kept_from_raw(entries: Seq<RawEntry>, e: Entry)
    requires
        kept_seq(entries).contains(e),
    ensures
        exists|i: int|
            0 <= i < entries.len() && entries[i].info == (EntryInfo::RegularFile {
                created: e.created,
            }) && entries[i].path == e.path,
    decreases entries.len(),
{
    let prefix = entries.drop_last();
    let k = choose|k: int| 0 <= k < kept_seq(entries).len() && kept_seq(entries)[k] == e;
    if k < kept_seq(prefix).len() {
        assert(kept_seq(prefix)[k] == e);
        assert(kept_seq(prefix).contains(e));
        lemma_kept_from_raw(prefix, e);
        let i = choose|i: int|
            0 <= i < prefix.len() && prefix[i].info == (EntryInfo::RegularFile {
                created: e.created,
            }) && prefix[i].path == e.path;
        assert(entries[i] == prefix[i]);
    } else {
        assert(kept_of(entries.last())[k - kept_seq(prefix).len()] == e);
        assert(entries[entries.len() - 1] == entries.last());
    }
}

/// Non-regular-file entries are never listed: whatever order the result
/// carries, each of its entries stems from a raw entry whose metadata showed
/// a regular file with a readable creation time, with matching path and
/// timestamp; subdirectories and other non-files contribute nothing.
pub proof fn lemma_only_regular_files(entries: Seq<RawEntry>, r: Seq<Entry>)
    requires
        r.to_multiset() == kept_seq(entries).to_multiset(),
    ensures
        forall|k: int| #![trigger r[k]]
            0 <= k < r.len() ==> exists|i: int|
                #![trigger entries[i]]
                0 <= i < entries.len() && entries[i].info == (EntryInfo::RegularFile {
                    created: r[k].created,
                }) && entries[i].path == r[k].path,
{
    broadcast use vstd::seq_lib::group_to_multiset_ensures;

    assert forall|k: int| #![trigger r[k]] 0 <= k < r.len() implies exists|i: int|
        #![trigger entries[i]]
        0 <= i < entries.len() && entries[i].info == (EntryInfo::RegularFile {
            created: r[k].created,
        }) && entries[i].path == r[k].path by {
        assert(r.contains(r[k]));
        assert(kept_seq(entries).to_multiset().count(r[k]) > 0);
        assert(kept_seq(entries).contains(r[k]));
        lemma_kept_from_raw(entries, r[k]);
    }
}

/// A listing that holds no regular file with a readable creation time keeps
/// nothing: the result of scanning such a directory is empty (and scanning
/// is total, so no error arises either).
pub proof fn lemma_no_regular_files_empty(entries: Seq<RawEntry>)
    requires
        forall|i: int| 0 <= i < entries.len() ==> !(#[trigger] entries[i].info is RegularFile),
    ensures
        kept_seq(entries).len() == 0,
    decreases entries.len(),
{
    if entries.len() > 0 {
        let prefix = entries.drop_last();
        assert(forall|i: int| 0 <= i < prefix.len() ==> prefix[i] == entries[i]);
        lemma_no_regular_files_empty(prefix);
        assert(entries.last() == entries[entries.len() - 1]);
    }
}

/// When the qualifying files carry pairwise distinct creation times, any
/// sorted listing of them is strictly descending: no two result entries
/// share a creation time, so newest-first order is strict.
pub proof fn lemma_distinct_times_strictly_descending(entries: Seq<RawEntry>, r: Seq<Entry>)
    requires
        sorted_desc(r),
        r.to_multiset() == kept_seq(entries).to_multiset(),
        forall|a: int, b: int|
            0 <= a < kept_seq(entries).len() && 0 <= b < kept_seq(entries).len() && a != b
                ==> kept_seq(entries)[a].created != kept_seq(entries)[b].created,
    ensures
        forall|i: int, j: int| 0 <= i < j < r.len() ==> r[i].created > r[j].created,
{
    broadcast use vstd::seq_lib::group_to_multiset_ensures;

    let kept = kept_seq(entries);
    assert(kept.no_duplicates()) by {
        assert forall|a: int, b: int|
            0 <= a < kept.len() && 0 <= b < kept.len() && a != b implies kept[a] != kept[b] by {
            assert(kept[a].created != kept[b].created);
        }
    }
    kept.lemma_multiset_has_no_duplicates();
    r.lemma_multiset_has_no_duplicates_conv();
    assert forall|i: int, j: int| 0 <= i < j < r.len() implies r[i].created > r[j].created by {
        if r[i].created == r[j].created {
            assert(r[i] != r[j]);
            assert(r.contains(r[i]));
            assert(r.contains(r[j]));
            assert(kept.to_multiset().count(r[i]) > 0);
            assert(kept.to_multiset().count(r[j]) > 0);
            assert(kept.contains(r[i]));
            assert(kept.contains(r[j]));
            let a = choose|a: int| 0 <= a < kept.len() && kept[a] == r[i];
            let b = choose|b: int| 0 <= b < kept.len() && kept[b] == r[j];
            assert(a != b);
            assert(kept[a].created == kept[b].created);
        }
    }
}

/// The diagnostic line owed for one skipped entry.
pub open spec fn spec_message(reason: SkipReason, path: Seq<char>) -> Seq<char> {
    match reason {
        SkipReason::MetadataUnreadable => "couldn't read file metadata of "@ + path
            + "; skipping"@,
        SkipReason::CreationUnreadable => "couldn't read creation time of "@ + path
            + "; skipping"@,
    }
}

impl Skip {
    /// Render this diagnostic as the line the caller reports: it names the
    /// failed read and quotes the skipped entry's path.
    pub fn message(&self) -> (r: String)
        ensures
            r@ == spec_message(self.reason, self.path@),
    {
        let mut r = String::new();
        match self.reason {
            SkipReason::MetadataUnreadable => r.append("couldn't read file metadata of "),
            SkipReason::CreationUnreadable => r.append("couldn't read creation time of "),
        }
        r.append(self.path.as_str());
        r.append("; skipping");
        r
    }
}

} // verus!
