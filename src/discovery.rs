//! Which scanned files are kept for review, and in what order.
use vstd::prelude::*;
use crate::domain::{lower_of, lowercase, DiscoveryOptions, FileEntry, FileType, SortBy};
use crate::text::chars_of;

verus! {

pub open spec fn is_hidden_name(name: Seq<char>) -> bool {
    name.len() > 0 && name[0] == '.'
}

/// Whether the options keep file `e`: visible (or hidden files shown), of
/// a wanted type, and within the size limits.
pub open spec fn selected(o: DiscoveryOptions, e: FileEntry) -> bool {
    &&& (o.show_hidden || !is_hidden_name(e.name@))
    &&& (match o.file_types {
        Some(ts) => ts@.contains(e.file_type),
        None => true,
    })
    &&& (match o.min_size {
        Some(m) => e.size >= m,
        None => true,
    })
    &&& (match o.max_size {
        Some(m) => e.size <= m,
        None => true,
    })
}

/// The files of `s` that the options keep, in their order.
pub open spec fn selected_files(o: DiscoveryOptions, s: Seq<FileEntry>) -> Seq<FileEntry>
    decreases s.len(),
{
    if s.len() == 0 {
        Seq::empty()
    } else {
        let prev = selected_files(o, s.drop_last());
        if selected(o, s.last()) {
            prev.push(s.last())
        } else {
            prev
        }
    }
}

pub open spec fn type_rank(t: FileType) -> i128 {
    match t {
        FileType::Text => 0,
        FileType::Image => 1,
        FileType::Pdf => 2,
        FileType::Binary => 3,
    }
}

/// The key a file is sorted by, compared lexicographically: the
/// modification time, the code points of the lowercased name, the size, or
/// the rank of the type (text, image, PDF, other).
pub open spec fn sort_key(by: SortBy, e: FileEntry) -> Seq<i128> {
    match by {
        SortBy::Date => seq![e.modified_date.secs as i128, e.modified_date.nanos as i128],
        SortBy::Name => lower_of(e.name@).map_values(|c: char| (c as u32) as i128),
        SortBy::Size => seq![e.size as i128],
        SortBy::Type => seq![type_rank(e.file_type)],
    }
}

/// Lexicographic order, a proper prefix first.
pub open spec fn lex_le(a: Seq<i128>, b: Seq<i128>) -> bool
    decreases a.len(),
{
    if a.len() == 0 {
        true
    } else if b.len() == 0 {
        false
    } else if a[0] != b[0] {
        a[0] < b[0]
    } else {
        lex_le(a.skip(1), b.skip(1))
    }
}

proof fn lemma_lex_refl(a: Seq<i128>)
    ensures
        lex_le(a, a),
    decreases a.len(),
{
    if a.len() > 0 {
        lemma_lex_refl(a.skip(1));
    }
}

proof fn lemma_lex_total(a: Seq<i128>, b: Seq<i128>)
    ensures
        lex_le(a, b) || lex_le(b, a),
    decreases a.len(),
{
    if a.len() > 0 && b.len() > 0 && a[0] == b[0] {
        lemma_lex_total(a.skip(1), b.skip(1));
    }
}

proof fn lemma_lex_trans(a: Seq<i128>, b: Seq<i128>, c: Seq<i128>)
    requires
        lex_le(a, b),
        lex_le(b, c),
    ensures
        lex_le(a, c),
    decreases a.len(),
{
    if a.len() > 0 && b.len() > 0 && c.len() > 0 && a[0] == b[0] && b[0] == c[0] {
        lemma_lex_trans(a.skip(1), b.skip(1), c.skip(1));
    }
}

/// `s` is the stable sort of `f` by key: `perm` maps each position of `s`
/// to a distinct position of `f` holding the same file, keys never decrease
/// along `s`, and files with equal keys keep their order from `f`.
pub open spec fn stable_sort_of(by: SortBy, f: Seq<FileEntry>, s: Seq<FileEntry>, perm: Seq<int>) -> bool {
    &&& s.len() == f.len()
    &&& perm.len() == f.len()
    &&& perm.no_duplicates()
    &&& forall|k: int| 0 <= k < perm.len() ==> 0 <= #[trigger] perm[k] < f.len()
    &&& forall|k: int| 0 <= k < s.len() ==> #[trigger] s[k] == f[perm[k]]
    &&& forall|a: int, b: int| 0 <= a < b < s.len() ==> lex_le(sort_key(by, #[trigger] s[a]), sort_key(by, #[trigger] s[b]))
    &&& forall|a: int, b: int| 0 <= a < b < s.len() && sort_key(by, #[trigger] s[a]) == sort_key(by, #[trigger] s[b]) ==> perm[a] < perm[b]
}

/// `s` is the stable sort of `f` by key.
pub open spec fn is_stable_sort(by: SortBy, f: Seq<FileEntry>, s: Seq<FileEntry>) -> bool {
    exists|perm: Seq<int>| #[trigger] stable_sort_of(by, f, s, perm)
}

/// `r` is what a scan that found `files` presents under options `o`.
pub open spec fn is_arrangement(o: DiscoveryOptions, files: Seq<FileEntry>, r: Seq<FileEntry>) -> bool {
    is_stable_sort(o.sort_by, selected_files(o, files), if o.reverse { r.reverse() } else { r })
}

fn contains_type(ts: &Vec<FileType>, t: FileType) -> (r: bool)
    ensures
        r == ts@.contains(t),
{
    let mut i: usize = 0;
    while i < ts.len()
        invariant
            i <= ts@.len(),
            forall|j: int| 0 <= j < i ==> ts@[j] != t,
        decreases ts@.len() - i,
    {
        if ts[i] == t {
            assert(ts@[i as int] == t);
            return true;
        }
        i = i + 1;
    }
    false
}

/// Whether the options keep file `e`.
pub fn selects(o: &DiscoveryOptions, e: &FileEntry) -> (r: bool)
    ensures
        r == selected(*o, *e),
{
    if !o.show_hidden {
        let name = chars_of(e.name.as_str());
        if name.len() > 0 && name[0] == '.' {
            return false;
        }
    }
    if let Some(ts) = &o.file_types {
        if !contains_type(ts, e.file_type) {
            return false;
        }
    }
    if let Some(m) = o.min_size {
        if e.size < m {
            return false;
        }
    }
    if let Some(m) = o.max_size {
        if e.size > m {
            return false;
        }
    }
    true
}

fn key_of(by: SortBy, e: &FileEntry) -> (r: Vec<i128>)
    ensures
        r@ == sort_key(by, *e),
{
    match by {
        SortBy::Date => vec![e.modified_date.secs as i128, e.modified_date.nanos as i128],
        SortBy::Size => vec![e.size as i128],
        SortBy::Type => {
            let rank: i128 = match e.file_type {
                FileType::Text => 0,
                FileType::Image => 1,
                FileType::Pdf => 2,
                FileType::Binary => 3,
            };
            vec![rank]
        },
        SortBy::Name => {
            let lowered = lowercase(e.name.as_str());
            let cs = chars_of(lowered.as_str());
            let mut out: Vec<i128> = Vec::new();
            let mut i: usize = 0;
            while i < cs.len()
                invariant
                    i <= cs@.len(),
                    out@ == cs@.subrange(0, i as int).map_values(|c: char| (c as u32) as i128),
                decreases cs@.len() - i,
            {
                out.push((cs[i] as u32) as i128);
                assert(cs@.subrange(0, i + 1).map_values(|c: char| (c as u32) as i128)
                    =~= cs@.subrange(0, i as int).map_values(|c: char| (c as u32) as i128).push((cs@[i as int] as u32) as i128));
                i = i + 1;
            }
            assert(cs@.subrange(0, cs@.len() as int) == cs@);
            out
        },
    }
}

fn key_le(a: &Vec<i128>, b: &Vec<i128>) -> (r: bool)
    ensures
        r == lex_le(a@, b@),
{
    let mut i: usize = 0;
    assert(a@.skip(0) =~= a@);
    assert(b@.skip(0) =~= b@);
    while i < a.len() && i < b.len()
        invariant
            i <= a@.len(),
            i <= b@.len(),
            lex_le(a@, b@) == lex_le(a@.skip(i as int), b@.skip(i as int)),
        decreases a@.len() - i,
    {
        if a[i] != b[i] {
            return a[i] < b[i];
        }
        assert(a@.skip(i as int).skip(1) =~= a@.skip(i + 1));
        assert(b@.skip(i as int).skip(1) =~= b@.skip(i + 1));
        i = i + 1;
    }
    i == a.len()
}

/// The same files in the opposite order.
fn reversed(v: Vec<FileEntry>) -> (r: Vec<FileEntry>)
    ensures
        r@ == v@.reverse(),
{
    let ghost orig = v@;
    let n = v.len();
    let mut src = v;
    let mut out: Vec<FileEntry> = Vec::new();
    while src.len() > 0
        invariant
            src@.len() + out@.len() == n,
            n == orig.len(),
            src@ == orig.subrange(0, src@.len() as int),
            forall|k: int| 0 <= k < out@.len() ==> #[trigger] out@[k] == orig[n - 1 - k],
        decreases src@.len(),
    {
        let e = src.pop().unwrap();
        out.push(e);
    }
    assert(out@ =~= orig.reverse());
    out
}

proof fn lemma_reverse_twice(s: Seq<FileEntry>)
    ensures
        s.reverse().reverse() == s,
{
    assert(s.reverse().reverse() =~= s);
}

/// The files of `files` that `options` keep, in their order.
pub fn keep_selected(files: Vec<FileEntry>, options: &DiscoveryOptions) -> (r: Vec<FileEntry>)
    ensures
        r@ == selected_files(*options, files@),
{
    let ghost orig = files@;
    let n = files.len();
    let mut pending = reversed(files);
    let mut kept: Vec<FileEntry> = Vec::new();
    while pending.len() > 0
        invariant
            n == orig.len(),
            pending@.len() <= n,
            forall|k: int| 0 <= k < pending@.len() ==> #[trigger] pending@[k] == orig[n - 1 - k],
            kept@ == selected_files(*options, orig.subrange(0, n - pending@.len())),
        decreases pending@.len(),
    {
        let ghost done = n - pending@.len();
        let e = pending.pop().unwrap();
        assert(e == orig[done]);
        assert(orig.subrange(0, done + 1).drop_last() =~= orig.subrange(0, done));
        if selects(options, &e) {
            kept.push(e);
        }
    }
    assert(orig.subrange(0, n as int) =~= orig);
    kept
}

/// Sorts `f` by key, keeping files with equal keys in their order.
pub fn stable_sort(f: Vec<FileEntry>, by: SortBy) -> (r: Vec<FileEntry>)
    ensures
        is_stable_sort(by, f@, r@),
{
    let ghost orig = f@;
    let n = f.len();
    let mut pending = reversed(f);
    let mut out: Vec<FileEntry> = Vec::new();
    let mut keys: Vec<Vec<i128>> = Vec::new();
    let ghost mut perm: Seq<int> = Seq::empty();
    while pending.len() > 0
        invariant
            n == orig.len(),
            pending@.len() <= n,
            forall|k: int| 0 <= k < pending@.len() ==> #[trigger] pending@[k] == orig[n - 1 - k],
            out@.len() == n - pending@.len(),
            keys@.len() == out@.len(),
            forall|k: int| 0 <= k < keys@.len() ==> #[trigger] keys@[k]@ == sort_key(by, out@[k]),
            perm.len() == out@.len(),
            perm.no_duplicates(),
            forall|k: int| 0 <= k < perm.len() ==> 0 <= #[trigger] perm[k] < out@.len(),
            forall|k: int| 0 <= k < out@.len() ==> #[trigger] out@[k] == orig[perm[k]],
            forall|a: int, b: int| 0 <= a < b < out@.len() ==> lex_le(sort_key(by, #[trigger] out@[a]), sort_key(by, #[trigger] out@[b])),
            forall|a: int, b: int| 0 <= a < b < out@.len() && sort_key(by, #[trigger] out@[a]) == sort_key(by, #[trigger] out@[b]) ==> perm[a] < perm[b],
        decreases pending@.len(),
    {
        let ghost i = out@.len() as int;
        assert(i < n);
        let e = pending.pop().unwrap();
        assert(e == orig[i]);
        let ke = key_of(by, &e);
        let mut j = out.len();
        while j > 0 && !key_le(&keys[j - 1], &ke)
            invariant
                j <= out@.len(),
                keys@.len() == out@.len(),
                forall|k: int| j <= k < out@.len() ==> !lex_le(#[trigger] keys@[k]@, ke@),
            decreases j,
        {
            j = j - 1;
        }
        let ghost old_out = out@;
        let ghost old_perm = perm;
        proof {
            // every file before the gap sorts at or below the new one
            assert forall|a: int| 0 <= a < j implies lex_le(sort_key(by, #[trigger] old_out[a]), ke@) by {
                assert(keys@[j - 1]@ == sort_key(by, old_out[j - 1]));
                if a < j - 1 {
                    lemma_lex_trans(sort_key(by, old_out[a]), sort_key(by, old_out[j - 1]), ke@);
                }
            }
            // every file after the gap sorts strictly above it
            assert forall|b: int| j <= b < old_out.len() implies lex_le(ke@, sort_key(by, #[trigger] old_out[b]))
                && sort_key(by, old_out[b]) != ke@ && !lex_le(sort_key(by, old_out[b]), ke@) by {
                assert(keys@[b]@ == sort_key(by, old_out[b]));
                lemma_lex_total(ke@, sort_key(by, old_out[b]));
                lemma_lex_refl(ke@);
            }
            perm = old_perm.insert(j as int, i);
            assert forall|a: int, b: int| 0 <= a < perm.len() && 0 <= b < perm.len() && a != b implies perm[a] != perm[b] by {
                if a != j && b != j {
                    let a0 = if a < j { a } else { a - 1 };
                    let b0 = if b < j { b } else { b - 1 };
                    assert(old_perm[a0] != old_perm[b0]);
                } else if a == j {
                    let b0 = if b < j { b } else { b - 1 };
                    assert(old_perm[b0] < i);
                } else {
                    let a0 = if a < j { a } else { a - 1 };
                    assert(old_perm[a0] < i);
                }
            }
        }
        out.insert(j, e);
        keys.insert(j, ke);
        proof {
            let no = out@;
            assert forall|k: int| 0 <= k < no.len() implies #[trigger] no[k] == orig[perm[k]] by {
                if k < j {
                    assert(no[k] == old_out[k]);
                } else if k > j {
                    assert(no[k] == old_out[k - 1]);
                }
            }
            assert forall|a: int, b: int| 0 <= a < b < no.len() implies lex_le(sort_key(by, #[trigger] no[a]), sort_key(by, #[trigger] no[b])) by {
                if b < j {
                    assert(no[a] == old_out[a] && no[b] == old_out[b]);
                } else if b == j {
                    assert(no[a] == old_out[a]);
                } else if a == j {
                    assert(no[b] == old_out[b - 1]);
                } else if a < j {
                    assert(no[a] == old_out[a] && no[b] == old_out[b - 1]);
                    lemma_lex_trans(sort_key(by, old_out[a]), ke@, sort_key(by, old_out[b - 1]));
                } else {
                    assert(no[a] == old_out[a - 1] && no[b] == old_out[b - 1]);
                }
            }
            assert forall|a: int, b: int| 0 <= a < b < no.len() && sort_key(by, #[trigger] no[a]) == sort_key(by, #[trigger] no[b]) implies perm[a] < perm[b] by {
                if b < j {
                    assert(no[a] == old_out[a] && no[b] == old_out[b]);
                } else if b == j {
                    assert(no[a] == old_out[a]);
                    assert(old_perm[a] < i);
                } else if a == j {
                    assert(no[b] == old_out[b - 1]);
                } else if a < j {
                    assert(no[a] == old_out[a] && no[b] == old_out[b - 1]);
                    assert(lex_le(sort_key(by, old_out[b - 1]), ke@));
                } else {
                    assert(no[a] == old_out[a - 1] && no[b] == old_out[b - 1]);
                }
            }
        }
    }
    assert(stable_sort_of(by, orig, out@, perm));
    out
}

/// The files of `files` that `options` keep, stably sorted by the chosen
/// key, then reversed if asked.
pub fn arrange_files(files: Vec<FileEntry>, options: &DiscoveryOptions) -> (r: Vec<FileEntry>)
    ensures
        is_arrangement(*options, files@, r@),
{
    let kept = keep_selected(files, options);
    let sorted = stable_sort(kept, options.sort_by);
    if options.reverse {
        let r = reversed(sorted);
        proof {
            lemma_reverse_twice(sorted@);
        }
        r
    } else {
        sorted
    }
}

} // verus!
