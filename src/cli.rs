//! Command-line options of the triage tool: their values, the parsing of size
//! limits such as "5MB", and their validation.
use vstd::prelude::*;
use vstd::arithmetic::div_mod::{lemma_div_denominator, lemma_hoist_over_denominator};
use crate::domain::FileType;
use crate::text::{chars_of, owned};

verus! {

/// File types a user can ask to review.
#[derive(Debug, Clone, Copy, PartialEq, Eq, Structural)]
pub enum FileTypeFilter {
    Text,
    Image,
    Pdf,
    Binary,
}

pub open spec fn filter_type(f: FileTypeFilter) -> FileType {
    match f {
        FileTypeFilter::Text => FileType::Text,
        FileTypeFilter::Image => FileType::Image,
        FileTypeFilter::Pdf => FileType::Pdf,
        FileTypeFilter::Binary => FileType::Binary,
    }
}

impl From<FileTypeFilter> for FileType {
    fn from(filter: FileTypeFilter) -> (r: FileType) {
        match filter {
            FileTypeFilter::Text => FileType::Text,
            FileTypeFilter::Image => FileType::Image,
            FileTypeFilter::Pdf => FileType::Pdf,
            FileTypeFilter::Binary => FileType::Binary,
        }
    }
}

impl vstd::std_specs::convert::FromSpecImpl<FileTypeFilter> for FileType {
    open spec fn obeys_from_spec() -> bool {
        true
    }

    open spec fn from_spec(v: FileTypeFilter) -> FileType {
        filter_type(v)
    }
}

/// Order in which files are presented.
#[derive(Debug, Clone, Copy, PartialEq, Eq, Structural)]
pub enum SortOrder {
    /// By modification date, oldest first.
    Date,
    /// By file name.
    Name,
    /// By size, smallest first.
    Size,
    /// By file type.
    Type,
}

impl Default for SortOrder {
    fn default() -> (r: SortOrder)
        ensures
            r == SortOrder::Date,
    {
        SortOrder::Date
    }
}

/// What `str::to_uppercase` makes of a string.
pub uninterp spec fn upper_of(s: Seq<char>) -> Seq<char>;

/// Relies on `str::to_uppercase`: the full Unicode uppercase mapping of `s`,
/// a function of the characters alone.
#[verifier::external_body]
fn uppercase(s: &str) -> (r: String)
    ensures
        r@ == upper_of(s@),
{
    s.to_uppercase()
}

/// Relies on `std::path::Path::exists`: whether the path names something on disk.
#[verifier::external_body]
fn path_exists(p: &str) -> (r: bool) {
    std::path::Path::new(p).exists()
}

/// Relies on `std::path::Path::is_dir`: whether the path names a directory on disk.
#[verifier::external_body]
fn path_is_dir(p: &str) -> (r: bool) {
    std::path::Path::new(p).is_dir()
}

/// Unicode `White_Space`, the characters that `str::trim` removes.
pub open spec fn is_white_space(c: char) -> bool {
    let u = c as u32;
    (9 <= u <= 13) || u == 32 || u == 0x85 || u == 0xa0 || u == 0x1680 || (0x2000 <= u <= 0x200a)
        || u == 0x2028 || u == 0x2029 || u == 0x202f || u == 0x205f || u == 0x3000
}

pub open spec fn trim_start(s: Seq<char>) -> Seq<char>
    decreases s.len(),
{
    if s.len() > 0 && is_white_space(s[0]) {
        trim_start(s.skip(1))
    } else {
        s
    }
}

pub open spec fn trim_end(s: Seq<char>) -> Seq<char>
    decreases s.len(),
{
    if s.len() > 0 && is_white_space(s.last()) {
        trim_end(s.drop_last())
    } else {
        s
    }
}

/// `s` without leading and trailing white space.
pub open spec fn trimmed(s: Seq<char>) -> Seq<char> {
    trim_end(trim_start(s))
}

pub open spec fn is_digit(c: char) -> bool {
    48 <= (c as u32) <= 57
}

pub open spec fn digit_value(c: char) -> nat {
    ((c as u32) - 48) as nat
}

pub open spec fn all_digits(s: Seq<char>) -> bool {
    forall|i: int| 0 <= i < s.len() ==> #[trigger] is_digit(s[i])
}

/// The number written by the decimal digits `ds` (0 for none).
pub open spec fn digits_value(ds: Seq<char>) -> nat
    decreases ds.len(),
{
    if ds.len() == 0 {
        0
    } else {
        digits_value(ds.drop_last()) * 10 + digit_value(ds.last())
    }
}

pub open spec fn pow10(k: nat) -> nat
    decreases k,
{
    if k == 0 {
        1
    } else {
        10 * pow10((k - 1) as nat)
    }
}

/// Length of the run of digits that starts `s`.
pub open spec fn digit_run(s: Seq<char>) -> nat
    decreases s.len(),
{
    if s.len() > 0 && is_digit(s[0]) {
        1 + digit_run(s.skip(1))
    } else {
        0
    }
}

pub open spec fn ends_with(s: Seq<char>, suffix: Seq<char>) -> bool {
    s.len() >= suffix.len() && s.subrange(s.len() - suffix.len(), s.len() as int) == suffix
}

/// The number part and the multiplier named by the unit suffix of `t`
/// (GB, MB, KB, B, or none for bytes).
pub open spec fn unit_split(t: Seq<char>) -> (Seq<char>, nat) {
    if ends_with(t, "GB"@) {
        (t.subrange(0, t.len() - 2), 1073741824)
    } else if ends_with(t, "MB"@) {
        (t.subrange(0, t.len() - 2), 1048576)
    } else if ends_with(t, "KB"@) {
        (t.subrange(0, t.len() - 2), 1024)
    } else if ends_with(t, "B"@) {
        (t.subrange(0, t.len() - 1), 1)
    } else {
        (t, 1)
    }
}

/// floor(a.b * m): the integer digits `a` and fraction digits `b` scaled by `m`.
pub open spec fn scaled_value(a: Seq<char>, b: Seq<char>, m: nat) -> nat {
    (digits_value(a + b) * m) / pow10(b.len())
}

pub open spec fn saturate(v: nat) -> u64 {
    if v > u64::MAX {
        u64::MAX
    } else {
        v as u64
    }
}

/// The byte count written by `n` in units of `m`: an optional sign, then
/// digits with an optional decimal point and at least one digit. The value
/// is rounded down, a negative one counts as zero and one past `u64::MAX`
/// as `u64::MAX`. `None` when `n` is not such a number.
pub open spec fn number_value(n: Seq<char>, m: nat) -> Option<u64> {
    let signed = n.len() > 0 && (n[0] == '-' || n[0] == '+');
    let neg = n.len() > 0 && n[0] == '-';
    let body = if signed {
        n.skip(1)
    } else {
        n
    };
    let p = digit_run(body);
    let a = body.take(p as int);
    let rest = body.skip(p as int);
    if rest.len() == 0 && p >= 1 {
        Some(if neg { 0 } else { saturate(scaled_value(a, Seq::empty(), m)) })
    } else if rest.len() >= 1 && rest[0] == '.' && all_digits(rest.skip(1)) && p + rest.len() >= 2 {
        Some(if neg { 0 } else { saturate(scaled_value(a, rest.skip(1), m)) })
    } else {
        None
    }
}

/// The byte count written by `u`, a size string whose letters are in upper case.
pub open spec fn parsed_size(u: Seq<char>) -> Option<u64> {
    let (num, m) = unit_split(trimmed(u));
    number_value(trimmed(num), m)
}

proof fn lemma_digits_concat(a: Seq<char>, b: Seq<char>)
    ensures
        digits_value(a + b) == digits_value(a) * pow10(b.len()) + digits_value(b),
    decreases b.len(),
{
    if b.len() == 0 {
        assert(a + b =~= a);
        assert(digits_value(a) * 1 == digits_value(a));
    } else {
        let b1 = b.drop_last();
        lemma_digits_concat(a, b1);
        assert((a + b).drop_last() =~= a + b1);
        assert((a + b).last() == b.last());
        let va = digits_value(a);
        let p1 = pow10(b1.len());
        let w1 = digits_value(b1);
        let d = digit_value(b.last());
        assert(digits_value(a + b) == digits_value(a + b1) * 10 + d);
        assert(digits_value(b) == w1 * 10 + d);
        assert(pow10(b.len()) == 10 * p1);
        assert(digits_value(a + b1) == va * p1 + w1);
        assert((va * p1 + w1) * 10 + d == va * (10 * p1) + (w1 * 10 + d)) by (nonlinear_arith);
    }
}

/// Fraction digits `b` scaled by `m`, worked from the last digit to the first.
spec fn fraction_carry(b: Seq<char>, m: nat) -> nat
    decreases b.len(),
{
    if b.len() == 0 {
        0
    } else {
        (digit_value(b[0]) * m + fraction_carry(b.skip(1), m)) / 10
    }
}

proof fn lemma_pow10_positive(k: nat)
    ensures
        pow10(k) >= 1,
    decreases k,
{
    if k > 0 {
        lemma_pow10_positive((k - 1) as nat);
    }
}

proof fn lemma_fraction_carry(b: Seq<char>, m: nat)
    requires
        all_digits(b),
        m >= 1,
    ensures
        fraction_carry(b, m) == (digits_value(b) * m) / pow10(b.len()),
        fraction_carry(b, m) < m,
    decreases b.len(),
{
    if b.len() > 0 {
        let rest = b.skip(1);
        assert(all_digits(rest)) by {
            assert forall|i: int| 0 <= i < rest.len() implies #[trigger] is_digit(rest[i]) by {
                assert(is_digit(b[i + 1]));
            }
        }
        lemma_fraction_carry(rest, m);
        let k1 = rest.len();
        lemma_pow10_positive(k1);
        let p1 = pow10(k1);
        let d0 = digit_value(b[0]);
        assert(is_digit(b[0]));
        assert(d0 <= 9);
        let w = digits_value(rest);
        assert(b =~= seq![b[0]] + rest);
        lemma_digits_concat(seq![b[0]], rest);
        let s1 = seq![b[0]];
        assert(s1.len() == 1);
        assert(s1.last() == b[0]);
        assert(s1.drop_last() =~= Seq::<char>::empty());
        assert(digits_value(s1.drop_last()) == 0);
        assert(digits_value(s1) == digits_value(s1.drop_last()) * 10 + digit_value(s1.last()));
        assert(digits_value(s1) == d0);
        assert(digits_value(b) == d0 * p1 + w);
        lemma_hoist_over_denominator((w * m) as int, (d0 * m) as int, p1);
        assert((w * m) as int + (d0 * m) * p1 == (digits_value(b) * m) as int) by (nonlinear_arith)
            requires
                digits_value(b) == d0 * p1 + w,
        ;
        let x = (digits_value(b) * m) as int;
        let c1 = fraction_carry(rest, m);
        assert(c1 == (w * m) / p1);
        assert(fraction_carry(b, m) == (d0 * m + c1) / 10);
        assert(c1 + d0 * m == x / (p1 as int));
        lemma_div_denominator(x, p1 as int, 10);
        assert(pow10(b.len()) == 10 * p1);
        assert((x / (p1 as int)) / 10 == x / ((p1 * 10) as int));
        assert((p1 * 10) as int == pow10(b.len()) as int);
        assert(fraction_carry(b, m) == x / (pow10(b.len()) as int));
        assert(c1 < m);
        assert(d0 * m + c1 < 10 * m) by (nonlinear_arith)
            requires
                d0 <= 9,
                c1 < m,
        ;
    } else {
        assert(digits_value(b) == 0);
        assert(pow10(0) == 1);
        assert(0 * m == 0);
    }
}

proof fn lemma_scaled_split(a: Seq<char>, b: Seq<char>, m: nat)
    requires
        all_digits(b),
        m >= 1,
    ensures
        scaled_value(a, b, m) == digits_value(a) * m + fraction_carry(b, m),
{
    lemma_digits_concat(a, b);
    lemma_fraction_carry(b, m);
    lemma_pow10_positive(b.len());
    let p = pow10(b.len());
    let va = digits_value(a);
    let w = digits_value(b);
    lemma_hoist_over_denominator((w * m) as int, (va * m) as int, p);
    assert((w * m) as int + (va * m) * p == ((va * p + w) * m) as int) by (nonlinear_arith);
}

fn white_space(c: char) -> (r: bool)
    ensures
        r == is_white_space(c),
{
    let u = c as u32;
    (9 <= u && u <= 13) || u == 32 || u == 0x85 || u == 0xa0 || u == 0x1680 || (0x2000 <= u && u <= 0x200a)
        || u == 0x2028 || u == 0x2029 || u == 0x202f || u == 0x205f || u == 0x3000
}

/// Bounds of `v[lo..hi]` without its leading and trailing white space.
fn trim_bounds(v: &Vec<char>, lo: usize, hi: usize) -> (r: (usize, usize))
    requires
        lo <= hi <= v@.len(),
    ensures
        lo <= r.0 <= r.1 <= hi,
        v@.subrange(r.0 as int, r.1 as int) == trimmed(v@.subrange(lo as int, hi as int)),
{
    let mut i = lo;
    while i < hi && white_space(v[i])
        invariant
            lo <= i <= hi <= v@.len(),
            trim_start(v@.subrange(lo as int, hi as int)) == trim_start(v@.subrange(i as int, hi as int)),
        decreases hi - i,
    {
        assert(v@.subrange(i as int, hi as int).skip(1) =~= v@.subrange(i + 1, hi as int));
        i = i + 1;
    }
    assert(trim_start(v@.subrange(i as int, hi as int)) == v@.subrange(i as int, hi as int));
    let mut j = hi;
    while j > i && white_space(v[j - 1])
        invariant
            lo <= i <= j <= hi <= v@.len(),
            trim_end(v@.subrange(i as int, hi as int)) == trim_end(v@.subrange(i as int, j as int)),
        decreases j - i,
    {
        assert(v@.subrange(i as int, j as int).drop_last() =~= v@.subrange(i as int, j - 1));
        j = j - 1;
    }
    (i, j)
}

/// Whether `v[lo..hi]` ends with the one- or two-letter unit `unit`.
fn ends_with_unit(v: &Vec<char>, lo: usize, hi: usize, unit: &str) -> (r: bool)
    requires
        lo <= hi <= v@.len(),
        1 <= unit@.len() <= 2,
    ensures
        r == ends_with(v@.subrange(lo as int, hi as int), unit@),
{
    let k = unit.unicode_len();
    let ghost t = v@.subrange(lo as int, hi as int);
    if hi - lo < k {
        return false;
    }
    let mut q: usize = 0;
    while q < k
        invariant
            k == unit@.len(),
            lo + k <= hi <= v@.len(),
            q <= k,
            t == v@.subrange(lo as int, hi as int),
            forall|x: int| 0 <= x < q ==> #[trigger] unit@[x] == v@[hi - k + x],
        decreases k - q,
    {
        if v[hi - k + q] != unit.get_char(q) {
            assert(t.subrange(t.len() - k, t.len() as int)[q as int] != unit@[q as int]);
            return false;
        }
        q = q + 1;
    }
    assert(t.subrange(t.len() - k, t.len() as int) =~= unit@);
    true
}

/// Whether `v[lo..hi]` holds only decimal digits.
fn all_digits_in(v: &Vec<char>, lo: usize, hi: usize) -> (r: bool)
    requires
        lo <= hi <= v@.len(),
    ensures
        r == all_digits(v@.subrange(lo as int, hi as int)),
{
    let mut q = lo;
    while q < hi
        invariant
            lo <= q <= hi <= v@.len(),
            all_digits(v@.subrange(lo as int, q as int)),
        decreases hi - q,
    {
        if !(48 <= (v[q] as u32) && (v[q] as u32) <= 57) {
            assert(!is_digit(v@.subrange(lo as int, hi as int)[q - lo]));
            return false;
        }
        assert forall|x: int| 0 <= x < v@.subrange(lo as int, q + 1).len() implies #[trigger] is_digit(v@.subrange(lo as int, q + 1)[x]) by {
            if x < q - lo {
                assert(v@.subrange(lo as int, q + 1)[x] == v@.subrange(lo as int, q as int)[x]);
            }
        }
        q = q + 1;
    }
    true
}

/// The byte count written by `v[lo..hi]` in units of `m` (see `number_value`).
fn number_in(v: &Vec<char>, lo: usize, hi: usize, m: u64) -> (r: Option<u64>)
    requires
        lo <= hi <= v@.len(),
        1 <= m <= 1073741824,
    ensures
        r == number_value(v@.subrange(lo as int, hi as int), m as nat),
{
    let ghost n = v@.subrange(lo as int, hi as int);
    let mut i = lo;
    let mut neg = false;
    if i < hi && (v[i] == '-' || v[i] == '+') {
        neg = v[i] == '-';
        i = i + 1;
        assert(n.skip(1) =~= v@.subrange(i as int, hi as int));
    }
    let ghost body = v@.subrange(i as int, hi as int);
    // the run of integer digits, with its value capped at 2^64
    let cap: u128 = 0x1_0000_0000_0000_0000;
    let mut acc: u128 = 0;
    let mut j = i;
    while j < hi && 48 <= (v[j] as u32) && (v[j] as u32) <= 57
        invariant
            lo <= i <= j <= hi <= v@.len(),
            body == v@.subrange(i as int, hi as int),
            digit_run(body) == (j - i) + digit_run(v@.subrange(j as int, hi as int)),
            all_digits(v@.subrange(i as int, j as int)),
            acc == if digits_value(v@.subrange(i as int, j as int)) >= cap {
                cap as nat
            } else {
                digits_value(v@.subrange(i as int, j as int))
            },
            cap == 0x1_0000_0000_0000_0000,
        decreases hi - j,
    {
        let d = (v[j] as u32 - 48) as u128;
        let ghost old_val = digits_value(v@.subrange(i as int, j as int));
        assert(v@.subrange(j as int, hi as int).skip(1) =~= v@.subrange(j + 1, hi as int));
        assert(v@.subrange(i as int, j + 1).drop_last() =~= v@.subrange(i as int, j as int));
        assert(digits_value(v@.subrange(i as int, j + 1)) == old_val * 10 + d);
        let next = acc * 10 + d;
        acc = if next >= cap { cap } else { next };
        proof {
            let new_val = digits_value(v@.subrange(i as int, j + 1));
            if old_val >= cap {
                assert(new_val >= cap);
            }
        }
        assert forall|x: int| 0 <= x < v@.subrange(i as int, j + 1).len() implies #[trigger] is_digit(v@.subrange(i as int, j + 1)[x]) by {
            if x < j - i {
                assert(v@.subrange(i as int, j + 1)[x] == v@.subrange(i as int, j as int)[x]);
            }
        }
        j = j + 1;
    }
    assert(digit_run(v@.subrange(j as int, hi as int)) == 0);
    let ghost p = digit_run(body);
    let ghost a = body.take(p as int);
    assert(a =~= v@.subrange(i as int, j as int));
    assert(body.skip(p as int) =~= v@.subrange(j as int, hi as int));
    let frac: u64;
    if j == hi {
        if j == i {
            return None;
        }
        frac = 0;
        proof {
            assert(all_digits(Seq::<char>::empty()));
            lemma_scaled_split(a, Seq::empty(), m as nat);
        }
    } else {
        if v[j] != '.' {
            return None;
        }
        if !all_digits_in(v, j + 1, hi) {
            assert(body.skip(p as int).skip(1) =~= v@.subrange(j + 1, hi as int));
            return None;
        }
        if j == i && hi == j + 1 {
            return None;
        }
        let ghost b = v@.subrange(j + 1, hi as int);
        assert(body.skip(p as int).skip(1) =~= b);
        // the fraction digits scaled by m, from the last digit to the first
        let mut c: u64 = 0;
        let mut k = hi;
        while k > j + 1
            invariant
                j + 1 <= k <= hi <= v@.len(),
                all_digits(b),
                b == v@.subrange(j + 1, hi as int),
                1 <= m <= 1073741824,
                c == fraction_carry(v@.subrange(k as int, hi as int), m as nat),
                c < m,
            decreases k,
        {
            k = k - 1;
            assert(is_digit(b[k - j - 1]));
            assert(b[k - j - 1] == v@[k as int]);
            let d = (v[k] as u32 - 48) as u64;
            assert(v@.subrange(k as int, hi as int).skip(1) =~= v@.subrange(k + 1, hi as int));
            assert(v@.subrange(k as int, hi as int)[0] == v@[k as int]);
            assert(d * m + c < 10 * m) by (nonlinear_arith)
                requires
                    d <= 9,
                    c < m,
            ;
            c = (d * m + c) / 10;
        }
        frac = c;
        proof {
            lemma_scaled_split(a, b, m as nat);
        }
    }
    if neg {
        return Some(0);
    }
    assert(acc * m <= 0x1_0000_0000_0000_0000 * 1073741824) by (nonlinear_arith)
        requires
            acc <= 0x1_0000_0000_0000_0000u128,
            m <= 1073741824,
    ;
    let total: u128 = acc * (m as u128) + frac as u128;
    proof {
        let va = digits_value(a);
        if va >= cap {
            assert(va * m >= cap) by (nonlinear_arith)
                requires
                    va >= cap,
                    m >= 1,
            ;
            assert(total >= cap) by (nonlinear_arith)
                requires
                    acc == cap,
                    total == acc * m + frac,
                    m >= 1,
            ;
        }
    }
    if total > u64::MAX as u128 {
        Some(u64::MAX)
    } else {
        Some(total as u64)
    }
}

/// Parses a size string whose letters are already in upper case.
pub fn parse_upper_size(u: &str) -> (r: Option<u64>)
    ensures
        r == parsed_size(u@),
{
    let v = chars_of(u);
    let (s, e) = trim_bounds(&v, 0, v.len());
    assert(v@.subrange(0, v@.len() as int) == v@);
    let ghost t = v@.subrange(s as int, e as int);
    proof {
        reveal_strlit("GB");
        reveal_strlit("MB");
        reveal_strlit("KB");
        reveal_strlit("B");
    }
    let (ne, m): (usize, u64) = if ends_with_unit(&v, s, e, "GB") {
        (e - 2, 1073741824)
    } else if ends_with_unit(&v, s, e, "MB") {
        (e - 2, 1048576)
    } else if ends_with_unit(&v, s, e, "KB") {
        (e - 2, 1024)
    } else if ends_with_unit(&v, s, e, "B") {
        (e - 1, 1)
    } else {
        (e, 1)
    };
    assert(unit_split(t).0 =~= v@.subrange(s as int, ne as int));
    assert(unit_split(t).1 == m);
    let (ns, nend) = trim_bounds(&v, s, ne);
    number_in(&v, ns, nend, m)
}

/// Options given on the command line.
#[derive(Debug, Clone)]
pub struct Args {
    /// Directory to review.
    pub directory: String,
    /// File types to review (all when empty).
    pub file_types: Vec<FileTypeFilter>,
    /// Record decisions without moving any file.
    pub dry_run: bool,
    pub sort_by: SortOrder,
    pub reverse: bool,
    /// Also review files whose name starts with a dot.
    pub show_hidden: bool,
    /// Smallest size to review, such as "1KB".
    pub min_size: Option<String>,
    /// Largest size to review, such as "100MB".
    pub max_size: Option<String>,
}

/// The byte count of an optional size option; `None` when absent or malformed.
pub open spec fn size_limit(o: Option<String>) -> Option<u64> {
    match o {
        Some(s) => parsed_size(upper_of(s@)),
        None => None,
    }
}

/// `r` reports the outcome `v`: both succeed, or both fail with the same message.
pub open spec fn reports(r: Result<(), String>, v: Result<(), Seq<char>>) -> bool {
    match (r, v) {
        (Ok(_), Ok(_)) => true,
        (Err(m), Err(n)) => m@ == n,
        _ => false,
    }
}

pub open spec fn size_hint() -> Seq<char> {
    "'. Use format like '5MB', '100KB', '1GB'"@
}

impl Args {
    /// What `validate` reports, given whether the directory exists and
    /// whether it is a directory.
    pub open spec fn validation(&self, exists: bool, is_dir: bool) -> Result<(), Seq<char>> {
        if !exists {
            Err("Directory does not exist: "@ + self.directory@)
        } else if !is_dir {
            Err("Path is not a directory: "@ + self.directory@)
        } else if self.min_size is Some && size_limit(self.min_size) is None {
            Err("Invalid min-size format: '"@ + self.min_size->Some_0@ + size_hint())
        } else if self.max_size is Some && size_limit(self.max_size) is None {
            Err("Invalid max-size format: '"@ + self.max_size->Some_0@ + size_hint())
        } else if self.min_size is Some && self.max_size is Some
            && size_limit(self.min_size)->Some_0 > size_limit(self.max_size)->Some_0 {
            Err("min-size ("@ + self.min_size->Some_0@ + ") cannot be greater than max-size ("@
                + self.max_size->Some_0@ + ")"@)
        } else {
            Ok(())
        }
    }

    /// The requested file types, or `None` when all types are wanted.
    pub fn get_file_type_filters(&self) -> (r: Option<Vec<FileType>>)
        ensures
            self.file_types@.len() == 0 ==> r is None,
            self.file_types@.len() > 0 ==> r is Some && r->Some_0@ == self.file_types@.map_values(|f: FileTypeFilter| filter_type(f)),
    {
        if self.file_types.len() == 0 {
            return None;
        }
        let mut out: Vec<FileType> = Vec::new();
        let n = self.file_types.len();
        let mut i: usize = 0;
        while i < n
            invariant
                n == self.file_types@.len(),
                i <= n,
                out@ == self.file_types@.subrange(0, i as int).map_values(|f: FileTypeFilter| filter_type(f)),
            decreases n - i,
        {
            out.push(FileType::from(self.file_types[i]));
            assert(self.file_types@.subrange(0, i + 1).map_values(|f: FileTypeFilter| filter_type(f))
                =~= self.file_types@.subrange(0, i as int).map_values(|f: FileTypeFilter| filter_type(f)).push(filter_type(self.file_types@[i as int])));
            i = i + 1;
        }
        assert(self.file_types@.subrange(0, n as int) == self.file_types@);
        Some(out)
    }

    /// Parses a size such as "5MB", "1.5KB" or "100" into bytes; surrounding
    /// white space and the case of the unit do not matter.
    pub fn parse_size(size_str: &str) -> (r: Option<u64>)
        ensures
            r == parsed_size(upper_of(size_str@)),
    {
        let upper = uppercase(size_str);
        parse_upper_size(upper.as_str())
    }

    fn size_of_option(o: &Option<String>) -> (r: Option<u64>)
        ensures
            r == size_limit(*o),
    {
        match o {
            Some(s) => Args::parse_size(s.as_str()),
            None => None,
        }
    }

    /// The smallest size to review, in bytes.
    pub fn get_min_size(&self) -> (r: Option<u64>)
        ensures
            r == size_limit(self.min_size),
    {
        Args::size_of_option(&self.min_size)
    }

    /// The largest size to review, in bytes.
    pub fn get_max_size(&self) -> (r: Option<u64>)
        ensures
            r == size_limit(self.max_size),
    {
        Args::size_of_option(&self.max_size)
    }

    /// Checks that the directory exists and is one, and that the size
    /// limits parse and are in order; the error says what is wrong.
    pub fn validate(&self) -> (r: Result<(), String>)
        ensures
            exists|exists: bool, is_dir: bool| (is_dir ==> exists) && #[trigger] reports(r, self.validation(exists, is_dir)),
    {
        let exists = path_exists(self.directory.as_str());
        let is_dir = exists && path_is_dir(self.directory.as_str());
        self.validate_with(exists, is_dir)
    }

    /// `validate`, given whether the directory exists and whether it is a directory.
    pub fn validate_with(&self, exists: bool, is_dir: bool) -> (r: Result<(), String>)
        ensures
            reports(r, self.validation(exists, is_dir)),
    {
        if !exists {
            let mut m = owned("Directory does not exist: ");
            m.append(self.directory.as_str());
            return Err(m);
        }
        if !is_dir {
            let mut m = owned("Path is not a directory: ");
            m.append(self.directory.as_str());
            return Err(m);
        }
        let min = self.get_min_size();
        let max = self.get_max_size();
        if let Some(text) = &self.min_size {
            if min.is_none() {
                let mut m = owned("Invalid min-size format: '");
                m.append(text.as_str());
                m.append("'. Use format like '5MB', '100KB', '1GB'");
                return Err(m);
            }
        }
        if let Some(text) = &self.max_size {
            if max.is_none() {
                let mut m = owned("Invalid max-size format: '");
                m.append(text.as_str());
                m.append("'. Use format like '5MB', '100KB', '1GB'");
                return Err(m);
            }
        }
        if let (Some(lo), Some(hi)) = (min, max) {
            if lo > hi {
                let mut m = owned("min-size (");
                m.append(self.min_size.as_ref().unwrap().as_str());
                m.append(") cannot be greater than max-size (");
                m.append(self.max_size.as_ref().unwrap().as_str());
                m.append(")");
                return Err(m);
            }
        }
        Ok(())
    }
}

/// Settings of a review session, derived from the command line.
#[derive(Debug, Clone)]
pub struct AppConfig {
    pub directory: String,
    pub file_type_filters: Option<Vec<FileType>>,
    pub dry_run: bool,
    pub sort_by: SortOrder,
    pub reverse: bool,
    pub show_hidden: bool,
    pub min_size: Option<u64>,
    pub max_size: Option<u64>,
}

impl AppConfig {
    /// The settings that `args` ask for; a malformed size limit is dropped.
    pub fn from_args(args: Args) -> (r: AppConfig)
        ensures
            r.directory@ == args.directory@,
            args.file_types@.len() == 0 ==> r.file_type_filters is None,
            args.file_types@.len() > 0 ==> r.file_type_filters is Some
                && r.file_type_filters->Some_0@ == args.file_types@.map_values(|f: FileTypeFilter| filter_type(f)),
            r.dry_run == args.dry_run,
            r.sort_by == args.sort_by,
            r.reverse == args.reverse,
            r.show_hidden == args.show_hidden,
            r.min_size == size_limit(args.min_size),
            r.max_size == size_limit(args.max_size),
    {
        let file_type_filters = args.get_file_type_filters();
        let min_size = args.get_min_size();
        let max_size = args.get_max_size();
        AppConfig {
            directory: args.directory,
            file_type_filters,
            dry_run: args.dry_run,
            sort_by: args.sort_by,
            reverse: args.reverse,
            show_hidden: args.show_hidden,
            min_size,
            max_size,
        }
    }

    /// The settings with no option given: the current directory, every
    /// file type and size, by date, hidden files left out, no dry run.
    pub fn defaults() -> (r: AppConfig)
        ensures
            r.directory@ == "."@,
            r.file_type_filters is None,
            !r.dry_run,
            r.sort_by == SortOrder::Date,
            !r.reverse,
            !r.show_hidden,
            r.min_size is None,
            r.max_size is None,
    {
        AppConfig {
            directory: owned("."),
            file_type_filters: None,
            dry_run: false,
            sort_by: SortOrder::Date,
            reverse: false,
            show_hidden: false,
            min_size: None,
            max_size: None,
        }
    }
}

impl From<Args> for AppConfig {
    fn from(args: Args) -> (r: AppConfig)
        ensures
            r.directory@ == args.directory@,
            args.file_types@.len() == 0 ==> r.file_type_filters is None,
            args.file_types@.len() > 0 ==> r.file_type_filters is Some
                && r.file_type_filters->Some_0@ == args.file_types@.map_values(|f: FileTypeFilter| filter_type(f)),
            r.dry_run == args.dry_run,
            r.sort_by == args.sort_by,
            r.reverse == args.reverse,
            r.show_hidden == args.show_hidden,
            r.min_size == size_limit(args.min_size),
            r.max_size == size_limit(args.max_size),
    {
        AppConfig::from_args(args)
    }
}

impl vstd::std_specs::convert::FromSpecImpl<Args> for AppConfig {
    /// The result holds vectors, which a spec value cannot name: the
    /// contract is that of `AppConfig::from_args`.
    open spec fn obeys_from_spec() -> bool {
        false
    }

    open spec fn from_spec(v: Args) -> AppConfig {
        arbitrary()
    }
}

impl Default for AppConfig {
    fn default() -> (r: AppConfig)
        ensures
            r.directory@ == "."@,
            r.file_type_filters is None,
            !r.dry_run,
            r.sort_by == SortOrder::Date,
            !r.reverse,
            !r.show_hidden,
            r.min_size is None,
            r.max_size is None,
    {
        AppConfig::defaults()
    }
}

} // verus!
