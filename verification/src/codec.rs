//! The snapshot wire format: a line-oriented, self-describing text format
//! with field-name labels, decimal numbers and length-prefixed strings.
//! Serialization and parsing are both verified, and parsing a serialized
//! snapshot provably returns the original value.
//!
//! Tokens are newline-terminated: a number is its decimal digits and a
//! newline; a string is its character count, a newline, the characters
//! themselves, and a newline (so string contents need no escaping).

use vstd::prelude::*;

use crate::model::{
    ClusterData, ClusterDataView, ClusterUsage, LoadAvg, MachineDefinition, MachineDefinitionView,
    MachineUsage, MachineUsageView, Memory, Owner, OwnerView, Process, ProcessView, Processes,
    Usage, UsageView,
};
use crate::text::{
    digit_val, digits_val, is_digit, lemma_dec_props, spec_dec, str_eq, u64_to_string,
};
use vstd::arithmetic::div_mod::{lemma_div_is_ordered, lemma_div_multiples_vanish};
use vstd::string::{StrSliceExecFns, StringExecFns};

verus! {

// ---------------------------------------------------------------------------
// Serialization primitives
// ---------------------------------------------------------------------------

/// A serialized number: decimal digits and a newline.
pub open spec fn ser_num(n: int) -> Seq<char> {
    spec_dec(n) + seq!['\n']
}

/// A serialized string: its length, a newline, its characters, a newline.
pub open spec fn ser_str(s: Seq<char>) -> Seq<char> {
    ser_num(s.len() as int) + s + seq!['\n']
}

/// Appends `n` to `out`.
pub fn write_num(out: String, n: u64) -> (r: String)
    ensures
        r@ == out@ + ser_num(n as int),
{
    let r = out.concat(u64_to_string(n).as_str());
    let r = r.concat("\n");
    proof {
        reveal_strlit("\n");
        assert(r@ =~= out@ + ser_num(n as int));
    }
    r
}

/// Appends the string token for `s` to `out`.
pub fn write_str(out: String, s: &str) -> (r: String)
    ensures
        r@ == out@ + ser_str(s@),
{
    let r = write_num(out, s.unicode_len() as u64);
    let r = r.concat(s);
    let r = r.concat("\n");
    proof {
        reveal_strlit("\n");
        assert(r@ =~= out@ + ser_str(s@));
    }
    r
}

// ---------------------------------------------------------------------------
// Parsing primitives
// ---------------------------------------------------------------------------

/// Consumes the exact literal `lit` at position `i`.
pub open spec fn spec_parse_lit(s: Seq<char>, i: int, lit: Seq<char>) -> Option<int> {
    if 0 <= i && i + lit.len() <= s.len() && s.subrange(i, i + lit.len()) == lit {
        Option::Some(i + lit.len())
    } else {
        Option::None
    }
}

/// Scans the digits of a number token: `acc` is the value read so far and
/// `seen` whether any digit was read. The token ends at a newline; numbers
/// that would not fit in 64 bits are rejected.
pub open spec fn spec_scan_u64(s: Seq<char>, i: int, acc: u64, seen: bool) -> Option<(u64, int)>
    decreases s.len() - i,
{
    if i < 0 || i >= s.len() {
        Option::None
    } else if s[i] == '\n' {
        if seen {
            Option::Some((acc, i + 1))
        } else {
            Option::None
        }
    } else if is_digit(s[i]) {
        let d = digit_val(s[i]);
        if acc > (0xFFFF_FFFF_FFFF_FFFFu64 - d) / 10 {
            Option::None
        } else {
            spec_scan_u64(s, i + 1, (10 * acc + d) as u64, true)
        }
    } else {
        Option::None
    }
}

/// Consumes a number token at position `i`.
pub open spec fn spec_parse_u64(s: Seq<char>, i: int) -> Option<(u64, int)> {
    spec_scan_u64(s, i, 0, false)
}

/// Consumes a string token at position `i`.
pub open spec fn spec_parse_str(s: Seq<char>, i: int) -> Option<(Seq<char>, int)> {
    match spec_parse_u64(s, i) {
        Option::None => Option::None,
        Option::Some((n, j)) => {
            if j + n + 1 <= s.len() && s[j + n as int] == '\n' {
                Option::Some((s.subrange(j, j + n as int), j + n + 1))
            } else {
                Option::None
            }
        },
    }
}

/// Decides [`spec_parse_lit`].
pub fn parse_lit(s: &str, i: usize, lit: &str) -> (r: Option<usize>)
    requires
        i <= s@.len(),
    ensures
        match r {
            Option::Some(j) => spec_parse_lit(s@, i as int, lit@) == Option::Some(j as int) && i
                <= j <= s@.len(),
            Option::None => spec_parse_lit(s@, i as int, lit@) is None,
        },
{
    let len = s.unicode_len();
    let llen = lit.unicode_len();
    if llen > len - i {
        return Option::None;
    }
    let chunk = s.substring_char(i, i + llen);
    if str_eq(chunk, lit) {
        Option::Some(i + llen)
    } else {
        Option::None
    }
}

/// Decides [`spec_parse_u64`].
pub fn parse_u64(s: &str, i: usize) -> (r: Option<(u64, usize)>)
    requires
        i <= s@.len(),
    ensures
        match r {
            Option::Some((v, j)) => spec_parse_u64(s@, i as int) == Option::Some((v, j as int))
                && i < j <= s@.len(),
            Option::None => spec_parse_u64(s@, i as int) is None,
        },
{
    let len = s.unicode_len();
    let mut cur: usize = i;
    let mut acc: u64 = 0;
    let mut seen: bool = false;
    loop
        invariant
            i <= cur <= len,
            len == s@.len(),
            spec_parse_u64(s@, i as int) == spec_scan_u64(s@, cur as int, acc, seen),
            seen ==> cur > i,
        decreases len - cur,
    {
        if cur == len {
            return Option::None;
        }
        let ch = s.get_char(cur);
        if ch == '\n' {
            if seen {
                return Option::Some((acc, cur + 1));
            } else {
                return Option::None;
            }
        }
        if '0' <= ch && ch <= '9' {
            let d: u64 = (ch as u32 as u64) - ('0' as u32 as u64);
            proof {
                assert(d == digit_val(s@[cur as int]));
            }
            if acc > (0xFFFF_FFFF_FFFF_FFFFu64 - d) / 10 {
                return Option::None;
            }
            proof {
                let m: int = 0xFFFF_FFFF_FFFF_FFFF;
                assert(10 * acc + d <= m) by {
                    assert(acc <= (m - d) / 10);
                    vstd::arithmetic::div_mod::lemma_fundamental_div_mod(m - d, 10);
                    vstd::arithmetic::div_mod::lemma_mod_bound(m - d, 10);
                    assert(10 * ((m - d) / 10) <= m - d);
                    assert(10 * acc <= 10 * ((m - d) / 10)) by (nonlinear_arith)
                        requires
                            acc <= (m - d) / 10,
                    ;
                }
            }
            acc = 10 * acc + d;
            seen = true;
            cur = cur + 1;
        } else {
            return Option::None;
        }
    }
}

/// Decides [`spec_parse_str`].
pub fn parse_str(s: &str, i: usize) -> (r: Option<(String, usize)>)
    requires
        i <= s@.len(),
    ensures
        match r {
            Option::Some((v, j)) => spec_parse_str(s@, i as int) == Option::Some((v@, j as int))
                && i < j <= s@.len(),
            Option::None => spec_parse_str(s@, i as int) is None,
        },
{
    let len = s.unicode_len();
    match parse_u64(s, i) {
        Option::None => Option::None,
        Option::Some((n, j)) => {
            if n <= (len - j) as u64 && (len - j) as u64 >= 1 && n <= (len - j - 1) as u64 {
                let end = j + (n as usize);
                if s.get_char(end) == '\n' {
                    let v = s.substring_char(j, end).to_owned();
                    Option::Some((v, end + 1))
                } else {
                    Option::None
                }
            } else {
                Option::None
            }
        },
    }
}

// ---------------------------------------------------------------------------
// Round-trip lemmas for the primitives
// ---------------------------------------------------------------------------

/// Digit strings denote non-negative values, and prefixes denote at most
/// the whole.
proof fn lemma_digits_prefix_le(ds: Seq<char>, k: int)
    requires
        0 <= k <= ds.len(),
        forall|q: int| 0 <= q < ds.len() ==> is_digit(#[trigger] ds[q]),
    ensures
        0 <= digits_val(ds.subrange(0, k)) <= digits_val(ds),
    decreases ds.len() - k,
{
    if k == ds.len() {
        assert(ds.subrange(0, k) =~= ds);
        lemma_digits_nonneg(ds);
    } else {
        lemma_digits_prefix_le(ds, k + 1);
        assert(ds.subrange(0, k + 1).drop_last() =~= ds.subrange(0, k));
        assert(ds.subrange(0, k + 1).last() == ds[k]);
        lemma_digits_nonneg(ds.subrange(0, k));
        assert(digit_val(ds[k]) >= 0);
        assert(digits_val(ds.subrange(0, k)) <= digits_val(ds.subrange(0, k + 1)))
            by (nonlinear_arith)
            requires
                digits_val(ds.subrange(0, k + 1)) == digits_val(ds.subrange(0, k)) * 10
                    + digit_val(ds[k]),
                digits_val(ds.subrange(0, k)) >= 0,
                digit_val(ds[k]) >= 0,
        ;
    }
}

proof fn lemma_digits_nonneg(ds: Seq<char>)
    requires
        forall|q: int| 0 <= q < ds.len() ==> is_digit(#[trigger] ds[q]),
    ensures
        digits_val(ds) >= 0,
    decreases ds.len(),
{
    if ds.len() > 0 {
        assert(forall|q: int|
            0 <= q < ds.drop_last().len() ==> is_digit(#[trigger] ds.drop_last()[q]));
        lemma_digits_nonneg(ds.drop_last());
        assert(digit_val(ds.last()) >= 0);
        assert(digits_val(ds.drop_last()) * 10 >= 0) by (nonlinear_arith)
            requires
                digits_val(ds.drop_last()) >= 0,
        ;
    }
}

/// Scanning a digit string followed by a newline yields its value.
proof fn lemma_scan_digits(s: Seq<char>, i0: int, ds: Seq<char>, k: int)
    requires
        0 <= i0,
        i0 + ds.len() < s.len(),
        ds.len() >= 1,
        0 <= k <= ds.len(),
        forall|q: int| 0 <= q < ds.len() ==> is_digit(#[trigger] ds[q]),
        forall|q: int| 0 <= q < ds.len() ==> s[i0 + q] == ds[q],
        s[i0 + ds.len()] == '\n',
        digits_val(ds) <= 0xFFFF_FFFF_FFFF_FFFF,
    ensures
        spec_scan_u64(
            s,
            i0 + k,
            digits_val(ds.subrange(0, k)) as u64,
            k > 0,
        ) == Option::Some((digits_val(ds) as u64, i0 + ds.len() + 1)),
    decreases ds.len() - k,
{
    lemma_digits_prefix_le(ds, k);
    if k == ds.len() {
        assert(ds.subrange(0, k) =~= ds);
        assert(s[i0 + k] == '\n');
    } else {
        let c = s[i0 + k];
        assert(c == ds[k]);
        assert(is_digit(c));
        assert(c != '\n');
        let acc = digits_val(ds.subrange(0, k)) as u64;
        let d = digit_val(c);
        assert(ds.subrange(0, k + 1).drop_last() =~= ds.subrange(0, k));
        assert(ds.subrange(0, k + 1).last() == ds[k]);
        lemma_digits_prefix_le(ds, k + 1);
        assert(10 * acc + d == digits_val(ds.subrange(0, k + 1)));
        // the overflow guard does not fire
        let m: int = 0xFFFF_FFFF_FFFF_FFFF;
        assert(10 * acc + d <= m);
        assert(acc <= (m - d) / 10) by {
            assert(10 * acc <= m - d);
            lemma_div_multiples_vanish(acc as int, 10);
            lemma_div_is_ordered(10 * acc, m - d, 10);
        }
        lemma_scan_digits(s, i0, ds, k + 1);
    }
}

/// Parsing a serialized number returns it and stops right after it.
pub proof fn lemma_parse_ser_num(s: Seq<char>, i: int, v: u64)
    requires
        0 <= i,
        i + ser_num(v as int).len() <= s.len(),
        s.subrange(i, i + ser_num(v as int).len()) == ser_num(v as int),
    ensures
        spec_parse_u64(s, i) == Option::Some((v, i + ser_num(v as int).len())),
{
    let ds = spec_dec(v as int);
    lemma_dec_props(v as int);
    assert(ser_num(v as int).len() == ds.len() + 1);
    assert forall|q: int| 0 <= q < ds.len() implies s[i + q] == ds[q] by {
        assert(s.subrange(i, i + ds.len() + 1)[q] == s[i + q]);
        assert(ser_num(v as int)[q] == ds[q]);
    }
    assert(s[i + ds.len()] == '\n') by {
        assert(s.subrange(i, i + ds.len() + 1)[ds.len() as int] == s[i + ds.len()]);
        assert(ser_num(v as int)[ds.len() as int] == '\n');
    }
    assert(ds.subrange(0, 0) =~= Seq::<char>::empty());
    lemma_scan_digits(s, i, ds, 0);
}

/// Parsing a serialized string returns it and stops right after it.
pub proof fn lemma_parse_ser_str(s: Seq<char>, i: int, v: Seq<char>)
    requires
        0 <= i,
        v.len() <= 0xFFFF_FFFF_FFFF_FFFF,
        i + ser_str(v).len() <= s.len(),
        s.subrange(i, i + ser_str(v).len()) == ser_str(v),
    ensures
        spec_parse_str(s, i) == Option::Some((v, i + ser_str(v).len())),
{
    let n = v.len() as int;
    let num = ser_num(n);
    let whole = ser_str(v);
    assert(whole.len() == num.len() + n + 1);
    assert(s.subrange(i, i + num.len()) =~= num) by {
        assert forall|q: int| 0 <= q < num.len() implies s.subrange(i, i + num.len())[q]
            == num[q] by {
            assert(s.subrange(i, i + whole.len())[q] == s[i + q]);
            assert(s.subrange(i, i + num.len())[q] == s[i + q]);
            assert(whole[q] == num[q]);
        }
    }
    lemma_parse_ser_num(s, i, v.len() as u64);
    let j = i + num.len();
    assert(s.subrange(j, j + n) =~= v) by {
        assert forall|q: int| 0 <= q < n implies s.subrange(j, j + n)[q] == v[q] by {
            assert(s.subrange(i, i + whole.len())[num.len() + q] == s[j + q]);
            assert(whole[num.len() + q] == v[q]);
            assert(s.subrange(j, j + n)[q] == s[j + q]);
        }
    }
    assert(s[j + n] == '\n') by {
        assert(s.subrange(i, i + whole.len())[num.len() + n] == s[j + n]);
        assert(whole[num.len() + n] == '\n');
    }
}

/// Parsing a literal placed at `i` succeeds.
pub proof fn lemma_parse_ser_lit(s: Seq<char>, i: int, lit: Seq<char>)
    requires
        0 <= i,
        i + lit.len() <= s.len(),
        s.subrange(i, i + lit.len()) == lit,
    ensures
        spec_parse_lit(s, i, lit) == Option::Some(i + lit.len()),
{
}

/// Splitting a chunk known to sit at `i` into its head and tail.
pub proof fn lemma_split_concat(s: Seq<char>, i: int, a: Seq<char>, b: Seq<char>)
    requires
        0 <= i,
        i + a.len() + b.len() <= s.len(),
        s.subrange(i, i + a.len() + b.len()) == a + b,
    ensures
        s.subrange(i, i + a.len()) == a,
        s.subrange(i + a.len(), i + a.len() + b.len()) == b,
{
    let w = a + b;
    assert forall|q: int| 0 <= q < a.len() implies s.subrange(i, i + a.len())[q] == a[q] by {
        assert(s.subrange(i, i + w.len())[q] == s[i + q]);
        assert(s.subrange(i, i + a.len())[q] == s[i + q]);
        assert(w[q] == a[q]);
    }
    assert(s.subrange(i, i + a.len()) =~= a);
    assert forall|q: int|
        0 <= q < b.len() implies s.subrange(i + a.len(), i + a.len() + b.len())[q] == b[q] by {
        assert(s.subrange(i, i + w.len())[a.len() + q] == s[i + a.len() + q]);
        assert(s.subrange(i + a.len(), i + a.len() + b.len())[q] == s[i + a.len() + q]);
        assert(w[a.len() + q] == b[q]);
    }
    assert(s.subrange(i + a.len(), i + a.len() + b.len()) =~= b);
}

// ---------------------------------------------------------------------------
// Labelled tokens
// ---------------------------------------------------------------------------

/// A label followed by a number token.
pub open spec fn ser_lnum(lit: Seq<char>, n: int) -> Seq<char> {
    lit + ser_num(n)
}

/// A label followed by a string token.
pub open spec fn ser_lstr(lit: Seq<char>, v: Seq<char>) -> Seq<char> {
    lit + ser_str(v)
}

/// Consumes a label and the number token after it.
pub open spec fn spec_parse_lnum(s: Seq<char>, i: int, lit: Seq<char>) -> Option<(u64, int)> {
    match spec_parse_lit(s, i, lit) {
        Option::None => Option::None,
        Option::Some(j) => spec_parse_u64(s, j),
    }
}

/// Consumes a label and the string token after it.
pub open spec fn spec_parse_lstr(s: Seq<char>, i: int, lit: Seq<char>) -> Option<(Seq<char>, int)> {
    match spec_parse_lit(s, i, lit) {
        Option::None => Option::None,
        Option::Some(j) => spec_parse_str(s, j),
    }
}

/// Decides [`spec_parse_lnum`].
pub fn parse_lnum(s: &str, i: usize, lit: &str) -> (r: Option<(u64, usize)>)
    requires
        i <= s@.len(),
    ensures
        match r {
            Option::Some((v, j)) => spec_parse_lnum(s@, i as int, lit@) == Option::Some(
                (v, j as int),
            ) && i <= j <= s@.len(),
            Option::None => spec_parse_lnum(s@, i as int, lit@) is None,
        },
{
    match parse_lit(s, i, lit) {
        Option::None => Option::None,
        Option::Some(j) => parse_u64(s, j),
    }
}

/// Decides [`spec_parse_lstr`].
pub fn parse_lstr(s: &str, i: usize, lit: &str) -> (r: Option<(String, usize)>)
    requires
        i <= s@.len(),
    ensures
        match r {
            Option::Some((v, j)) => spec_parse_lstr(s@, i as int, lit@) == Option::Some(
                (v@, j as int),
            ) && i <= j <= s@.len(),
            Option::None => spec_parse_lstr(s@, i as int, lit@) is None,
        },
{
    match parse_lit(s, i, lit) {
        Option::None => Option::None,
        Option::Some(j) => parse_str(s, j),
    }
}

// ---------------------------------------------------------------------------
// The format itself
// ---------------------------------------------------------------------------

/// Length bound under which every token round-trips.
pub open spec fn fits(n: int) -> bool {
    n <= 0xFFFF_FFFF_FFFF_FFFF
}

/// A serialized owner: a variant tag, and for the named variants the name.
pub open spec fn ser_owner(o: OwnerView) -> Seq<char> {
    match o {
        OwnerView::Member(n) => ser_num(0) + ser_str(n),
        OwnerView::Visitor(n) => ser_num(1) + ser_str(n),
        OwnerView::Student(n) => ser_num(2) + ser_str(n),
        OwnerView::Reserve => ser_num(3),
        OwnerView::Unowned => ser_num(4),
    }
}

/// A serialized sample.
pub open spec fn ser_process(p: ProcessView) -> Seq<char> {
    "process\n"@ + (ser_str(p.name) + (ser_str(p.user) + ser_num(p.usage as int)))
}

/// A serialized sample list.
pub open spec fn ser_procs(ps: Seq<ProcessView>) -> Seq<char>
    decreases ps.len(),
{
    if ps.len() == 0 {
        Seq::empty()
    } else {
        ser_process(ps[0]) + ser_procs(ps.skip(1))
    }
}

/// A serialized list of per-core readings.
pub open spec fn ser_nums(ns: Seq<u32>) -> Seq<char>
    decreases ns.len(),
{
    if ns.len() == 0 {
        Seq::empty()
    } else {
        ser_num(ns[0] as int) + ser_nums(ns.skip(1))
    }
}

/// A serialized machine entry.
#[verifier::opaque]
pub open spec fn ser_machine(m: MachineUsageView) -> Seq<char> {
    "machine\n"@ + ("hostname\n"@ + (ser_str(m.definition.hostname) + ("owner\n"@ + (ser_owner(
        m.definition.owner,
    ) + ("room\n"@ + (ser_str(m.definition.room) + ("global_cpu\n"@ + (ser_num(
        m.usage.global_cpu_usage as int,
    ) + ("cpus\n"@ + (ser_num(m.usage.cpus.len() as int) + (ser_nums(m.usage.cpus)
        + ("load_avg\n"@ + (ser_num(m.usage.load_avg.one as int) + (ser_num(
        m.usage.load_avg.five as int,
    ) + (ser_num(m.usage.load_avg.fifteen as int) + ("mem\n"@ + (ser_num(
        m.usage.mem.total as int,
    ) + (ser_num(m.usage.mem.used as int) + ("processes\n"@ + (ser_num(
        m.usage.processes.len() as int,
    ) + ser_procs(m.usage.processes)))))))))))))))))))))
}

/// A serialized machine list.
pub open spec fn ser_machines(ms: Seq<MachineUsageView>) -> Seq<char>
    decreases ms.len(),
{
    if ms.len() == 0 {
        Seq::empty()
    } else {
        ser_machine(ms[0]) + ser_machines(ms.skip(1))
    }
}

/// A whole serialized cluster snapshot.
pub open spec fn spec_ser_cluster(d: ClusterDataView) -> Seq<char> {
    "mu-cluster-snapshot\n"@ + (ser_lnum("timestamp\n"@, d.timestamp as int) + (ser_lnum(
        "machines\n"@,
        d.usage.len() as int,
    ) + ser_machines(d.usage)))
}

// ---------------------------------------------------------------------------
// Spec parsers
// ---------------------------------------------------------------------------

/// Consumes an owner.
pub open spec fn spec_parse_owner(s: Seq<char>, i: int) -> Option<(OwnerView, int)> {
    match spec_parse_u64(s, i) {
        Option::None => Option::None,
        Option::Some((tag, j)) => {
            if tag == 0 || tag == 1 || tag == 2 {
                match spec_parse_str(s, j) {
                    Option::None => Option::None,
                    Option::Some((n, k)) => Option::Some(
                        (
                            if tag == 0 {
                                OwnerView::Member(n)
                            } else if tag == 1 {
                                OwnerView::Visitor(n)
                            } else {
                                OwnerView::Student(n)
                            },
                            k,
                        ),
                    ),
                }
            } else if tag == 3 {
                Option::Some((OwnerView::Reserve, j))
            } else if tag == 4 {
                Option::Some((OwnerView::Unowned, j))
            } else {
                Option::None
            }
        },
    }
}

/// Consumes a sample.
pub open spec fn spec_parse_process(s: Seq<char>, i: int) -> Option<(ProcessView, int)> {
    match spec_parse_lit(s, i, "process\n"@) {
        Option::None => Option::None,
        Option::Some(j) => match spec_parse_str(s, j) {
            Option::None => Option::None,
            Option::Some((name, k)) => match spec_parse_str(s, k) {
                Option::None => Option::None,
                Option::Some((user, l)) => match spec_parse_u64(s, l) {
                    Option::None => Option::None,
                    Option::Some((usage, m)) => {
                        if usage <= 0xFFFF_FFFF {
                            Option::Some((ProcessView { name, user, usage: usage as u32 }, m))
                        } else {
                            Option::None
                        }
                    },
                },
            },
        },
    }
}

/// Consumes `n` samples.
pub open spec fn spec_parse_procs(s: Seq<char>, i: int, n: u64) -> Option<(Seq<ProcessView>, int)>
    decreases n,
{
    if n == 0 {
        Option::Some((Seq::empty(), i))
    } else {
        match spec_parse_process(s, i) {
            Option::None => Option::None,
            Option::Some((p, j)) => match spec_parse_procs(s, j, (n - 1) as u64) {
                Option::None => Option::None,
                Option::Some((ps, k)) => Option::Some((seq![p] + ps, k)),
            },
        }
    }
}

/// Consumes `n` per-core readings.
pub open spec fn spec_parse_nums(s: Seq<char>, i: int, n: u64) -> Option<(Seq<u32>, int)>
    decreases n,
{
    if n == 0 {
        Option::Some((Seq::empty(), i))
    } else {
        match spec_parse_u64(s, i) {
            Option::None => Option::None,
            Option::Some((v, j)) => {
                if v <= 0xFFFF_FFFF {
                    match spec_parse_nums(s, j, (n - 1) as u64) {
                        Option::None => Option::None,
                        Option::Some((vs, k)) => Option::Some((seq![v as u32] + vs, k)),
                    }
                } else {
                    Option::None
                }
            },
        }
    }
}

/// Consumes one machine entry.
pub open spec fn spec_parse_machine(s: Seq<char>, i: int) -> Option<(MachineUsageView, int)> {
    match spec_parse_lit(s, i, "machine\n"@) {
        Option::None => Option::None,
        Option::Some(i1) => match spec_parse_lstr(s, i1, "hostname\n"@) {
            Option::None => Option::None,
            Option::Some((hostname, i2)) => match spec_parse_lit(s, i2, "owner\n"@) {
                Option::None => Option::None,
                Option::Some(i3) => match spec_parse_owner(s, i3) {
                    Option::None => Option::None,
                    Option::Some((owner, i4)) => match spec_parse_lstr(s, i4, "room\n"@) {
                        Option::None => Option::None,
                        Option::Some((room, i5)) => match spec_parse_lnum(
                            s,
                            i5,
                            "global_cpu\n"@,
                        ) {
                            Option::None => Option::None,
                            Option::Some((global, i6)) => {
                                if global <= 0xFFFF_FFFF {
                                    spec_parse_machine_usage(
                                        s,
                                        i6,
                                        MachineDefinitionView { hostname, owner, room },
                                        global as u32,
                                    )
                                } else {
                                    Option::None
                                }
                            },
                        },
                    },
                },
            },
        },
    }
}

/// Consumes the usage part of a machine entry.
pub open spec fn spec_parse_machine_usage(
    s: Seq<char>,
    i: int,
    definition: MachineDefinitionView,
    global: u32,
) -> Option<(MachineUsageView, int)> {
    match spec_parse_lnum(s, i, "cpus\n"@) {
        Option::None => Option::None,
        Option::Some((ncpus, i7)) => match spec_parse_nums(s, i7, ncpus) {
            Option::None => Option::None,
            Option::Some((cpus, i8)) => match spec_parse_lnum(s, i8, "load_avg\n"@) {
                Option::None => Option::None,
                Option::Some((one, i9)) => match spec_parse_u64(s, i9) {
                    Option::None => Option::None,
                    Option::Some((five, i10)) => match spec_parse_u64(s, i10) {
                        Option::None => Option::None,
                        Option::Some((fifteen, i11)) => match spec_parse_lnum(s, i11, "mem\n"@) {
                            Option::None => Option::None,
                            Option::Some((total, i12)) => match spec_parse_u64(s, i12) {
                                Option::None => Option::None,
                                Option::Some((used, i13)) => match spec_parse_lnum(
                                    s,
                                    i13,
                                    "processes\n"@,
                                ) {
                                    Option::None => Option::None,
                                    Option::Some((nprocs, i14)) => match spec_parse_procs(
                                        s,
                                        i14,
                                        nprocs,
                                    ) {
                                        Option::None => Option::None,
                                        Option::Some((processes, i15)) => Option::Some(
                                            (
                                                MachineUsageView {
                                                    definition,
                                                    usage: UsageView {
                                                        global_cpu_usage: global,
                                                        cpus,
                                                        load_avg: LoadAvg { one, five, fifteen },
                                                        mem: Memory { total, used },
                                                        processes,
                                                    },
                                                },
                                                i15,
                                            ),
                                        ),
                                    },
                                },
                            },
                        },
                    },
                },
            },
        },
    }
}

/// Consumes `n` machine entries.
pub open spec fn spec_parse_machines(s: Seq<char>, i: int, n: u64) -> Option<
    (Seq<MachineUsageView>, int),
>
    decreases n,
{
    if n == 0 {
        Option::Some((Seq::empty(), i))
    } else {
        match spec_parse_machine(s, i) {
            Option::None => Option::None,
            Option::Some((m, j)) => match spec_parse_machines(s, j, (n - 1) as u64) {
                Option::None => Option::None,
                Option::Some((ms, k)) => Option::Some((seq![m] + ms, k)),
            },
        }
    }
}

/// Consumes a whole cluster snapshot.
pub open spec fn spec_parse_cluster(s: Seq<char>, i: int) -> Option<(ClusterDataView, int)> {
    match spec_parse_lit(s, i, "mu-cluster-snapshot\n"@) {
        Option::None => Option::None,
        Option::Some(i1) => match spec_parse_lnum(s, i1, "timestamp\n"@) {
            Option::None => Option::None,
            Option::Some((timestamp, i2)) => match spec_parse_lnum(s, i2, "machines\n"@) {
                Option::None => Option::None,
                Option::Some((n, i3)) => match spec_parse_machines(s, i3, n) {
                    Option::None => Option::None,
                    Option::Some((usage, i4)) => Option::Some(
                        (ClusterDataView { timestamp, usage }, i4),
                    ),
                },
            },
        },
    }
}

// ---------------------------------------------------------------------------
// Well-formedness for the round trip
// ---------------------------------------------------------------------------

pub open spec fn wf_owner(o: OwnerView) -> bool {
    match o {
        OwnerView::Member(n) => fits(n.len() as int),
        OwnerView::Visitor(n) => fits(n.len() as int),
        OwnerView::Student(n) => fits(n.len() as int),
        OwnerView::Reserve => true,
        OwnerView::Unowned => true,
    }
}

pub open spec fn wf_process(p: ProcessView) -> bool {
    fits(p.name.len() as int) && fits(p.user.len() as int)
}

pub open spec fn wf_machine(m: MachineUsageView) -> bool {
    &&& fits(m.definition.hostname.len() as int)
    &&& wf_owner(m.definition.owner)
    &&& fits(m.definition.room.len() as int)
    &&& fits(m.usage.cpus.len() as int)
    &&& fits(m.usage.processes.len() as int)
    &&& forall|k: int| 0 <= k < m.usage.processes.len() ==> wf_process(#[trigger] m.usage.processes[k])
}

/// Every value a serializer is given in memory satisfies this; it bounds
/// the lengths so that every count fits in a number token.
pub open spec fn wf_cluster_data(d: ClusterDataView) -> bool {
    &&& fits(d.usage.len() as int)
    &&& forall|k: int| 0 <= k < d.usage.len() ==> wf_machine(#[trigger] d.usage[k])
}

// ---------------------------------------------------------------------------
// Round-trip lemmas
// ---------------------------------------------------------------------------

pub proof fn lemma_parse_ser_owner(s: Seq<char>, i: int, o: OwnerView)
    requires
        0 <= i,
        wf_owner(o),
        i + ser_owner(o).len() <= s.len(),
        s.subrange(i, i + ser_owner(o).len()) == ser_owner(o),
    ensures
        spec_parse_owner(s, i) == Option::Some((o, i + ser_owner(o).len())),
{
    match o {
        OwnerView::Member(n) => {
            lemma_split_concat(s, i, ser_num(0), ser_str(n));
            lemma_parse_ser_num(s, i, 0);
            lemma_parse_ser_str(s, i + ser_num(0).len(), n);
        },
        OwnerView::Visitor(n) => {
            lemma_split_concat(s, i, ser_num(1), ser_str(n));
            lemma_parse_ser_num(s, i, 1);
            lemma_parse_ser_str(s, i + ser_num(1).len(), n);
        },
        OwnerView::Student(n) => {
            lemma_split_concat(s, i, ser_num(2), ser_str(n));
            lemma_parse_ser_num(s, i, 2);
            lemma_parse_ser_str(s, i + ser_num(2).len(), n);
        },
        OwnerView::Reserve => {
            lemma_parse_ser_num(s, i, 3);
        },
        OwnerView::Unowned => {
            lemma_parse_ser_num(s, i, 4);
        },
    }
}

pub proof fn lemma_parse_ser_process(s: Seq<char>, i: int, p: ProcessView)
    requires
        0 <= i,
        wf_process(p),
        i + ser_process(p).len() <= s.len(),
        s.subrange(i, i + ser_process(p).len()) == ser_process(p),
    ensures
        spec_parse_process(s, i) == Option::Some((p, i + ser_process(p).len())),
{
    let lit = "process\n"@;
    let rest1 = ser_str(p.name) + (ser_str(p.user) + ser_num(p.usage as int));
    lemma_split_concat(s, i, lit, rest1);
    lemma_parse_ser_lit(s, i, lit);
    let i1 = i + lit.len();
    let rest2 = ser_str(p.user) + ser_num(p.usage as int);
    lemma_split_concat(s, i1, ser_str(p.name), rest2);
    lemma_parse_ser_str(s, i1, p.name);
    let i2 = i1 + ser_str(p.name).len();
    lemma_split_concat(s, i2, ser_str(p.user), ser_num(p.usage as int));
    lemma_parse_ser_str(s, i2, p.user);
    let i3 = i2 + ser_str(p.user).len();
    lemma_parse_ser_num(s, i3, p.usage as u64);
}

pub proof fn lemma_parse_ser_procs(s: Seq<char>, i: int, ps: Seq<ProcessView>)
    requires
        0 <= i,
        fits(ps.len() as int),
        forall|k: int| 0 <= k < ps.len() ==> wf_process(#[trigger] ps[k]),
        i + ser_procs(ps).len() <= s.len(),
        s.subrange(i, i + ser_procs(ps).len()) == ser_procs(ps),
    ensures
        spec_parse_procs(s, i, ps.len() as u64) == Option::Some((ps, i + ser_procs(ps).len())),
    decreases ps.len(),
{
    if ps.len() == 0 {
        assert(ps =~= Seq::<ProcessView>::empty());
    } else {
        lemma_split_concat(s, i, ser_process(ps[0]), ser_procs(ps.skip(1)));
        lemma_parse_ser_process(s, i, ps[0]);
        let j = i + ser_process(ps[0]).len();
        assert(forall|k: int| 0 <= k < ps.skip(1).len() ==> wf_process(#[trigger] ps.skip(1)[k]));
        lemma_parse_ser_procs(s, j, ps.skip(1));
        assert(seq![ps[0]] + ps.skip(1) =~= ps);
    }
}

pub proof fn lemma_parse_ser_nums(s: Seq<char>, i: int, ns: Seq<u32>)
    requires
        0 <= i,
        fits(ns.len() as int),
        i + ser_nums(ns).len() <= s.len(),
        s.subrange(i, i + ser_nums(ns).len()) == ser_nums(ns),
    ensures
        spec_parse_nums(s, i, ns.len() as u64) == Option::Some((ns, i + ser_nums(ns).len())),
    decreases ns.len(),
{
    if ns.len() == 0 {
        assert(ns =~= Seq::<u32>::empty());
    } else {
        lemma_split_concat(s, i, ser_num(ns[0] as int), ser_nums(ns.skip(1)));
        lemma_parse_ser_num(s, i, ns[0] as u64);
        let j = i + ser_num(ns[0] as int).len();
        lemma_parse_ser_nums(s, j, ns.skip(1));
        assert(seq![ns[0]] + ns.skip(1) =~= ns);
    }
}

#[verifier::rlimit(60)]
#[verifier::spinoff_prover]
pub proof fn lemma_parse_ser_machine(s: Seq<char>, i: int, m: MachineUsageView)
    requires
        0 <= i,
        wf_machine(m),
        i + ser_machine(m).len() <= s.len(),
        s.subrange(i, i + ser_machine(m).len()) == ser_machine(m),
    ensures
        spec_parse_machine(s, i) == Option::Some((m, i + ser_machine(m).len())),
{
    let q1 = "machine\n"@;
    let q2 = "hostname\n"@;
    let q3 = ser_str(m.definition.hostname);
    let q4 = "owner\n"@;
    let q5 = ser_owner(m.definition.owner);
    let q6 = "room\n"@;
    let q7 = ser_str(m.definition.room);
    let q8 = "global_cpu\n"@;
    let q9 = ser_num(m.usage.global_cpu_usage as int);
    let q10 = "cpus\n"@;
    let q11 = ser_num(m.usage.cpus.len() as int);
    let q12 = ser_nums(m.usage.cpus);
    let q13 = "load_avg\n"@;
    let q14 = ser_num(m.usage.load_avg.one as int);
    let q15 = ser_num(m.usage.load_avg.five as int);
    let q16 = ser_num(m.usage.load_avg.fifteen as int);
    let q17 = "mem\n"@;
    let q18 = ser_num(m.usage.mem.total as int);
    let q19 = ser_num(m.usage.mem.used as int);
    let q20 = "processes\n"@;
    let q21 = ser_num(m.usage.processes.len() as int);
    let q22 = ser_procs(m.usage.processes);
    reveal(ser_machine);
    let r22 = q22;
    let r21 = q21 + r22;
    let r20 = q20 + r21;
    let r19 = q19 + r20;
    let r18 = q18 + r19;
    let r17 = q17 + r18;
    let r16 = q16 + r17;
    let r15 = q15 + r16;
    let r14 = q14 + r15;
    let r13 = q13 + r14;
    let r12 = q12 + r13;
    let r11 = q11 + r12;
    let r10 = q10 + r11;
    let r9 = q9 + r10;
    let r8 = q8 + r9;
    let r7 = q7 + r8;
    let r6 = q6 + r7;
    let r5 = q5 + r6;
    let r4 = q4 + r5;
    let r3 = q3 + r4;
    let r2 = q2 + r3;
    assert(ser_machine(m) == q1 + r2);
    lemma_split_concat(s, i, q1, r2);
    lemma_parse_ser_lit(s, i, q1);
    let j2 = i + q1.len();
    lemma_split_concat(s, j2, q2, r3);
    lemma_parse_ser_lit(s, j2, q2);
    let j3 = j2 + q2.len();
    lemma_split_concat(s, j3, q3, r4);
    lemma_parse_ser_str(s, j3, m.definition.hostname);
    let j4 = j3 + q3.len();
    lemma_split_concat(s, j4, q4, r5);
    lemma_parse_ser_lit(s, j4, q4);
    let j5 = j4 + q4.len();
    lemma_split_concat(s, j5, q5, r6);
    lemma_parse_ser_owner(s, j5, m.definition.owner);
    let j6 = j5 + q5.len();
    lemma_split_concat(s, j6, q6, r7);
    lemma_parse_ser_lit(s, j6, q6);
    let j7 = j6 + q6.len();
    lemma_split_concat(s, j7, q7, r8);
    lemma_parse_ser_str(s, j7, m.definition.room);
    let j8 = j7 + q7.len();
    lemma_split_concat(s, j8, q8, r9);
    lemma_parse_ser_lit(s, j8, q8);
    let j9 = j8 + q8.len();
    lemma_split_concat(s, j9, q9, r10);
    lemma_parse_ser_num(s, j9, m.usage.global_cpu_usage as u64);
    let j10 = j9 + q9.len();
    lemma_split_concat(s, j10, q10, r11);
    lemma_parse_ser_lit(s, j10, q10);
    let j11 = j10 + q10.len();
    lemma_split_concat(s, j11, q11, r12);
    lemma_parse_ser_num(s, j11, m.usage.cpus.len() as u64);
    let j12 = j11 + q11.len();
    lemma_split_concat(s, j12, q12, r13);
    lemma_parse_ser_nums(s, j12, m.usage.cpus);
    let j13 = j12 + q12.len();
    lemma_split_concat(s, j13, q13, r14);
    lemma_parse_ser_lit(s, j13, q13);
    let j14 = j13 + q13.len();
    lemma_split_concat(s, j14, q14, r15);
    lemma_parse_ser_num(s, j14, m.usage.load_avg.one);
    let j15 = j14 + q14.len();
    lemma_split_concat(s, j15, q15, r16);
    lemma_parse_ser_num(s, j15, m.usage.load_avg.five);
    let j16 = j15 + q15.len();
    lemma_split_concat(s, j16, q16, r17);
    lemma_parse_ser_num(s, j16, m.usage.load_avg.fifteen);
    let j17 = j16 + q16.len();
    lemma_split_concat(s, j17, q17, r18);
    lemma_parse_ser_lit(s, j17, q17);
    let j18 = j17 + q17.len();
    lemma_split_concat(s, j18, q18, r19);
    lemma_parse_ser_num(s, j18, m.usage.mem.total);
    let j19 = j18 + q18.len();
    lemma_split_concat(s, j19, q19, r20);
    lemma_parse_ser_num(s, j19, m.usage.mem.used);
    let j20 = j19 + q19.len();
    lemma_split_concat(s, j20, q20, r21);
    lemma_parse_ser_lit(s, j20, q20);
    let j21 = j20 + q20.len();
    lemma_split_concat(s, j21, q21, r22);
    lemma_parse_ser_num(s, j21, m.usage.processes.len() as u64);
    let j22 = j21 + q21.len();
    lemma_parse_ser_procs(s, j22, m.usage.processes);
}

#[verifier::rlimit(60)]
#[verifier::spinoff_prover]
pub proof fn lemma_parse_ser_machines(s: Seq<char>, i: int, ms: Seq<MachineUsageView>)
    requires
        0 <= i,
        fits(ms.len() as int),
        forall|k: int| 0 <= k < ms.len() ==> wf_machine(#[trigger] ms[k]),
        i + ser_machines(ms).len() <= s.len(),
        s.subrange(i, i + ser_machines(ms).len()) == ser_machines(ms),
    ensures
        spec_parse_machines(s, i, ms.len() as u64) == Option::Some(
            (ms, i + ser_machines(ms).len()),
        ),
    decreases ms.len(),
{
    if ms.len() == 0 {
        assert(ms =~= Seq::<MachineUsageView>::empty());
    } else {
        lemma_split_concat(s, i, ser_machine(ms[0]), ser_machines(ms.skip(1)));
        lemma_parse_ser_machine(s, i, ms[0]);
        let j = i + ser_machine(ms[0]).len();
        assert(forall|k: int| 0 <= k < ms.skip(1).len() ==> wf_machine(#[trigger] ms.skip(1)[k]));
        lemma_parse_ser_machines(s, j, ms.skip(1));
        assert(seq![ms[0]] + ms.skip(1) =~= ms);
    }
}

/// Parsing a serialized cluster snapshot placed at `i` returns the original
/// value and stops right after it.
#[verifier::rlimit(60)]
#[verifier::spinoff_prover]
pub proof fn lemma_parse_ser_cluster(s: Seq<char>, i: int, d: ClusterDataView)
    requires
        0 <= i,
        wf_cluster_data(d),
        i + spec_ser_cluster(d).len() <= s.len(),
        s.subrange(i, i + spec_ser_cluster(d).len()) == spec_ser_cluster(d),
    ensures
        spec_parse_cluster(s, i) == Option::Some((d, i + spec_ser_cluster(d).len())),
{
    let q1 = "mu-cluster-snapshot\n"@;
    let q2 = "timestamp\n"@;
    let q3 = ser_num(d.timestamp as int);
    let q4 = "machines\n"@;
    let q5 = ser_num(d.usage.len() as int);
    let q6 = ser_machines(d.usage);
    let r6 = q6;
    let r5 = q5 + r6;
    let r4 = q4 + r5;
    let r3 = q3 + r4;
    let r2 = q2 + r3;
    assert(spec_ser_cluster(d) == q1 + r2) by {
        assert(ser_lnum(q2, d.timestamp as int) == q2 + q3);
        assert(ser_lnum(q4, d.usage.len() as int) == q4 + q5);
        assert(q1 + ((q2 + q3) + ((q4 + q5) + q6)) =~= q1 + (q2 + (q3 + (q4 + (q5 + q6)))));
    }
    lemma_split_concat(s, i, q1, r2);
    lemma_parse_ser_lit(s, i, q1);
    let j2 = i + q1.len();
    lemma_split_concat(s, j2, q2, r3);
    lemma_parse_ser_lit(s, j2, q2);
    let j3 = j2 + q2.len();
    lemma_split_concat(s, j3, q3, r4);
    lemma_parse_ser_num(s, j3, d.timestamp);
    let j4 = j3 + q3.len();
    lemma_split_concat(s, j4, q4, r5);
    lemma_parse_ser_lit(s, j4, q4);
    let j5 = j4 + q4.len();
    lemma_split_concat(s, j5, q5, r6);
    lemma_parse_ser_num(s, j5, d.usage.len() as u64);
    let j6 = j5 + q5.len();
    lemma_parse_ser_machines(s, j6, d.usage);
}

/// Parsing a serialized cluster snapshot returns the original value and
/// consumes the whole text: the wire format round-trips.
pub proof fn lemma_codec_round_trip(d: ClusterDataView)
    requires
        wf_cluster_data(d),
    ensures
        spec_parse_cluster(spec_ser_cluster(d), 0) == Option::Some(
            (d, spec_ser_cluster(d).len() as int),
        ),
{
    let s = spec_ser_cluster(d);
    assert(s.subrange(0, s.len() as int) =~= s);
    lemma_parse_ser_cluster(s, 0, d);
}

// ---------------------------------------------------------------------------
// Executable serializer
// ---------------------------------------------------------------------------

proof fn lemma_ser_nums_push(ns: Seq<u32>, x: u32)
    ensures
        ser_nums(ns.push(x)) == ser_nums(ns) + ser_num(x as int),
    decreases ns.len(),
{
    reveal_with_fuel(ser_nums, 3);
    if ns.len() == 0 {
        assert(ns.push(x)[0] == x);
        assert(ns.push(x).skip(1) =~= Seq::<u32>::empty());
        assert(ser_nums(ns.push(x)) =~= ser_nums(ns) + ser_num(x as int));
    } else {
        assert(ns.push(x)[0] == ns[0]);
        assert(ns.push(x).skip(1) =~= ns.skip(1).push(x));
        lemma_ser_nums_push(ns.skip(1), x);
        let a = ser_num(ns[0] as int);
        let b = ser_nums(ns.skip(1));
        let c = ser_num(x as int);
        assert(ser_nums(ns.push(x)) == a + ser_nums(ns.skip(1).push(x)));
        assert(ser_nums(ns.skip(1).push(x)) == b + c);
        assert(a + (b + c) =~= (a + b) + c);
        assert(ser_nums(ns) == a + b);
    }
}

proof fn lemma_ser_procs_push(ps: Seq<ProcessView>, p: ProcessView)
    ensures
        ser_procs(ps.push(p)) == ser_procs(ps) + ser_process(p),
    decreases ps.len(),
{
    reveal_with_fuel(ser_procs, 3);
    if ps.len() == 0 {
        assert(ps.push(p)[0] == p);
        assert(ps.push(p).skip(1) =~= Seq::<ProcessView>::empty());
        assert(ser_procs(ps.push(p)) =~= ser_procs(ps) + ser_process(p));
    } else {
        assert(ps.push(p)[0] == ps[0]);
        assert(ps.push(p).skip(1) =~= ps.skip(1).push(p));
        lemma_ser_procs_push(ps.skip(1), p);
        let a = ser_process(ps[0]);
        let b = ser_procs(ps.skip(1));
        let c = ser_process(p);
        assert(ser_procs(ps.push(p)) == a + ser_procs(ps.skip(1).push(p)));
        assert(ser_procs(ps.skip(1).push(p)) == b + c);
        assert(a + (b + c) =~= (a + b) + c);
        assert(ser_procs(ps) == a + b);
    }
}

proof fn lemma_ser_machines_push(ms: Seq<MachineUsageView>, m: MachineUsageView)
    ensures
        ser_machines(ms.push(m)) == ser_machines(ms) + ser_machine(m),
    decreases ms.len(),
{
    reveal_with_fuel(ser_machines, 3);
    if ms.len() == 0 {
        assert(ms.push(m)[0] == m);
        assert(ms.push(m).skip(1) =~= Seq::<MachineUsageView>::empty());
        assert(ser_machines(ms.push(m)) =~= ser_machines(ms) + ser_machine(m));
    } else {
        assert(ms.push(m)[0] == ms[0]);
        assert(ms.push(m).skip(1) =~= ms.skip(1).push(m));
        lemma_ser_machines_push(ms.skip(1), m);
        let a = ser_machine(ms[0]);
        let b = ser_machines(ms.skip(1));
        let c = ser_machine(m);
        assert(ser_machines(ms.push(m)) == a + ser_machines(ms.skip(1).push(m)));
        assert(ser_machines(ms.skip(1).push(m)) == b + c);
        assert(a + (b + c) =~= (a + b) + c);
        assert(ser_machines(ms) == a + b);
    }
}

/// Appends a serialized owner.
fn write_owner(out: String, o: &Owner) -> (r: String)
    ensures
        r@ == out@ + ser_owner(o@),
{
    match o {
        Owner::Member(n) => {
            let r = write_num(out, 0);
            let r = write_str(r, n.as_str());
            proof {
                assert(r@ =~= out@ + ser_owner(o@));
            }
            r
        },
        Owner::Visitor(n) => {
            let r = write_num(out, 1);
            let r = write_str(r, n.as_str());
            proof {
                assert(r@ =~= out@ + ser_owner(o@));
            }
            r
        },
        Owner::Student(n) => {
            let r = write_num(out, 2);
            let r = write_str(r, n.as_str());
            proof {
                assert(r@ =~= out@ + ser_owner(o@));
            }
            r
        },
        Owner::Reserve => write_num(out, 3),
        Owner::Unowned => write_num(out, 4),
    }
}

/// Appends a serialized sample.
fn write_process(out: String, p: &Process) -> (r: String)
    ensures
        r@ == out@ + ser_process(p@),
{
    let r = out.concat("process\n");
    let r = write_str(r, p.name.as_str());
    let r = write_str(r, p.user.as_str());
    let r = write_num(r, p.usage as u64);
    proof {
        assert(r@ =~= out@ + ser_process(p@));
    }
    r
}

/// Appends the identity fields of a machine entry.
fn write_machine_ident(out: String, m: &MachineUsage) -> (r: String)
    ensures
        r@ == out@ + ("machine\n"@ + ("hostname\n"@ + (ser_str(m@.definition.hostname) + (
        "owner\n"@ + (ser_owner(m@.definition.owner) + ("room\n"@ + ser_str(
            m@.definition.room,
        ))))))),
{
    let ghost q1 = "machine\n"@;
    let ghost q2 = "hostname\n"@;
    let ghost q3 = ser_str(m@.definition.hostname);
    let ghost q4 = "owner\n"@;
    let ghost q5 = ser_owner(m@.definition.owner);
    let ghost q6 = "room\n"@;
    let ghost q7 = ser_str(m@.definition.room);
    let ghost r7 = q7;
    let ghost r6 = q6 + r7;
    let ghost r5 = q5 + r6;
    let ghost r4 = q4 + r5;
    let ghost r3 = q3 + r4;
    let ghost r2 = q2 + r3;
    let ghost t = out@ + (q1 + r2);
    let x1 = out.concat("machine\n");
    proof {
        assert(x1@ + r2 =~= out@ + (q1 + r2));
    }
    let x2 = x1.concat("hostname\n");
    proof {
        assert(x2@ + r3 =~= x1@ + (q2 + r3));
        assert(x2@ + r3 == t);
    }
    let x3 = write_str(x2, m.definition.hostname.as_str());
    proof {
        assert(x3@ + r4 =~= x2@ + (q3 + r4));
        assert(x3@ + r4 == t);
    }
    let x4 = x3.concat("owner\n");
    proof {
        assert(x4@ + r5 =~= x3@ + (q4 + r5));
        assert(x4@ + r5 == t);
    }
    let x5 = write_owner(x4, &m.definition.owner);
    proof {
        assert(x5@ + r6 =~= x4@ + (q5 + r6));
        assert(x5@ + r6 == t);
    }
    let x6 = x5.concat("room\n");
    proof {
        assert(x6@ + r7 =~= x5@ + (q6 + r7));
        assert(x6@ + r7 == t);
    }
    let x7 = write_str(x6, m.definition.room.as_str());
    proof {
        assert(x7@ =~= x6@ + q7);
        assert(x7@ == t);
    }
    x7
}

/// Appends the CPU fields of a machine entry.
fn write_machine_cpu(out: String, m: &MachineUsage) -> (r: String)
    ensures
        r@ == out@ + ("global_cpu\n"@ + (ser_num(m@.usage.global_cpu_usage as int) + ("cpus\n"@
            + (ser_num(m@.usage.cpus.len() as int) + ser_nums(m@.usage.cpus))))),
{
    let ghost q8 = "global_cpu\n"@;
    let ghost q9 = ser_num(m@.usage.global_cpu_usage as int);
    let ghost q10 = "cpus\n"@;
    let ghost q11 = ser_num(m@.usage.cpus.len() as int);
    let ghost q12 = ser_nums(m@.usage.cpus);
    let ghost r12 = q12;
    let ghost r11 = q11 + r12;
    let ghost r10 = q10 + r11;
    let ghost r9 = q9 + r10;
    let ghost t = out@ + (q8 + r9);
    let x8 = out.concat("global_cpu\n");
    proof {
        assert(x8@ + r9 =~= out@ + (q8 + r9));
    }
    let x9 = write_num(x8, m.usage.global_cpu_usage as u64);
    proof {
        assert(x9@ + r10 =~= x8@ + (q9 + r10));
        assert(x9@ + r10 == t);
    }
    let x10 = x9.concat("cpus\n");
    proof {
        assert(x10@ + r11 =~= x9@ + (q10 + r11));
        assert(x10@ + r11 == t);
    }
    let x11 = write_num(x10, m.usage.cpus.len() as u64);
    proof {
        assert(x11@ + r12 =~= x10@ + (q11 + r12));
        assert(x11@ + r12 == t);
    }
    let ghost base = x11@;
    let mut x12 = x11;
    let mut i: usize = 0;
    proof {
        assert(m.usage.cpus@.subrange(0, 0) =~= Seq::<u32>::empty());
        assert(base + ser_nums(m.usage.cpus@.subrange(0, 0)) =~= base);
    }
    while i < m.usage.cpus.len()
        invariant
            0 <= i <= m.usage.cpus@.len(),
            x12@ == base + ser_nums(m.usage.cpus@.subrange(0, i as int)),
        decreases m.usage.cpus@.len() - i,
    {
        x12 = write_num(x12, m.usage.cpus[i] as u64);
        proof {
            lemma_ser_nums_push(m.usage.cpus@.subrange(0, i as int), m.usage.cpus@[i as int]);
            assert(m.usage.cpus@.subrange(0, i as int).push(m.usage.cpus@[i as int])
                =~= m.usage.cpus@.subrange(0, i + 1));
            assert(x12@ =~= base + ser_nums(m.usage.cpus@.subrange(0, i + 1)));
        }
        i = i + 1;
    }
    proof {
        assert(m.usage.cpus@.subrange(0, m.usage.cpus@.len() as int) =~= m.usage.cpus@);
        assert(x12@ == x11@ + q12);
        assert(x12@ == t);
    }
    x12
}

/// Appends the load, memory and sample fields of a machine entry.
fn write_machine_tail(out: String, m: &MachineUsage) -> (r: String)
    ensures
        r@ == out@ + ("load_avg\n"@ + (ser_num(m@.usage.load_avg.one as int) + (ser_num(
            m@.usage.load_avg.five as int,
        ) + (ser_num(m@.usage.load_avg.fifteen as int) + ("mem\n"@ + (ser_num(
            m@.usage.mem.total as int,
        ) + (ser_num(m@.usage.mem.used as int) + ("processes\n"@ + (ser_num(
            m@.usage.processes.len() as int,
        ) + ser_procs(m@.usage.processes)))))))))),
{
    let ghost q13 = "load_avg\n"@;
    let ghost q14 = ser_num(m@.usage.load_avg.one as int);
    let ghost q15 = ser_num(m@.usage.load_avg.five as int);
    let ghost q16 = ser_num(m@.usage.load_avg.fifteen as int);
    let ghost q17 = "mem\n"@;
    let ghost q18 = ser_num(m@.usage.mem.total as int);
    let ghost q19 = ser_num(m@.usage.mem.used as int);
    let ghost q20 = "processes\n"@;
    let ghost q21 = ser_num(m@.usage.processes.len() as int);
    let ghost q22 = ser_procs(m@.usage.processes);
    let ghost r22 = q22;
    let ghost r21 = q21 + r22;
    let ghost r20 = q20 + r21;
    let ghost r19 = q19 + r20;
    let ghost r18 = q18 + r19;
    let ghost r17 = q17 + r18;
    let ghost r16 = q16 + r17;
    let ghost r15 = q15 + r16;
    let ghost r14 = q14 + r15;
    let ghost t = out@ + (q13 + r14);
    let x13 = out.concat("load_avg\n");
    proof {
        assert(x13@ + r14 =~= out@ + (q13 + r14));
    }
    let x14 = write_num(x13, m.usage.load_avg.one);
    proof {
        assert(x14@ + r15 =~= x13@ + (q14 + r15));
        assert(x14@ + r15 == t);
    }
    let x15 = write_num(x14, m.usage.load_avg.five);
    proof {
        assert(x15@ + r16 =~= x14@ + (q15 + r16));
        assert(x15@ + r16 == t);
    }
    let x16 = write_num(x15, m.usage.load_avg.fifteen);
    proof {
        assert(x16@ + r17 =~= x15@ + (q16 + r17));
        assert(x16@ + r17 == t);
    }
    let x17 = x16.concat("mem\n");
    proof {
        assert(x17@ + r18 =~= x16@ + (q17 + r18));
        assert(x17@ + r18 == t);
    }
    let x18 = write_num(x17, m.usage.mem.total);
    proof {
        assert(x18@ + r19 =~= x17@ + (q18 + r19));
        assert(x18@ + r19 == t);
    }
    let x19 = write_num(x18, m.usage.mem.used);
    proof {
        assert(x19@ + r20 =~= x18@ + (q19 + r20));
        assert(x19@ + r20 == t);
    }
    let x20 = x19.concat("processes\n");
    proof {
        assert(x20@ + r21 =~= x19@ + (q20 + r21));
        assert(x20@ + r21 == t);
    }
    let x21 = write_num(x20, m.usage.processes.len() as u64);
    proof {
        assert(x21@ + r22 =~= x20@ + (q21 + r22));
        assert(x21@ + r22 == t);
    }
    let ghost base2 = x21@;
    let mut x22 = x21;
    let mut j: usize = 0;
    proof {
        assert(m.usage.processes@.subrange(0, 0) =~= Seq::<ProcessView>::empty());
        assert(base2 + ser_procs(m.usage.processes@.subrange(0, 0)) =~= base2);
    }
    while j < m.usage.processes.0.len()
        invariant
            0 <= j <= m.usage.processes@.len(),
            x22@ == base2 + ser_procs(m.usage.processes@.subrange(0, j as int)),
        decreases m.usage.processes@.len() - j,
    {
        x22 = write_process(x22, &m.usage.processes.0[j]);
        proof {
            lemma_ser_procs_push(
                m.usage.processes@.subrange(0, j as int),
                m.usage.processes@[j as int],
            );
            assert(m.usage.processes@.subrange(0, j as int).push(m.usage.processes@[j as int])
                =~= m.usage.processes@.subrange(0, j + 1));
            assert(x22@ =~= base2 + ser_procs(m.usage.processes@.subrange(0, j + 1)));
        }
        j = j + 1;
    }
    proof {
        assert(m.usage.processes@.subrange(0, m.usage.processes@.len() as int)
            =~= m.usage.processes@);
        assert(x22@ == x21@ + q22);
        assert(x22@ == t);
    }
    x22
}

/// Appends a serialized machine entry.
#[verifier::rlimit(60)]
#[verifier::spinoff_prover]
fn write_machine(out: String, m: &MachineUsage) -> (r: String)
    ensures
        r@ == out@ + ser_machine(m@),
{
    let ghost ga = "machine\n"@ + ("hostname\n"@ + (ser_str(m@.definition.hostname) + (
    "owner\n"@ + (ser_owner(m@.definition.owner) + ("room\n"@ + ser_str(
        m@.definition.room,
    ))))));
    let ghost gb = "global_cpu\n"@ + (ser_num(m@.usage.global_cpu_usage as int) + ("cpus\n"@ + (
    ser_num(m@.usage.cpus.len() as int) + ser_nums(m@.usage.cpus))));
    let ghost gc = "load_avg\n"@ + (ser_num(m@.usage.load_avg.one as int) + (ser_num(
        m@.usage.load_avg.five as int,
    ) + (ser_num(m@.usage.load_avg.fifteen as int) + ("mem\n"@ + (ser_num(
        m@.usage.mem.total as int,
    ) + (ser_num(m@.usage.mem.used as int) + ("processes\n"@ + (ser_num(
        m@.usage.processes.len() as int,
    ) + ser_procs(m@.usage.processes)))))))));
    let a = write_machine_ident(out, m);
    let b = write_machine_cpu(a, m);
    let c = write_machine_tail(b, m);
    proof {
        reveal(ser_machine);
        assert(ser_machine(m@) =~= ga + (gb + gc));
        assert(c@ =~= out@ + (ga + (gb + gc)));
    }
    c
}

impl ClusterData {
    /// Serializes the snapshot to the wire format.
    pub fn serialize(&self) -> (r: String)
        ensures
            r@ == spec_ser_cluster(self@),
    {
        let r = String::from_str("mu-cluster-snapshot\n");
        let r = r.concat("timestamp\n");
        let r = write_num(r, self.timestamp);
        let r = r.concat("machines\n");
        let r = write_num(r, self.usage.0.len() as u64);
        let ghost base = r@;
        let mut r = r;
        let mut i: usize = 0;
        proof {
            assert(self@.usage.subrange(0, 0) =~= Seq::<MachineUsageView>::empty());
            assert(base + ser_machines(self@.usage.subrange(0, 0)) =~= base);
        }
        while i < self.usage.0.len()
            invariant
                0 <= i <= self.usage.0@.len(),
                self@.usage == self.usage.0@.map_values(|m: MachineUsage| m@),
                r@ == base + ser_machines(self@.usage.subrange(0, i as int)),
            decreases self.usage.0@.len() - i,
        {
            r = write_machine(r, &self.usage.0[i]);
            proof {
                lemma_ser_machines_push(self@.usage.subrange(0, i as int), self@.usage[i as int]);
                assert(self@.usage.subrange(0, i as int).push(self@.usage[i as int])
                    =~= self@.usage.subrange(0, i + 1));
                assert(r@ =~= base + ser_machines(self@.usage.subrange(0, i + 1)));
            }
            i = i + 1;
        }
        proof {
            assert(self@.usage.subrange(0, self@.usage.len() as int) =~= self@.usage);
            assert(r@ =~= spec_ser_cluster(self@));
        }
        r
    }
}

// ---------------------------------------------------------------------------
// Executable parser
// ---------------------------------------------------------------------------

/// Decides [`spec_parse_owner`].
fn parse_owner(s: &str, i: usize) -> (r: Option<(Owner, usize)>)
    requires
        i <= s@.len(),
    ensures
        match r {
            Option::Some((v, j)) => spec_parse_owner(s@, i as int) == Option::Some(
                (v@, j as int),
            ) && i <= j <= s@.len(),
            Option::None => spec_parse_owner(s@, i as int) is None,
        },
{
    match parse_u64(s, i) {
        Option::None => Option::None,
        Option::Some((tag, j)) => {
            if tag == 0 || tag == 1 || tag == 2 {
                match parse_str(s, j) {
                    Option::None => Option::None,
                    Option::Some((n, k)) => {
                        let o = if tag == 0 {
                            Owner::Member(n)
                        } else if tag == 1 {
                            Owner::Visitor(n)
                        } else {
                            Owner::Student(n)
                        };
                        Option::Some((o, k))
                    },
                }
            } else if tag == 3 {
                Option::Some((Owner::Reserve, j))
            } else if tag == 4 {
                Option::Some((Owner::Unowned, j))
            } else {
                Option::None
            }
        },
    }
}

/// Decides [`spec_parse_process`].
fn parse_process(s: &str, i: usize) -> (r: Option<(Process, usize)>)
    requires
        i <= s@.len(),
    ensures
        match r {
            Option::Some((v, j)) => spec_parse_process(s@, i as int) == Option::Some(
                (v@, j as int),
            ) && i <= j <= s@.len(),
            Option::None => spec_parse_process(s@, i as int) is None,
        },
{
    match parse_lit(s, i, "process\n") {
        Option::None => Option::None,
        Option::Some(j) => match parse_str(s, j) {
            Option::None => Option::None,
            Option::Some((name, k)) => match parse_str(s, k) {
                Option::None => Option::None,
                Option::Some((user, l)) => match parse_u64(s, l) {
                    Option::None => Option::None,
                    Option::Some((usage, m)) => {
                        if usage <= 0xFFFF_FFFF {
                            Option::Some((Process { name, user, usage: usage as u32 }, m))
                        } else {
                            Option::None
                        }
                    },
                },
            },
        },
    }
}

/// Prepends already-parsed readings to a parse result.
pub open spec fn nums_ext(acc: Seq<u32>, r: Option<(Seq<u32>, int)>) -> Option<(Seq<u32>, int)> {
    match r {
        Option::None => Option::None,
        Option::Some((v, j)) => Option::Some((acc + v, j)),
    }
}

/// Decides [`spec_parse_nums`].
fn parse_nums(s: &str, i: usize, n: u64) -> (r: Option<(Vec<u32>, usize)>)
    requires
        i <= s@.len(),
    ensures
        match r {
            Option::Some((v, j)) => spec_parse_nums(s@, i as int, n) == Option::Some(
                (v@, j as int),
            ) && i <= j <= s@.len(),
            Option::None => spec_parse_nums(s@, i as int, n) is None,
        },
{
    let mut out: Vec<u32> = Vec::new();
    let mut cur: usize = i;
    let mut k: u64 = 0;
    proof {
        assert(out@ =~= Seq::<u32>::empty());
    }
    while k < n
        invariant
            i <= cur <= s@.len(),
            0 <= k <= n,
            spec_parse_nums(s@, i as int, n) == nums_ext(
                out@,
                spec_parse_nums(s@, cur as int, (n - k) as u64),
            ),
        decreases n - k,
    {
        let ghost outv = out@;
        match parse_u64(s, cur) {
            Option::None => {
                return Option::None;
            },
            Option::Some((v, j)) => {
                if v > 0xFFFF_FFFF {
                    return Option::None;
                }
                out.push(v as u32);
                proof {
                    let rest = spec_parse_nums(s@, j as int, (n - k - 1) as u64);
                    assert(out@ =~= outv.push(v as u32));
                    match rest {
                        Option::None => {},
                        Option::Some((vs, e)) => {
                            assert(outv + (seq![v as u32] + vs) =~= outv.push(v as u32) + vs);
                        },
                    }
                }
                cur = j;
            },
        }
        k = k + 1;
    }
    proof {
        assert(out@ + Seq::<u32>::empty() =~= out@);
    }
    Option::Some((out, cur))
}

/// Prepends already-parsed samples to a parse result.
pub open spec fn procs_ext(acc: Seq<ProcessView>, r: Option<(Seq<ProcessView>, int)>) -> Option<
    (Seq<ProcessView>, int),
> {
    match r {
        Option::None => Option::None,
        Option::Some((v, j)) => Option::Some((acc + v, j)),
    }
}

/// Decides [`spec_parse_procs`].
fn parse_procs(s: &str, i: usize, n: u64) -> (r: Option<(Vec<Process>, usize)>)
    requires
        i <= s@.len(),
    ensures
        match r {
            Option::Some((v, j)) => spec_parse_procs(s@, i as int, n) == Option::Some(
                (v@.map_values(|p: Process| p@), j as int),
            ) && i <= j <= s@.len(),
            Option::None => spec_parse_procs(s@, i as int, n) is None,
        },
{
    let mut out: Vec<Process> = Vec::new();
    let mut cur: usize = i;
    let mut k: u64 = 0;
    proof {
        assert(out@.map_values(|p: Process| p@) =~= Seq::<ProcessView>::empty());
    }
    while k < n
        invariant
            i <= cur <= s@.len(),
            0 <= k <= n,
            spec_parse_procs(s@, i as int, n) == procs_ext(
                out@.map_values(|p: Process| p@),
                spec_parse_procs(s@, cur as int, (n - k) as u64),
            ),
        decreases n - k,
    {
        let ghost outv = out@.map_values(|p: Process| p@);
        match parse_process(s, cur) {
            Option::None => {
                return Option::None;
            },
            Option::Some((p, j)) => {
                let ghost pv = p@;
                out.push(p);
                proof {
                    let rest = spec_parse_procs(s@, j as int, (n - k - 1) as u64);
                    assert(out@.map_values(|q: Process| q@) =~= outv.push(pv));
                    match rest {
                        Option::None => {},
                        Option::Some((ps, e)) => {
                            assert(outv + (seq![pv] + ps) =~= outv.push(pv) + ps);
                        },
                    }
                }
                cur = j;
            },
        }
        k = k + 1;
    }
    proof {
        assert(out@.map_values(|p: Process| p@) + Seq::<ProcessView>::empty() =~= out@.map_values(
            |p: Process| p@,
        ));
    }
    Option::Some((out, cur))
}

/// Decides [`spec_parse_machine`].
fn parse_machine(s: &str, i: usize) -> (r: Option<(MachineUsage, usize)>)
    requires
        i <= s@.len(),
    ensures
        match r {
            Option::Some((v, j)) => spec_parse_machine(s@, i as int) == Option::Some(
                (v@, j as int),
            ) && i <= j <= s@.len(),
            Option::None => spec_parse_machine(s@, i as int) is None,
        },
{
    let i1 = match parse_lit(s, i, "machine\n") {
        Option::None => {
            return Option::None;
        },
        Option::Some(j) => j,
    };
    let (hostname, i2) = match parse_lstr(s, i1, "hostname\n") {
        Option::None => {
            return Option::None;
        },
        Option::Some(v) => v,
    };
    let i3 = match parse_lit(s, i2, "owner\n") {
        Option::None => {
            return Option::None;
        },
        Option::Some(j) => j,
    };
    let (owner, i4) = match parse_owner(s, i3) {
        Option::None => {
            return Option::None;
        },
        Option::Some(v) => v,
    };
    let (room, i5) = match parse_lstr(s, i4, "room\n") {
        Option::None => {
            return Option::None;
        },
        Option::Some(v) => v,
    };
    let (global, i6) = match parse_lnum(s, i5, "global_cpu\n") {
        Option::None => {
            return Option::None;
        },
        Option::Some(v) => v,
    };
    if global > 0xFFFF_FFFF {
        return Option::None;
    }
    let (ncpus, i7) = match parse_lnum(s, i6, "cpus\n") {
        Option::None => {
            return Option::None;
        },
        Option::Some(v) => v,
    };
    let (cpus, i8) = match parse_nums(s, i7, ncpus) {
        Option::None => {
            return Option::None;
        },
        Option::Some(v) => v,
    };
    let (one, i9) = match parse_lnum(s, i8, "load_avg\n") {
        Option::None => {
            return Option::None;
        },
        Option::Some(v) => v,
    };
    let (five, i10) = match parse_u64(s, i9) {
        Option::None => {
            return Option::None;
        },
        Option::Some(v) => v,
    };
    let (fifteen, i11) = match parse_u64(s, i10) {
        Option::None => {
            return Option::None;
        },
        Option::Some(v) => v,
    };
    let (total, i12) = match parse_lnum(s, i11, "mem\n") {
        Option::None => {
            return Option::None;
        },
        Option::Some(v) => v,
    };
    let (used, i13) = match parse_u64(s, i12) {
        Option::None => {
            return Option::None;
        },
        Option::Some(v) => v,
    };
    let (nprocs, i14) = match parse_lnum(s, i13, "processes\n") {
        Option::None => {
            return Option::None;
        },
        Option::Some(v) => v,
    };
    let (procs, i15) = match parse_procs(s, i14, nprocs) {
        Option::None => {
            return Option::None;
        },
        Option::Some(v) => v,
    };
    let m = MachineUsage {
        definition: MachineDefinition { hostname, owner, room },
        usage: Usage {
            global_cpu_usage: global as u32,
            cpus,
            load_avg: LoadAvg { one, five, fifteen },
            mem: Memory { total, used },
            processes: Processes(procs),
        },
    };
    Option::Some((m, i15))
}

/// Prepends already-parsed machines to a parse result.
pub open spec fn machines_ext(
    acc: Seq<MachineUsageView>,
    r: Option<(Seq<MachineUsageView>, int)>,
) -> Option<(Seq<MachineUsageView>, int)> {
    match r {
        Option::None => Option::None,
        Option::Some((v, j)) => Option::Some((acc + v, j)),
    }
}

/// Decides [`spec_parse_machines`].
fn parse_machines(s: &str, i: usize, n: u64) -> (r: Option<(Vec<MachineUsage>, usize)>)
    requires
        i <= s@.len(),
    ensures
        match r {
            Option::Some((v, j)) => spec_parse_machines(s@, i as int, n) == Option::Some(
                (v@.map_values(|m: MachineUsage| m@), j as int),
            ) && i <= j <= s@.len(),
            Option::None => spec_parse_machines(s@, i as int, n) is None,
        },
{
    let mut out: Vec<MachineUsage> = Vec::new();
    let mut cur: usize = i;
    let mut k: u64 = 0;
    proof {
        assert(out@.map_values(|m: MachineUsage| m@) =~= Seq::<MachineUsageView>::empty());
    }
    while k < n
        invariant
            i <= cur <= s@.len(),
            0 <= k <= n,
            spec_parse_machines(s@, i as int, n) == machines_ext(
                out@.map_values(|m: MachineUsage| m@),
                spec_parse_machines(s@, cur as int, (n - k) as u64),
            ),
        decreases n - k,
    {
        let ghost outv = out@.map_values(|m: MachineUsage| m@);
        match parse_machine(s, cur) {
            Option::None => {
                return Option::None;
            },
            Option::Some((m, j)) => {
                let ghost mv = m@;
                out.push(m);
                proof {
                    let rest = spec_parse_machines(s@, j as int, (n - k - 1) as u64);
                    assert(out@.map_values(|q: MachineUsage| q@) =~= outv.push(mv));
                    match rest {
                        Option::None => {},
                        Option::Some((ms, e)) => {
                            assert(outv + (seq![mv] + ms) =~= outv.push(mv) + ms);
                        },
                    }
                }
                cur = j;
            },
        }
        k = k + 1;
    }
    proof {
        assert(out@.map_values(|m: MachineUsage| m@) + Seq::<MachineUsageView>::empty()
            =~= out@.map_values(|m: MachineUsage| m@));
    }
    Option::Some((out, cur))
}

impl ClusterData {
    /// Parses the wire format. Succeeds exactly when the whole text is one
    /// well-formed serialized snapshot, and then returns that snapshot.
    pub fn parse(s: &str) -> (r: Option<ClusterData>)
        ensures
            match r {
                Option::Some(d) => spec_parse_cluster(s@, 0) == Option::Some(
                    (d@, s@.len() as int),
                ),
                Option::None => (spec_parse_cluster(s@, 0) matches Option::Some((d, j)) ==> j
                    != s@.len()),
            },
    {
        let len = s.unicode_len();
        let i1 = match parse_lit(s, 0, "mu-cluster-snapshot\n") {
            Option::None => {
                return Option::None;
            },
            Option::Some(j) => j,
        };
        let (timestamp, i2) = match parse_lnum(s, i1, "timestamp\n") {
            Option::None => {
                return Option::None;
            },
            Option::Some(v) => v,
        };
        let (n, i3) = match parse_lnum(s, i2, "machines\n") {
            Option::None => {
                return Option::None;
            },
            Option::Some(v) => v,
        };
        let (machines, i4) = match parse_machines(s, i3, n) {
            Option::None => {
                return Option::None;
            },
            Option::Some(v) => v,
        };
        if i4 != len {
            return Option::None;
        }
        Option::Some(ClusterData { timestamp, usage: ClusterUsage(machines) })
    }
}

} // verus!
