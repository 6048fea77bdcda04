//! Parser for the device logs that the analysis tool reads.
//!
//! A log is a sequence of lines separated by whitespace. A line is a time
//! (with a decimal comma), the local devices and then the remote devices:
//!
//! ```text
//! 12,5 local 1 (0.0, 1.0, 2.0) (0.0, 0.0, 0.0, 1.0) (0.0, 90.0, 0.0)
//!      remote 201 /interaction_profiles/khr/simple_controller /user/hand/left (..) (..) (..)
//! ```
//!
//! Numbers are returned as spans of the input; [`float_text`] turns the span
//! of a number into the text that `f32::from_str` reads.
use vstd::prelude::*;

verus! {

/// A part of the input: bytes `start..end`.
#[derive(Clone, Copy, Debug)]
pub struct Span {
    pub start: usize,
    pub end: usize,
}

/// Position, rotation and rotation in Euler angles of a device; each
/// component is the span of a number with a decimal point.
#[derive(Clone, Copy, Debug)]
pub struct Device {
    pub position: (Span, Span, Span),
    pub rotation: (Span, Span, Span, Span),
    pub rotation_euler: (Span, Span, Span),
}

/// A device of the local client.
#[derive(Clone, Copy, Debug)]
pub struct LocalDevice {
    pub id: u32,
    pub device: Device,
}

/// A device of a remote client, with the spans of its interaction profile
/// and subaction path.
#[derive(Clone, Copy, Debug)]
pub struct RemoteDevice {
    pub id: u32,
    pub interaction_profile: Span,
    pub subaction_path: Span,
    pub device: Device,
}

/// One line of the log; `time` is a number with a decimal comma.
#[derive(Debug)]
pub struct Line {
    pub time: Span,
    pub local: Vec<LocalDevice>,
    pub remote: Vec<RemoteDevice>,
}

/// Mathematical model of a [`Line`].
pub struct LineView {
    pub time: Span,
    pub local: Seq<LocalDevice>,
    pub remote: Seq<RemoteDevice>,
}

impl View for Line {
    type V = LineView;

    open spec fn view(&self) -> LineView {
        LineView { time: self.time, local: self.local@, remote: self.remote@ }
    }
}

// ---------------------------------------------------------------------
// Character classes and runs.

/// The classes of bytes that the grammar scans runs of.
#[derive(Clone, Copy, PartialEq, Eq, Structural, Debug)]
pub enum RunKind {
    /// ' ', '\t', '\r', '\n'
    Space,
    /// digits and '_'
    DigitOrUnderscore,
    /// 'a'..='z', '/', '_'
    PathChar,
}

pub open spec fn is_digit(b: u8) -> bool {
    48 <= b <= 57
}

pub open spec fn in_run(k: RunKind, b: u8) -> bool {
    match k {
        RunKind::Space => b == 32 || b == 9 || b == 13 || b == 10,
        RunKind::DigitOrUnderscore => is_digit(b) || b == 95,
        RunKind::PathChar => (97 <= b <= 122) || b == 47 || b == 95,
    }
}

/// Where the run of `k` bytes that starts at `p` ends.
pub open spec fn run_end(s: Seq<u8>, p: int, k: RunKind) -> int
    decreases s.len() - p,
{
    if 0 <= p < s.len() && in_run(k, s[p]) {
        run_end(s, p + 1, k)
    } else {
        p
    }
}

proof fn lemma_run_end_bounds(s: Seq<u8>, p: int, k: RunKind)
    requires
        0 <= p <= s.len(),
    ensures
        p <= run_end(s, p, k) <= s.len(),
    decreases s.len() - p,
{
    if 0 <= p < s.len() && in_run(k, s[p]) {
        lemma_run_end_bounds(s, p + 1, k);
    }
}

fn scan_run(s: &[u8], p: usize, k: RunKind) -> (r: usize)
    requires
        p <= s@.len(),
    ensures
        r == run_end(s@, p as int, k),
        p <= r <= s@.len(),
{
    proof {
        lemma_run_end_bounds(s@, p as int, k);
    }
    let mut q = p;
    while q < s.len() && byte_in_run(k, s[q])
        invariant
            p <= q <= s@.len(),
            run_end(s@, q as int, k) == run_end(s@, p as int, k),
        decreases s@.len() - q,
    {
        q = q + 1;
    }
    q
}

fn byte_in_run(k: RunKind, b: u8) -> (r: bool)
    ensures
        r == in_run(k, b),
{
    match k {
        RunKind::Space => b == 32 || b == 9 || b == 13 || b == 10,
        RunKind::DigitOrUnderscore => (48 <= b && b <= 57) || b == 95,
        RunKind::PathChar => (97 <= b && b <= 122) || b == 47 || b == 95,
    }
}

/// One or more whitespace bytes at `p`; where they end.
pub open spec fn sp_space1(s: Seq<u8>, p: int) -> Option<int> {
    if run_end(s, p, RunKind::Space) > p {
        Some(run_end(s, p, RunKind::Space))
    } else {
        None
    }
}

fn space1(s: &[u8], p: usize) -> (r: Option<usize>)
    requires
        p <= s@.len(),
    ensures
        r matches Some(e) ==> p < e <= s@.len(),
        opt_end(r) == sp_space1(s@, p as int),
{
    let e = scan_run(s, p, RunKind::Space);
    if e > p {
        Some(e)
    } else {
        None
    }
}

pub open spec fn opt_end(r: Option<usize>) -> Option<int> {
    match r {
        Some(e) => Some(e as int),
        None => None,
    }
}

/// The byte `c` at `p`.
pub open spec fn has_byte(s: Seq<u8>, p: int, c: u8) -> bool {
    0 <= p < s.len() && s[p] == c
}

// ---------------------------------------------------------------------
// Numbers.

/// A decimal at `p`: a digit, then digits and underscores; where it ends.
pub open spec fn sp_decimal(s: Seq<u8>, p: int) -> Option<int> {
    if 0 <= p < s.len() && is_digit(s[p]) {
        Some(run_end(s, p + 1, RunKind::DigitOrUnderscore))
    } else {
        None
    }
}

fn decimal(s: &[u8], p: usize) -> (r: Option<usize>)
    requires
        p <= s@.len(),
    ensures
        opt_end(r) == sp_decimal(s@, p as int),
        r matches Some(e) ==> p < e <= s@.len(),
{
    if p < s.len() && 48 <= s[p] && s[p] <= 57 {
        Some(scan_run(s, p + 1, RunKind::DigitOrUnderscore))
    } else {
        None
    }
}

/// A number at `p`: an optional sign, then either `sep` and a decimal, or a
/// decimal, `sep` and an optional decimal; where it ends. `sep` is the
/// decimal point or the decimal comma.
pub open spec fn sp_number(s: Seq<u8>, p: int, sep: u8) -> Option<int> {
    let p1 = if has_byte(s, p, 43) || has_byte(s, p, 45) {
        p + 1
    } else {
        p
    };
    if has_byte(s, p1, sep) && sp_decimal(s, p1 + 1) is Some {
        sp_decimal(s, p1 + 1)
    } else {
        match sp_decimal(s, p1) {
            None => None,
            Some(q) => if has_byte(s, q, sep) {
                match sp_decimal(s, q + 1) {
                    Some(r) => Some(r),
                    None => Some(q + 1),
                }
            } else {
                None
            },
        }
    }
}

fn number(s: &[u8], p: usize, sep: u8) -> (r: Option<usize>)
    requires
        p <= s@.len(),
    ensures
        opt_end(r) == sp_number(s@, p as int, sep),
        r matches Some(e) ==> p < e <= s@.len(),
{
    let p1 = if p < s.len() && (s[p] == 43 || s[p] == 45) {
        p + 1
    } else {
        p
    };
    if p1 < s.len() && s[p1] == sep {
        match decimal(s, p1 + 1) {
            Some(e) => {
                return Some(e);
            },
            None => {},
        }
    }
    match decimal(s, p1) {
        None => None,
        Some(q) => {
            if q < s.len() && s[q] == sep {
                match decimal(s, q + 1) {
                    Some(r) => Some(r),
                    None => Some(q + 1),
                }
            } else {
                None
            }
        },
    }
}

/// The value of a sequence of digits.
pub open spec fn digits_value(d: Seq<u8>) -> int
    decreases d.len(),
{
    if d.len() == 0 {
        0
    } else {
        10 * digits_value(d.drop_last()) + (d.last() - 48)
    }
}

proof fn lemma_digits_value_monotonic(d: Seq<u8>, k: int)
    requires
        0 <= k <= d.len(),
        forall|i: int| 0 <= i < d.len() ==> #[trigger] is_digit(d[i]),
    ensures
        0 <= digits_value(d.take(k)) <= digits_value(d),
    decreases d.len() - k,
{
    if k < d.len() {
        lemma_digits_value_monotonic(d, k + 1);
        assert(d.take(k + 1).drop_last() =~= d.take(k));
        assert(is_digit(d.take(k + 1).last()));
    } else {
        assert(d.take(k) =~= d);
        lemma_digits_value_nonneg(d);
    }
}

proof fn lemma_digits_value_nonneg(d: Seq<u8>)
    requires
        forall|i: int| 0 <= i < d.len() ==> #[trigger] is_digit(d[i]),
    ensures
        digits_value(d) >= 0,
    decreases d.len(),
{
    if d.len() > 0 {
        lemma_digits_value_nonneg(d.drop_last());
        assert(is_digit(d[d.len() - 1]));
    }
}

/// An id at `p`: a decimal without underscores whose value fits in a `u32`.
pub open spec fn sp_id(s: Seq<u8>, p: int) -> Option<(u32, int)> {
    match sp_decimal(s, p) {
        None => None,
        Some(e) => if (forall|i: int| p <= i < e ==> #[trigger] is_digit(s[i])) && digits_value(
            s.subrange(p, e),
        ) <= u32::MAX {
            Some((digits_value(s.subrange(p, e)) as u32, e))
        } else {
            None
        },
    }
}

pub open spec fn opt_id(r: Option<(u32, usize)>) -> Option<(u32, int)> {
    match r {
        Some((v, e)) => Some((v, e as int)),
        None => None,
    }
}

fn id(s: &[u8], p: usize) -> (r: Option<(u32, usize)>)
    requires
        p <= s@.len(),
    ensures
        opt_id(r) == sp_id(s@, p as int),
        r matches Some((_, e)) ==> p < e <= s@.len(),
{
    let e = match decimal(s, p) {
        None => {
            return None;
        },
        Some(e) => e,
    };
    proof {
        assert(e == run_end(s@, p + 1, RunKind::DigitOrUnderscore));
    }
    let mut q = p;
    while q < e
        invariant
            p <= q <= e <= s@.len(),
            p < e,
            is_digit(s@[p as int]),
            e == run_end(s@, p + 1, RunKind::DigitOrUnderscore),
            forall|i: int| p <= i < q ==> #[trigger] is_digit(s@[i]),
        decreases e - q,
    {
        if s[q] == 95 {
            proof {
                assert(!is_digit(s@[q as int]));
            }
            return None;
        }
        proof {
            if q > p {
                lemma_run_members(s@, p + 1, q as int);
            }
        }
        q = q + 1;
    }
    let ghost d = s@.subrange(p as int, e as int);
    let mut value: u32 = 0;
    let mut k = p;
    while k < e
        invariant
            p <= k <= e <= s@.len(),
            d == s@.subrange(p as int, e as int),
            sp_decimal(s@, p as int) == Some(e as int),
            forall|i: int| p <= i < e ==> #[trigger] is_digit(s@[i]),
            value == digits_value(d.take(k - p)),
        decreases e - k,
    {
        proof {
            assert(d.take(k + 1 - p).drop_last() =~= d.take(k - p));
            assert(d.take(k + 1 - p).last() == s@[k as int]);
            assert(is_digit(s@[k as int]));
            lemma_digits_value_monotonic(d, k + 1 - p);
            assert forall|i: int| 0 <= i < d.len() implies #[trigger] is_digit(d[i]) by {
                assert(d[i] == s@[p + i]);
            }
        }
        let digit = (s[k] - 48) as u32;
        if value > 429496729 || (value == 429496729 && digit > 5) {
            proof {
                assert(digits_value(d.take(k + 1 - p)) == 10 * value + digit);
                assert(digits_value(d.take(k + 1 - p)) > u32::MAX);
                assert(digits_value(d) > u32::MAX);
            }
            return None;
        }
        value = value * 10 + digit;
        k = k + 1;
    }
    proof {
        assert(d.take(e - p) =~= d);
    }
    Some((value, e))
}

proof fn lemma_run_members(s: Seq<u8>, p: int, q: int)
    requires
        0 <= p <= q < run_end(s, p, RunKind::DigitOrUnderscore),
    ensures
        in_run(RunKind::DigitOrUnderscore, s[q]),
    decreases q - p,
{
    if q > p {
        lemma_run_members(s, p + 1, q);
    }
}

/// The text of a number for `f32::from_str`: the bytes of the span without
/// underscores, with a decimal comma turned into a point.
pub open spec fn normalized_number(t: Seq<u8>) -> Seq<u8>
    decreases t.len(),
{
    if t.len() == 0 {
        Seq::empty()
    } else {
        let before = normalized_number(t.drop_last());
        if t.last() == 95 {
            before
        } else if t.last() == 44 {
            before.push(46)
        } else {
            before.push(t.last())
        }
    }
}

/// The text of the number at `span`, ready for `f32::from_str`.
pub fn float_text(s: &[u8], span: Span) -> (r: Vec<u8>)
    requires
        span.start <= span.end <= s@.len(),
    ensures
        r@ == normalized_number(s@.subrange(span.start as int, span.end as int)),
{
    let ghost t = s@.subrange(span.start as int, span.end as int);
    let mut out: Vec<u8> = Vec::new();
    let mut k = span.start;
    while k < span.end
        invariant
            span.start <= k <= span.end <= s@.len(),
            t == s@.subrange(span.start as int, span.end as int),
            out@ == normalized_number(t.take(k - span.start)),
        decreases span.end - k,
    {
        proof {
            assert(t.take(k + 1 - span.start).drop_last() =~= t.take(k - span.start));
            assert(t.take(k + 1 - span.start).last() == s@[k as int]);
        }
        let b = s[k];
        if b == 95 {
        } else if b == 44 {
            out.push(46);
        } else {
            out.push(b);
        }
        k = k + 1;
    }
    proof {
        assert(t.take(span.end - span.start) =~= t);
    }
    out
}

// ---------------------------------------------------------------------
// Tuples and devices.

pub open spec fn span(a: int, b: int) -> Span {
    Span { start: a as usize, end: b as usize }
}

/// `k` more numbers, each after a ',' and optional whitespace, starting at
/// `q`; their spans and where they end.
pub open spec fn sp_more_numbers(s: Seq<u8>, q: int, k: nat) -> Option<(Seq<Span>, int)>
    decreases k,
{
    if k == 0 {
        Some((Seq::empty(), q))
    } else if !has_byte(s, q, 44) {
        None
    } else {
        let w = run_end(s, q + 1, RunKind::Space);
        match sp_number(s, w, 46) {
            None => None,
            Some(e) => match sp_more_numbers(s, e, (k - 1) as nat) {
                None => None,
                Some((rest, f)) => Some((seq![span(w, e)] + rest, f)),
            },
        }
    }
}

/// A parenthesised tuple of `n` numbers with decimal points at `p`.
pub open spec fn sp_tuple(s: Seq<u8>, p: int, n: nat) -> Option<(Seq<Span>, int)> {
    if !has_byte(s, p, 40) {
        None
    } else {
        match sp_number(s, p + 1, 46) {
            None => None,
            Some(a) => match sp_more_numbers(s, a, (n - 1) as nat) {
                None => None,
                Some((rest, f)) => if has_byte(s, f, 41) {
                    Some((seq![span(p + 1, a)] + rest, f + 1))
                } else {
                    None
                },
            },
        }
    }
}

pub open spec fn opt_spans(r: Option<(Vec<Span>, usize)>) -> Option<(Seq<Span>, int)> {
    match r {
        Some((v, e)) => Some((v@, e as int)),
        None => None,
    }
}

fn more_numbers(s: &[u8], q: usize, k: usize) -> (r: Option<(Vec<Span>, usize)>)
    requires
        q <= s@.len(),
    ensures
        opt_spans(r) == sp_more_numbers(s@, q as int, k as nat),
        r matches Some((v, e)) ==> q <= e <= s@.len() && v@.len() == k,
    decreases k,
{
    if k == 0 {
        return Some((Vec::new(), q));
    }
    if !(q < s.len() && s[q] == 44) {
        return None;
    }
    let w = scan_run(s, q + 1, RunKind::Space);
    match number(s, w, 46) {
        None => None,
        Some(e) => match more_numbers(s, e, k - 1) {
            None => None,
            Some((rest, f)) => {
                let mut v: Vec<Span> = Vec::new();
                v.push(Span { start: w, end: e });
                let mut rest = rest;
                v.append(&mut rest);
                Some((v, f))
            },
        },
    }
}

fn tuple(s: &[u8], p: usize, n: usize) -> (r: Option<(Vec<Span>, usize)>)
    requires
        p <= s@.len(),
        n >= 1,
    ensures
        opt_spans(r) == sp_tuple(s@, p as int, n as nat),
        r matches Some((v, e)) ==> p < e <= s@.len() && v@.len() == n,
{
    if !(p < s.len() && s[p] == 40) {
        return None;
    }
    match number(s, p + 1, 46) {
        None => None,
        Some(a) => match more_numbers(s, a, n - 1) {
            None => None,
            Some((rest, f)) => {
                if f < s.len() && s[f] == 41 {
                    let mut v: Vec<Span> = Vec::new();
                    v.push(Span { start: p + 1, end: a });
                    let mut rest = rest;
                    v.append(&mut rest);
                    Some((v, f + 1))
                } else {
                    None
                }
            },
        },
    }
}

/// A device at `p`: a position, a rotation and Euler angles separated by
/// whitespace.
pub open spec fn sp_device(s: Seq<u8>, p: int) -> Option<(Device, int)> {
    match sp_tuple(s, p, 3) {
        None => None,
        Some((a, e1)) => match sp_space1(s, e1) {
            None => None,
            Some(m1) => match sp_tuple(s, m1, 4) {
                None => None,
                Some((b, e2)) => match sp_space1(s, e2) {
                    None => None,
                    Some(m2) => match sp_tuple(s, m2, 3) {
                        None => None,
                        Some((c, e3)) => Some(
                            (
                                Device {
                                    position: (a[0], a[1], a[2]),
                                    rotation: (b[0], b[1], b[2], b[3]),
                                    rotation_euler: (c[0], c[1], c[2]),
                                },
                                e3,
                            ),
                        ),
                    },
                },
            },
        },
    }
}

pub open spec fn opt_device(r: Option<(Device, usize)>) -> Option<(Device, int)> {
    match r {
        Some((d, e)) => Some((d, e as int)),
        None => None,
    }
}

fn device(s: &[u8], p: usize) -> (r: Option<(Device, usize)>)
    requires
        p <= s@.len(),
    ensures
        opt_device(r) == sp_device(s@, p as int),
        r matches Some((_, e)) ==> p < e <= s@.len(),
{
    let (a, e1) = match tuple(s, p, 3) {
        None => {
            return None;
        },
        Some(x) => x,
    };
    let m1 = match space1(s, e1) {
        None => {
            return None;
        },
        Some(m) => m,
    };
    let (b, e2) = match tuple(s, m1, 4) {
        None => {
            return None;
        },
        Some(x) => x,
    };
    let m2 = match space1(s, e2) {
        None => {
            return None;
        },
        Some(m) => m,
    };
    let (c, e3) = match tuple(s, m2, 3) {
        None => {
            return None;
        },
        Some(x) => x,
    };
    Some(
        (
            Device {
                position: (a[0], a[1], a[2]),
                rotation: (b[0], b[1], b[2], b[3]),
                rotation_euler: (c[0], c[1], c[2]),
            },
            e3,
        ),
    )
}

/// The bytes `lit` at `p`.
pub open spec fn sp_tag(s: Seq<u8>, p: int, lit: Seq<u8>) -> bool {
    0 <= p && p + lit.len() <= s.len() && s.subrange(p, p + lit.len()) == lit
}

fn tag(s: &[u8], p: usize, lit: &[u8]) -> (r: bool)
    requires
        p <= s@.len(),
    ensures
        r == sp_tag(s@, p as int, lit@),
        r ==> p + lit.len() <= s.len(),
{
    if lit.len() > s.len() - p {
        return false;
    }
    let mut i: usize = 0;
    while i < lit.len()
        invariant
            i <= lit@.len(),
            p + lit@.len() <= s@.len(),
            s@.len() == s.len(),
            s@.subrange(p as int, p + i) == lit@.take(i as int),
        decreases lit@.len() - i,
    {
        if s[p + i] != lit[i] {
            proof {
                assert(s@.subrange(p as int, p + lit@.len())[i as int] != lit@[i as int]);
            }
            return false;
        }
        proof {
            assert(s@.subrange(p as int, p + i + 1) =~= s@.subrange(p as int, p + i).push(
                s@[p + i],
            ));
            assert(lit@.take(i + 1) =~= lit@.take(i as int).push(lit@[i as int]));
        }
        i = i + 1;
    }
    proof {
        assert(lit@.take(i as int) =~= lit@);
    }
    true
}

/// "local"
pub open spec fn local_keyword() -> Seq<u8> {
    seq![108u8, 111, 99, 97, 108]
}

/// "remote"
pub open spec fn remote_keyword() -> Seq<u8> {
    seq![114u8, 101, 109, 111, 116, 101]
}

/// A local device at `p`: "local", an id and a device, separated by
/// whitespace.
pub open spec fn sp_local_device(s: Seq<u8>, p: int) -> Option<(LocalDevice, int)> {
    if !sp_tag(s, p, local_keyword()) {
        None
    } else {
        match sp_space1(s, p + 5) {
            None => None,
            Some(m1) => match sp_id(s, m1) {
                None => None,
                Some((id, e1)) => match sp_space1(s, e1) {
                    None => None,
                    Some(m2) => match sp_device(s, m2) {
                        None => None,
                        Some((d, e2)) => Some((LocalDevice { id, device: d }, e2)),
                    },
                },
            },
        }
    }
}

pub open spec fn opt_local(r: Option<(LocalDevice, usize)>) -> Option<(LocalDevice, int)> {
    match r {
        Some((d, e)) => Some((d, e as int)),
        None => None,
    }
}

fn local_device(s: &[u8], p: usize) -> (r: Option<(LocalDevice, usize)>)
    requires
        p <= s@.len(),
    ensures
        opt_local(r) == sp_local_device(s@, p as int),
        r matches Some((_, e)) ==> p < e <= s@.len(),
{
    let lit: [u8; 5] = [108u8, 111, 99, 97, 108];
    proof {
        assert(lit@ =~= local_keyword());
    }
    if !tag(s, p, &lit) {
        return None;
    }
    let m1 = match space1(s, p + 5) {
        None => {
            return None;
        },
        Some(m) => m,
    };
    let (id, e1) = match id(s, m1) {
        None => {
            return None;
        },
        Some(x) => x,
    };
    let m2 = match space1(s, e1) {
        None => {
            return None;
        },
        Some(m) => m,
    };
    match device(s, m2) {
        None => None,
        Some((d, e2)) => Some((LocalDevice { id, device: d }, e2)),
    }
}

/// A path at `p`: lowercase letters, '/' and '_'; where it ends.
pub open spec fn sp_path(s: Seq<u8>, p: int) -> Option<int> {
    if 0 <= p < s.len() && in_run(RunKind::PathChar, s[p]) {
        Some(run_end(s, p + 1, RunKind::PathChar))
    } else {
        None
    }
}

fn path(s: &[u8], p: usize) -> (r: Option<usize>)
    requires
        p <= s@.len(),
    ensures
        opt_end(r) == sp_path(s@, p as int),
        r matches Some(e) ==> p < e <= s@.len(),
{
    if p < s.len() && byte_in_run(RunKind::PathChar, s[p]) {
        Some(scan_run(s, p + 1, RunKind::PathChar))
    } else {
        None
    }
}

/// A remote device at `p`: "remote", an id, an interaction profile, a
/// subaction path and a device, separated by whitespace.
pub open spec fn sp_remote_device(s: Seq<u8>, p: int) -> Option<(RemoteDevice, int)> {
    if !sp_tag(s, p, remote_keyword()) {
        None
    } else {
        match sp_space1(s, p + 6) {
            None => None,
            Some(m1) => match sp_id(s, m1) {
                None => None,
                Some((id, e1)) => match sp_space1(s, e1) {
                    None => None,
                    Some(m2) => match sp_path(s, m2) {
                        None => None,
                        Some(e2) => match sp_space1(s, e2) {
                            None => None,
                            Some(m3) => match sp_path(s, m3) {
                                None => None,
                                Some(e3) => match sp_space1(s, e3) {
                                    None => None,
                                    Some(m4) => match sp_device(s, m4) {
                                        None => None,
                                        Some((d, e4)) => Some(
                                            (
                                                RemoteDevice {
                                                    id,
                                                    interaction_profile: span(m2, e2),
                                                    subaction_path: span(m3, e3),
                                                    device: d,
                                                },
                                                e4,
                                            ),
                                        ),
                                    },
                                },
                            },
                        },
                    },
                },
            },
        }
    }
}

pub open spec fn opt_remote(r: Option<(RemoteDevice, usize)>) -> Option<(RemoteDevice, int)> {
    match r {
        Some((d, e)) => Some((d, e as int)),
        None => None,
    }
}

fn remote_device(s: &[u8], p: usize) -> (r: Option<(RemoteDevice, usize)>)
    requires
        p <= s@.len(),
    ensures
        opt_remote(r) == sp_remote_device(s@, p as int),
        r matches Some((_, e)) ==> p < e <= s@.len(),
{
    let lit: [u8; 6] = [114u8, 101, 109, 111, 116, 101];
    proof {
        assert(lit@ =~= remote_keyword());
    }
    if !tag(s, p, &lit) {
        return None;
    }
    let m1 = match space1(s, p + 6) {
        None => {
            return None;
        },
        Some(m) => m,
    };
    let (id, e1) = match id(s, m1) {
        None => {
            return None;
        },
        Some(x) => x,
    };
    let m2 = match space1(s, e1) {
        None => {
            return None;
        },
        Some(m) => m,
    };
    let e2 = match path(s, m2) {
        None => {
            return None;
        },
        Some(e) => e,
    };
    let m3 = match space1(s, e2) {
        None => {
            return None;
        },
        Some(m) => m,
    };
    let e3 = match path(s, m3) {
        None => {
            return None;
        },
        Some(e) => e,
    };
    let m4 = match space1(s, e3) {
        None => {
            return None;
        },
        Some(m) => m,
    };
    match device(s, m4) {
        None => None,
        Some((d, e4)) => Some(
            (
                RemoteDevice {
                    id,
                    interaction_profile: Span { start: m2, end: e2 },
                    subaction_path: Span { start: m3, end: e3 },
                    device: d,
                },
                e4,
            ),
        ),
    }
}

// ---------------------------------------------------------------------
// Lists, lines and the whole log.

/// More local devices after the one that ended at `q`, each after
/// whitespace. A separator that is not followed by a device is left
/// unconsumed.
pub open spec fn sp_more_locals(s: Seq<u8>, q: int) -> (Seq<LocalDevice>, int)
    decreases s.len() - q,
{
    match sp_space1(s, q) {
        None => (Seq::empty(), q),
        Some(m) => match sp_local_device(s, m) {
            None => (Seq::empty(), q),
            Some((d, e)) => if q < e <= s.len() {
                let (ds, f) = sp_more_locals(s, e);
                (seq![d] + ds, f)
            } else {
                (Seq::empty(), q)
            },
        },
    }
}

/// Local devices separated by whitespace at `p`; none if the first is
/// missing.
pub open spec fn sp_locals(s: Seq<u8>, p: int) -> (Seq<LocalDevice>, int) {
    match sp_local_device(s, p) {
        None => (Seq::empty(), p),
        Some((d, e)) => if p < e <= s.len() {
            let (ds, f) = sp_more_locals(s, e);
            (seq![d] + ds, f)
        } else {
            (Seq::empty(), p)
        },
    }
}

/// More remote devices after the one that ended at `q`.
pub open spec fn sp_more_remotes(s: Seq<u8>, q: int) -> (Seq<RemoteDevice>, int)
    decreases s.len() - q,
{
    match sp_space1(s, q) {
        None => (Seq::empty(), q),
        Some(m) => match sp_remote_device(s, m) {
            None => (Seq::empty(), q),
            Some((d, e)) => if q < e <= s.len() {
                let (ds, f) = sp_more_remotes(s, e);
                (seq![d] + ds, f)
            } else {
                (Seq::empty(), q)
            },
        },
    }
}

/// Remote devices separated by whitespace at `p`; none if the first is
/// missing.
pub open spec fn sp_remotes(s: Seq<u8>, p: int) -> (Seq<RemoteDevice>, int) {
    match sp_remote_device(s, p) {
        None => (Seq::empty(), p),
        Some((d, e)) => if p < e <= s.len() {
            let (ds, f) = sp_more_remotes(s, e);
            (seq![d] + ds, f)
        } else {
            (Seq::empty(), p)
        },
    }
}

fn locals(s: &[u8], p: usize) -> (r: (Vec<LocalDevice>, usize))
    requires
        p <= s@.len(),
    ensures
        (r.0@, r.1 as int) == sp_locals(s@, p as int),
        p <= r.1 <= s@.len(),
{
    let (first, e) = match local_device(s, p) {
        None => {
            return (Vec::new(), p);
        },
        Some(x) => x,
    };
    let ghost target = sp_more_locals(s@, e as int);
    let mut out: Vec<LocalDevice> = Vec::new();
    out.push(first);
    let mut q = e;
    loop
        invariant
            p < q <= s@.len(),
            target == sp_more_locals(s@, e as int),
            out@ + sp_more_locals(s@, q as int).0 == seq![first] + target.0,
            sp_more_locals(s@, q as int).1 == target.1,
        ensures
            p < q <= s@.len(),
            out@ == seq![first] + target.0,
            q == target.1,
        decreases s@.len() - q,
    {
        let m = match space1(s, q) {
            None => {
                proof {
                    assert(out@ =~= seq![first] + target.0);
                }
                break;
            },
            Some(m) => m,
        };
        let (d, e2) = match local_device(s, m) {
            None => {
                proof {
                    assert(out@ =~= seq![first] + target.0);
                }
                break;
            },
            Some(x) => x,
        };
        proof {
            assert(out@.push(d) + sp_more_locals(s@, e2 as int).0 =~= out@ + sp_more_locals(
                s@,
                q as int,
            ).0);
        }
        out.push(d);
        q = e2;
    }
    (out, q)
}

fn remotes(s: &[u8], p: usize) -> (r: (Vec<RemoteDevice>, usize))
    requires
        p <= s@.len(),
    ensures
        (r.0@, r.1 as int) == sp_remotes(s@, p as int),
        p <= r.1 <= s@.len(),
{
    let (first, e) = match remote_device(s, p) {
        None => {
            return (Vec::new(), p);
        },
        Some(x) => x,
    };
    let ghost target = sp_more_remotes(s@, e as int);
    let mut out: Vec<RemoteDevice> = Vec::new();
    out.push(first);
    let mut q = e;
    loop
        invariant
            p < q <= s@.len(),
            target == sp_more_remotes(s@, e as int),
            out@ + sp_more_remotes(s@, q as int).0 == seq![first] + target.0,
            sp_more_remotes(s@, q as int).1 == target.1,
        ensures
            p < q <= s@.len(),
            out@ == seq![first] + target.0,
            q == target.1,
        decreases s@.len() - q,
    {
        let m = match space1(s, q) {
            None => {
                proof {
                    assert(out@ =~= seq![first] + target.0);
                }
                break;
            },
            Some(m) => m,
        };
        let (d, e2) = match remote_device(s, m) {
            None => {
                proof {
                    assert(out@ =~= seq![first] + target.0);
                }
                break;
            },
            Some(x) => x,
        };
        proof {
            assert(out@.push(d) + sp_more_remotes(s@, e2 as int).0 =~= out@ + sp_more_remotes(
                s@,
                q as int,
            ).0);
        }
        out.push(d);
        q = e2;
    }
    (out, q)
}

/// A line at `p`: a time with a decimal comma, the local devices and the
/// remote devices, separated by whitespace.
pub open spec fn sp_line(s: Seq<u8>, p: int) -> Option<(LineView, int)> {
    match sp_number(s, p, 44) {
        None => None,
        Some(t) => match sp_space1(s, t) {
            None => None,
            Some(m1) => {
                let (ls, a) = sp_locals(s, m1);
                match sp_space1(s, a) {
                    None => None,
                    Some(m2) => {
                        let (rs, b) = sp_remotes(s, m2);
                        Some((LineView { time: span(p, t), local: ls, remote: rs }, b))
                    },
                }
            },
        }
    }
}

pub open spec fn opt_line(r: Option<(Line, usize)>) -> Option<(LineView, int)> {
    match r {
        Some((l, e)) => Some((l@, e as int)),
        None => None,
    }
}

fn line(s: &[u8], p: usize) -> (r: Option<(Line, usize)>)
    requires
        p <= s@.len(),
    ensures
        opt_line(r) == sp_line(s@, p as int),
        r matches Some((_, e)) ==> p < e <= s@.len(),
{
    let t = match number(s, p, 44) {
        None => {
            return None;
        },
        Some(t) => t,
    };
    let m1 = match space1(s, t) {
        None => {
            return None;
        },
        Some(m) => m,
    };
    let (local, a) = locals(s, m1);
    let m2 = match space1(s, a) {
        None => {
            return None;
        },
        Some(m) => m,
    };
    let (remote, b) = remotes(s, m2);
    Some((Line { time: Span { start: p, end: t }, local, remote }, b))
}

/// The lines of the log from `p` on, each followed by optional whitespace;
/// and where the parsed part ends.
pub open spec fn sp_lines(s: Seq<u8>, p: int) -> (Seq<LineView>, int)
    decreases s.len() - p,
{
    match sp_line(s, p) {
        None => (Seq::empty(), p),
        Some((l, e)) => {
            let w = run_end(s, e, RunKind::Space);
            if p < w <= s.len() {
                let (ls, f) = sp_lines(s, w);
                (seq![l] + ls, f)
            } else {
                (Seq::empty(), p)
            }
        },
    }
}

pub open spec fn line_views(ls: Seq<Line>) -> Seq<LineView> {
    ls.map_values(|l: Line| l@)
}

/// Parses a whole log: the lines it starts with, and where the unparsed
/// rest begins.
pub fn parse_file(s: &[u8]) -> (r: (Vec<Line>, usize))
    ensures
        (line_views(r.0@), r.1 as int) == sp_lines(s@, 0),
        r.1 <= s@.len(),
        forall|i: int| 0 <= i < r.0@.len() ==> line_devices_placed(s@, #[trigger] r.0@[i]@),
{
    let ghost target = sp_lines(s@, 0);
    let mut out: Vec<Line> = Vec::new();
    let mut q: usize = 0;
    loop
        invariant
            q <= s@.len(),
            target == sp_lines(s@, 0),
            line_views(out@) + sp_lines(s@, q as int).0 == target.0,
            sp_lines(s@, q as int).1 == target.1,
        ensures
            q <= s@.len(),
            line_views(out@) == target.0,
            q == target.1,
        decreases s@.len() - q,
    {
        let (l, e) = match line(s, q) {
            None => {
                proof {
                    assert(line_views(out@) =~= target.0);
                }
                break;
            },
            Some(x) => x,
        };
        let w = scan_run(s, e, RunKind::Space);
        proof {
            assert(line_views(out@.push(l)) =~= line_views(out@).push(l@));
            assert(line_views(out@.push(l)) + sp_lines(s@, w as int).0 =~= line_views(out@)
                + sp_lines(s@, q as int).0);
        }
        out.push(l);
        q = w;
    }
    proof {
        assert(s@.len() == s.len());
        parsed_lines_are_placed(s@, 0);
        assert forall|i: int| 0 <= i < out@.len() implies line_devices_placed(s@, #[trigger] out@[i]@) by {
            assert(line_views(out@)[i] == out@[i]@);
        }
    }
    (out, q)
}

// ---------------------------------------------------------------------
// Where the parsed numbers stand in the input.

/// Spans that are numbers with decimal points, one after the other, each
/// followed by a ',' that comes before the next.
pub open spec fn numbers_chain(s: Seq<u8>, sp: Seq<Span>) -> bool {
    &&& forall|i: int|
        0 <= i < sp.len() ==> sp_number(s, (#[trigger] sp[i]).start as int, 46) == Some(
            sp[i].end as int,
        )
    &&& forall|i: int|
        0 <= i < sp.len() - 1 ==> has_byte(s, (#[trigger] sp[i]).end as int, 44) && sp[i].end
            < sp[i + 1].start
}

/// The spans of a parenthesised tuple, in the order the numbers stand in
/// the input: the first right after the '(', the last right before the ')'.
pub open spec fn tuple_spans(s: Seq<u8>, sp: Seq<Span>) -> bool {
    &&& sp.len() >= 1
    &&& has_byte(s, sp[0].start - 1, 40)
    &&& numbers_chain(s, sp)
    &&& has_byte(s, sp[sp.len() - 1].end as int, 41)
}

/// The spans of a parsed device stand in the input as three tuples: the
/// position, then the rotation, then the Euler angles, each with its
/// components in input order.
pub open spec fn device_placed(s: Seq<u8>, d: Device) -> bool {
    &&& tuple_spans(s, seq![d.position.0, d.position.1, d.position.2])
    &&& tuple_spans(s, seq![d.rotation.0, d.rotation.1, d.rotation.2, d.rotation.3])
    &&& tuple_spans(s, seq![d.rotation_euler.0, d.rotation_euler.1, d.rotation_euler.2])
    &&& d.position.2.end < d.rotation.0.start
    &&& d.rotation.3.end < d.rotation_euler.0.start
}

/// Every device of a parsed line stands in the input as [`device_placed`]
/// says.
pub open spec fn line_devices_placed(s: Seq<u8>, l: LineView) -> bool {
    &&& forall|i: int| 0 <= i < l.local.len() ==> device_placed(s, (#[trigger] l.local[i]).device)
    &&& forall|i: int| 0 <= i < l.remote.len() ==> device_placed(s, (#[trigger] l.remote[i]).device)
}

proof fn lemma_space1_bounds(s: Seq<u8>, p: int)
    ensures
        sp_space1(s, p) matches Some(m) ==> 0 <= p < m <= s.len(),
{
    if 0 <= p <= s.len() {
        lemma_run_end_bounds(s, p, RunKind::Space);
    }
}

proof fn lemma_decimal_bounds(s: Seq<u8>, p: int)
    ensures
        sp_decimal(s, p) matches Some(e) ==> 0 <= p < e <= s.len(),
{
    if 0 <= p < s.len() {
        lemma_run_end_bounds(s, p + 1, RunKind::DigitOrUnderscore);
    }
}

proof fn lemma_number_bounds(s: Seq<u8>, p: int, sep: u8)
    ensures
        sp_number(s, p, sep) matches Some(e) ==> 0 <= p < e <= s.len(),
{
    let p1 = if has_byte(s, p, 43) || has_byte(s, p, 45) {
        p + 1
    } else {
        p
    };
    lemma_decimal_bounds(s, p1 + 1);
    lemma_decimal_bounds(s, p1);
    if let Some(q) = sp_decimal(s, p1) {
        lemma_decimal_bounds(s, q + 1);
    }
}

proof fn lemma_more_numbers_placed(s: Seq<u8>, q: int, k: nat)
    requires
        s.len() <= usize::MAX,
        0 <= q <= s.len(),
    ensures
        sp_more_numbers(s, q, k) matches Some((sp, f)) ==> {
            &&& sp.len() == k
            &&& q <= f <= s.len()
            &&& numbers_chain(s, sp)
            &&& k == 0 ==> f == q
            &&& k > 0 ==> has_byte(s, q, 44) && q < sp[0].start && f == sp[k - 1].end
        },
    decreases k,
{
    if k > 0 && has_byte(s, q, 44) {
        let w = run_end(s, q + 1, RunKind::Space);
        lemma_run_end_bounds(s, q + 1, RunKind::Space);
        lemma_number_bounds(s, w, 46);
        if let Some(e) = sp_number(s, w, 46) {
            lemma_more_numbers_placed(s, e, (k - 1) as nat);
            if let Some((rest, f)) = sp_more_numbers(s, e, (k - 1) as nat) {
                let sp = seq![span(w, e)] + rest;
                assert(sp[0] == span(w, e));
                assert(sp[0].start as int == w && sp[0].end as int == e);
                assert forall|i: int| 1 <= i < sp.len() implies sp[i] == rest[i - 1] by {}
                assert forall|i: int|
                    0 <= i < sp.len() implies sp_number(s, (#[trigger] sp[i]).start as int, 46)
                    == Some(sp[i].end as int) by {
                    if i > 0 {
                        assert(sp[i] == rest[i - 1]);
                    }
                }
                assert forall|i: int|
                    0 <= i < sp.len() - 1 implies has_byte(s, (#[trigger] sp[i]).end as int, 44)
                    && sp[i].end < sp[i + 1].start by {
                    if i > 0 {
                        assert(sp[i] == rest[i - 1]);
                        assert(sp[i + 1] == rest[i]);
                    } else {
                        assert(sp[1] == rest[0]);
                    }
                }
                if k > 1 {
                    assert(sp[k - 1] == rest[k - 2]);
                }
            }
        }
    }
}

proof fn lemma_tuple_placed(s: Seq<u8>, p: int, n: nat)
    requires
        s.len() <= usize::MAX,
        n >= 1,
    ensures
        sp_tuple(s, p, n) matches Some((sp, f)) ==> {
            &&& sp.len() == n
            &&& tuple_spans(s, sp)
            &&& sp[0].start as int == p + 1
            &&& f == sp[n - 1].end + 1
            &&& 0 <= p < f <= s.len()
        },
{
    if has_byte(s, p, 40) {
        lemma_number_bounds(s, p + 1, 46);
        if let Some(a) = sp_number(s, p + 1, 46) {
            lemma_more_numbers_placed(s, a, (n - 1) as nat);
            if let Some((rest, f)) = sp_more_numbers(s, a, (n - 1) as nat) {
                if has_byte(s, f, 41) {
                    let sp = seq![span(p + 1, a)] + rest;
                    assert(sp[0].start as int == p + 1 && sp[0].end as int == a);
                    assert forall|i: int| 1 <= i < sp.len() implies sp[i] == rest[i - 1] by {}
                    assert forall|i: int|
                        0 <= i < sp.len() implies sp_number(s, (#[trigger] sp[i]).start as int, 46)
                        == Some(sp[i].end as int) by {
                        if i > 0 {
                            assert(sp[i] == rest[i - 1]);
                        }
                    }
                    assert forall|i: int|
                        0 <= i < sp.len() - 1 implies has_byte(s, (#[trigger] sp[i]).end as int, 44)
                        && sp[i].end < sp[i + 1].start by {
                        if i > 0 {
                            assert(sp[i] == rest[i - 1]);
                            assert(sp[i + 1] == rest[i]);
                        } else {
                            assert(sp[1] == rest[0]);
                        }
                    }
                    if n > 1 {
                        assert(sp[n - 1] == rest[n - 2]);
                    }
                }
            }
        }
    }
}

/// A parsed device stands in the input as [`device_placed`] says: the
/// position tuple starts where the device starts, the rotation and Euler
/// tuples follow in that order, and each component is the span of the
/// number at its place in its tuple.
pub proof fn parsed_device_is_placed(s: Seq<u8>, p: int)
    requires
        s.len() <= usize::MAX,
    ensures
        sp_device(s, p) matches Some((d, e)) ==> {
            &&& device_placed(s, d)
            &&& d.position.0.start as int == p + 1
            &&& e == d.rotation_euler.2.end + 1
            &&& 0 <= p < e <= s.len()
        },
{
    lemma_tuple_placed(s, p, 3);
    if let Some((a, e1)) = sp_tuple(s, p, 3) {
        lemma_space1_bounds(s, e1);
        if let Some(m1) = sp_space1(s, e1) {
            lemma_tuple_placed(s, m1, 4);
            if let Some((b, e2)) = sp_tuple(s, m1, 4) {
                lemma_space1_bounds(s, e2);
                if let Some(m2) = sp_space1(s, e2) {
                    lemma_tuple_placed(s, m2, 3);
                    if let Some((c, e3)) = sp_tuple(s, m2, 3) {
                        assert(seq![a[0], a[1], a[2]] =~= a);
                        assert(seq![b[0], b[1], b[2], b[3]] =~= b);
                        assert(seq![c[0], c[1], c[2]] =~= c);
                    }
                }
            }
        }
    }
}

proof fn lemma_local_device_placed(s: Seq<u8>, p: int)
    requires
        s.len() <= usize::MAX,
    ensures
        sp_local_device(s, p) matches Some((d, e)) ==> device_placed(s, d.device),
{
    if sp_tag(s, p, local_keyword()) {
        if let Some(m1) = sp_space1(s, p + 5) {
            if let Some((id, e1)) = sp_id(s, m1) {
                if let Some(m2) = sp_space1(s, e1) {
                    parsed_device_is_placed(s, m2);
                }
            }
        }
    }
}

proof fn lemma_remote_device_placed(s: Seq<u8>, p: int)
    requires
        s.len() <= usize::MAX,
    ensures
        sp_remote_device(s, p) matches Some((d, e)) ==> device_placed(s, d.device),
{
    if sp_tag(s, p, remote_keyword()) {
        if let Some(m1) = sp_space1(s, p + 6) {
            if let Some((id, e1)) = sp_id(s, m1) {
                if let Some(m2) = sp_space1(s, e1) {
                    if let Some(e2) = sp_path(s, m2) {
                        if let Some(m3) = sp_space1(s, e2) {
                            if let Some(e3) = sp_path(s, m3) {
                                if let Some(m4) = sp_space1(s, e3) {
                                    parsed_device_is_placed(s, m4);
                                }
                            }
                        }
                    }
                }
            }
        }
    }
}

proof fn lemma_more_locals_placed(s: Seq<u8>, q: int)
    requires
        s.len() <= usize::MAX,
    ensures
        forall|i: int|
            0 <= i < sp_more_locals(s, q).0.len() ==> device_placed(
                s,
                (#[trigger] sp_more_locals(s, q).0[i]).device,
            ),
    decreases s.len() - q,
{
    if let Some(m) = sp_space1(s, q) {
        lemma_local_device_placed(s, m);
        if let Some((d, e)) = sp_local_device(s, m) {
            if q < e <= s.len() {
                lemma_more_locals_placed(s, e);
                let ds = sp_more_locals(s, e).0;
                assert forall|i: int| 1 <= i < sp_more_locals(s, q).0.len() implies sp_more_locals(s, q).0[i]
                    == ds[i - 1] by {}
            }
        }
    }
}

proof fn lemma_more_remotes_placed(s: Seq<u8>, q: int)
    requires
        s.len() <= usize::MAX,
    ensures
        forall|i: int|
            0 <= i < sp_more_remotes(s, q).0.len() ==> device_placed(
                s,
                (#[trigger] sp_more_remotes(s, q).0[i]).device,
            ),
    decreases s.len() - q,
{
    if let Some(m) = sp_space1(s, q) {
        lemma_remote_device_placed(s, m);
        if let Some((d, e)) = sp_remote_device(s, m) {
            if q < e <= s.len() {
                lemma_more_remotes_placed(s, e);
                let ds = sp_more_remotes(s, e).0;
                assert forall|i: int| 1 <= i < sp_more_remotes(s, q).0.len() implies sp_more_remotes(s, q).0[i]
                    == ds[i - 1] by {}
            }
        }
    }
}

proof fn lemma_line_placed(s: Seq<u8>, p: int)
    requires
        s.len() <= usize::MAX,
    ensures
        sp_line(s, p) matches Some((l, e)) ==> line_devices_placed(s, l),
{
    if let Some(t) = sp_number(s, p, 44) {
        if let Some(m1) = sp_space1(s, t) {
            let (ls, a) = sp_locals(s, m1);
            lemma_local_device_placed(s, m1);
            if let Some((d, e)) = sp_local_device(s, m1) {
                if m1 < e <= s.len() {
                    lemma_more_locals_placed(s, e);
                    let ds = sp_more_locals(s, e).0;
                    assert forall|i: int| 1 <= i < ls.len() implies ls[i] == ds[i - 1] by {}
                }
            }
            if let Some(m2) = sp_space1(s, a) {
                let (rs, b) = sp_remotes(s, m2);
                lemma_remote_device_placed(s, m2);
                if let Some((d, e)) = sp_remote_device(s, m2) {
                    if m2 < e <= s.len() {
                        lemma_more_remotes_placed(s, e);
                        let ds = sp_more_remotes(s, e).0;
                        assert forall|i: int| 1 <= i < rs.len() implies rs[i] == ds[i - 1] by {}
                    }
                }
                let l = sp_line(s, p)->Some_0.0;
                assert forall|i: int| 0 <= i < l.local.len() implies device_placed(
                    s,
                    (#[trigger] l.local[i]).device,
                ) by {
                    if i > 0 {
                        let ds = sp_more_locals(s, sp_local_device(s, m1)->Some_0.1).0;
                        assert(l.local[i] == ds[i - 1]);
                    }
                }
                assert forall|i: int| 0 <= i < l.remote.len() implies device_placed(
                    s,
                    (#[trigger] l.remote[i]).device,
                ) by {
                    if i > 0 {
                        let ds = sp_more_remotes(s, sp_remote_device(s, m2)->Some_0.1).0;
                        assert(l.remote[i] == ds[i - 1]);
                    }
                }
            }
        }
    }
}

/// Every device of every parsed line stands in the input as
/// [`device_placed`] says.
pub proof fn parsed_lines_are_placed(s: Seq<u8>, p: int)
    requires
        s.len() <= usize::MAX,
    ensures
        forall|i: int|
            0 <= i < sp_lines(s, p).0.len() ==> line_devices_placed(s, #[trigger] sp_lines(s, p).0[i]),
    decreases s.len() - p,
{
    lemma_line_placed(s, p);
    if let Some((l, e)) = sp_line(s, p) {
        let w = run_end(s, e, RunKind::Space);
        if p < w <= s.len() {
            parsed_lines_are_placed(s, w);
            let ls = sp_lines(s, w).0;
            assert forall|i: int| 1 <= i < sp_lines(s, p).0.len() implies sp_lines(s, p).0[i] == ls[i - 1] by {}
        }
    }
}

} // verus!
