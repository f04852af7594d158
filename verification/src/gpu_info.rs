//! Reading GPU usage out of kernel-provided text.
//!
//! A process's `fdinfo` file lists one counter per line; the lines that
//! matter begin `drm-engine-` or `drm-cycles-`, and their value is the
//! first whitespace-delimited token after the first colon. The parser sums
//! those values with wrapping 64-bit addition. A descriptor belongs to the
//! GPU when its symlink target mentions a DRM device node.

use vstd::prelude::*;

verus! {

/// ASCII whitespace, as a token separator.
pub open spec fn is_ws(b: u8) -> bool {
    b == 32 || (9 <= b <= 13)
}

/// 64-bit wrapping sum.
pub open spec fn wadd(a: u64, b: u64) -> u64 {
    if a + b > u64::MAX {
        (a + b - 0x1_0000_0000_0000_0000) as u64
    } else {
        (a + b) as u64
    }
}

/// Bytes `i..i+9` of `s` spell `/dev/dri/`.
pub open spec fn drm_path_at(s: Seq<u8>, i: int) -> bool {
    &&& s[i] == 47
    &&& s[i + 1] == 100
    &&& s[i + 2] == 101
    &&& s[i + 3] == 118
    &&& s[i + 4] == 47
    &&& s[i + 5] == 100
    &&& s[i + 6] == 114
    &&& s[i + 7] == 105
    &&& s[i + 8] == 47
}

/// `s` mentions a DRM device node path.
pub open spec fn contains_drm_path(s: Seq<u8>) -> bool {
    exists|i: int| 0 <= i && i + 9 <= s.len() && drm_path_at(s, i)
}

/// Whether a descriptor symlink target points at a DRM device.
///
/// `target` is the byte form of the link target read from the process's
/// descriptor directory.
pub fn is_drm_target(target: &[u8]) -> (r: bool)
    ensures
        r == contains_drm_path(target@),
{
    if target.len() < 9 {
        return false;
    }
    let n = target.len();
    let mut i: usize = 0;
    while i <= n - 9
        invariant
            n == target@.len(),
            9 <= n,
            0 <= i <= n - 9 + 1,
            forall|k: int| 0 <= k < i ==> !drm_path_at(target@, k),
        decreases n - i,
    {
        if target[i] == 47 && target[i + 1] == 100 && target[i + 2] == 101 && target[i + 3] == 118
            && target[i + 4] == 47 && target[i + 5] == 100 && target[i + 6] == 114 && target[i
            + 7] == 105 && target[i + 8] == 47 {
            proof {
                assert(drm_path_at(target@, i as int));
            }
            return true;
        }
        i = i + 1;
    }
    proof {
        assert forall|k: int| 0 <= k && k + 9 <= n implies !drm_path_at(target@, k) by {
            assert(k < i);
        }
    }
    false
}

/// The line begins `drm-engine-`.
pub open spec fn has_engine_prefix(s: Seq<u8>) -> bool {
    &&& s.len() >= 11
    &&& s[0] == 100
    &&& s[1] == 114
    &&& s[2] == 109
    &&& s[3] == 45
    &&& s[4] == 101
    &&& s[5] == 110
    &&& s[6] == 103
    &&& s[7] == 105
    &&& s[8] == 110
    &&& s[9] == 101
    &&& s[10] == 45
}

/// The line begins `drm-cycles-`.
pub open spec fn has_cycles_prefix(s: Seq<u8>) -> bool {
    &&& s.len() >= 11
    &&& s[0] == 100
    &&& s[1] == 114
    &&& s[2] == 109
    &&& s[3] == 45
    &&& s[4] == 99
    &&& s[5] == 121
    &&& s[6] == 99
    &&& s[7] == 108
    &&& s[8] == 101
    &&& s[9] == 115
    &&& s[10] == 45
}

/// Position of the first line feed at or after `i`, or the length.
pub open spec fn line_end_from(s: Seq<u8>, i: nat) -> nat
    decreases s.len() - i when i <= s.len()
{
    if i >= s.len() {
        s.len()
    } else if s[i as int] == 10 {
        i
    } else {
        line_end_from(s, i + 1)
    }
}

/// Position of the first colon at or after `i`, or the length.
pub open spec fn colon_from(s: Seq<u8>, i: nat) -> nat
    decreases s.len() - i when i <= s.len()
{
    if i >= s.len() {
        s.len()
    } else if s[i as int] == 58 {
        i
    } else {
        colon_from(s, i + 1)
    }
}

/// Position of the first non-whitespace byte at or after `i`, or the length.
pub open spec fn token_start_from(s: Seq<u8>, i: nat) -> nat
    decreases s.len() - i when i <= s.len()
{
    if i >= s.len() {
        s.len()
    } else if is_ws(s[i as int]) {
        token_start_from(s, i + 1)
    } else {
        i
    }
}

/// Position of the first whitespace or colon at or after `i`, or the length.
pub open spec fn token_end_from(s: Seq<u8>, i: nat) -> nat
    decreases s.len() - i when i <= s.len()
{
    if i >= s.len() {
        s.len()
    } else if is_ws(s[i as int]) || s[i as int] == 58 {
        i
    } else {
        token_end_from(s, i + 1)
    }
}

/// Value of a string of decimal digits, most significant first.
pub open spec fn digits_val(t: Seq<u8>) -> nat
    decreases t.len(),
{
    if t.len() == 0 {
        0
    } else {
        digits_val(t.drop_last()) * 10 + (t.last() - 48) as nat
    }
}

/// Every byte is a decimal digit.
pub open spec fn all_digits(t: Seq<u8>) -> bool {
    forall|i: int| 0 <= i < t.len() ==> 48 <= #[trigger] t[i] <= 57
}

/// What `str::parse::<u64>` makes of a token: the numeric value when the
/// token is an optional plus sign followed by digits that fit, 0 otherwise.
pub open spec fn spec_parse_u64_or_zero(t: Seq<u8>) -> u64 {
    let d = if t.len() >= 1 && t[0] == 43 {
        t.drop_first()
    } else {
        t
    };
    if d.len() >= 1 && all_digits(d) && digits_val(d) <= u64::MAX {
        digits_val(d) as u64
    } else {
        0
    }
}

/// Contribution of one fdinfo line: the value of the first token after the
/// first colon on a counted line, 0 on any other line.
pub open spec fn spec_line_value(line: Seq<u8>) -> u64 {
    if has_engine_prefix(line) || has_cycles_prefix(line) {
        let c = colon_from(line, 0);
        if c == line.len() {
            0
        } else {
            let a = token_start_from(line, c + 1);
            let b = token_end_from(line, a);
            spec_parse_u64_or_zero(line.subrange(a as int, b as int))
        }
    } else {
        0
    }
}

/// Wrapping sum of the line values of a whole fdinfo text. Lines are
/// separated by line feeds; a carriage return before a line feed is not
/// part of the line; a final line ending is optional.
pub open spec fn spec_fdinfo_total(s: Seq<u8>) -> u64
    decreases s.len(),
{
    if s.len() == 0 {
        0
    } else {
        let e = line_end_from(s, 0);
        if e < s.len() {
            wadd(
                spec_line_value(strip_cr(s.subrange(0, e as int))),
                spec_fdinfo_total(s.subrange(e as int + 1, s.len() as int)),
            )
        } else {
            spec_line_value(s)
        }
    }
}

/// The line without a single trailing carriage return.
pub open spec fn strip_cr(line: Seq<u8>) -> Seq<u8> {
    if line.len() > 0 && line.last() == 13 {
        line.drop_last()
    } else {
        line
    }
}

/// A digit string's value only grows as digits are appended.
proof fn lemma_digits_val_prefix_grows(t: Seq<u8>, i: int, j: int)
    requires
        0 <= i <= j <= t.len(),
        all_digits(t),
    ensures
        digits_val(t.subrange(0, i)) <= digits_val(t.subrange(0, j)),
    decreases j - i,
{
    if i < j {
        lemma_digits_val_prefix_grows(t, i, j - 1);
        assert(t.subrange(0, j).drop_last() =~= t.subrange(0, j - 1));
    }
}

/// Parse the first token after the first colon of one counted line.
fn parse_line_value(line: &[u8]) -> (r: u64)
    requires
        has_engine_prefix(line@) || has_cycles_prefix(line@),
    ensures
        r == spec_line_value(line@),
{
    let n = line.len();
    // first colon
    let mut c: usize = 0;
    while c < n && line[c] != 58
        invariant
            0 <= c <= n,
            n == line@.len(),
            colon_from(line@, 0) == colon_from(line@, c as nat),
        decreases n - c,
    {
        c = c + 1;
    }
    if c == n {
        return 0;
    }
    // start of the value token
    let mut a: usize = c + 1;
    while a < n && (line[a] == 32 || (9 <= line[a] && line[a] <= 13))
        invariant
            c + 1 <= a <= n,
            n == line@.len(),
            token_start_from(line@, (c + 1) as nat) == token_start_from(line@, a as nat),
        decreases n - a,
    {
        a = a + 1;
    }
    // end of the value token
    let mut b: usize = a;
    while b < n && !(line[b] == 32 || (9 <= line[b] && line[b] <= 13) || line[b] == 58)
        invariant
            a <= b <= n,
            n == line@.len(),
            token_end_from(line@, a as nat) == token_end_from(line@, b as nat),
            forall|k: int| a <= k < b ==> !is_ws(line@[k]) && line@[k] != 58,
        decreases n - b,
    {
        b = b + 1;
    }
    let ghost tok = line@.subrange(a as int, b as int);
    // an optional plus sign, then digits
    let mut j: usize = a;
    if j < b && line[j] == 43 {
        j = j + 1;
    }
    let ghost d = if tok.len() >= 1 && tok[0] == 43 {
        tok.drop_first()
    } else {
        tok
    };
    proof {
        assert(d =~= line@.subrange(j as int, b as int));
    }
    if j == b {
        // empty digit string never parses
        return 0;
    }
    let mut val: u64 = 0;
    let mut ok: bool = true;
    let mut k: usize = j;
    while k < b
        invariant
            j <= k <= b <= n,
            n == line@.len(),
            d == line@.subrange(j as int, b as int),
            ok ==> forall|m: int| j <= m < k ==> 48 <= #[trigger] line@[m] <= 57,
            ok ==> val == digits_val(line@.subrange(j as int, k as int)),
            !ok ==> (!all_digits(d) || digits_val(line@.subrange(j as int, k as int))
                > u64::MAX),
        decreases b - k,
    {
        let ch = line[k];
        proof {
            assert(d[k - j] == line@[k as int]);
            assert(line@.subrange(j as int, k as int + 1).drop_last() =~= line@.subrange(
                j as int,
                k as int,
            ));
            assert(line@.subrange(j as int, k as int + 1).last() == line@[k as int]);
        }
        if ch < 48 || ch > 57 {
            proof {
                assert(!all_digits(d));
            }
            ok = false;
        } else if ok {
            let digit = (ch - 48) as u64;
            if val > (u64::MAX - digit) / 10 {
                proof {
                    assert(val * 10 + digit > u64::MAX) by (nonlinear_arith)
                        requires
                            val > (u64::MAX - digit) / 10,
                            digit <= 9,
                    ;
                }
                ok = false;
            } else {
                proof {
                    assert(val * 10 + digit <= u64::MAX) by (nonlinear_arith)
                        requires
                            val <= (u64::MAX - digit) / 10,
                            digit <= 9,
                    ;
                }
                val = val * 10 + digit;
            }
        } else {
            proof {
                if all_digits(d) {
                    assert forall|m: int| j <= m < k + 1 implies 48 <= #[trigger] line@[m]
                        <= 57 by {
                        assert(d[m - j] == line@[m]);
                    }
                    lemma_digits_val_prefix_grows_from(line@, j as int, k as int, k as int + 1);
                }
            }
        }
        k = k + 1;
    }
    proof {
        if ok {
            assert forall|i: int| 0 <= i < d.len() implies 48 <= #[trigger] d[i] <= 57 by {
                assert(d[i] == line@[j + i]);
            }
            assert(all_digits(d));
        }
    }
    if ok {
        val
    } else {
        0
    }
}

/// Like `lemma_digits_val_prefix_grows`, on a window of a larger sequence.
proof fn lemma_digits_val_prefix_grows_from(s: Seq<u8>, j: int, k1: int, k2: int)
    requires
        0 <= j <= k1 <= k2 <= s.len(),
        forall|m: int| j <= m < k2 ==> 48 <= #[trigger] s[m] <= 57,
    ensures
        digits_val(s.subrange(j, k1)) <= digits_val(s.subrange(j, k2)),
    decreases k2 - k1,
{
    if k1 < k2 {
        lemma_digits_val_prefix_grows_from(s, j, k1, k2 - 1);
        assert(s.subrange(j, k2).drop_last() =~= s.subrange(j, k2 - 1));
    }
}

/// Sum the engine and cycle counters of one fdinfo text.
///
/// `content` is the raw bytes of the file; the result is the wrapping sum
/// of the value on every line that begins `drm-engine-` or `drm-cycles-`.
pub fn parse_fdinfo_cycles(content: &[u8]) -> (r: u64)
    ensures
        r == spec_fdinfo_total(content@),
{
    let n = content.len();
    let mut total: u64 = 0;
    let mut pos: usize = 0;
    proof {
        assert(content@.subrange(0, n as int) =~= content@);
    }
    while pos < n
        invariant
            0 <= pos <= n,
            n == content@.len(),
            spec_fdinfo_total(content@) == wadd(
                total,
                spec_fdinfo_total(content@.subrange(pos as int, n as int)),
            ),
        decreases n - pos,
    {
        let ghost s = content@.subrange(pos as int, n as int);
        // find the end of the line
        let mut e: usize = pos;
        while e < n && content[e] != 10
            invariant
                pos <= e <= n,
                n == content@.len(),
                s == content@.subrange(pos as int, n as int),
                line_end_from(s, 0) == line_end_from(s, (e - pos) as nat),
            decreases n - e,
        {
            proof {
                assert(s[(e - pos) as int] == content@[e as int]);
            }
            e = e + 1;
        }
        proof {
            if e < n {
                assert(s[(e - pos) as int] == content@[e as int]);
            }
            assert(line_end_from(s, 0) == (e - pos) as nat);
        }
        // the line, without a carriage return before the line feed
        let mut lend = e;
        if e < n && lend > pos && content[lend - 1] == 13 {
            lend = lend - 1;
        }
        let line = vstd::slice::slice_subrange(content, pos, lend);
        proof {
            if e < n {
                assert(line@ =~= strip_cr(s.subrange(0, (e - pos) as int)));
            } else {
                assert(line@ =~= s);
            }
        }
        let v = if line.len() >= 11 && line[0] == 100 && line[1] == 114 && line[2] == 109
            && line[3] == 45 && ((line[4] == 101 && line[5] == 110 && line[6] == 103 && line[7]
            == 105 && line[8] == 110 && line[9] == 101 && line[10] == 45) || (line[4] == 99
            && line[5] == 121 && line[6] == 99 && line[7] == 108 && line[8] == 101 && line[9]
            == 115 && line[10] == 45)) {
            parse_line_value(line)
        } else {
            0
        };
        proof {
            assert(v == spec_line_value(line@));
        }
        let new_total = wrapping_add_u64(total, v);
        proof {
            if e < n {
                assert(spec_fdinfo_total(s) == wadd(
                    v,
                    spec_fdinfo_total(s.subrange((e - pos) as int + 1, s.len() as int)),
                ));
                assert(s.subrange((e - pos) as int + 1, s.len() as int) =~= content@.subrange(
                    e as int + 1,
                    n as int,
                ));
                lemma_wadd_assoc(
                    total,
                    v,
                    spec_fdinfo_total(content@.subrange(e as int + 1, n as int)),
                );
            } else {
                assert(spec_fdinfo_total(s) == v);
            }
        }
        total = new_total;
        if e < n {
            pos = e + 1;
        } else {
            pos = n;
        }
        proof {
            if pos == n {
                assert(content@.subrange(n as int, n as int) =~= Seq::<u8>::empty());
            }
        }
    }
    proof {
        if n == 0 {
            assert(content@.subrange(0, 0) =~= Seq::<u8>::empty());
        } else {
            assert(content@.subrange(n as int, n as int) =~= Seq::<u8>::empty());
        }
    }
    total
}

/// Wrapping 64-bit addition.
fn wrapping_add_u64(a: u64, b: u64) -> (r: u64)
    ensures
        r == wadd(a, b),
{
    a.wrapping_add(b)
}

/// Wrapping addition associates, so a text can be summed line by line.
proof fn lemma_wadd_assoc(a: u64, b: u64, c: u64)
    ensures
        wadd(wadd(a, b), c) == wadd(a, wadd(b, c)),
{
}

} // verus!
