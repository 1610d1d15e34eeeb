//! Byte-level parsing of free-text modem replies.
//!
//! The replies on the serial link are noisy, so every check here is a
//! substring or field scan over whatever bytes have accumulated: substring
//! search, decimal fields, and the two structured reply shapes (the
//! action-trigger reply carrying a status code and content length, and the
//! length-poll reply carrying a content length).

use vstd::prelude::*;
use vstd::string::StrSliceExecFns;
use vstd::string::StringSliceAdditionalSpecFns;

verus! {

/// The ASCII bytes of a literal command or pattern.
pub open spec fn lit8(s: &str) -> Seq<u8> {
    s.spec_bytes()
}

/// Turn a literal into its byte vector.
pub fn lit(s: &str) -> (r: Vec<u8>)
    ensures
        r@ == lit8(s),
{
    s.as_bytes_vec()
}

/// Append all of `src` to `out`.
pub fn push_all(out: &mut Vec<u8>, src: &Vec<u8>)
    ensures
        final(out)@ == old(out)@ + src@,
{
    let mut i: usize = 0;
    while i < src.len()
        invariant
            i <= src@.len(),
            out@ == old(out)@ + src@.take(i as int),
        decreases src@.len() - i,
    {
        out.push(src[i]);
        proof {
            assert(src@.take(i + 1) =~= src@.take(i as int).push(src@[i as int]));
        }
        i = i + 1;
    }
    proof {
        assert(src@.take(src@.len() as int) =~= src@);
    }
}

/// Whether the two byte vectors hold the same bytes.
pub fn vec_eq(a: &Vec<u8>, b: &Vec<u8>) -> (r: bool)
    ensures
        r == (a@ == b@),
{
    if a.len() != b.len() {
        return false;
    }
    let mut i: usize = 0;
    while i < a.len()
        invariant
            a@.len() == b@.len(),
            i <= a@.len(),
            forall|j: int| 0 <= j < i ==> a@[j] == b@[j],
        decreases a@.len() - i,
    {
        if a[i] != b[i] {
            return false;
        }
        i = i + 1;
    }
    proof {
        assert(a@ =~= b@);
    }
    true
}

/// `needle` occurs in `hay` at position `i`.
pub open spec fn match_at(hay: Seq<u8>, needle: Seq<u8>, i: int) -> bool {
    &&& 0 <= i
    &&& i + needle.len() <= hay.len()
    &&& forall|k: int| 0 <= k < needle.len() ==> hay[i + k] == needle[k]
}

/// `needle` occurs somewhere in `hay`.
pub open spec fn contains_seq(hay: Seq<u8>, needle: Seq<u8>) -> bool {
    exists|i: int| match_at(hay, needle, i)
}

/// Position of the first occurrence of `needle` at or after `j`.
pub open spec fn first_match_from(hay: Seq<u8>, needle: Seq<u8>, j: int) -> Option<int>
    recommends
        0 <= j,
    decreases hay.len() - j,
{
    if j + needle.len() > hay.len() || j > hay.len() {
        None
    } else if match_at(hay, needle, j) {
        Some(j)
    } else {
        first_match_from(hay, needle, j + 1)
    }
}

/// Position of the first occurrence of `needle` in `hay`.
pub open spec fn spec_find(hay: Seq<u8>, needle: Seq<u8>) -> Option<int> {
    first_match_from(hay, needle, 0)
}

/// The scan finds an occurrence exactly when one exists.
pub proof fn lemma_first_match_from_complete(hay: Seq<u8>, needle: Seq<u8>, j: int)
    requires
        0 <= j,
    ensures
        first_match_from(hay, needle, j) matches Some(i) ==> match_at(hay, needle, i) && j <= i,
        first_match_from(hay, needle, j) is None ==> forall|i: int|
            j <= i ==> !match_at(hay, needle, i),
    decreases hay.len() - j,
{
    if j + needle.len() > hay.len() || j > hay.len() {
    } else if match_at(hay, needle, j) {
    } else {
        lemma_first_match_from_complete(hay, needle, j + 1);
    }
}

/// `spec_find` succeeds exactly when the needle occurs.
pub proof fn lemma_find_contains(hay: Seq<u8>, needle: Seq<u8>)
    ensures
        spec_find(hay, needle) is Some <==> contains_seq(hay, needle),
{
    lemma_first_match_from_complete(hay, needle, 0);
    if contains_seq(hay, needle) {
        let i = choose|i: int| match_at(hay, needle, i);
        assert(first_match_from(hay, needle, 0) is None ==> !match_at(hay, needle, i));
    }
}

/// Whether `needle` occurs at position `i` of `hay`.
fn matches_at(hay: &Vec<u8>, needle: &Vec<u8>, i: usize) -> (r: bool)
    requires
        i + needle@.len() <= hay@.len(),
    ensures
        r == match_at(hay@, needle@, i as int),
{
    let hlen = hay.len();
    let mut k: usize = 0;
    while k < needle.len()
        invariant
            hlen == hay@.len(),
            i + needle@.len() <= hay@.len(),
            k <= needle@.len(),
            forall|m: int| 0 <= m < k ==> hay@[i + m] == needle@[m],
        decreases needle@.len() - k,
    {
        if hay[i + k] != needle[k] {
            return false;
        }
        k = k + 1;
    }
    true
}

/// First occurrence of `needle` in `hay`, if any.
pub fn find(hay: &Vec<u8>, needle: &Vec<u8>) -> (r: Option<usize>)
    ensures
        r matches Some(i) ==> spec_find(hay@, needle@) == Some(i as int),
        r is None ==> spec_find(hay@, needle@) is None,
{
    if needle.len() > hay.len() {
        return None;
    }
    let bound = hay.len() - needle.len();
    let mut i: usize = 0;
    loop
        invariant
            needle@.len() <= hay@.len(),
            bound == hay@.len() - needle@.len(),
            i <= bound,
            first_match_from(hay@, needle@, 0) == first_match_from(hay@, needle@, i as int),
        decreases bound - i,
    {
        if matches_at(hay, needle, i) {
            return Some(i);
        }
        if i == bound {
            return None;
        }
        i = i + 1;
    }
}

/// Whether `needle` occurs anywhere in `hay`.
pub fn contains(hay: &Vec<u8>, needle: &Vec<u8>) -> (r: bool)
    ensures
        r == contains_seq(hay@, needle@),
{
    proof {
        lemma_find_contains(hay@, needle@);
    }
    match find(hay, needle) {
        Some(_) => true,
        None => false,
    }
}

/// ASCII decimal digit.
pub open spec fn is_digit(b: u8) -> bool {
    48 <= b <= 57
}

/// Every byte is a decimal digit.
pub open spec fn all_digits(s: Seq<u8>) -> bool {
    forall|i: int| 0 <= i < s.len() ==> is_digit(#[trigger] s[i])
}

/// Numeric value of a digit string.
pub open spec fn digits_val(s: Seq<u8>) -> nat
    recommends
        all_digits(s),
    decreases s.len(),
{
    if s.len() == 0 {
        0
    } else {
        10 * digits_val(s.drop_last()) + (if is_digit(s.last()) {
            (s.last() - 48) as nat
        } else {
            0
        })
    }
}

/// A prefix of a digit string never exceeds the whole string's value.
proof fn lemma_digits_val_prefix_le(s: Seq<u8>, j: int)
    requires
        0 <= j <= s.len(),
    ensures
        digits_val(s.take(j)) <= digits_val(s),
    decreases s.len(),
{
    if j == s.len() {
        assert(s.take(j) =~= s);
    } else {
        assert(s.drop_last().take(j) =~= s.take(j));
        lemma_digits_val_prefix_le(s.drop_last(), j);
    }
}

/// Parse an unsigned decimal field: every byte must be a digit, the field
/// must be nonempty, and the value must fit `u32`; exactly then the parse
/// succeeds.
pub fn parse_u32_digits(s: &Vec<u8>) -> (r: Option<u32>)
    ensures
        r is Some <==> (s@.len() > 0 && all_digits(s@) && digits_val(s@) <= u32::MAX),
        r matches Some(v) ==> v == digits_val(s@),
{
    if s.len() == 0 {
        return None;
    }
    let mut acc: u64 = 0;
    let mut i: usize = 0;
    while i < s.len()
        invariant
            i <= s@.len(),
            acc == digits_val(s@.take(i as int)),
            acc <= u32::MAX,
            all_digits(s@.take(i as int)),
        decreases s@.len() - i,
    {
        let b = s[i];
        if b < 48 || b > 57 {
            return None;
        }
        proof {
            assert(s@.take(i + 1).drop_last() =~= s@.take(i as int));
            assert(s@.take(i + 1).last() == s@[i as int]);
        }
        acc = acc * 10 + (b - 48) as u64;
        i = i + 1;
        if acc > 0xffff_ffff {
            proof {
                lemma_digits_val_prefix_le(s@, i as int);
            }
            return None;
        }
    }
    proof {
        assert(s@.take(s@.len() as int) =~= s@);
    }
    Some(acc as u32)
}

/// First position at or after `j` holding a digit (or the end).
pub open spec fn skip_non_digits(s: Seq<u8>, j: int) -> int
    recommends
        0 <= j <= s.len(),
    decreases s.len() - j,
{
    if j < s.len() && !is_digit(s[j]) {
        skip_non_digits(s, j + 1)
    } else {
        j
    }
}

/// End of the digit run starting at `j` (first non-digit position or the
/// end).
pub open spec fn digit_run_end(s: Seq<u8>, j: int) -> int
    recommends
        0 <= j <= s.len(),
    decreases s.len() - j,
{
    if j < s.len() && is_digit(s[j]) {
        digit_run_end(s, j + 1)
    } else {
        j
    }
}

/// The scans stay within the buffer.
pub proof fn lemma_scan_bounds(s: Seq<u8>, j: int)
    requires
        0 <= j <= s.len(),
    ensures
        j <= skip_non_digits(s, j) <= s.len(),
        j <= digit_run_end(s, j) <= s.len(),
    decreases s.len() - j,
{
    if j < s.len() {
        lemma_scan_bounds(s, j + 1);
    }
}

/// The bytes of a digit run are digits.
pub proof fn lemma_digit_run_digits(s: Seq<u8>, j: int)
    requires
        0 <= j <= s.len(),
    ensures
        all_digits(s.subrange(j, digit_run_end(s, j))),
    decreases s.len() - j,
{
    lemma_scan_bounds(s, j);
    if j < s.len() && is_digit(s[j]) {
        lemma_digit_run_digits(s, j + 1);
        let e = digit_run_end(s, j);
        assert forall|i: int| 0 <= i < s.subrange(j, e).len() implies is_digit(
            #[trigger] s.subrange(j, e)[i],
        ) by {
            if i > 0 {
                assert(s.subrange(j, e)[i] == s.subrange(j + 1, e)[i - 1]);
            }
        }
    }
}

/// Advance to the first digit at or after `j`.
pub fn skip_nd(buf: &Vec<u8>, j: usize) -> (r: usize)
    requires
        j <= buf@.len(),
    ensures
        r == skip_non_digits(buf@, j as int),
        j <= r <= buf@.len(),
{
    let mut i: usize = j;
    while i < buf.len() && !(48 <= buf[i] && buf[i] <= 57)
        invariant
            j <= i <= buf@.len(),
            skip_non_digits(buf@, j as int) == skip_non_digits(buf@, i as int),
        decreases buf@.len() - i,
    {
        i = i + 1;
    }
    i
}

/// Advance past the digit run starting at `j`.
pub fn run_end(buf: &Vec<u8>, j: usize) -> (r: usize)
    requires
        j <= buf@.len(),
    ensures
        r == digit_run_end(buf@, j as int),
        j <= r <= buf@.len(),
{
    let mut i: usize = j;
    while i < buf.len() && 48 <= buf[i] && buf[i] <= 57
        invariant
            j <= i <= buf@.len(),
            digit_run_end(buf@, j as int) == digit_run_end(buf@, i as int),
        decreases buf@.len() - i,
    {
        i = i + 1;
    }
    i
}

/// Copy `buf[a..b]` into a fresh vector.
pub fn copy_range(buf: &Vec<u8>, a: usize, b: usize) -> (r: Vec<u8>)
    requires
        a <= b <= buf@.len(),
    ensures
        r@ == buf@.subrange(a as int, b as int),
{
    let mut out: Vec<u8> = Vec::new();
    let mut i: usize = a;
    while i < b
        invariant
            a <= i <= b <= buf@.len(),
            out@ == buf@.subrange(a as int, i as int),
        decreases b - i,
    {
        out.push(buf[i]);
        proof {
            assert(buf@.subrange(a as int, i + 1) =~= buf@.subrange(a as int, i as int).push(
                buf@[i as int],
            ));
        }
        i = i + 1;
    }
    out
}

/// Fields of the action-trigger reply, scanned from position `j` (just past
/// the marker): a first numeric field, a comma, the status code, a comma,
/// the content length, and the terminating line break at the end of the
/// buffer. The parse succeeds exactly when the reply is complete and both
/// numbers fit `u32`.
pub open spec fn spec_action_fields(s: Seq<u8>, j: int) -> Option<(nat, nat)>
    recommends
        0 <= j <= s.len(),
{
    let j1 = digit_run_end(s, skip_non_digits(s, j));
    let j2 = skip_non_digits(s, j1 + 1);
    let j3 = digit_run_end(s, j2);
    let j4 = skip_non_digits(s, j3 + 1);
    let j5 = digit_run_end(s, j4);
    if j1 == skip_non_digits(s, j) || j1 >= s.len() || s[j1] != 44 {
        None
    } else if j3 == j2 || j3 >= s.len() || s[j3] != 44 {
        None
    } else if j5 == j4 || j5 + 2 != s.len() || s[j5] != 13 || s[j5 + 1] != 10 {
        None
    } else {
        let status = digits_val(s.subrange(j2, j3));
        let length = digits_val(s.subrange(j4, j5));
        if status <= u32::MAX && length <= u32::MAX {
            Some((status, length))
        } else {
            None
        }
    }
}

/// Status code and content length of the action-trigger reply: the fields
/// following the first occurrence of `marker`, if the reply is complete.
pub open spec fn spec_parse_action(s: Seq<u8>, marker: Seq<u8>) -> Option<(nat, nat)> {
    match spec_find(s, marker) {
        None => None,
        Some(p) => spec_action_fields(s, p + marker.len()),
    }
}

/// Parse the action-trigger reply.
pub fn parse_action(buf: &Vec<u8>, marker: &Vec<u8>) -> (r: Option<(u32, u32)>)
    ensures
        r matches Some(v) ==> spec_parse_action(buf@, marker@) == Some(
            (v.0 as nat, v.1 as nat),
        ),
        r is None ==> spec_parse_action(buf@, marker@) is None,
{
    let p = match find(buf, marker) {
        None => {
            return None;
        },
        Some(p) => p,
    };
    proof {
        lemma_first_match_from_complete(buf@, marker@, 0);
    }
    let blen = buf.len();
    let j = p + marker.len();
    let j0 = skip_nd(buf, j);
    let j1 = run_end(buf, j0);
    if j1 == j0 || j1 >= buf.len() || buf[j1] != 44 {
        return None;
    }
    let j2 = skip_nd(buf, j1 + 1);
    let j3 = run_end(buf, j2);
    if j3 == j2 || j3 >= buf.len() || buf[j3] != 44 {
        return None;
    }
    let j4 = skip_nd(buf, j3 + 1);
    let j5 = run_end(buf, j4);
    if j5 == j4 || blen < 2 || j5 != blen - 2 || buf[j5] != 13 || buf[j5 + 1] != 10 {
        return None;
    }
    let status_bytes = copy_range(buf, j2, j3);
    let length_bytes = copy_range(buf, j4, j5);
    proof {
        lemma_digit_run_digits(buf@, j2 as int);
        lemma_digit_run_digits(buf@, j4 as int);
    }
    let status = parse_u32_digits(&status_bytes);
    let length = parse_u32_digits(&length_bytes);
    match (status, length) {
        (Some(st), Some(cl)) => Some((st, cl)),
        _ => None,
    }
}

/// Content length of the length-poll reply, scanned from position `j` (just
/// past the marker): a digit run starting immediately at `j`, terminated by
/// a carriage return. Succeeds exactly when the run is nonempty, terminated,
/// and fits `u32`.
pub open spec fn spec_len_field(s: Seq<u8>, j: int) -> Option<nat>
    recommends
        0 <= j <= s.len(),
{
    let e = digit_run_end(s, j);
    if e == j || e >= s.len() || s[e] != 13 {
        None
    } else {
        let v = digits_val(s.subrange(j, e));
        if v <= u32::MAX {
            Some(v)
        } else {
            None
        }
    }
}

/// Content length of the length-poll reply: the digit field following the
/// first occurrence of `marker`.
pub open spec fn spec_parse_len(s: Seq<u8>, marker: Seq<u8>) -> Option<nat> {
    match spec_find(s, marker) {
        None => None,
        Some(p) => spec_len_field(s, p + marker.len()),
    }
}

/// Parse the length-poll reply.
pub fn parse_len(buf: &Vec<u8>, marker: &Vec<u8>) -> (r: Option<u32>)
    ensures
        r matches Some(v) ==> spec_parse_len(buf@, marker@) == Some(v as nat),
        r is None ==> spec_parse_len(buf@, marker@) is None,
{
    let p = match find(buf, marker) {
        None => {
            return None;
        },
        Some(p) => p,
    };
    proof {
        lemma_first_match_from_complete(buf@, marker@, 0);
    }
    let blen = buf.len();
    let j = p + marker.len();
    let e = run_end(buf, j);
    if e == j || e >= buf.len() || buf[e] != 13 {
        return None;
    }
    let field = copy_range(buf, j, e);
    proof {
        lemma_digit_run_digits(buf@, j as int);
    }
    parse_u32_digits(&field)
}

} // verus!
