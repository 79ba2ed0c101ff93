//! The byte-level text handling of input lines and numeric output.
use vstd::prelude::*;
use vstd::string::StringSliceAdditionalSpecFns;

verus! {

/// ASCII whitespace: space, tab, line feed, vertical tab, form feed and
/// carriage return.
pub open spec fn is_space(b: u8) -> bool {
    b == 0x20 || (0x09 <= b && b <= 0x0D)
}

/// Whether three bytes encode, in UTF-8, one of the three-byte White_Space
/// characters: U+1680, U+2000 to U+200A, U+2028, U+2029, U+202F, U+205F and
/// U+3000.
pub open spec fn is_wide_space(a: u8, b: u8, c: u8) -> bool {
    ||| a == 0xE1 && b == 0x9A && c == 0x80
    ||| a == 0xE2 && b == 0x80 && ((0x80 <= c && c <= 0x8A) || c == 0xA8 || c == 0xA9 || c == 0xAF)
    ||| a == 0xE2 && b == 0x81 && c == 0x9F
    ||| a == 0xE3 && b == 0x80 && c == 0x80
}

/// Whether two bytes encode, in UTF-8, U+0085 or U+00A0.
pub open spec fn is_narrow_space(a: u8, b: u8) -> bool {
    a == 0xC2 && (b == 0x85 || b == 0xA0)
}

/// The length of the UTF-8 encoding of the White_Space character that `s`
/// starts with, or zero. In valid UTF-8 each pattern starts on a character
/// boundary, since its first byte is never a continuation byte.
pub open spec fn space_prefix(s: Seq<u8>) -> int {
    if s.len() >= 1 && is_space(s[0]) {
        1
    } else if s.len() >= 2 && is_narrow_space(s[0], s[1]) {
        2
    } else if s.len() >= 3 && is_wide_space(s[0], s[1], s[2]) {
        3
    } else {
        0
    }
}

/// The length of the UTF-8 encoding of the White_Space character that `s`
/// ends with, or zero.
pub open spec fn space_suffix(s: Seq<u8>) -> int {
    let n = s.len() as int;
    if n >= 1 && is_space(s[n - 1]) {
        1
    } else if n >= 2 && is_narrow_space(s[n - 2], s[n - 1]) {
        2
    } else if n >= 3 && is_wide_space(s[n - 3], s[n - 2], s[n - 1]) {
        3
    } else {
        0
    }
}

pub open spec fn trim_start(s: Seq<u8>) -> Seq<u8>
    decreases s.len(),
{
    if space_prefix(s) > 0 {
        trim_start(s.skip(space_prefix(s)))
    } else {
        s
    }
}

pub open spec fn trim_end(s: Seq<u8>) -> Seq<u8>
    decreases s.len(),
{
    if space_suffix(s) > 0 {
        trim_end(s.take(s.len() - space_suffix(s)))
    } else {
        s
    }
}

/// UTF-8 text without its leading and trailing White_Space characters, as
/// `str::trim` gives it.
pub open spec fn trimmed(s: Seq<u8>) -> Seq<u8> {
    trim_end(trim_start(s))
}

fn is_space_byte(b: u8) -> (r: bool)
    ensures
        r == is_space(b),
{
    b == 0x20 || (0x09 <= b && b <= 0x0D)
}

fn is_narrow_space_bytes(a: u8, b: u8) -> (r: bool)
    ensures
        r == is_narrow_space(a, b),
{
    a == 0xC2 && (b == 0x85 || b == 0xA0)
}

fn is_wide_space_bytes(a: u8, b: u8, c: u8) -> (r: bool)
    ensures
        r == is_wide_space(a, b, c),
{
    (a == 0xE1 && b == 0x9A && c == 0x80) || (a == 0xE2 && b == 0x80 && ((0x80 <= c && c <= 0x8A) || c
        == 0xA8 || c == 0xA9 || c == 0xAF)) || (a == 0xE2 && b == 0x81 && c == 0x9F) || (a == 0xE3 && b
        == 0x80 && c == 0x80)
}

/// The length of the White_Space character at the start of `line[lo..hi]`.
fn space_at_start(line: &[u8], lo: usize, hi: usize) -> (r: usize)
    requires
        lo <= hi <= line@.len(),
    ensures
        r == space_prefix(line@.subrange(lo as int, hi as int)),
{
    let ghost s = line@.subrange(lo as int, hi as int);
    if hi - lo >= 1 && is_space_byte(line[lo]) {
        assert(s[0] == line@[lo as int]);
        1
    } else if hi - lo >= 2 && is_narrow_space_bytes(line[lo], line[lo + 1]) {
        assert(s[0] == line@[lo as int] && s[1] == line@[lo + 1]);
        2
    } else if hi - lo >= 3 && is_wide_space_bytes(line[lo], line[lo + 1], line[lo + 2]) {
        assert(s[0] == line@[lo as int] && s[1] == line@[lo + 1] && s[2] == line@[lo + 2]);
        3
    } else {
        proof {
            if s.len() >= 1 {
                assert(s[0] == line@[lo as int]);
            }
            if s.len() >= 2 {
                assert(s[1] == line@[lo + 1]);
            }
            if s.len() >= 3 {
                assert(s[2] == line@[lo + 2]);
            }
        }
        0
    }
}

/// The length of the White_Space character at the end of `line[lo..hi]`.
fn space_at_end(line: &[u8], lo: usize, hi: usize) -> (r: usize)
    requires
        lo <= hi <= line@.len(),
    ensures
        r == space_suffix(line@.subrange(lo as int, hi as int)),
{
    let ghost s = line@.subrange(lo as int, hi as int);
    let n = hi - lo;
    proof {
        if n >= 1 {
            assert(s[n - 1] == line@[hi - 1]);
        }
        if n >= 2 {
            assert(s[n - 2] == line@[hi - 2]);
        }
        if n >= 3 {
            assert(s[n - 3] == line@[hi - 3]);
        }
    }
    if n >= 1 && is_space_byte(line[hi - 1]) {
        1
    } else if n >= 2 && is_narrow_space_bytes(line[hi - 2], line[hi - 1]) {
        2
    } else if n >= 3 && is_wide_space_bytes(line[hi - 3], line[hi - 2], line[hi - 1]) {
        3
    } else {
        0
    }
}

/// Copies `line` without its leading and trailing White_Space characters.
pub fn trim_line(line: &[u8]) -> (r: Vec<u8>)
    ensures
        r@ == trimmed(line@),
{
    let n = line.len();
    let mut lo: usize = 0;
    assert(line@.subrange(0, n as int) =~= line@);
    loop
        invariant_except_break
            trim_start(line@) == trim_start(line@.subrange(lo as int, n as int)),
        invariant
            lo <= n == line@.len(),
        ensures
            trim_start(line@) == line@.subrange(lo as int, n as int),
        decreases n - lo,
    {
        let k = space_at_start(line, lo, n);
        if k == 0 {
            break;
        }
        assert(line@.subrange(lo as int, n as int).skip(k as int) =~= line@.subrange(lo + k, n as int));
        lo = lo + k;
    }
    let mut hi: usize = n;
    loop
        invariant_except_break
            trimmed(line@) == trim_end(line@.subrange(lo as int, hi as int)),
        invariant
            lo <= hi <= n == line@.len(),
        ensures
            trimmed(line@) == line@.subrange(lo as int, hi as int),
        decreases hi,
    {
        let k = space_at_end(line, lo, hi);
        if k == 0 {
            break;
        }
        assert(line@.subrange(lo as int, hi as int).take(hi - lo - k) =~= line@.subrange(
            lo as int,
            hi - k,
        ));
        hi = hi - k;
    }
    let mut r: Vec<u8> = Vec::new();
    let mut i: usize = lo;
    while i < hi
        invariant
            lo <= i <= hi <= n == line@.len(),
            r@ == line@.subrange(lo as int, i as int),
        decreases hi - i,
    {
        r.push(line[i]);
        i = i + 1;
        assert(r@ =~= line@.subrange(lo as int, i as int));
    }
    r
}

/// A line without its terminator: a final line feed, and a carriage return
/// just before it.
pub open spec fn without_line_end(s: Seq<u8>) -> Seq<u8> {
    if s.len() > 0 && s.last() == NEWLINE {
        let t = s.drop_last();
        if t.len() > 0 && t.last() == 0x0D {
            t.drop_last()
        } else {
            t
        }
    } else {
        s
    }
}

/// Copies `line` without its terminator.
pub fn strip_line_end(line: &[u8]) -> (r: Vec<u8>)
    ensures
        r@ == without_line_end(line@),
{
    let n = line.len();
    let mut end = n;
    if end > 0 && line[end - 1] == NEWLINE {
        end = end - 1;
        if end > 0 && line[end - 1] == 0x0D {
            end = end - 1;
        }
    }
    let mut r: Vec<u8> = Vec::new();
    let mut i: usize = 0;
    while i < end
        invariant
            i <= end <= n == line@.len(),
            r@ == line@.subrange(0, i as int),
        decreases end - i,
    {
        r.push(line[i]);
        i = i + 1;
        assert(r@ =~= line@.subrange(0, i as int));
    }
    assert(r@ =~= without_line_end(line@));
    r
}

pub open spec fn is_digit(b: u8) -> bool {
    0x30 <= b && b <= 0x39
}

/// The value of a string of decimal digits.
pub open spec fn digits_value(s: Seq<u8>) -> nat
    decreases s.len(),
{
    if s.len() == 0 {
        0
    } else {
        digits_value(s.drop_last()) * 10 + (s.last() - 0x30) as nat
    }
}

/// A number's text without its optional leading `+`.
pub open spec fn unsigned_body(s: Seq<u8>) -> Seq<u8> {
    if s.len() > 0 && s[0] == 0x2B {
        s.drop_first()
    } else {
        s
    }
}

pub open spec fn all_digits(s: Seq<u8>) -> bool {
    forall|i: int| 0 <= i < s.len() ==> is_digit(#[trigger] s[i])
}

/// The text of an unsigned number as `usize` parsing reads it: an optional
/// `+`, then at least one digit, and no more than `usize::MAX`.
pub open spec fn parse_unsigned(s: Seq<u8>) -> Option<nat> {
    let body = unsigned_body(s);
    if body.len() > 0 && all_digits(body) && digits_value(body) <= usize::MAX {
        Some(digits_value(body))
    } else {
        None
    }
}

/// The byte a numeric input line stands for: its value truncated to a byte,
/// or zero when it is not a number.
pub open spec fn number_byte(s: Seq<u8>) -> u8 {
    match parse_unsigned(s) {
        Some(n) => (n % 256) as u8,
        None => 0,
    }
}

/// Reads `text` as an unsigned decimal number and truncates it to a byte;
/// text that is not such a number reads as zero.
pub fn parse_number_byte(text: &[u8]) -> (r: u8)
    ensures
        r == number_byte(text@),
{
    let n = text.len();
    let start: usize = if n > 0 && text[0] == 0x2B {
        1
    } else {
        0
    };
    let ghost body = text@.subrange(start as int, n as int);
    assert(body =~= unsigned_body(text@));
    if start == n {
        return 0;
    }
    let mut value: u128 = 0;
    let mut too_large = false;
    let mut i: usize = start;
    while i < n
        invariant
            start <= i <= n == text@.len(),
            body == text@.subrange(start as int, n as int),
            body == unsigned_body(text@),
            forall|j: int| start <= j < i ==> is_digit(#[trigger] text@[j]),
            !too_large ==> value == digits_value(text@.subrange(start as int, i as int)),
            !too_large ==> value <= usize::MAX,
            too_large ==> digits_value(text@.subrange(start as int, i as int)) > usize::MAX,
        decreases n - i,
    {
        let b = text[i];
        if b < 0x30 || b > 0x39 {
            assert(body[i - start] == b);
            assert(!is_digit(body[i - start]));
            assert(!all_digits(body));
            return 0;
        }
        let ghost prefix = text@.subrange(start as int, i as int);
        assert(text@.subrange(start as int, i + 1).drop_last() =~= prefix);
        if !too_large {
            value = value * 10 + (b - 0x30) as u128;
            if value > usize::MAX as u128 {
                too_large = true;
            }
        } else {
            assert(digits_value(prefix) * 10 + (b - 0x30) as nat >= digits_value(prefix)) by (nonlinear_arith);
        }
        i = i + 1;
    }
    assert(text@.subrange(start as int, n as int) =~= body);
    assert forall|j: int| 0 <= j < body.len() implies is_digit(#[trigger] body[j]) by {
        assert(body[j] == text@[start + j]);
    }
    if too_large {
        0
    } else {
        (value % 256) as u8
    }
}

/// The decimal digits of a number, most significant first.
pub open spec fn decimal(n: nat) -> Seq<u8>
    decreases n,
{
    if n < 10 {
        seq![(0x30 + n) as u8]
    } else {
        decimal(n / 10).push((0x30 + n % 10) as u8)
    }
}

/// The decimal text of a byte.
pub fn decimal_bytes(n: u8) -> (r: Vec<u8>)
    ensures
        r@ == decimal(n as nat),
{
    proof {
        reveal_with_fuel(decimal, 3);
    }
    let mut r: Vec<u8> = Vec::new();
    if n >= 100 {
        r.push(0x30 + n / 100);
    }
    if n >= 10 {
        r.push(0x30 + (n / 10) % 10);
    }
    r.push(0x30 + n % 10);
    proof {
        if n >= 100 {
            assert(decimal(n as nat / 100) == seq![(0x30 + n / 100) as u8]);
            assert(r@ =~= decimal(n as nat));
        } else if n >= 10 {
            assert(r@ =~= decimal(n as nat));
        } else {
            assert(r@ =~= decimal(n as nat));
        }
    }
    r
}

/// The byte that starts a comment, `#`.
pub const COMMENT_CHAR: u8 = 0x23;

/// The byte that ends a line.
pub const NEWLINE: u8 = 0x0A;

/// The index of the first `b` in `s`, or `s.len()` when there is none.
pub open spec fn first_index(s: Seq<u8>, b: u8) -> int
    decreases s.len(),
{
    if s.len() == 0 || s[0] == b {
        0
    } else {
        1 + first_index(s.drop_first(), b)
    }
}

/// A line without its comment.
pub open spec fn strip_comment(line: Seq<u8>) -> Seq<u8> {
    line.take(first_index(line, COMMENT_CHAR))
}

/// A program text with each line trimmed and cut at its comment, and the
/// lines joined without separators.
pub open spec fn cleaned(s: Seq<u8>) -> Seq<u8>
    decreases s.len(),
{
    let i = first_index(s, NEWLINE);
    let line = strip_comment(trimmed(s.take(i)));
    if 0 <= i < s.len() {
        line + cleaned(s.skip(i + 1))
    } else {
        line
    }
}

proof fn lemma_first_index(s: Seq<u8>, b: u8, k: int)
    requires
        0 <= k <= s.len(),
        forall|j: int| 0 <= j < k ==> s[j] != b,
        k == s.len() || s[k] == b,
    ensures
        first_index(s, b) == k,
    decreases k,
{
    if k > 0 {
        lemma_first_index(s.drop_first(), b, k - 1);
    }
}

/// The index of the first `b` in `s[from..]`, or `s.len()`.
fn find_byte(s: &[u8], from: usize, b: u8) -> (r: usize)
    requires
        from <= s@.len(),
    ensures
        from <= r <= s@.len(),
        first_index(s@.skip(from as int), b) == r - from,
{
    let mut i = from;
    while i < s.len() && s[i] != b
        invariant
            from <= i <= s@.len(),
            forall|j: int| from <= j < i ==> s@[j] != b,
        decreases s@.len() - i,
    {
        i = i + 1;
    }
    proof {
        let t = s@.skip(from as int);
        assert forall|j: int| 0 <= j < i - from implies t[j] != b by {
            assert(t[j] == s@[from + j]);
        }
        lemma_first_index(t, b, i - from);
    }
    i
}

/// Strips comments from a program text: each line is trimmed and cut at its
/// first `#`, and the lines are joined.
pub fn clean_source(source: &str) -> (r: Vec<u8>)
    ensures
        r@ == cleaned(source.spec_bytes()),
{
    let s = source.as_bytes();
    let n = s.len();
    let mut out: Vec<u8> = Vec::new();
    let mut start: usize = 0;
    assert(s@.skip(0) =~= s@);
    loop
        invariant_except_break
            out@ + cleaned(s@.skip(start as int)) == cleaned(s@),
        invariant
            n == s@.len(),
            start <= n,
            s@ == source.spec_bytes(),
        ensures
            out@ == cleaned(s@),
        decreases n - start,
    {
        let rest = Ghost(s@.skip(start as int));
        let end = find_byte(s, start, NEWLINE);
        let mut line: Vec<u8> = Vec::new();
        let mut k: usize = start;
        while k < end
            invariant
                start <= k <= end <= n == s@.len(),
                line@ == s@.subrange(start as int, k as int),
            decreases end - k,
        {
            line.push(s[k]);
            k = k + 1;
            assert(line@ =~= s@.subrange(start as int, k as int));
        }
        assert(rest@.take(end - start) =~= s@.subrange(start as int, end as int));
        let t = trim_line(line.as_slice());
        let cut = find_byte(t.as_slice(), 0, COMMENT_CHAR);
        assert(t@.skip(0) =~= t@);
        let mut j: usize = 0;
        let ghost before = out@;
        while j < cut
            invariant
                j <= cut <= t@.len(),
                out@ == before + t@.subrange(0, j as int),
            decreases cut - j,
        {
            out.push(t[j]);
            j = j + 1;
            assert(out@ =~= before + t@.subrange(0, j as int));
        }
        assert(t@.subrange(0, cut as int) =~= strip_comment(t@));
        if end == n {
            assert(out@ =~= before + cleaned(rest@));
            break;
        }
        assert(rest@.skip(end - start + 1) =~= s@.skip(end + 1));
        assert(out@ + cleaned(s@.skip(end + 1)) =~= before + cleaned(rest@));
        start = end + 1;
    }
    out
}

} // verus!
