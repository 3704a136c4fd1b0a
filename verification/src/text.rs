//! Character-level text handling shared by the protocol and command-output
//! parsers: trimming, searching, splitting into lines, number parsing and
//! number formatting, each stated over `Seq<char>`.
use vstd::prelude::*;
use vstd::string::*;
use vstd::std_specs::iter::IteratorSpec;

verus! {

broadcast use vstd::string::group_string_axioms;

// ---------------------------------------------------------------------------
// Specifications
// ---------------------------------------------------------------------------

/// `char::is_whitespace`: the Unicode `White_Space` property.
pub open spec fn is_whitespace(c: char) -> bool {
    let u = c as u32;
    ||| (9 <= u && u <= 13)
    ||| u == 32
    ||| u == 0x85
    ||| u == 0xA0
    ||| u == 0x1680
    ||| (0x2000 <= u && u <= 0x200A)
    ||| u == 0x2028
    ||| u == 0x2029
    ||| u == 0x202F
    ||| u == 0x205F
    ||| u == 0x3000
}

/// `str::trim_start`.
pub open spec fn trim_start(s: Seq<char>) -> Seq<char>
    decreases s.len(),
{
    if s.len() > 0 && is_whitespace(s[0]) {
        trim_start(s.drop_first())
    } else {
        s
    }
}

/// `str::trim_end`.
pub open spec fn trim_end(s: Seq<char>) -> Seq<char>
    decreases s.len(),
{
    if s.len() > 0 && is_whitespace(s.last()) {
        trim_end(s.drop_last())
    } else {
        s
    }
}

/// `str::trim`.
pub open spec fn trim(s: Seq<char>) -> Seq<char> {
    trim_end(trim_start(s))
}

/// `str::trim_start_matches` with a single character.
pub open spec fn strip_leading(s: Seq<char>, c: char) -> Seq<char>
    decreases s.len(),
{
    if s.len() > 0 && s[0] == c {
        strip_leading(s.drop_first(), c)
    } else {
        s
    }
}

/// `str::trim_end_matches` with a single character.
pub open spec fn strip_trailing(s: Seq<char>, c: char) -> Seq<char>
    decreases s.len(),
{
    if s.len() > 0 && s.last() == c {
        strip_trailing(s.drop_last(), c)
    } else {
        s
    }
}

/// `str::trim_matches` with a single character.
pub open spec fn strip_both(s: Seq<char>, c: char) -> Seq<char> {
    strip_trailing(strip_leading(s, c), c)
}

/// `str::starts_with`.
pub open spec fn starts_with(s: Seq<char>, p: Seq<char>) -> bool {
    p.len() <= s.len() && s.subrange(0, p.len() as int) == p
}

/// `str::ends_with`.
pub open spec fn ends_with(s: Seq<char>, p: Seq<char>) -> bool {
    p.len() <= s.len() && s.subrange(s.len() - p.len(), s.len() as int) == p
}

/// `str::trim_end_matches` with a non-empty string pattern.
pub open spec fn strip_trailing_pat(s: Seq<char>, p: Seq<char>) -> Seq<char>
    decreases s.len(),
{
    if p.len() > 0 && ends_with(s, p) {
        strip_trailing_pat(s.subrange(0, s.len() - p.len()), p)
    } else {
        s
    }
}

/// `str::trim_start_matches` with a non-empty string pattern.
pub open spec fn strip_leading_pat(s: Seq<char>, p: Seq<char>) -> Seq<char>
    decreases s.len(),
{
    if p.len() > 0 && starts_with(s, p) {
        strip_leading_pat(s.skip(p.len() as int), p)
    } else {
        s
    }
}

/// `str::contains` with a string pattern.
pub open spec fn contains(s: Seq<char>, p: Seq<char>) -> bool {
    exists|i: int| 0 <= i && i + p.len() <= s.len() && #[trigger] s.subrange(i, i + p.len()) == p
}

/// `str::find` with a single character: the index of its first occurrence.
pub open spec fn find_char(s: Seq<char>, c: char) -> Option<int>
    decreases s.len(),
{
    if s.len() == 0 {
        None
    } else if s[0] == c {
        Some(0)
    } else {
        match find_char(s.drop_first(), c) {
            Some(i) => Some(i + 1),
            None => None,
        }
    }
}

/// `str::rfind` with a single character: the index of its last occurrence.
pub open spec fn rfind_char(s: Seq<char>, c: char) -> Option<int>
    decreases s.len(),
{
    if s.len() == 0 {
        None
    } else if s.last() == c {
        Some(s.len() - 1)
    } else {
        rfind_char(s.drop_last(), c)
    }
}

/// Drops one trailing carriage return.
pub open spec fn strip_cr(l: Seq<char>) -> Seq<char> {
    if l.len() > 0 && l.last() == '\r' {
        l.drop_last()
    } else {
        l
    }
}

/// The lines of `s` that follow the partial line `cur`, as `str::lines`
/// gives them: split after each `\n`, without the `\n` and one `\r` before
/// it; a final line without `\n` is kept as it is.
pub open spec fn lines_from(s: Seq<char>, cur: Seq<char>) -> Seq<Seq<char>>
    decreases s.len(),
{
    if s.len() == 0 {
        if cur.len() == 0 {
            Seq::empty()
        } else {
            seq![cur]
        }
    } else if s[0] == '\n' {
        seq![strip_cr(cur)] + lines_from(s.drop_first(), Seq::empty())
    } else {
        lines_from(s.drop_first(), cur.push(s[0]))
    }
}

/// `str::lines`.
pub open spec fn lines(s: Seq<char>) -> Seq<Seq<char>> {
    lines_from(s, Seq::empty())
}

/// `char::to_digit(radix)` for radix 10 or 16, with -1 for a non-digit.
pub open spec fn digit_value(c: char, radix: int) -> int {
    let u = c as u32;
    if 48 <= u && u <= 57 && u - 48 < radix {
        u - 48
    } else if radix == 16 && 97 <= u && u <= 102 {
        u - 87
    } else if radix == 16 && 65 <= u && u <= 70 {
        u - 55
    } else {
        -1
    }
}

pub open spec fn all_digits(s: Seq<char>, radix: int) -> bool {
    forall|i: int| 0 <= i < s.len() ==> digit_value(#[trigger] s[i], radix) >= 0
}

/// The value of a string of digits, most significant first.
pub open spec fn digits_value(s: Seq<char>, radix: int) -> int
    decreases s.len(),
{
    if s.len() == 0 {
        0
    } else {
        digits_value(s.drop_last(), radix) * radix + digit_value(s.last(), radix)
    }
}

/// The digits that `u32::from_str_radix` reads: one leading `+` is skipped.
pub open spec fn unsigned_digits(s: Seq<char>) -> Seq<char> {
    if s.len() > 0 && s[0] == '+' {
        s.drop_first()
    } else {
        s
    }
}

/// `u32::from_str_radix(s, radix)` (and `str::parse::<u32>` for radix 10),
/// with `None` for every error.
pub open spec fn parse_u32(s: Seq<char>, radix: int) -> Option<u32> {
    let d = unsigned_digits(s);
    if d.len() == 0 || !all_digits(d, radix) || digits_value(d, radix) > u32::MAX {
        None
    } else {
        Some(digits_value(d, radix) as u32)
    }
}

pub open spec fn digit_char(d: int) -> char {
    (d + 48) as char
}

/// The decimal digits of `n`, without leading zeros (`"0"` for zero).
pub open spec fn decimal(n: nat) -> Seq<char>
    decreases n,
{
    if n < 10 {
        seq![digit_char(n as int)]
    } else {
        decimal(n / 10).push(digit_char((n % 10) as int))
    }
}

/// `d` with `'0'` added on the left up to at least `width` characters.
pub open spec fn left_zero_padded(d: Seq<char>, width: nat) -> Seq<char> {
    if d.len() < width {
        Seq::new((width - d.len()) as nat, |i: int| '0') + d
    } else {
        d
    }
}

/// `format!("{:0w$}", n)`: the decimal digits of `n`, zero-padded on the
/// left to at least `width` characters.
pub open spec fn zero_padded(n: nat, width: nat) -> Seq<char> {
    left_zero_padded(decimal(n), width)
}

/// The upper-case hexadecimal digit for `d` (0 to 15).
pub open spec fn hex_char(d: int) -> char {
    if d < 10 {
        (d + 48) as char
    } else {
        (d + 55) as char
    }
}

/// The upper-case hexadecimal digits of `n`, without leading zeros (`"0"`
/// for zero).
pub open spec fn hex_digits(n: nat) -> Seq<char>
    decreases n,
{
    if n < 16 {
        seq![hex_char(n as int)]
    } else {
        hex_digits(n / 16).push(hex_char((n % 16) as int))
    }
}

/// `format!("{:0w$X}", n)`: the upper-case hexadecimal digits of `n`,
/// zero-padded on the left to at least `width` characters.
pub open spec fn hex_padded(n: nat, width: nat) -> Seq<char> {
    left_zero_padded(hex_digits(n), width)
}

/// ASCII upper-case letters mapped to lower case, other characters kept.
pub open spec fn lower_char_matches(c: char, w: char) -> bool {
    c == w || (97 <= (w as u32) && (w as u32) <= 122 && (c as u32) + 32 == (w as u32))
}

/// `s.eq_ignore_ascii_case(w)` for a `w` without ASCII upper-case letters:
/// `s` equals `w` once its ASCII upper-case letters are lowered.
pub open spec fn ascii_ci_eq(s: Seq<char>, w: Seq<char>) -> bool {
    s.len() == w.len() && forall|i: int| 0 <= i < s.len() ==> lower_char_matches(s[i], w[i])
}

// ---------------------------------------------------------------------------
// Conversions between `&str`/`String` and character vectors
// ---------------------------------------------------------------------------

/// The characters of `s`, in order.
pub fn chars_of(s: &str) -> (res: Vec<char>)
    ensures
        res@ == s@,
{
    let mut res: Vec<char> = Vec::new();
    let mut it = s.chars();
    let ghost all = s@;
    loop
        invariant
            it.obeys_prophetic_iter_laws(),
            all == s@,
            it.decrease() is Some,
            res@ + it.remaining() == all,
        decreases it.decrease()->0,
    {
        match it.next() {
            Some(c) => {
                res.push(c);
            },
            None => {
                return res;
            },
        }
    }
}

/// Calls `String::push`. Trusted, not proved: the string afterwards is the
/// string before with `c` appended, as the function's documentation says.
#[verifier::external_body]
pub fn push_char(s: &mut String, c: char)
    ensures
        final(s)@ == old(s)@.push(c),
{
    s.push(c);
}

/// Appends `v[lo..hi]` to `out`.
pub fn push_range(out: &mut String, v: &Vec<char>, lo: usize, hi: usize)
    requires
        lo <= hi <= v@.len(),
    ensures
        final(out)@ == old(out)@ + v@.subrange(lo as int, hi as int),
{
    let mut i = lo;
    while i < hi
        invariant
            lo <= i <= hi <= v@.len(),
            out@ == old(out)@ + v@.subrange(lo as int, i as int),
        decreases hi - i,
    {
        push_char(out, v[i]);
        i = i + 1;
        assert(v@.subrange(lo as int, i as int) =~= v@.subrange(lo as int, i - 1).push(v@[i - 1]));
    }
}

/// A new string holding `v[lo..hi]`.
pub fn string_of(v: &Vec<char>, lo: usize, hi: usize) -> (res: String)
    requires
        lo <= hi <= v@.len(),
    ensures
        res@ == v@.subrange(lo as int, hi as int),
{
    let mut out = String::new();
    push_range(&mut out, v, lo, hi);
    assert(out@ =~= v@.subrange(lo as int, hi as int));
    out
}

/// Appends a string slice.
pub fn push_str(out: &mut String, s: &str)
    ensures
        final(out)@ == old(out)@ + s@,
{
    out.append(s);
}

// ---------------------------------------------------------------------------
// Trimming
// ---------------------------------------------------------------------------

pub fn is_whitespace_char(c: char) -> (res: bool)
    ensures
        res == is_whitespace(c),
{
    let u = c as u32;
    (9 <= u && u <= 13) || u == 32 || u == 0x85 || u == 0xA0 || u == 0x1680 || (0x2000 <= u && u
        <= 0x200A) || u == 0x2028 || u == 0x2029 || u == 0x202F || u == 0x205F || u == 0x3000
}

/// The bounds of `trim(v[lo..hi])` within `v`.
pub fn trim_bounds(v: &Vec<char>, lo: usize, hi: usize) -> (res: (usize, usize))
    requires
        lo <= hi <= v@.len(),
    ensures
        lo <= res.0 <= res.1 <= hi,
        v@.subrange(res.0 as int, res.1 as int) == trim(v@.subrange(lo as int, hi as int)),
{
    let mut i = lo;
    while i < hi && is_whitespace_char(v[i])
        invariant
            lo <= i <= hi <= v@.len(),
            trim_start(v@.subrange(lo as int, hi as int)) == trim_start(
                v@.subrange(i as int, hi as int),
            ),
        decreases hi - i,
    {
        assert(v@.subrange(i as int, hi as int).drop_first() =~= v@.subrange(i + 1, hi as int));
        i = i + 1;
    }
    let mut j = hi;
    while j > i && is_whitespace_char(v[j - 1])
        invariant
            lo <= i <= j <= hi <= v@.len(),
            trim_start(v@.subrange(lo as int, hi as int)) == v@.subrange(i as int, hi as int),
            trim_end(v@.subrange(i as int, hi as int)) == trim_end(
                v@.subrange(i as int, j as int),
            ),
        decreases j - i,
    {
        assert(v@.subrange(i as int, j as int).drop_last() =~= v@.subrange(i as int, j - 1));
        j = j - 1;
    }
    (i, j)
}

/// `trim(s)` as a new string.
pub fn trim_str(s: &str) -> (res: String)
    ensures
        res@ == trim(s@),
{
    let v = chars_of(s);
    let (a, b) = trim_bounds(&v, 0, v.len());
    assert(v@.subrange(0, v@.len() as int) =~= v@);
    string_of(&v, a, b)
}

/// The start of `strip_leading(v[lo..hi], c)` within `v`.
pub fn strip_leading_bound(v: &Vec<char>, lo: usize, hi: usize, c: char) -> (res: usize)
    requires
        lo <= hi <= v@.len(),
    ensures
        lo <= res <= hi,
        v@.subrange(res as int, hi as int) == strip_leading(v@.subrange(lo as int, hi as int), c),
{
    let mut i = lo;
    while i < hi && v[i] == c
        invariant
            lo <= i <= hi <= v@.len(),
            strip_leading(v@.subrange(lo as int, hi as int), c) == strip_leading(
                v@.subrange(i as int, hi as int),
                c,
            ),
        decreases hi - i,
    {
        assert(v@.subrange(i as int, hi as int).drop_first() =~= v@.subrange(i + 1, hi as int));
        i = i + 1;
    }
    i
}

/// The end of `strip_trailing(v[lo..hi], c)` within `v`.
pub fn strip_trailing_bound(v: &Vec<char>, lo: usize, hi: usize, c: char) -> (res: usize)
    requires
        lo <= hi <= v@.len(),
    ensures
        lo <= res <= hi,
        v@.subrange(lo as int, res as int) == strip_trailing(
            v@.subrange(lo as int, hi as int),
            c,
        ),
{
    let mut j = hi;
    while j > lo && v[j - 1] == c
        invariant
            lo <= j <= hi <= v@.len(),
            strip_trailing(v@.subrange(lo as int, hi as int), c) == strip_trailing(
                v@.subrange(lo as int, j as int),
                c,
            ),
        decreases j - lo,
    {
        assert(v@.subrange(lo as int, j as int).drop_last() =~= v@.subrange(lo as int, j - 1));
        j = j - 1;
    }
    j
}

// ---------------------------------------------------------------------------
// Searching
// ---------------------------------------------------------------------------

/// Whether `v[at..hi]` begins with `p`.
pub fn starts_with_at(v: &Vec<char>, at: usize, hi: usize, p: &Vec<char>) -> (res: bool)
    requires
        at <= hi <= v@.len(),
    ensures
        res == starts_with(v@.subrange(at as int, hi as int), p@),
{
    if p.len() > hi - at {
        return false;
    }
    let mut k: usize = 0;
    while k < p.len()
        invariant
            at <= hi <= v@.len(),
            p@.len() <= hi - at,
            k <= p@.len(),
            forall|m: int| 0 <= m < k ==> v@[at + m] == p@[m],
        decreases p@.len() - k,
    {
        if v[at + k] != p[k] {
            assert(v@.subrange(at as int, hi as int).subrange(0, p@.len() as int)[k as int]
                != p@[k as int]);
            return false;
        }
        k = k + 1;
    }
    assert(v@.subrange(at as int, hi as int).subrange(0, p@.len() as int) =~= p@);
    true
}

/// Whether `v[lo..hi]` contains `p`.
pub fn contains_at(v: &Vec<char>, lo: usize, hi: usize, p: &Vec<char>) -> (res: bool)
    requires
        lo <= hi <= v@.len(),
    ensures
        res == contains(v@.subrange(lo as int, hi as int), p@),
{
    let ghost s = v@.subrange(lo as int, hi as int);
    if p.len() > hi - lo {
        return false;
    }
    let last = hi - p.len();
    let mut i = lo;
    while i <= last
        invariant
            lo <= i <= last,
            last + p@.len() == hi,
            hi <= v@.len(),
            s == v@.subrange(lo as int, hi as int),
            forall|j: int| 0 <= j < i - lo ==> #[trigger] s.subrange(j, j + p@.len()) != p@,
        ensures
            forall|j: int| 0 <= j <= last - lo ==> #[trigger] s.subrange(j, j + p@.len()) != p@,
        decreases last - i,
    {
        let found = starts_with_at(v, i, hi, p);
        assert(v@.subrange(i as int, hi as int).subrange(0, p@.len() as int) =~= s.subrange(
            i - lo,
            i - lo + p@.len(),
        ));
        if found {
            assert(s.subrange(i - lo, i - lo + p@.len()) == p@);
            return true;
        }
        if i == last {
            break;
        }
        i = i + 1;
    }
    assert forall|j: int| 0 <= j && j + p@.len() <= s.len() implies #[trigger] s.subrange(
        j,
        j + p@.len(),
    ) != p@ by {
        assert(j <= last - lo);
    }
    false
}

/// `contains(s, p)` on string slices.
pub fn str_contains(s: &str, p: &str) -> (res: bool)
    ensures
        res == contains(s@, p@),
{
    let v = chars_of(s);
    let pv = chars_of(p);
    assert(v@.subrange(0, v@.len() as int) =~= v@);
    contains_at(&v, 0, v.len(), &pv)
}

/// The first index of `c` in `v[lo..hi]`, as an index into `v`.
pub fn find_char_at(v: &Vec<char>, lo: usize, hi: usize, c: char) -> (res: Option<usize>)
    requires
        lo <= hi <= v@.len(),
    ensures
        find_char(v@.subrange(lo as int, hi as int), c) == (match res {
            Some(i) => Some(i - lo),
            None => None,
        }),
        res matches Some(i) ==> lo <= i < hi && v@[i as int] == c,
{
    let mut i = lo;
    while i < hi
        invariant
            lo <= i <= hi <= v@.len(),
            find_char(v@.subrange(lo as int, hi as int), c) == (match find_char(
                v@.subrange(i as int, hi as int),
                c,
            ) {
                Some(k) => Some(k + (i - lo)),
                None => None,
            }),
        decreases hi - i,
    {
        if v[i] == c {
            return Some(i);
        }
        assert(v@.subrange(i as int, hi as int).drop_first() =~= v@.subrange(i + 1, hi as int));
        i = i + 1;
    }
    None
}

/// The last index of `c` in `v[lo..hi]`, as an index into `v`.
pub fn rfind_char_at(v: &Vec<char>, lo: usize, hi: usize, c: char) -> (res: Option<usize>)
    requires
        lo <= hi <= v@.len(),
    ensures
        rfind_char(v@.subrange(lo as int, hi as int), c) == (match res {
            Some(i) => Some(i - lo),
            None => None,
        }),
        res matches Some(i) ==> lo <= i < hi && v@[i as int] == c,
{
    let mut j = hi;
    while j > lo
        invariant
            lo <= j <= hi <= v@.len(),
            rfind_char(v@.subrange(lo as int, hi as int), c) == rfind_char(
                v@.subrange(lo as int, j as int),
                c,
            ),
        decreases j - lo,
    {
        if v[j - 1] == c {
            return Some(j - 1);
        }
        assert(v@.subrange(lo as int, j as int).drop_last() =~= v@.subrange(lo as int, j - 1));
        j = j - 1;
    }
    None
}


// ---------------------------------------------------------------------------
// Lines
// ---------------------------------------------------------------------------

/// The bounds within `v` of each of `lines(v)`, in order.
pub fn line_bounds(v: &Vec<char>) -> (res: Vec<(usize, usize)>)
    ensures
        res@.len() == lines(v@).len(),
        forall|k: int|
            0 <= k < res@.len() ==> {
                &&& (#[trigger] res@[k]).0 <= res@[k].1 <= v@.len()
                &&& v@.subrange(res@[k].0 as int, res@[k].1 as int) == lines(v@)[k]
            },
{
    let mut res: Vec<(usize, usize)> = Vec::new();
    let mut start: usize = 0;
    let mut i: usize = 0;
    assert(v@.skip(0) =~= v@);
    assert(v@.subrange(0, 0) =~= Seq::<char>::empty());
    assert(Seq::new(0, |k: int| v@.subrange(res@[k].0 as int, res@[k].1 as int)) + lines(v@)
        =~= lines(v@));
    while i < v.len()
        invariant
            start <= i <= v@.len(),
            forall|k: int|
                0 <= k < res@.len() ==> (#[trigger] res@[k]).0 <= res@[k].1 <= v@.len(),
            lines(v@) == Seq::new(
                res@.len(),
                |k: int| v@.subrange(res@[k].0 as int, res@[k].1 as int),
            ) + lines_from(v@.skip(i as int), v@.subrange(start as int, i as int)),
        decreases v@.len() - i,
    {
        let ghost done = Seq::new(
            res@.len(),
            |k: int| v@.subrange(res@[k].0 as int, res@[k].1 as int),
        );
        let ghost cur = v@.subrange(start as int, i as int);
        assert(v@.skip(i as int).drop_first() =~= v@.skip(i + 1));
        assert(v@.skip(i as int)[0] == v@[i as int]);
        if v[i] == '\n' {
            let end = if i > start && v[i - 1] == '\r' {
                i - 1
            } else {
                i
            };
            assert(v@.subrange(start as int, end as int) =~= strip_cr(cur));
            res.push((start, end));
            i = i + 1;
            start = i;
            assert(v@.subrange(start as int, i as int) =~= Seq::<char>::empty());
            let ghost done2 = Seq::new(
                res@.len(),
                |k: int| v@.subrange(res@[k].0 as int, res@[k].1 as int),
            );
            assert(done2 =~= done.push(strip_cr(cur)));
            assert(done2 + lines_from(v@.skip(i as int), Seq::empty()) =~= done + (seq![
                strip_cr(cur),
            ] + lines_from(v@.skip(i as int), Seq::empty())));
        } else {
            i = i + 1;
            assert(v@.subrange(start as int, i as int) =~= cur.push(v@[i - 1]));
        }
    }
    let ghost done = Seq::new(
        res@.len(),
        |k: int| v@.subrange(res@[k].0 as int, res@[k].1 as int),
    );
    assert(v@.skip(i as int) =~= Seq::<char>::empty());
    if start < i {
        res.push((start, i));
        let ghost done2 = Seq::new(
            res@.len(),
            |k: int| v@.subrange(res@[k].0 as int, res@[k].1 as int),
        );
        assert(done2 =~= done + seq![v@.subrange(start as int, i as int)]);
    } else {
        assert(done + Seq::<Seq<char>>::empty() =~= done);
    }
    let ghost fin = Seq::new(
        res@.len(),
        |k: int| v@.subrange(res@[k].0 as int, res@[k].1 as int),
    );
    assert(lines(v@) =~= fin);
    assert forall|k: int| 0 <= k < res@.len() implies v@.subrange(
        (#[trigger] res@[k]).0 as int,
        res@[k].1 as int,
    ) == lines(v@)[k] by {
        assert(fin[k] == v@.subrange(res@[k].0 as int, res@[k].1 as int));
    }
    res
}

// ---------------------------------------------------------------------------
// Numbers
// ---------------------------------------------------------------------------

pub fn digit_value_of(c: char, radix: u32) -> (res: i64)
    requires
        radix == 10 || radix == 16,
    ensures
        res == digit_value(c, radix as int),
{
    let u = c as u32;
    if 48 <= u && u <= 57 && u - 48 < radix {
        (u - 48) as i64
    } else if radix == 16 && 97 <= u && u <= 102 {
        (u - 87) as i64
    } else if radix == 16 && 65 <= u && u <= 70 {
        (u - 55) as i64
    } else {
        -1
    }
}

proof fn lemma_digits_value_nonneg(s: Seq<char>, radix: int)
    requires
        all_digits(s, radix),
        radix >= 2,
    ensures
        digits_value(s, radix) >= 0,
    decreases s.len(),
{
    if s.len() > 0 {
        assert(all_digits(s.drop_last(), radix)) by {
            assert forall|i: int| 0 <= i < s.drop_last().len() implies digit_value(
                #[trigger] s.drop_last()[i],
                radix,
            ) >= 0 by {
                assert(s.drop_last()[i] == s[i]);
            }
        }
        lemma_digits_value_nonneg(s.drop_last(), radix);
        assert(digit_value(s[s.len() - 1], radix) >= 0);
        let x = digits_value(s.drop_last(), radix);
        assert(x * radix >= 0) by (nonlinear_arith)
            requires
                x >= 0,
                radix >= 2,
        ;
    }
}

proof fn lemma_digits_step(d: Seq<char>, k: int, radix: int)
    requires
        0 <= k < d.len(),
        all_digits(d, radix),
    ensures
        digits_value(d.take(k + 1), radix) == digits_value(d.take(k), radix) * radix
            + digit_value(d[k], radix),
        digit_value(d[k], radix) >= 0,
{
    assert(d.take(k + 1).drop_last() =~= d.take(k));
    assert(d.take(k + 1).last() == d[k]);
}

/// A prefix of a digit string never has a larger value than the whole.
proof fn lemma_digits_value_prefix(s: Seq<char>, k: int, radix: int)
    requires
        all_digits(s, radix),
        radix >= 2,
        0 <= k <= s.len(),
    ensures
        digits_value(s.take(k), radix) <= digits_value(s, radix),
    decreases s.len() - k,
{
    if k < s.len() {
        assert(all_digits(s.take(k + 1), radix)) by {
            assert forall|i: int| 0 <= i < s.take(k + 1).len() implies digit_value(
                #[trigger] s.take(k + 1)[i],
                radix,
            ) >= 0 by {
                assert(s.take(k + 1)[i] == s[i]);
            }
        }
        lemma_digits_value_prefix(s, k + 1, radix);
        assert(s.take(k + 1).drop_last() =~= s.take(k));
        assert(all_digits(s.take(k), radix)) by {
            assert forall|i: int| 0 <= i < s.take(k).len() implies digit_value(
                #[trigger] s.take(k)[i],
                radix,
            ) >= 0 by {
                assert(s.take(k)[i] == s[i]);
            }
        }
        lemma_digits_value_nonneg(s.take(k), radix);
        let x = digits_value(s.take(k), radix);
        assert(digit_value(s.take(k + 1).last(), radix) >= 0);
        assert(x * radix >= x) by (nonlinear_arith)
            requires
                x >= 0,
                radix >= 2,
        ;
    } else {
        assert(s.take(k) =~= s);
    }
}

/// `u32::from_str_radix(v[lo..hi], radix)` (radix 10 or 16), `None` on any error.
pub fn parse_u32_at(v: &Vec<char>, lo: usize, hi: usize, radix: u32) -> (res: Option<u32>)
    requires
        lo <= hi <= v@.len(),
        radix == 10 || radix == 16,
    ensures
        res == parse_u32(v@.subrange(lo as int, hi as int), radix as int),
{
    let ghost s = v@.subrange(lo as int, hi as int);
    let mut a = lo;
    if a < hi && v[a] == '+' {
        a = a + 1;
    }
    let ghost d = v@.subrange(a as int, hi as int);
    assert(d =~= unsigned_digits(s));
    if a == hi {
        return None;
    }
    // Every character must be a digit.

    let mut i = a;
    while i < hi
        invariant
            lo <= a <= i <= hi <= v@.len(),
            d == v@.subrange(a as int, hi as int),
            s == v@.subrange(lo as int, hi as int),
            unsigned_digits(s) == d,
            radix == 10 || radix == 16,
            forall|m: int| 0 <= m < i - a ==> digit_value(#[trigger] d[m], radix as int) >= 0,
        decreases hi - i,
    {
        if digit_value_of(v[i], radix) < 0 {
            assert(digit_value(d[i - a], radix as int) < 0);
            assert(!all_digits(d, radix as int));
            assert(unsigned_digits(s) == d);
            return None;
        }
        i = i + 1;
    }
    assert(all_digits(d, radix as int));
    // Accumulate, stopping once the value exceeds `u32::MAX`.
    let mut acc: u64 = 0;
    let mut i = a;
    while i < hi
        invariant
            lo <= a <= i <= hi <= v@.len(),
            d == v@.subrange(a as int, hi as int),
            s == v@.subrange(lo as int, hi as int),
            unsigned_digits(s) == d,
            all_digits(d, radix as int),
            radix == 10 || radix == 16,
            acc <= u32::MAX,
            acc == digits_value(d.take(i - a), radix as int),
        decreases hi - i,
    {
        let dv = digit_value_of(v[i], radix);
        proof {
            lemma_digits_step(d, i - a, radix as int);
        }
        assert(d[i - a] == v@[i as int]);
        assert(acc * (radix as u64) <= 0xffff_ffff * 16) by (nonlinear_arith)
            requires
                acc <= 0xffff_ffff,
                radix <= 16,
        ;
        acc = acc * (radix as u64) + (dv as u64);
        i = i + 1;
        if acc > 0xffff_ffff {
            proof {
                lemma_digits_value_prefix(d, i - a, radix as int);
                assert(d.take(d.len() as int) =~= d);
            }
            return None;
        }
    }
    assert(d.take(i - a) =~= d);
    Some(acc as u32)
}

/// `u32::from_str_radix(s, radix)` on a string slice.
pub fn parse_u32_str(s: &str, radix: u32) -> (res: Option<u32>)
    requires
        radix == 10 || radix == 16,
    ensures
        res == parse_u32(s@, radix as int),
{
    let v = chars_of(s);
    assert(v@.subrange(0, v@.len() as int) =~= v@);
    parse_u32_at(&v, 0, v.len(), radix)
}

pub fn digit_char_of(d: u32) -> (res: char)
    requires
        d < 10,
    ensures
        res == digit_char(d as int),
{
    ((d + 48) as u8) as char
}

/// Appends the decimal digits of `n`.
pub fn push_decimal(out: &mut String, n: u32)
    ensures
        final(out)@ == old(out)@ + decimal(n as nat),
    decreases n,
{
    if n >= 10 {
        push_decimal(out, n / 10);
        push_char(out, digit_char_of(n % 10));
        assert(old(out)@ + decimal(n as nat) =~= old(out)@ + decimal((n / 10) as nat) + seq![
            digit_char((n % 10) as int),
        ]);
    } else {
        push_char(out, digit_char_of(n));
        assert(old(out)@ + decimal(n as nat) =~= old(out)@.push(digit_char(n as int)));
    }
}

/// Appends `left_zero_padded(d, width)`.
fn push_left_zero_padded(out: &mut String, d: &Vec<char>, width: usize)
    ensures
        final(out)@ == old(out)@ + left_zero_padded(d@, width as nat),
{
    let len = d.len();
    let mut k: usize = len;
    while k < width
        invariant
            len <= k,
            k <= width || k == len,
            len == d@.len(),
            out@ == old(out)@ + Seq::new((k - len) as nat, |i: int| '0'),
        decreases width - k,
    {
        push_char(out, '0');
        k = k + 1;
        assert(Seq::new((k - len) as nat, |i: int| '0') =~= Seq::new(
            (k - 1 - len) as nat,
            |i: int| '0',
        ).push('0'));
    }
    push_range(out, d, 0, len);
    assert(d@.subrange(0, len as int) =~= d@);
    if len < width {
        assert(k == width);
    } else {
        assert(Seq::new((k - len) as nat, |i: int| '0') =~= Seq::<char>::empty());
    }
    assert(out@ =~= old(out)@ + left_zero_padded(d@, width as nat));
}

/// Appends `zero_padded(n, width)`.
pub fn push_zero_padded(out: &mut String, n: u32, width: usize)
    ensures
        final(out)@ == old(out)@ + zero_padded(n as nat, width as nat),
{
    let mut digits = String::new();
    push_decimal(&mut digits, n);
    let dv = chars_of(digits.as_str());
    assert(dv@ =~= decimal(n as nat));
    push_left_zero_padded(out, &dv, width);
}

pub fn hex_char_of(d: u32) -> (res: char)
    requires
        d < 16,
    ensures
        res == hex_char(d as int),
{
    if d < 10 {
        ((d + 48) as u8) as char
    } else {
        ((d + 55) as u8) as char
    }
}

/// Appends the upper-case hexadecimal digits of `n`.
pub fn push_hex(out: &mut String, n: u32)
    ensures
        final(out)@ == old(out)@ + hex_digits(n as nat),
    decreases n,
{
    if n >= 16 {
        push_hex(out, n / 16);
        push_char(out, hex_char_of(n % 16));
        assert(old(out)@ + hex_digits(n as nat) =~= old(out)@ + hex_digits((n / 16) as nat)
            + seq![hex_char((n % 16) as int)]);
    } else {
        push_char(out, hex_char_of(n));
        assert(old(out)@ + hex_digits(n as nat) =~= old(out)@.push(hex_char(n as int)));
    }
}

/// Appends `hex_padded(n, width)`.
pub fn push_hex_padded(out: &mut String, n: u32, width: usize)
    ensures
        final(out)@ == old(out)@ + hex_padded(n as nat, width as nat),
{
    let mut digits = String::new();
    push_hex(&mut digits, n);
    let dv = chars_of(digits.as_str());
    assert(dv@ =~= hex_digits(n as nat));
    push_left_zero_padded(out, &dv, width);
}

/// A hexadecimal digit's value, and that it is no whitespace.
proof fn lemma_hex_char(d: int)
    requires
        0 <= d < 16,
    ensures
        digit_value(hex_char(d), 16) == d,
        !is_whitespace(hex_char(d)),
{
    if d < 10 {
        assert((hex_char(d) as u32) == d + 48);
    } else {
        assert((hex_char(d) as u32) == d + 55);
    }
}

/// The hexadecimal digits of `n` are digits that read back as `n`.
proof fn lemma_hex_digits(n: nat)
    ensures
        hex_digits(n).len() > 0,
        all_digits(hex_digits(n), 16),
        digits_value(hex_digits(n), 16) == n,
        forall|i: int| 0 <= i < hex_digits(n).len() ==> !is_whitespace(#[trigger] hex_digits(n)[i]),
    decreases n,
{
    let h = hex_digits(n);
    if n < 16 {
        lemma_hex_char(n as int);
        assert(h.drop_last() =~= Seq::<char>::empty());
        assert(digits_value(h.drop_last(), 16) == 0);
        assert(digits_value(h, 16) == digits_value(h.drop_last(), 16) * 16 + digit_value(
            h.last(),
            16,
        ));
    } else {
        let q = n / 16;
        let r = (n % 16) as int;
        lemma_hex_digits(q);
        lemma_hex_char(r);
        assert(h.drop_last() =~= hex_digits(q));
        assert(h.last() == hex_char(r));
        assert(q * 16 + r == n);
        assert(digits_value(h, 16) == digits_value(h.drop_last(), 16) * 16 + digit_value(
            h.last(),
            16,
        ));
        assert forall|i: int| 0 <= i < h.len() implies digit_value(#[trigger] h[i], 16) >= 0
            && !is_whitespace(h[i]) by {
            if i < h.len() - 1 {
                assert(h[i] == hex_digits(q)[i]);
            }
        }
    }
}

/// Leading zeros do not change the value of a digit string.
proof fn lemma_zeros_prefix_value(k: nat, d: Seq<char>, radix: int)
    requires
        radix == 10 || radix == 16,
    ensures
        digits_value(Seq::new(k, |i: int| '0') + d, radix) == digits_value(d, radix),
    decreases d.len(),
{
    let z = Seq::new(k, |i: int| '0');
    if d.len() == 0 {
        assert(z + d =~= z);
        lemma_zeros_value(k, radix);
    } else {
        lemma_zeros_prefix_value(k, d.drop_last(), radix);
        assert((z + d).drop_last() =~= z + d.drop_last());
        assert((z + d).last() == d.last());
    }
}

/// A run of `'0'` has the value zero.
pub(crate) proof fn lemma_zeros_value(k: nat, radix: int)
    requires
        radix == 10 || radix == 16,
    ensures
        digits_value(Seq::new(k, |i: int| '0'), radix) == 0,
    decreases k,
{
    if k > 0 {
        assert(Seq::new(k, |i: int| '0').drop_last() =~= Seq::new((k - 1) as nat, |i: int| '0'));
        lemma_zeros_value((k - 1) as nat, radix);
        assert(Seq::new(k, |i: int| '0').last() == '0');
        assert(digit_value('0', radix) == 0);
    }
}

/// What `push_hex_padded` writes reads back, as hexadecimal, as the same
/// number, and trimming leaves it as it is.
pub proof fn lemma_hex_padded_reads_back(n: u32, width: nat)
    ensures
        trim(hex_padded(n as nat, width)) == hex_padded(n as nat, width),
        parse_u32(hex_padded(n as nat, width), 16) == Some(n),
{
    let d = hex_digits(n as nat);
    let s = hex_padded(n as nat, width);
    lemma_hex_digits(n as nat);
    assert(s.len() > 0);
    assert forall|i: int| 0 <= i < s.len() implies digit_value(#[trigger] s[i], 16) >= 0
        && !is_whitespace(s[i]) by {
        if d.len() < width {
            let p = (width - d.len()) as int;
            if i < p {
                assert(s[i] == '0');
            } else {
                assert(s[i] == d[i - p]);
            }
        }
    }
    if d.len() < width {
        lemma_zeros_prefix_value((width - d.len()) as nat, d, 16);
    }
    assert(digits_value(s, 16) == n);
    assert(all_digits(s, 16));
    assert(s[0] != '+');
    assert(unsigned_digits(s) == s);
    assert(!is_whitespace(s[0]));
    assert(trim_start(s) == s);
    assert(!is_whitespace(s.last()));
    assert(trim_end(s) == s);
}

// ---------------------------------------------------------------------------
// Case-insensitive comparison
// ---------------------------------------------------------------------------

/// Whether `ascii_ci_eq(v, w)`.
pub fn lower_equals(v: &Vec<char>, w: &Vec<char>) -> (res: bool)
    ensures
        res == ascii_ci_eq(v@, w@),
{
    if v.len() != w.len() {
        return false;
    }
    let mut i: usize = 0;
    while i < v.len()
        invariant
            v@.len() == w@.len(),
            i <= v@.len(),
            forall|m: int| 0 <= m < i ==> lower_char_matches(#[trigger] v@[m], w@[m]),
        decreases v@.len() - i,
    {
        let a = v[i] as u32;
        let b = w[i] as u32;
        if !(v[i] == w[i] || (97 <= b && b <= 122 && a == b - 32)) {
            assert(!lower_char_matches(v@[i as int], w@[i as int]));
            return false;
        }
        i = i + 1;
    }
    true
}

/// The end of `strip_trailing_pat(v[lo..hi], p)` within `v`, for non-empty `p`.
pub fn strip_trailing_pat_bound(v: &Vec<char>, lo: usize, hi: usize, p: &Vec<char>) -> (res:
    usize)
    requires
        lo <= hi <= v@.len(),
        p@.len() > 0,
    ensures
        lo <= res <= hi,
        v@.subrange(lo as int, res as int) == strip_trailing_pat(
            v@.subrange(lo as int, hi as int),
            p@,
        ),
{
    let mut j = hi;
    while j - lo >= p.len() && starts_with_at(v, j - p.len(), j, p)
        invariant
            lo <= j <= hi <= v@.len(),
            p@.len() > 0,
            strip_trailing_pat(v@.subrange(lo as int, hi as int), p@) == strip_trailing_pat(
                v@.subrange(lo as int, j as int),
                p@,
            ),
        decreases j - lo,
    {
        let ghost s = v@.subrange(lo as int, j as int);
        assert(v@.subrange(j - p@.len(), j as int).subrange(0, p@.len() as int) =~= s.subrange(
            s.len() - p@.len(),
            s.len() as int,
        ));
        assert(s.subrange(0, s.len() - p@.len()) =~= v@.subrange(lo as int, j - p@.len()));
        j = j - p.len();
    }
    let ghost s = v@.subrange(lo as int, j as int);
    if j - lo >= p.len() {
        assert(v@.subrange(j - p@.len(), j as int).subrange(0, p@.len() as int) =~= s.subrange(
            s.len() - p@.len(),
            s.len() as int,
        ));
    }
    j
}


/// Whether `v[lo..hi]` is exactly `w`.
pub fn equals_at(v: &Vec<char>, lo: usize, hi: usize, w: &Vec<char>) -> (res: bool)
    requires
        lo <= hi <= v@.len(),
    ensures
        res == (v@.subrange(lo as int, hi as int) == w@),
{
    if hi - lo != w.len() {
        return false;
    }
    let r = starts_with_at(v, lo, hi, w);
    assert(v@.subrange(lo as int, hi as int).subrange(0, w@.len() as int) =~= v@.subrange(
        lo as int,
        hi as int,
    ));
    r
}

/// Whether `v[lo..hi]` is exactly the characters of `w`.
pub fn equals_str_at(v: &Vec<char>, lo: usize, hi: usize, w: &str) -> (res: bool)
    requires
        lo <= hi <= v@.len(),
    ensures
        res == (v@.subrange(lo as int, hi as int) == w@),
{
    equals_at(v, lo, hi, &chars_of(w))
}

/// Whether `v[lo..hi]` begins with the characters of `w`.
pub fn starts_with_str_at(v: &Vec<char>, lo: usize, hi: usize, w: &str) -> (res: bool)
    requires
        lo <= hi <= v@.len(),
    ensures
        res == starts_with(v@.subrange(lo as int, hi as int), w@),
{
    starts_with_at(v, lo, hi, &chars_of(w))
}

/// Whether `v[lo..hi]` contains the characters of `w`.
pub fn contains_str_at(v: &Vec<char>, lo: usize, hi: usize, w: &str) -> (res: bool)
    requires
        lo <= hi <= v@.len(),
    ensures
        res == contains(v@.subrange(lo as int, hi as int), w@),
{
    contains_at(v, lo, hi, &chars_of(w))
}

/// The start of `strip_leading_pat(v[lo..hi], p)` within `v`, for non-empty `p`.
pub fn strip_leading_pat_bound(v: &Vec<char>, lo: usize, hi: usize, p: &Vec<char>) -> (res:
    usize)
    requires
        lo <= hi <= v@.len(),
        p@.len() > 0,
    ensures
        lo <= res <= hi,
        v@.subrange(res as int, hi as int) == strip_leading_pat(
            v@.subrange(lo as int, hi as int),
            p@,
        ),
{
    let mut i = lo;
    while starts_with_at(v, i, hi, p)
        invariant
            lo <= i <= hi <= v@.len(),
            p@.len() > 0,
            strip_leading_pat(v@.subrange(lo as int, hi as int), p@) == strip_leading_pat(
                v@.subrange(i as int, hi as int),
                p@,
            ),
        decreases hi - i,
    {
        assert(v@.subrange(i as int, hi as int).skip(p@.len() as int) =~= v@.subrange(
            i + p@.len(),
            hi as int,
        ));
        i = i + p.len();
    }
    i
}


/// Whether two string slices hold the same characters.
pub fn str_eq(a: &str, b: &str) -> (res: bool)
    ensures
        res == (a@ == b@),
{
    let va = chars_of(a);
    let vb = chars_of(b);
    if va.len() != vb.len() {
        return false;
    }
    assert(va@.subrange(0, va@.len() as int) =~= va@);
    let r = starts_with_at(&va, 0, va.len(), &vb);
    if r {
        assert(va@ =~= vb@);
    }
    r
}

} // verus!
