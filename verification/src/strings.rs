//! Verified string helpers: character classification, searching, trimming,
//! replacement, joining and decimal formatting over `Seq<char>` views.

use vstd::prelude::*;

verus! {

/// Relies on std's `String::push`: appends one character at the end.
pub assume_specification[ String::push ](s: &mut String, c: char)
    ensures
        final(s)@ == old(s)@.push(c),
;

/// Relies on std's `char::from_u32`: `Some` exactly for scalar values
/// (not a surrogate, at most `0x10FFFF`), and the character has that value.
pub assume_specification[ char::from_u32 ](v: u32) -> (r: Option<char>)
    ensures
        r is Some <==> (v < 0xD800 || (0xE000 <= v && v <= 0x10FFFF)),
        r matches Some(c) ==> c as u32 == v,
;

/// The Unicode `White_Space` characters, as `char::is_whitespace` accepts them.
pub open spec fn is_wspace(c: char) -> bool {
    c == ' ' || c == '\t' || c == '\n' || c == '\u{B}' || c == '\u{C}' || c == '\r'
        || c == '\u{85}' || c == '\u{A0}' || c == '\u{1680}'
        || ('\u{2000}' <= c && c <= '\u{200A}')
        || c == '\u{2028}' || c == '\u{2029}' || c == '\u{202F}' || c == '\u{205F}'
        || c == '\u{3000}'
}

/// Whether `c` counts as whitespace (the Unicode `White_Space` set).
pub fn is_whitespace_char(c: char) -> (r: bool)
    ensures
        r == is_wspace(c),
{
    c == ' ' || c == '\t' || c == '\n' || c == '\u{B}' || c == '\u{C}' || c == '\r'
        || c == '\u{85}' || c == '\u{A0}' || c == '\u{1680}'
        || ('\u{2000}' <= c && c <= '\u{200A}')
        || c == '\u{2028}' || c == '\u{2029}' || c == '\u{202F}' || c == '\u{205F}'
        || c == '\u{3000}'
}

/// The pattern `p` occurs in `s` starting at position `i`.
pub open spec fn match_at(s: Seq<char>, p: Seq<char>, i: int) -> bool {
    0 <= i && i + p.len() <= s.len() && s.subrange(i, i + p.len() as int) == p
}

/// The position of the first occurrence of `p` in `s` at or after `from`.
pub open spec fn spec_find_from(s: Seq<char>, p: Seq<char>, from: int) -> Option<int>
    decreases s.len() + 1 - from,
    when 0 <= from
{
    if from + p.len() > s.len() {
        None
    } else if match_at(s, p, from) {
        Some(from)
    } else {
        spec_find_from(s, p, from + 1)
    }
}

/// Whether `p` occurs starting exactly at position `i` of `s`.
pub fn has_match_at(s: &str, p: &str, i: usize) -> (r: bool)
    requires
        i <= s@.len(),
    ensures
        r == match_at(s@, p@, i as int),
{
    let sl = s.unicode_len();
    let pl = p.unicode_len();
    if pl > sl - i {
        assert(!match_at(s@, p@, i as int));
        return false;
    }
    let mut j: usize = 0;
    while j < pl
        invariant
            0 <= j <= pl,
            i + pl <= sl,
            sl == s@.len(),
            pl == p@.len(),
            forall|k: int| 0 <= k < j ==> s@[i + k] == p@[k],
        decreases pl - j,
    {
        if s.get_char(i + j) != p.get_char(j) {
            assert(s@.subrange(i as int, i + pl as int)[j as int] != p@[j as int]);
            return false;
        }
        j += 1;
    }
    assert(s@.subrange(i as int, i + pl as int) =~= p@);
    true
}

/// The first occurrence of `p` in `s` at or after character position `from`.
pub fn find_sub_from(s: &str, p: &str, from: usize) -> (r: Option<usize>)
    requires
        from <= s@.len(),
    ensures
        match r {
            Some(i) => spec_find_from(s@, p@, from as int) == Some(i as int),
            None => spec_find_from(s@, p@, from as int) is None,
        },
    decreases s@.len() - from,
{
    let sl = s.unicode_len();
    let pl = p.unicode_len();
    if pl > sl - from {
        None
    } else if pl == 0 {
        proof {
            assert(s@.subrange(from as int, from as int) =~= p@);
        }
        Some(from)
    } else if has_match_at(s, p, from) {
        Some(from)
    } else {
        find_sub_from(s, p, from + 1)
    }
}

/// Whether `p` occurs anywhere in `s`.
pub fn contains_sub(s: &str, p: &str) -> (r: bool)
    ensures
        r == (spec_find_from(s@, p@, 0) is Some),
{
    find_sub_from(s, p, 0).is_some()
}

/// Whether `s` begins with `p`.
pub fn starts_with_sub(s: &str, p: &str) -> (r: bool)
    ensures
        r == match_at(s@, p@, 0),
{
    has_match_at(s, p, 0)
}

/// Whether `s` ends with `p`.
pub fn ends_with_sub(s: &str, p: &str) -> (r: bool)
    ensures
        r == (p@.len() <= s@.len() && match_at(s@, p@, s@.len() - p@.len())),
{
    let sl = s.unicode_len();
    let pl = p.unicode_len();
    if pl > sl {
        false
    } else {
        has_match_at(s, p, sl - pl)
    }
}

/// Whether the two strings hold the same characters.
pub fn str_eq(a: &str, b: &str) -> (r: bool)
    ensures
        r == (a@ == b@),
{
    let al = a.unicode_len();
    let bl = b.unicode_len();
    if al != bl {
        assert(a@ != b@);
        return false;
    }
    let mut i: usize = 0;
    while i < al
        invariant
            0 <= i <= al,
            al == a@.len(),
            al == b@.len(),
            forall|k: int| 0 <= k < i ==> a@[k] == b@[k],
        decreases al - i,
    {
        if a.get_char(i) != b.get_char(i) {
            return false;
        }
        i += 1;
    }
    assert(a@ =~= b@);
    true
}

/// Index of the first character of `s` at or after `i` that is not whitespace.
pub open spec fn first_non_ws(s: Seq<char>, i: int) -> int
    decreases s.len() - i,
    when 0 <= i
{
    if i >= s.len() {
        s.len() as int
    } else if is_wspace(s[i]) {
        first_non_ws(s, i + 1)
    } else {
        i
    }
}

/// One past the last character of `s` before `i` that is not whitespace.
pub open spec fn last_non_ws(s: Seq<char>, i: int) -> int
    decreases i,
    when i <= s.len()
{
    if i <= 0 {
        0
    } else if is_wspace(s[i - 1]) {
        last_non_ws(s, i - 1)
    } else {
        i
    }
}

/// What `str::trim` leaves: `s` without leading and trailing whitespace.
pub open spec fn spec_trim(s: Seq<char>) -> Seq<char> {
    let lo = first_non_ws(s, 0);
    let hi = last_non_ws(s, s.len() as int);
    if lo >= hi {
        Seq::empty()
    } else {
        s.subrange(lo, hi)
    }
}

pub proof fn lemma_first_non_ws_bounds(s: Seq<char>, i: int)
    requires
        0 <= i <= s.len(),
    ensures
        i <= first_non_ws(s, i) <= s.len(),
        first_non_ws(s, i) < s.len() ==> !is_wspace(s[first_non_ws(s, i)]),
    decreases s.len() - i,
{
    if i < s.len() && is_wspace(s[i]) {
        lemma_first_non_ws_bounds(s, i + 1);
    }
}

proof fn lemma_last_non_ws_bounds(s: Seq<char>, i: int)
    requires
        0 <= i <= s.len(),
    ensures
        0 <= last_non_ws(s, i) <= i,
        last_non_ws(s, i) > 0 ==> !is_wspace(s[last_non_ws(s, i) - 1]),
    decreases i,
{
    if i > 0 && is_wspace(s[i - 1]) {
        lemma_last_non_ws_bounds(s, i - 1);
    }
}

/// A copy of `s` without leading and trailing whitespace.
pub fn trim_str(s: &str) -> (r: String)
    ensures
        r@ == spec_trim(s@),
{
    let len = s.unicode_len();
    let mut lo: usize = 0;
    while lo < len && is_whitespace_char(s.get_char(lo))
        invariant
            0 <= lo <= len,
            len == s@.len(),
            first_non_ws(s@, 0) == first_non_ws(s@, lo as int),
        decreases len - lo,
    {
        lo += 1;
    }
    assert(first_non_ws(s@, lo as int) == lo as int);
    let mut hi: usize = len;
    while hi > lo && is_whitespace_char(s.get_char(hi - 1))
        invariant
            lo <= hi <= len,
            len == s@.len(),
            lo as int == first_non_ws(s@, 0),
            last_non_ws(s@, len as int) == last_non_ws(s@, hi as int),
        decreases hi,
    {
        hi -= 1;
    }
    proof {
        lemma_first_non_ws_bounds(s@, 0);
        if hi > lo {
            assert(last_non_ws(s@, hi as int) == hi as int);
        } else {
            // hi == lo: position lo is either past the end or non-whitespace,
            // so the scan from the right stopped exactly at lo.
            assert(last_non_ws(s@, hi as int) <= hi as int) by {
                lemma_last_non_ws_bounds(s@, hi as int);
            }
        }
    }
    if hi <= lo {
        proof {
            lemma_last_non_ws_bounds(s@, hi as int);
        }
        String::new()
    } else {
        let sub = s.substring_char(lo, hi);
        String::from_str(sub)
    }
}

/// What `str::replace` returns: every occurrence of `p` in `s`, found left to
/// right without overlap, exchanged for `r`. A pattern of length zero leaves
/// `s` unchanged.
pub open spec fn spec_replace(s: Seq<char>, p: Seq<char>, r: Seq<char>) -> Seq<char>
    decreases s.len(),
{
    if p.len() == 0 || s.len() < p.len() {
        s
    } else if s.subrange(0, p.len() as int) == p {
        r + spec_replace(s.skip(p.len() as int), p, r)
    } else {
        seq![s[0]] + spec_replace(s.skip(1), p, r)
    }
}

/// A copy of `s` with every occurrence of `p` exchanged for `r`.
pub fn replace_sub(s: &str, p: &str, r: &str) -> (res: String)
    requires
        p@.len() > 0,
    ensures
        res@ == spec_replace(s@, p@, r@),
{
    let sl = s.unicode_len();
    let pl = p.unicode_len();
    let mut out = String::new();
    let mut pos: usize = 0;
    proof {
        assert(s@.skip(0) =~= s@);
        assert(Seq::<char>::empty() + spec_replace(s@, p@, r@) =~= spec_replace(s@, p@, r@));
    }
    while pos < sl
        invariant
            0 <= pos <= sl,
            sl == s@.len(),
            pl == p@.len(),
            pl > 0,
            spec_replace(s@, p@, r@) == out@ + spec_replace(s@.skip(pos as int), p@, r@),
        decreases sl - pos,
    {
        if has_match_at(s, p, pos) {
            proof {
                assert(s@.skip(pos as int).subrange(0, pl as int) =~= s@.subrange(
                    pos as int,
                    pos + pl as int,
                ));
                assert(s@.skip(pos as int).skip(pl as int) =~= s@.skip(pos + pl as int));
            }
            out.append(r);
            pos += pl;
        } else {
            let c = s.get_char(pos);
            proof {
                if s@.skip(pos as int).len() >= pl {
                    assert(s@.skip(pos as int).subrange(0, pl as int) =~= s@.subrange(
                        pos as int,
                        pos + pl as int,
                    ));
                }
                assert(s@.skip(pos as int).skip(1) =~= s@.skip(pos as int + 1));
                assert(seq![s@.skip(pos as int)[0]] =~= seq![c]);
            }
            out.push(c);
            pos += 1;
        }
    }
    proof {
        assert(s@.skip(sl as int) =~= Seq::<char>::empty());
        assert(out@ + Seq::<char>::empty() =~= out@);
    }
    out
}

/// The elements of `parts` laid end to end with `sep` between neighbours.
pub open spec fn spec_join(parts: Seq<Seq<char>>, sep: Seq<char>) -> Seq<char>
    decreases parts.len(),
{
    if parts.len() == 0 {
        Seq::empty()
    } else if parts.len() == 1 {
        parts[0]
    } else {
        parts[0] + sep + spec_join(parts.skip(1), sep)
    }
}

proof fn lemma_join_snoc(parts: Seq<Seq<char>>, sep: Seq<char>, last: Seq<char>)
    requires
        parts.len() > 0,
    ensures
        spec_join(parts.push(last), sep) == spec_join(parts, sep) + sep + last,
    decreases parts.len(),
{
    if parts.len() == 1 {
        assert(parts.push(last).skip(1) =~= seq![last]);
        assert(parts.push(last)[0] == parts[0]);
        assert(spec_join(seq![last], sep) == last);
        assert(spec_join(parts.push(last), sep) == parts[0] + sep + last);
    } else {
        lemma_join_snoc(parts.skip(1), sep, last);
        assert(parts.push(last).skip(1) =~= parts.skip(1).push(last));
    }
}

/// `parts` joined with `sep` between neighbours.
pub fn join_strings(parts: &Vec<String>, sep: &str) -> (res: String)
    ensures
        res@ == spec_join(parts@.map_values(|x: String| x@), sep@),
{
    let ghost views = parts@.map_values(|x: String| x@);
    let mut out = String::new();
    let mut i: usize = 0;
    while i < parts.len()
        invariant
            0 <= i <= parts.len(),
            views == parts@.map_values(|x: String| x@),
            views.len() == parts@.len(),
            i == 0 ==> out@ =~= Seq::<char>::empty(),
            i > 0 ==> out@ == spec_join(views.subrange(0, i as int), sep@),
        decreases parts.len() - i,
    {
        if i > 0 {
            out.append(sep);
        }
        out.append(parts[i].as_str());
        proof {
            if i > 0 {
                lemma_join_snoc(views.subrange(0, i as int), sep@, views[i as int]);
                assert(views.subrange(0, i as int).push(views[i as int]) =~= views.subrange(
                    0,
                    i + 1,
                ));
            } else {
                assert(views.subrange(0, 1) =~= seq![views[0]]);
            }
        }
        i += 1;
    }
    proof {
        if parts.len() > 0 {
            assert(views.subrange(0, parts@.len() as int) =~= views);
        }
    }
    out
}

/// The decimal digit character for a value below ten.
pub open spec fn spec_digit(d: int) -> char {
    seq!['0', '1', '2', '3', '4', '5', '6', '7', '8', '9'][d]
}

/// The decimal numeral of `n`, most significant digit first, no sign and no
/// leading zeros (a single `'0'` for zero).
pub open spec fn spec_dec(n: int) -> Seq<char>
    decreases n,
    when n >= 0
{
    if n < 10 {
        seq![spec_digit(n)]
    } else {
        spec_dec(n / 10).push(spec_digit(n % 10))
    }
}

fn digit_char(d: u64) -> (c: char)
    requires
        d < 10,
    ensures
        c == spec_digit(d as int),
{
    match d {
        0 => '0',
        1 => '1',
        2 => '2',
        3 => '3',
        4 => '4',
        5 => '5',
        6 => '6',
        7 => '7',
        8 => '8',
        _ => '9',
    }
}

/// Appends the decimal numeral of `n` to `out`.
pub fn push_dec(out: &mut String, n: u64)
    ensures
        final(out)@ == old(out)@ + spec_dec(n as int),
    decreases n,
{
    if n < 10 {
        out.push(digit_char(n));
        assert(out@ =~= old(out)@ + spec_dec(n as int));
    } else {
        push_dec(out, n / 10);
        out.push(digit_char(n % 10));
        assert(out@ =~= old(out)@ + spec_dec(n as int));
    }
}




/// Whether `c` is a decimal digit.
pub open spec fn is_dec_digit(c: char) -> bool {
    '0' <= c && c <= '9'
}

/// Whether `s` is a plain decimal numeral: nonempty and digits only.
pub open spec fn all_dec_digits(s: Seq<char>) -> bool {
    s.len() > 0 && forall|i: int| 0 <= i < s.len() ==> is_dec_digit(s[i])
}

/// The value of the decimal numeral `s`, most significant digit first.
pub open spec fn digits_val(s: Seq<char>) -> int
    decreases s.len(),
{
    if s.len() == 0 {
        0
    } else {
        digits_val(s.drop_last()) * 10 + (s.last() as int - '0' as int)
    }
}

/// What `str::parse` gives for an unsigned type of maximum `max`: the body
/// after an optional leading `'+'` must be all digits and its value must fit.
pub open spec fn spec_parse_dec(s: Seq<char>, max: int) -> Option<int> {
    let body = if s.len() > 0 && s[0] == '+' {
        s.subrange(1, s.len() as int)
    } else {
        s
    };
    if all_dec_digits(body) && digits_val(body) <= max {
        Some(digits_val(body))
    } else {
        None
    }
}

proof fn lemma_digits_val_nonneg(s: Seq<char>)
    requires
        forall|i: int| 0 <= i < s.len() ==> is_dec_digit(s[i]),
    ensures
        digits_val(s) >= 0,
    decreases s.len(),
{
    if s.len() > 0 {
        lemma_digits_val_nonneg(s.drop_last());
    }
}

/// The value of the numeral `s`, parsed with bound `max`, or `None` where
/// `str::parse` would fail.
pub fn parse_dec_u64(s: &str, max: u64) -> (r: Option<u64>)
    ensures
        match r {
            Some(v) => spec_parse_dec(s@, max as int) == Some(v as int),
            None => spec_parse_dec(s@, max as int) is None,
        },
{
    let len = s.unicode_len();
    let start: usize = if len > 0 && s.get_char(0) == '+' {
        1
    } else {
        0
    };
    let ghost body = if s@.len() > 0 && s@[0] == '+' {
        s@.subrange(1, s@.len() as int)
    } else {
        s@
    };
    if len == start {
        assert(!all_dec_digits(body));
        return None;
    }
    let mut acc: u64 = 0;
    let mut i: usize = start;
    while i < len
        invariant
            start <= i <= len,
            len == s@.len(),
            start == 0 || start == 1,
            start == 1 ==> (s@.len() > 0 && s@[0] == '+'),
            start == 0 ==> !(s@.len() > 0 && s@[0] == '+'),
            body =~= s@.subrange(start as int, len as int),
            start == 0 ==> body =~= s@,
            start < len,
            forall|k: int| start <= k < i ==> is_dec_digit(s@[k]),
            acc as int == digits_val(s@.subrange(start as int, i as int)),
            acc <= max,
        decreases len - i,
    {
        let c = s.get_char(i);
        if !('0' <= c && c <= '9') {
            proof {
                assert(body[i - start] == s@[i as int]);
                assert(!all_dec_digits(body));
            }
            return None;
        }
        let d: u64 = (c as u32 as u64) - 48;
        proof {
            assert(s@.subrange(start as int, i + 1).drop_last() =~= s@.subrange(
                start as int,
                i as int,
            ));
            assert(s@.subrange(start as int, i + 1).last() == s@[i as int]);
        }
        if acc > max / 10 || (acc == max / 10 && d > max % 10) {
            // The prefix already exceeds the bound, and appending further
            // digits can only increase the value.
            proof {
                lemma_too_big(s@, start as int, i as int, len as int, max as int);
            }
            return None;
        }
        acc = acc * 10 + d;
        i += 1;
    }
    proof {
        assert(s@.subrange(start as int, len as int) =~= body);
    }
    Some(acc)
}

proof fn lemma_digits_val_prefix_grows(s: Seq<char>, lo: int, i: int, j: int)
    requires
        0 <= lo <= i <= j <= s.len(),
        forall|k: int| lo <= k < j ==> is_dec_digit(s[k]),
    ensures
        digits_val(s.subrange(lo, j)) >= digits_val(s.subrange(lo, i)),
    decreases j - i,
{
    if i < j {
        lemma_digits_val_prefix_grows(s, lo, i, j - 1);
        assert(s.subrange(lo, j).drop_last() =~= s.subrange(lo, j - 1));
        assert(forall|k: int| 0 <= k < s.subrange(lo, j - 1).len() ==> is_dec_digit(
            #[trigger] s.subrange(lo, j - 1)[k],
        ));
        lemma_digits_val_nonneg(s.subrange(lo, j - 1));
        assert(s.subrange(lo, j).last() as int - '0' as int >= 0);
    }
}

proof fn lemma_too_big(s: Seq<char>, start: int, i: int, len: int, max: int)
    requires
        0 <= start <= i < len <= s.len(),
        max >= 0,
        forall|k: int| start <= k <= i ==> is_dec_digit(s[k]),
        digits_val(s.subrange(start, i + 1)) > max,
    ensures
        !(all_dec_digits(s.subrange(start, len)) && digits_val(s.subrange(start, len)) <= max),
{
    if all_dec_digits(s.subrange(start, len)) {
        assert(forall|k: int| start <= k < len ==> is_dec_digit(s[k])) by {
            assert(forall|k: int| start <= k < len ==> s.subrange(start, len)[k - start] == s[k]);
        }
        lemma_digits_val_prefix_grows(s, start, i + 1, len);
    }
}

/// `str::parse::<u32>` on `s`.
pub fn parse_u32_dec(s: &str) -> (r: Option<u32>)
    ensures
        match r {
            Some(v) => spec_parse_dec(s@, u32::MAX as int) == Some(v as int),
            None => spec_parse_dec(s@, u32::MAX as int) is None,
        },
{
    match parse_dec_u64(s, 0xFFFF_FFFF) {
        Some(v) => Some(v as u32),
        None => None,
    }
}

/// `str::parse::<u8>` on `s`.
pub fn parse_u8_dec(s: &str) -> (r: Option<u8>)
    ensures
        match r {
            Some(v) => spec_parse_dec(s@, u8::MAX as int) == Some(v as int),
            None => spec_parse_dec(s@, u8::MAX as int) is None,
        },
{
    match parse_dec_u64(s, 255) {
        Some(v) => Some(v as u8),
        None => None,
    }
}


/// The index of the first `'\n'` in `s` at or after `i`, or the length.
pub open spec fn first_nl(s: Seq<char>, i: int) -> int
    decreases s.len() - i,
    when 0 <= i
{
    if i >= s.len() {
        s.len() as int
    } else if s[i] == '\n' {
        i
    } else {
        first_nl(s, i + 1)
    }
}

/// A line with a trailing carriage return loses it, as under `str::lines`.
pub open spec fn strip_cr(l: Seq<char>) -> Seq<char> {
    if l.len() > 0 && l.last() == '\r' {
        l.drop_last()
    } else {
        l
    }
}

/// What `str::lines` yields: segments between `'\n'` characters, each without
/// a trailing `'\r'`, with no empty segment after a final newline.
pub open spec fn spec_lines(s: Seq<char>) -> Seq<Seq<char>>
    decreases s.len(),
{
    if s.len() == 0 {
        Seq::empty()
    } else {
        let i = first_nl(s, 0);
        if 0 <= i && i < s.len() {
            seq![strip_cr(s.subrange(0, i))] + spec_lines(s.skip(i + 1))
        } else {
            seq![strip_cr(s)]
        }
    }
}

fn find_nl(s: &str, from: usize) -> (r: usize)
    requires
        from <= s@.len(),
    ensures
        r == first_nl(s@, from as int),
        from <= r <= s@.len(),
    decreases s@.len() - from,
{
    if from >= s.unicode_len() {
        s.unicode_len()
    } else if s.get_char(from) == '\n' {
        from
    } else {
        find_nl(s, from + 1)
    }
}

proof fn lemma_first_nl_shift(s: Seq<char>, p: int, i: int)
    requires
        0 <= p <= s.len(),
        p <= i <= s.len(),
    ensures
        first_nl(s, i) - p == first_nl(s.skip(p), i - p),
    decreases s.len() - i,
{
    if i < s.len() {
        assert(s.skip(p)[i - p] == s[i]);
        if s[i] != '\n' {
            lemma_first_nl_shift(s, p, i + 1);
        }
    }
}

/// The lines of `s`, as `str::lines` yields them.
pub fn split_lines(s: &str) -> (r: Vec<String>)
    ensures
        r@.map_values(|l: String| l@) == spec_lines(s@),
{
    let len = s.unicode_len();
    let mut out: Vec<String> = Vec::new();
    let mut pos: usize = 0;
    proof {
        assert(s@.skip(0) =~= s@);
        assert(out@.map_values(|l: String| l@) + spec_lines(s@) =~= spec_lines(s@));
    }
    while pos < len
        invariant
            0 <= pos <= len,
            len == s@.len(),
            spec_lines(s@) == out@.map_values(|l: String| l@) + spec_lines(s@.skip(pos as int)),
        decreases len - pos,
    {
        let ghost pre = out@.map_values(|l: String| l@);
        let ghost rest = s@.skip(pos as int);
        let j = find_nl(s, pos);
        proof {
            lemma_first_nl_shift(s@, pos as int, pos as int);
            assert(first_nl(rest, 0) == j - pos);
        }
        let line_end = if j > pos && s.get_char(j - 1) == '\r' {
            j - 1
        } else {
            j
        };
        let line = String::from_str(s.substring_char(pos, line_end));
        out.push(line);
        proof {
            assert(out@.map_values(|l: String| l@) =~= pre.push(line@));
            if j < len {
                assert(rest.subrange(0, j - pos) =~= s@.subrange(pos as int, j as int));
                assert(strip_cr(rest.subrange(0, j - pos)) =~= s@.subrange(
                    pos as int,
                    line_end as int,
                ));
                assert(rest.skip(j - pos + 1) =~= s@.skip(j + 1));
                assert(spec_lines(rest) =~= seq![line@] + spec_lines(s@.skip(j + 1)));
                assert(pre.push(line@) + spec_lines(s@.skip(j + 1)) =~= pre + spec_lines(rest));
            } else {
                assert(strip_cr(rest) =~= s@.subrange(pos as int, line_end as int));
                assert(spec_lines(rest) =~= seq![line@]);
                assert(s@.skip(len as int) =~= Seq::<char>::empty());
                assert(pre.push(line@) + spec_lines(s@.skip(len as int)) =~= pre + spec_lines(
                    rest,
                ));
            }
        }
        if j < len {
            pos = j + 1;
        } else {
            pos = len;
        }
    }
    proof {
        assert(s@.skip(len as int) =~= Seq::<char>::empty());
        assert(out@.map_values(|l: String| l@) + spec_lines(Seq::<char>::empty())
            =~= out@.map_values(|l: String| l@));
    }
    out
}

/// `n` copies of `s` laid end to end.
pub open spec fn spec_repeat(s: Seq<char>, n: int) -> Seq<char>
    decreases n,
    when n >= 0
{
    if n <= 0 {
        Seq::empty()
    } else {
        s + spec_repeat(s, n - 1)
    }
}

/// Appends `n` copies of `s` to `out`.
pub fn push_repeat(out: &mut String, s: &str, n: usize)
    ensures
        final(out)@ == old(out)@ + spec_repeat(s@, n as int),
    decreases n,
{
    if n == 0 {
        assert(out@ =~= old(out)@ + spec_repeat(s@, 0));
    } else {
        out.append(s);
        push_repeat(out, s, n - 1);
        assert(out@ =~= old(out)@ + spec_repeat(s@, n as int));
    }
}







/// What `str::to_lowercase` returns for a string: a function of the
/// characters alone.
pub uninterp spec fn lower_of(s: Seq<char>) -> Seq<char>;

/// Whether every character of `s` is ASCII.
pub open spec fn all_ascii(s: Seq<char>) -> bool {
    forall|i: int| 0 <= i < s.len() ==> (#[trigger] char_val(s[i])) < 0x80
}

/// The ASCII lowercase of a character: an ASCII capital letter becomes its
/// small form, anything else stays itself.
pub open spec fn ascii_lower_char(c: char) -> char {
    if 'A' <= c && c <= 'Z' {
        char_from_val((c as u32 + 32) as u32)
    } else {
        c
    }
}

/// The ASCII lowercase of a string, character by character.
pub open spec fn spec_ascii_lower(s: Seq<char>) -> Seq<char> {
    s.map_values(|c: char| ascii_lower_char(c))
}

/// Relies on std's `str::to_lowercase`: the Unicode lowercase mapping of the
/// string, a pure function of its characters; on ASCII input it maps each
/// capital letter to its small form and leaves every other character alone.
#[verifier::external_body]
pub fn lowercase(s: &str) -> (r: String)
    ensures
        r@ == lower_of(s@),
        all_ascii(s@) ==> r@ == spec_ascii_lower(s@),
{
    s.to_lowercase()
}


/// The scalar value of a character.
pub open spec fn char_val(c: char) -> u32 {
    c as u32
}

/// The character with scalar value `v`; characters and scalar values
/// correspond one to one, so this is pinned for every valid scalar.
pub open spec fn char_from_val(v: u32) -> char {
    choose|c: char| (#[trigger] char_val(c)) == v
}

/// The character built from a valid scalar value is `char_from_val` of it.
pub proof fn lemma_char_from_val(c: char)
    ensures
        char_from_val(char_val(c)) == c,
{
    assert(char_val(c) == c as u32);
    assert(exists|c2: char| (#[trigger] char_val(c2)) == char_val(c)) by {
        assert(char_val(c) == c as u32);
    }
    let w = char_from_val(char_val(c));
    assert(char_val(w) == char_val(c));
    assert(w as u32 == c as u32);
    assert(w == c);
}


/// A found position lies in range and carries a match.
pub proof fn lemma_find_in_range(s: Seq<char>, p: Seq<char>, from: int, i: int)
    requires
        0 <= from,
        spec_find_from(s, p, from) == Some(i),
    ensures
        from <= i,
        i + p.len() <= s.len(),
        match_at(s, p, i),
    decreases s.len() + 1 - from,
{
    if from + p.len() <= s.len() {
        if !match_at(s, p, from) {
            lemma_find_in_range(s, p, from + 1, i);
        }
    }
}

/// The position of the last occurrence of `p` in `s` at or before `i`.
pub open spec fn spec_rfind_down(s: Seq<char>, p: Seq<char>, i: int) -> Option<int>
    decreases i + 1,
    when i <= s.len()
{
    if i < 0 {
        None
    } else if match_at(s, p, i) {
        Some(i)
    } else {
        spec_rfind_down(s, p, i - 1)
    }
}

/// The position of the last occurrence of `p` in `s`.
pub open spec fn spec_rfind(s: Seq<char>, p: Seq<char>) -> Option<int> {
    spec_rfind_down(s, p, s.len() - p.len())
}

/// A found position really carries a match.
pub proof fn lemma_rfind_is_match(s: Seq<char>, p: Seq<char>, j: int, i: int)
    requires
        j <= s.len(),
        spec_rfind_down(s, p, j) == Some(i),
    ensures
        match_at(s, p, i),
        i <= j,
    decreases j + 1,
{
    if j >= 0 {
        if !match_at(s, p, j) {
            lemma_rfind_is_match(s, p, j - 1, i);
        }
    }
}

/// The last occurrence of `p` in `s`, by character position.
pub fn rfind_sub(s: &str, p: &str) -> (r: Option<usize>)
    ensures
        match r {
            Some(j) => spec_rfind(s@, p@) == Some(j as int),
            None => spec_rfind(s@, p@) is None,
        },
{
    let sl = s.unicode_len();
    let pl = p.unicode_len();
    if pl > sl {
        proof {
            assert(s@.len() - p@.len() < 0);
            assert(spec_rfind_down(s@, p@, s@.len() - p@.len()) is None);
        }
        return None;
    }
    let mut k: usize = sl - pl;
    loop
        invariant
            k <= sl - pl,
            pl <= sl,
            sl == s@.len(),
            pl == p@.len(),
            spec_rfind(s@, p@) == spec_rfind_down(s@, p@, k as int),
        decreases k,
    {
        if has_match_at(s, p, k) {
            return Some(k);
        }
        if k == 0 {
            proof {
                assert(spec_rfind_down(s@, p@, -1) is None);
                assert(spec_rfind_down(s@, p@, 0) is None);
            }
            return None;
        }
        k -= 1;
    }
}

} // verus!
