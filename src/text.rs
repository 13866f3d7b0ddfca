//! Text helpers over character sequences: search, whitespace, tokens, numbers.
use vstd::prelude::*;
use vstd::string::StringExecFns;

verus! {

/// `needle` occurs in `hay` starting at `i`.
pub open spec fn infix_at(hay: Seq<char>, needle: Seq<char>, i: int) -> bool {
    0 <= i && i + needle.len() <= hay.len() && hay.subrange(i, i + needle.len()) == needle
}

/// `needle` occurs somewhere in `hay`.
pub open spec fn seq_has_infix(hay: Seq<char>, needle: Seq<char>) -> bool {
    exists|i: int| #[trigger] infix_at(hay, needle, i)
}

fn matches_at(hay: &str, needle: &str, i: usize, hl: usize, nl: usize) -> (r: bool)
    requires
        hl == hay@.len(),
        nl == needle@.len(),
        i + nl <= hl,
    ensures
        r == infix_at(hay@, needle@, i as int),
{
    let mut j: usize = 0;
    while j < nl
        invariant
            hl == hay@.len(),
            nl == needle@.len(),
            i + nl <= hl,
            j <= nl,
            forall|k: int| 0 <= k < j ==> hay@[i + k] == needle@[k],
        decreases nl - j,
    {
        if hay.get_char(i + j) != needle.get_char(j) {
            assert(hay@.subrange(i as int, i + nl)[j as int] != needle@[j as int]);
            return false;
        }
        j = j + 1;
    }
    assert(hay@.subrange(i as int, i + nl) =~= needle@);
    true
}

/// Whether `needle` occurs in `hay` (the empty needle occurs everywhere).
pub fn str_contains(hay: &str, needle: &str) -> (r: bool)
    ensures
        r == seq_has_infix(hay@, needle@),
{
    let hl = hay.unicode_len();
    let nl = needle.unicode_len();
    if nl > hl {
        assert forall|i: int| !infix_at(hay@, needle@, i) by {}
        return false;
    }
    let last = hl - nl;
    let mut i: usize = 0;
    loop
        invariant
            hl == hay@.len(),
            nl == needle@.len(),
            last == hl - nl,
            i <= last,
            forall|k: int| 0 <= k < i ==> !infix_at(hay@, needle@, k),
        decreases last - i,
    {
        if matches_at(hay, needle, i, hl, nl) {
            return true;
        }
        if i == last {
            assert forall|k: int| !infix_at(hay@, needle@, k) by {
                if 0 <= k <= i {
                }
            }
            return false;
        }
        i = i + 1;
    }
}

pub open spec fn is_digit(c: char) -> bool {
    '0' <= c && c <= '9'
}

/// Decimal value of a string of digits.
pub open spec fn digits_value(s: Seq<char>) -> int
    decreases s.len(),
{
    if s.len() == 0 {
        0
    } else {
        digits_value(s.drop_last()) * 10 + (s.last() as int - '0' as int)
    }
}

pub open spec fn all_digits(s: Seq<char>) -> bool {
    forall|i: int| 0 <= i < s.len() ==> is_digit(#[trigger] s[i])
}

/// The digits after an optional leading sign character `sign`.
pub open spec fn unsigned_part(s: Seq<char>, sign: char) -> Seq<char> {
    if s.len() > 0 && s[0] == sign {
        s.subrange(1, s.len() as int)
    } else {
        s
    }
}

/// What `str::parse::<u32>` accepts: an optional `+`, then one or more ASCII
/// digits whose value fits in `u32`.
pub open spec fn spec_parse_u32(s: Seq<char>) -> Option<u32> {
    let d = unsigned_part(s, '+');
    if d.len() > 0 && all_digits(d) && digits_value(d) <= u32::MAX {
        Some(digits_value(d) as u32)
    } else {
        None
    }
}

/// What `str::parse::<i32>` accepts: an optional `+` or `-`, then one or more
/// ASCII digits whose signed value fits in `i32`.
pub open spec fn spec_parse_i32(s: Seq<char>) -> Option<i32> {
    if s.len() > 0 && s[0] == '-' {
        let d = s.subrange(1, s.len() as int);
        if d.len() > 0 && all_digits(d) && digits_value(d) <= 0x8000_0000 {
            Some((-digits_value(d)) as i32)
        } else {
            None
        }
    } else {
        let d = unsigned_part(s, '+');
        if d.len() > 0 && all_digits(d) && digits_value(d) <= i32::MAX {
            Some(digits_value(d) as i32)
        } else {
            None
        }
    }
}

proof fn lemma_digits_mono(s: Seq<char>, k: int)
    requires
        0 <= k <= s.len(),
        all_digits(s),
    ensures
        digits_value(s.subrange(0, k)) <= digits_value(s),
        digits_value(s) >= 0,
    decreases s.len() - k,
{
    if k < s.len() {
        lemma_digits_mono(s, k + 1);
        let t = s.subrange(0, k + 1);
        assert(t.drop_last() =~= s.subrange(0, k));
        lemma_digits_nonneg(s.subrange(0, k));
    } else {
        assert(s.subrange(0, k) =~= s);
        lemma_digits_nonneg(s);
    }
}

proof fn lemma_digits_nonneg(s: Seq<char>)
    requires
        all_digits(s),
    ensures
        digits_value(s) >= 0,
    decreases s.len(),
{
    if s.len() > 0 {
        lemma_digits_nonneg(s.drop_last());
    }
}

/// Value of the digits `s[from..]`, or `None` when one is not a digit, there
/// are none, or the value exceeds `limit`.
fn digits_up_to(s: &str, from: usize, len: usize, limit: u64) -> (r: Option<u64>)
    requires
        len == s@.len(),
        from <= len,
        limit <= u32::MAX + 1,
    ensures
        ({
            let d = s@.subrange(from as int, len as int);
            r == if d.len() > 0 && all_digits(d) && digits_value(d) <= limit {
                Some(digits_value(d) as u64)
            } else {
                None::<u64>
            }
        }),
        r matches Some(v) ==> v <= limit && v as int == digits_value(s@.subrange(from as int, len as int)),
{
    let ghost d = s@.subrange(from as int, len as int);
    if from == len {
        return None;
    }
    let mut v: u64 = 0;
    let mut i: usize = from;
    while i < len
        invariant
            len == s@.len(),
            from <= i <= len,
            d == s@.subrange(from as int, len as int),
            limit <= u32::MAX + 1,
            all_digits(s@.subrange(from as int, i as int)),
            v as int == digits_value(s@.subrange(from as int, i as int)),
            v <= limit,
        decreases len - i,
    {
        let c = s.get_char(i);
        let ghost pre = s@.subrange(from as int, (i + 1) as int);
        assert(pre.drop_last() =~= s@.subrange(from as int, i as int));
        if !('0' <= c && c <= '9') {
            assert(!is_digit(d[i - from]));
            return None;
        }
        let nv = v * 10 + (c as u64 - '0' as u64);
        assert(nv as int == digits_value(pre));
        if nv > limit {
            proof {
                if all_digits(d) {
                    lemma_digits_mono(d, i + 1 - from);
                    assert(d.subrange(0, i + 1 - from) =~= pre);
                }
            }
            return None;
        }
        v = nv;
        i = i + 1;
    }
    assert(s@.subrange(from as int, i as int) =~= d);
    proof {
        lemma_digits_nonneg(d);
    }
    Some(v)
}

/// Parse a `u32` the way `str::parse::<u32>` does.
pub fn parse_u32(s: &str) -> (r: Option<u32>)
    ensures
        r == spec_parse_u32(s@),
{
    let len = s.unicode_len();
    let from: usize = if len > 0 && s.get_char(0) == '+' { 1 } else { 0 };
    assert(s@.subrange(from as int, len as int) =~= unsigned_part(s@, '+'));
    let r = digits_up_to(s, from, len, 4294967295);
    let ghost d = unsigned_part(s@, '+');
    match r {
        Some(v) => {
            assert(d.len() > 0 && all_digits(d) && digits_value(d) <= u32::MAX);
            assert(v as int == digits_value(d));
            Some(v as u32)
        },
        None => None,
    }
}

/// Parse an `i32` the way `str::parse::<i32>` does.
pub fn parse_i32(s: &str) -> (r: Option<i32>)
    ensures
        r == spec_parse_i32(s@),
{
    let len = s.unicode_len();
    if len > 0 && s.get_char(0) == '-' {
        let r = digits_up_to(s, 1, len, 2147483648);
        let ghost d = s@.subrange(1, s@.len() as int);
        match r {
            Some(v) => {
                assert(v as int == digits_value(d));
                let n: i64 = 0 - (v as i64);
                assert(n as int == -digits_value(d));
                Some(n as i32)
            },
            None => None,
        }
    } else {
        let from: usize = if len > 0 && s.get_char(0) == '+' { 1 } else { 0 };
        assert(s@.subrange(from as int, len as int) =~= unsigned_part(s@, '+'));
        let r = digits_up_to(s, from, len, 2147483647);
        let ghost d = unsigned_part(s@, '+');
        match r {
            Some(v) => {
                assert(v as int == digits_value(d));
                Some(v as i32)
            },
            None => None,
        }
    }
}

/// Whether two strings hold the same characters.
pub fn str_eq(a: &str, b: &str) -> (r: bool)
    ensures
        r == (a@ == b@),
{
    let n = a.unicode_len();
    if n != b.unicode_len() {
        return false;
    }
    let mut i: usize = 0;
    while i < n
        invariant
            n == a@.len(),
            n == b@.len(),
            i <= n,
            forall|j: int| 0 <= j < i ==> a@[j] == b@[j],
        decreases n - i,
    {
        if a.get_char(i) != b.get_char(i) {
            return false;
        }
        i = i + 1;
    }
    assert(a@ =~= b@);
    true
}

/// The lowercase form of a string, as `str::to_lowercase` computes it.
pub uninterp spec fn lower_of(s: Seq<char>) -> Seq<char>;

/// Relies on `str::to_lowercase`: the result depends on the characters
/// alone, and the empty string stays empty.
#[verifier::external_body]
pub(crate) fn lowercase(s: &str) -> (r: String)
    ensures
        r@ == lower_of(s@),
        s@.len() == 0 ==> r@.len() == 0,
{
    s.to_lowercase()
}

/// Unicode `White_Space`, as `char::is_whitespace` uses it.
pub open spec fn is_ws(c: char) -> bool {
    ('\u{9}' <= c && c <= '\u{d}') || c == ' ' || c == '\u{85}' || c == '\u{a0}' || c == '\u{1680}'
        || ('\u{2000}' <= c && c <= '\u{200a}') || c == '\u{2028}' || c == '\u{2029}' || c == '\u{202f}'
        || c == '\u{205f}' || c == '\u{3000}'
}

pub fn char_is_ws(c: char) -> (r: bool)
    ensures
        r == is_ws(c),
{
    ('\u{9}' <= c && c <= '\u{d}') || c == ' ' || c == '\u{85}' || c == '\u{a0}' || c == '\u{1680}'
        || ('\u{2000}' <= c && c <= '\u{200a}') || c == '\u{2028}' || c == '\u{2029}' || c == '\u{202f}'
        || c == '\u{205f}' || c == '\u{3000}'
}

/// Leading whitespace removed.
pub open spec fn trim_start_seq(s: Seq<char>) -> Seq<char>
    decreases s.len(),
{
    if s.len() > 0 && is_ws(s[0]) {
        trim_start_seq(s.drop_first())
    } else {
        s
    }
}

/// Trailing whitespace removed.
pub open spec fn trim_end_seq(s: Seq<char>) -> Seq<char>
    decreases s.len(),
{
    if s.len() > 0 && is_ws(s.last()) {
        trim_end_seq(s.drop_last())
    } else {
        s
    }
}

/// Leading and trailing whitespace removed.
pub open spec fn trim_seq(s: Seq<char>) -> Seq<char> {
    trim_end_seq(trim_start_seq(s))
}

/// The string with leading and trailing whitespace removed.
pub fn trim(s: &str) -> (r: &str)
    ensures
        r@ == trim_seq(s@),
{
    let n = s.unicode_len();
    let mut i: usize = 0;
    assert(s@.subrange(0, n as int) =~= s@);
    while i < n && char_is_ws(s.get_char(i))
        invariant
            n == s@.len(),
            i <= n,
            trim_start_seq(s@) == trim_start_seq(s@.subrange(i as int, n as int)),
        decreases n - i,
    {
        assert(s@.subrange(i as int, n as int).drop_first() =~= s@.subrange(i + 1, n as int));
        i = i + 1;
    }
    let ghost t = s@.subrange(i as int, n as int);
    assert(trim_start_seq(t) == t);
    let mut j: usize = n;
    while j > i && char_is_ws(s.get_char(j - 1))
        invariant
            n == s@.len(),
            i <= j <= n,
            trim_end_seq(t) == trim_end_seq(s@.subrange(i as int, j as int)),
        decreases j,
    {
        assert(s@.subrange(i as int, j as int).drop_last() =~= s@.subrange(i as int, j - 1));
        j = j - 1;
    }
    assert(trim_end_seq(s@.subrange(i as int, j as int)) == s@.subrange(i as int, j as int));
    s.substring_char(i, j)
}

/// The parts of `s` between occurrences of `sep` (one part more than there
/// are separators).
pub open spec fn split_on(s: Seq<char>, sep: char) -> Seq<Seq<char>>
    decreases s.len(),
{
    if s.len() == 0 {
        seq![Seq::<char>::empty()]
    } else {
        let prev = split_on(s.drop_last(), sep);
        if s.last() == sep {
            prev.push(Seq::<char>::empty())
        } else {
            prev.update(prev.len() - 1, prev.last().push(s.last()))
        }
    }
}

proof fn lemma_split_on_len(s: Seq<char>, sep: char)
    ensures
        split_on(s, sep).len() >= 1,
    decreases s.len(),
{
    if s.len() > 0 {
        lemma_split_on_len(s.drop_last(), sep);
    }
}

/// Split at every `sep`.
pub fn split_str(s: &str, sep: char) -> (r: Vec<String>)
    ensures
        r@.len() == split_on(s@, sep).len(),
        forall|k: int| 0 <= k < r@.len() ==> #[trigger] r@[k]@ == split_on(s@, sep)[k],
{
    let n = s.unicode_len();
    let mut out: Vec<String> = Vec::new();
    let mut start: usize = 0;
    let mut i: usize = 0;
    while i < n
        invariant
            n == s@.len(),
            start <= i <= n,
            out@.len() + 1 == split_on(s@.subrange(0, i as int), sep).len(),
            forall|k: int| 0 <= k < out@.len() ==> #[trigger] out@[k]@ == split_on(s@.subrange(0, i as int), sep)[k],
            split_on(s@.subrange(0, i as int), sep).last() == s@.subrange(start as int, i as int),
        decreases n - i,
    {
        proof {
            lemma_split_on_len(s@.subrange(0, i as int), sep);
            assert(s@.subrange(0, i + 1).drop_last() =~= s@.subrange(0, i as int));
        }
        let c = s.get_char(i);
        if c == sep {
            let part = s.substring_char(start, i).to_owned();
            out.push(part);
            start = i + 1;
            assert(s@.subrange(start as int, i + 1) =~= Seq::<char>::empty());
        } else {
            assert(s@.subrange(start as int, i + 1) =~= s@.subrange(start as int, i as int).push(c));
        }
        i = i + 1;
    }
    proof {
        lemma_split_on_len(s@.subrange(0, i as int), sep);
        assert(s@.subrange(0, n as int) =~= s@);
    }
    let part = s.substring_char(start, n).to_owned();
    out.push(part);
    out
}

/// The whitespace-separated words of `s`.
pub open spec fn words(s: Seq<char>) -> Seq<Seq<char>>
    decreases s.len(),
{
    if s.len() == 0 {
        Seq::empty()
    } else {
        let prev = words(s.drop_last());
        if is_ws(s.last()) {
            prev
        } else if s.len() == 1 || is_ws(s[s.len() - 2]) {
            prev.push(seq![s.last()])
        } else {
            prev.update(prev.len() - 1, prev.last().push(s.last()))
        }
    }
}

/// Split at runs of whitespace, dropping empty words.
pub fn words_of(s: &str) -> (r: Vec<String>)
    ensures
        r@.len() == words(s@).len(),
        forall|k: int| 0 <= k < r@.len() ==> #[trigger] r@[k]@ == words(s@)[k],
{
    let n = s.unicode_len();
    let mut out: Vec<String> = Vec::new();
    let mut i: usize = 0;
    while i < n
        invariant
            n == s@.len(),
            i <= n,
            out@.len() == words(s@.subrange(0, i as int)).len(),
            forall|k: int| 0 <= k < out@.len() ==> #[trigger] out@[k]@ == words(s@.subrange(0, i as int))[k],
            i < n ==> (i == 0 || is_ws(s@[i - 1]) || is_ws(s@[i as int])),
        decreases n - i,
    {
        if char_is_ws(s.get_char(i)) {
            assert(s@.subrange(0, i + 1).drop_last() =~= s@.subrange(0, i as int));
            i = i + 1;
        } else {
            assert(i == 0 || is_ws(s@[i - 1]));
            let start = i;
            let ghost w0 = words(s@.subrange(0, i as int));
            while i < n && !char_is_ws(s.get_char(i))
                invariant
                    n == s@.len(),
                    start < n,
                    start <= i <= n,
                    !is_ws(s@[start as int]),
                    start == 0 || is_ws(s@[start - 1]),
                    w0 == words(s@.subrange(0, start as int)),
                    i > start ==> words(s@.subrange(0, i as int)) == w0.push(s@.subrange(start as int, i as int)),
                    forall|k: int| start <= k < i ==> !is_ws(#[trigger] s@[k]),
                decreases n - i,
            {
                assert(s@.subrange(0, i + 1).drop_last() =~= s@.subrange(0, i as int));
                assert(s@.subrange(start as int, i + 1) =~= s@.subrange(start as int, i as int).push(s@[i as int]));
                if i == start {
                    assert(seq![s@[i as int]] =~= s@.subrange(start as int, i + 1));
                }
                i = i + 1;
            }
            let w = s.substring_char(start, i).to_owned();
            out.push(w);
        }
    }
    assert(s@.subrange(0, n as int) =~= s@);
    out
}

/// The text before the first space, and the text after it (if any).
pub open spec fn split_first_space(s: Seq<char>) -> (Seq<char>, Option<Seq<char>>) {
    if exists|i: int| 0 <= i < s.len() && s[i] == ' ' {
        let i = choose|i: int| 0 <= i < s.len() && s[i] == ' ' && forall|j: int| 0 <= j < i ==> s[j] != ' ';
        (s.subrange(0, i), Some(s.subrange(i + 1, s.len() as int)))
    } else {
        (s, None)
    }
}

/// Split once at the first space, as `splitn(2, ' ')` does.
pub fn split_once_space(s: &str) -> (r: (&str, Option<&str>))
    ensures
        r.0@ == split_first_space(s@).0,
        match (r.1, split_first_space(s@).1) {
            (Some(a), Some(b)) => a@ == b,
            (None, None) => true,
            _ => false,
        },
{
    let n = s.unicode_len();
    let mut i: usize = 0;
    while i < n
        invariant
            n == s@.len(),
            i <= n,
            forall|j: int| 0 <= j < i ==> s@[j] != ' ',
        decreases n - i,
    {
        if s.get_char(i) == ' ' {
            proof {
                let k = choose|k: int| 0 <= k < s@.len() && s@[k] == ' ' && forall|j: int| 0 <= j < k ==> s@[j] != ' ';
                assert(k == i);
            }
            return (s.substring_char(0, i), Some(s.substring_char(i + 1, n)));
        }
        i = i + 1;
    }
    assert(s@.subrange(0, n as int) =~= s@);
    (s.substring_char(0, n), None)
}

} // verus!
