//! Page-range selection: a user-supplied range expression and a page count
//! become a canonical, deduplicated, ascending list of zero-based indices.
use vstd::prelude::*;

verus! {

/// The characters that trimming removes from either end of a token: the
/// Unicode white-space characters.
pub open spec fn is_space_char(c: char) -> bool {
    let v = c as int;
    ||| (0x09 <= v && v <= 0x0d)
    ||| v == 0x20
    ||| v == 0x85
    ||| v == 0xa0
    ||| v == 0x1680
    ||| (0x2000 <= v && v <= 0x200a)
    ||| v == 0x2028
    ||| v == 0x2029
    ||| v == 0x202f
    ||| v == 0x205f
    ||| v == 0x3000
}

pub open spec fn is_digit_char(c: char) -> bool {
    48 <= c as int <= 57
}

pub open spec fn trim_front(s: Seq<char>) -> Seq<char>
    decreases s.len(),
{
    if s.len() > 0 && is_space_char(s[0]) {
        trim_front(s.drop_first())
    } else {
        s
    }
}

pub open spec fn trim_back(s: Seq<char>) -> Seq<char>
    decreases s.len(),
{
    if s.len() > 0 && is_space_char(s.last()) {
        trim_back(s.drop_last())
    } else {
        s
    }
}

/// A token with the surrounding whitespace removed.
pub open spec fn trimmed(s: Seq<char>) -> Seq<char> {
    trim_back(trim_front(s))
}

/// Every character is a decimal digit, and there is at least one.
pub open spec fn all_digits(s: Seq<char>) -> bool {
    s.len() > 0 && forall|i: int| 0 <= i < s.len() ==> is_digit_char(s[i])
}

/// The unbounded value of a digit string.
pub open spec fn digits_value(s: Seq<char>) -> int
    decreases s.len(),
{
    if s.len() == 0 {
        0
    } else {
        10 * digits_value(s.drop_last()) + (s.last() as int - 48)
    }
}

/// The digits of a numeric token: an optional single leading plus sign is
/// accepted and dropped, as the integer parse of the standard library has it.
pub open spec fn numeric_body(s: Seq<char>) -> Seq<char> {
    if s.len() > 0 && s[0] == '+' {
        s.drop_first()
    } else {
        s
    }
}

/// What parsing a token as a page number yields: a value, provided the token
/// is digits after at most one leading plus sign, and the value fits the
/// machine's word.
pub open spec fn parsed_number(s: Seq<char>) -> Option<int> {
    if all_digits(numeric_body(s)) && digits_value(numeric_body(s)) <= usize::MAX {
        Some(digits_value(numeric_body(s)))
    } else {
        None
    }
}

pub open spec fn has_hyphen(s: Seq<char>) -> bool {
    exists|h: int| 0 <= h < s.len() && s[h] == '-'
}

/// Exactly one hyphen occurs in the token.
pub open spec fn lone_hyphen(s: Seq<char>) -> bool {
    exists|h: int|
        {
            &&& 0 <= h < s.len()
            &&& s[h] == '-'
            &&& forall|i: int| 0 <= i < s.len() && i != h ==> s[i] != '-'
        }
}

pub open spec fn hyphen_pos(s: Seq<char>) -> int {
    choose|h: int|
        {
            &&& 0 <= h < s.len()
            &&& s[h] == '-'
            &&& forall|i: int| 0 <= i < s.len() && i != h ==> s[i] != '-'
        }
}

/// The half-open interval of zero-based indices one comma-separated token
/// contributes, given `n` pages. A malformed token contributes the empty
/// interval. A range token `start-end` (1-based, inclusive) becomes
/// `[max(start-1, 0), min(end, n))`; a single number `p` is valid only when
/// `1 <= p <= n` and becomes `[p-1, p)`.
pub open spec fn token_interval(tok: Seq<char>, n: int) -> (int, int) {
    let t = trimmed(tok);
    if has_hyphen(t) {
        if lone_hyphen(t) {
            let h = hyphen_pos(t);
            let left = trimmed(t.take(h));
            let right = trimmed(t.skip(h + 1));
            if parsed_number(left) is Some && parsed_number(right) is Some {
                let a = parsed_number(left)->0;
                let b = parsed_number(right)->0;
                (if a >= 1 { a - 1 } else { 0 }, if b <= n { b } else { n })
            } else {
                (0, 0)
            }
        } else {
            (0, 0)
        }
    } else {
        match parsed_number(t) {
            Some(p) => if 1 <= p <= n {
                (p - 1, p)
            } else {
                (0, 0)
            },
            None => (0, 0),
        }
    }
}

/// `s[a..b]` is one complete comma-separated token of `s`: it touches a comma
/// or an end of the string on both sides and holds no comma itself.
pub open spec fn is_token_at(s: Seq<char>, a: int, b: int) -> bool {
    &&& 0 <= a <= b <= s.len()
    &&& (a == 0 || s[a - 1] == ',')
    &&& (b == s.len() || s[b] == ',')
    &&& forall|i: int| a <= i < b ==> s[i] != ','
}

/// Whether zero-based page index `p` belongs to the selection that
/// expression `s` describes over `n` pages: everything when the expression
/// is blank, otherwise any index some token's interval covers.
pub open spec fn selected(s: Seq<char>, n: int, p: int) -> bool {
    if trimmed(s).len() == 0 {
        0 <= p < n
    } else {
        exists|a: int, b: int|
            is_token_at(s, a, b) && (token_interval(s.subrange(a, b), n).0 <= p
                < token_interval(s.subrange(a, b), n).1)
    }
}

/// Some interval of the list covers index `q`.
pub open spec fn covered(ivs: Seq<(usize, usize)>, q: int) -> bool {
    exists|k: int|
        #![auto]
        0 <= k < ivs.len() && ivs[k].0 as int <= q && q < ivs[k].1 as int
}

/// Index `q` occurs in the list.
pub open spec fn in_list(pages: Seq<usize>, q: int) -> bool {
    exists|x: int| 0 <= x < pages.len() && pages[x] as int == q
}

/// The intervals of the list are exactly the intervals of the expression's
/// tokens.
pub open spec fn intervals_match(s: Seq<char>, n: int, ivs: Seq<(usize, usize)>) -> bool {
    &&& forall|k: int|
        #![auto]
        0 <= k < ivs.len() ==> ivs[k].1 as int <= n && exists|a: int, b: int|
            is_token_at(s, a, b) && (ivs[k].0 as int, ivs[k].1 as int) == token_interval(
                s.subrange(a, b),
                n,
            )
    &&& forall|a: int, b: int|
        is_token_at(s, a, b) ==> exists|k: int|
            #![auto]
            0 <= k < ivs.len() && (ivs[k].0 as int, ivs[k].1 as int) == token_interval(
                s.subrange(a, b),
                n,
            )
}

proof fn lemma_trim_front_step(s: Seq<char>, a: int, b: int)
    requires
        0 <= a < b <= s.len(),
        is_space_char(s[a]),
    ensures
        trim_front(s.subrange(a, b)) == trim_front(s.subrange(a + 1, b)),
{
    assert(s.subrange(a, b).drop_first() =~= s.subrange(a + 1, b));
}

proof fn lemma_trim_back_step(s: Seq<char>, a: int, b: int)
    requires
        0 <= a < b <= s.len(),
        is_space_char(s[b - 1]),
    ensures
        trim_back(s.subrange(a, b)) == trim_back(s.subrange(a, b - 1)),
{
    assert(s.subrange(a, b).drop_last() =~= s.subrange(a, b - 1));
}

/// A digit string's value only grows as digits are appended.
proof fn lemma_digits_value_prefix(s: Seq<char>, i: int)
    requires
        0 <= i <= s.len(),
        forall|j: int| 0 <= j < s.len() ==> is_digit_char(s[j]),
    ensures
        digits_value(s) >= digits_value(s.take(i)),
        digits_value(s) >= 0,
    decreases s.len(),
{
    if s.len() == 0 {
    } else {
        lemma_digits_value_prefix(s.drop_last(), if i < s.len() { i } else { i - 1 });
        if i < s.len() {
            assert(s.take(i) =~= s.drop_last().take(i));
        } else {
            assert(s.take(i) =~= s);
        }
    }
}

/// Whether the character at `i` is one trimming removes.
fn is_space_at(s: &str, i: usize) -> (r: bool)
    requires
        i < s@.len(),
    ensures
        r == is_space_char(s@[i as int]),
{
    let v = s.get_char(i) as u32;
    (0x09 <= v && v <= 0x0d) || v == 0x20 || v == 0x85 || v == 0xa0 || v == 0x1680 || (0x2000 <= v
        && v <= 0x200a) || v == 0x2028 || v == 0x2029 || v == 0x202f || v == 0x205f || v == 0x3000
}

/// Trimming: compute the sub-span of `s[lo..hi]` that remains once the
/// surrounding whitespace is dropped.
fn trim_span(s: &str, lo: usize, hi: usize) -> (r: (usize, usize))
    requires
        lo <= hi <= s@.len(),
    ensures
        lo <= r.0 <= r.1 <= hi,
        s@.subrange(r.0 as int, r.1 as int) == trimmed(s@.subrange(lo as int, hi as int)),
{
    let mut a = lo;
    let mut b = hi;
    while a < b && is_space_at(s, a)
        invariant
            lo <= a <= b <= hi <= s@.len(),
            trim_front(s@.subrange(lo as int, hi as int)) == trim_front(
                s@.subrange(a as int, b as int),
            ),
        decreases b - a,
    {
        proof {
            lemma_trim_front_step(s@, a as int, b as int);
        }
        a = a + 1;
    }
    proof {
        assert(trim_front(s@.subrange(a as int, b as int)) == s@.subrange(a as int, b as int));
        assert(trimmed(s@.subrange(lo as int, hi as int)) == trim_back(
            s@.subrange(a as int, b as int),
        ));
    }
    while a < b && is_space_at(s, b - 1)
        invariant
            lo <= a <= b <= hi <= s@.len(),
            trimmed(s@.subrange(lo as int, hi as int)) == trim_back(
                s@.subrange(a as int, b as int),
            ),
        decreases b,
    {
        proof {
            lemma_trim_back_step(s@, a as int, b as int);
        }
        b = b - 1;
    }
    proof {
        assert(trim_back(s@.subrange(a as int, b as int)) == s@.subrange(a as int, b as int));
    }
    (a, b)
}

/// Parse the digit run `s[lo..hi]` (no sign) as a page number.
fn parse_digits_span(s: &str, lo: usize, hi: usize) -> (r: Option<usize>)
    requires
        lo <= hi <= s@.len(),
    ensures
        match r {
            Some(v) => all_digits(s@.subrange(lo as int, hi as int)) && digits_value(
                s@.subrange(lo as int, hi as int),
            ) == v as int,
            None => !(all_digits(s@.subrange(lo as int, hi as int)) && digits_value(
                s@.subrange(lo as int, hi as int),
            ) <= usize::MAX),
        },
{
    let ghost t = s@.subrange(lo as int, hi as int);
    if lo == hi {
        return None;
    }
    let mut acc: usize = 0;
    let mut i = lo;
    while i < hi
        invariant
            lo <= i <= hi <= s@.len(),
            forall|j: int| 0 <= j < i - lo ==> is_digit_char(t[j]),
            acc as int == digits_value(t.take(i - lo)),
            t == s@.subrange(lo as int, hi as int),
            lo < hi,
        decreases hi - i,
    {
        let c = s.get_char(i);
        let cv = c as u32;
        if cv < 48 || cv > 57 {
            assert(!is_digit_char(t[i - lo]));
            return None;
        }
        let d = (cv - 48) as usize;
        assert(is_digit_char(t[i - lo]));
        // Refuse the token if its value would not fit a machine word,
        // as the original numeric parse does.
        let limit = usize::MAX / 10;
        let rest = usize::MAX % 10;
        if acc > limit || (acc == limit && d > rest) {
            proof {
                vstd::arithmetic::div_mod::lemma_fundamental_div_mod(usize::MAX as int, 10);
                vstd::arithmetic::div_mod::lemma_mod_bound(usize::MAX as int, 10);
                assert(forall|j: int| 0 <= j < i + 1 - lo ==> is_digit_char(t[j]));
                assert(t.take(i + 1 - lo).drop_last() =~= t.take(i - lo));
                assert(t.take(i + 1 - lo).last() == t[i - lo]);
                assert(digits_value(t.take(i + 1 - lo)) == 10 * (acc as int) + d);
                assert(10 * (acc as int) + d > usize::MAX);
                if all_digits(t) {
                    lemma_digits_value_prefix(t, i + 1 - lo);
                    assert(digits_value(t) > usize::MAX);
                }
            }
            return None;
        }
        proof {
            vstd::arithmetic::div_mod::lemma_fundamental_div_mod(usize::MAX as int, 10);
            vstd::arithmetic::div_mod::lemma_mod_bound(usize::MAX as int, 10);
            assert(10 * (acc as int) + d <= usize::MAX);
            assert(t.take(i + 1 - lo).drop_last() =~= t.take(i - lo));
            assert(t.take(i + 1 - lo).last() == t[i - lo]);
        }
        acc = acc * 10 + d;
        i = i + 1;
    }
    proof {
        assert(t.take(hi - lo) =~= t);
        assert(all_digits(t));
    }
    Some(acc)
}

/// Parse `s[lo..hi]` as a decimal page number, as `parsed_number` describes:
/// digits after at most one leading plus sign.
fn parse_number_span(s: &str, lo: usize, hi: usize) -> (r: Option<usize>)
    requires
        lo <= hi <= s@.len(),
    ensures
        match r {
            Some(v) => parsed_number(s@.subrange(lo as int, hi as int)) == Some(v as int),
            None => parsed_number(s@.subrange(lo as int, hi as int)) is None,
        },
{
    let ghost t = s@.subrange(lo as int, hi as int);
    if lo < hi && s.get_char(lo) == '+' {
        proof {
            assert(numeric_body(t) =~= s@.subrange(lo as int + 1, hi as int));
        }
        parse_digits_span(s, lo + 1, hi)
    } else {
        proof {
            assert(numeric_body(t) == t);
        }
        parse_digits_span(s, lo, hi)
    }
}

/// One comma-separated token `s[lo..hi]` becomes the half-open interval of
/// zero-based indices it contributes, as `token_interval` describes.
fn token_span_interval(s: &str, lo: usize, hi: usize, total_pages: u16) -> (r: (usize, usize))
    requires
        lo <= hi <= s@.len(),
    ensures
        (r.0 as int, r.1 as int) == token_interval(
            s@.subrange(lo as int, hi as int),
            total_pages as int,
        ),
        r.1 <= total_pages,
{
    let ghost tok = s@.subrange(lo as int, hi as int);
    let (ta, tb) = trim_span(s, lo, hi);
    let ghost t = trimmed(tok);
    // Find the hyphens of the trimmed token: the first one, and whether a
    // second occurs.
    let mut hcount: usize = 0;
    let mut hfirst: usize = ta;
    let mut i = ta;
    while i < tb
        invariant
            ta <= i <= tb <= s@.len(),
            t == s@.subrange(ta as int, tb as int),
            hcount <= 2,
            hcount == 0 ==> forall|j: int| ta <= j < i ==> s@[j] != '-',
            hcount >= 1 ==> ta <= hfirst && hfirst < i && s@[hfirst as int] == '-',
            hcount == 1 ==> forall|j: int| ta <= j < i && j != hfirst ==> s@[j] != '-',
            hcount == 2 ==> exists|j: int| ta <= j < i && j != hfirst && s@[j] == '-',
        decreases tb - i,
    {
        if s.get_char(i) == '-' {
            if hcount == 0 {
                hfirst = i;
                hcount = 1;
            } else if hcount == 1 {
                hcount = 2;
            }
        }
        i = i + 1;
    }
    let n = total_pages as usize;
    if hcount == 0 {
        proof {
            assert(forall|h: int| 0 <= h < t.len() ==> t[h] == s@[ta + h] && s@[ta + h] != '-');
            assert(!has_hyphen(t));
        }
        match parse_number_span(s, ta, tb) {
            Some(p) => {
                if 1 <= p && p <= n {
                    (p - 1, p)
                } else {
                    (0, 0)
                }
            },
            None => (0, 0),
        }
    } else if hcount == 1 {
        proof {
            let hr = hfirst - ta;
            assert(t[hr] == s@[hfirst as int]);
            assert(forall|j: int|
                0 <= j < t.len() && j != hr ==> t[j] == s@[ta + j] && s@[ta + j] != '-');
            assert(has_hyphen(t));
            assert(lone_hyphen(t));
            // `choose` picks the one position the uniqueness pins down.
            let hp = hyphen_pos(t);
            if hp != hr {
                assert(t[hp] != '-');
            }
            assert(hyphen_pos(t) == hr);
        }
        let (la, lb) = trim_span(s, ta, hfirst);
        let (ra, rb) = trim_span(s, hfirst + 1, tb);
        proof {
            let hr = hfirst - ta;
            assert(t.take(hr) =~= s@.subrange(ta as int, hfirst as int));
            assert(t.skip(hr + 1) =~= s@.subrange(hfirst + 1, tb as int));
        }
        let left = parse_number_span(s, la, lb);
        let right = parse_number_span(s, ra, rb);
        match (left, right) {
            (Some(a), Some(b)) => {
                let start = if a >= 1 {
                    a - 1
                } else {
                    0
                };
                let stop = if b <= n {
                    b
                } else {
                    n
                };
                (start, stop)
            },
            _ => (0, 0),
        }
    } else {
        proof {
            let hr = hfirst - ta;
            let j2 = choose|j: int| ta <= j < tb && j != hfirst && s@[j] == '-';
            assert(t[hr] == '-');
            assert(t[j2 - ta] == '-');
            assert forall|h: int| #![auto] 0 <= h < t.len() implies !(t[h] == '-' && (forall|k: int|
                0 <= k < t.len() && k != h ==> t[k] != '-')) by {
                if t[h] == '-' && (forall|k: int| 0 <= k < t.len() && k != h ==> t[k] != '-') {
                    if h != hr {
                        assert(t[hr] != '-');
                    } else {
                        assert(t[j2 - ta] != '-');
                    }
                }
            }
            assert(has_hyphen(t));
            assert(!lone_hyphen(t));
        }
        (0, 0)
    }
}

/// Walk the comma-separated tokens of the whole expression and collect each
/// one's interval.
#[verifier::rlimit(40)]
fn collect_intervals(s: &str, total_pages: u16) -> (ivs: Vec<(usize, usize)>)
    ensures
        intervals_match(s@, total_pages as int, ivs@),
{
    let len = s.unicode_len();
    let ghost sv = s@;
    let mut intervals: Vec<(usize, usize)> = Vec::new();
    let mut start: usize = 0;
    let mut i: usize = 0;
    while i < len
        invariant
            start <= i <= len,
            len == sv.len(),
            sv == s@,
            start == 0 || (start >= 1 && start - 1 < sv.len() && sv[start as int - 1] == ','),
            forall|j: int| start <= j < i && j < sv.len() ==> sv[j] != ',',
            forall|k: int|
                #![auto]
                0 <= k < intervals@.len() ==> intervals@[k].1 <= total_pages && exists|a: int,
                b: int|
                    is_token_at(sv, a, b) && (intervals@[k].0 as int, intervals@[k].1 as int)
                        == token_interval(sv.subrange(a, b), total_pages as int),
            forall|a: int, b: int|
                is_token_at(sv, a, b) && b < i ==> exists|k: int|
                    #![auto]
                    0 <= k < intervals@.len() && (intervals@[k].0 as int, intervals@[k].1 as int)
                        == token_interval(sv.subrange(a, b), total_pages as int),
        decreases len - i,
    {
        let at_comma = s.get_char(i) == ',';
        if at_comma {
            let iv = token_span_interval(s, start, i, total_pages);
            proof {
                assert(is_token_at(sv, start as int, i as int));
            }
            let ghost pre = intervals@;
            intervals.push(iv);
            proof {
                assert(intervals@ =~= pre.push(iv));
                // Any token ending at this boundary starts exactly where the
                // scan started, so it is the one just stored.
                assert forall|a: int, b: int| is_token_at(sv, a, b) && b < i + 1 implies exists|
                    k: int,
                |
                    #![auto]
                    0 <= k < intervals@.len() && (intervals@[k].0 as int, intervals@[k].1 as int)
                        == token_interval(sv.subrange(a, b), total_pages as int) by {
                    if b < i {
                        let k0 = choose|k: int|
                            #![auto]
                            0 <= k < pre.len() && (pre[k].0 as int, pre[k].1 as int)
                                == token_interval(sv.subrange(a, b), total_pages as int);
                        assert((intervals@[k0].0 as int, intervals@[k0].1 as int)
                            == token_interval(sv.subrange(a, b), total_pages as int));
                    } else {
                        if a < start as int {
                            assert(sv[start as int - 1] == ',');
                            assert(false);
                        }
                        if a > start as int {
                            assert(sv[a - 1] == ',');
                            assert(false);
                        }
                        let kl = intervals@.len() - 1;
                        assert((intervals@[kl].0 as int, intervals@[kl].1 as int)
                            == token_interval(sv.subrange(a, b), total_pages as int));
                    }
                }
            }
            start = i + 1;
        }
        i = i + 1;
    }
    // The last token runs to the end of the expression.
    let iv = token_span_interval(s, start, len, total_pages);
    proof {
        assert(is_token_at(sv, start as int, len as int));
    }
    let ghost pre = intervals@;
    intervals.push(iv);
    proof {
        assert(intervals@ =~= pre.push(iv));
        assert forall|a: int, b: int| is_token_at(sv, a, b) implies exists|k: int|
            #![auto]
            0 <= k < intervals@.len() && (intervals@[k].0 as int, intervals@[k].1 as int)
                == token_interval(sv.subrange(a, b), total_pages as int) by {
            if b < len {
                let k0 = choose|k: int|
                    #![auto]
                    0 <= k < pre.len() && (pre[k].0 as int, pre[k].1 as int) == token_interval(
                        sv.subrange(a, b),
                        total_pages as int,
                    );
                assert((intervals@[k0].0 as int, intervals@[k0].1 as int) == token_interval(
                    sv.subrange(a, b),
                    total_pages as int,
                ));
            } else {
                if a < start as int {
                    assert(sv[start as int - 1] == ',');
                    assert(false);
                }
                if a > start as int {
                    assert(sv[a - 1] == ',');
                    assert(false);
                }
                let kl = intervals@.len() - 1;
                assert((intervals@[kl].0 as int, intervals@[kl].1 as int) == token_interval(
                    sv.subrange(a, b),
                    total_pages as int,
                ));
            }
        }
    }
    intervals
}

/// Collect, ascending, every index below `total_pages` that some interval
/// covers.
fn indices_covered(ivs: &Vec<(usize, usize)>, total_pages: u16) -> (pages: Vec<usize>)
    requires
        forall|k: int| #![auto] 0 <= k < ivs@.len() ==> ivs@[k].1 <= total_pages,
    ensures
        forall|x: int, y: int| 0 <= x < y < pages@.len() ==> pages@[x] < pages@[y],
        forall|x: int| 0 <= x < pages@.len() ==> (pages@[x] as int) < total_pages as int,
        forall|q: int| #[trigger] covered(ivs@, q) <==> in_list(pages@, q),
{
    let mut pages: Vec<usize> = Vec::new();
    let mut p: usize = 0;
    while p < total_pages as usize
        invariant
            p <= total_pages as usize,
            forall|k: int| #![auto] 0 <= k < ivs@.len() ==> ivs@[k].1 <= total_pages,
            forall|x: int, y: int| 0 <= x < y < pages@.len() ==> pages@[x] < pages@[y],
            forall|x: int| 0 <= x < pages@.len() ==> (pages@[x] as usize) < p,
            forall|q: int|
                0 <= q < p ==> (#[trigger] covered(ivs@, q) <==> in_list(pages@, q)),
        decreases total_pages as usize - p,
    {
        let mut hit = false;
        let mut k: usize = 0;
        while k < ivs.len()
            invariant
                k <= ivs@.len(),
                hit <==> exists|k2: int|
                    #![auto]
                    0 <= k2 < k && ivs@[k2].0 as int <= p as int && (p as int)
                        < ivs@[k2].1 as int,
            decreases ivs@.len() - k,
        {
            let lohi = ivs[k];
            if lohi.0 <= p && p < lohi.1 {
                hit = true;
            }
            k = k + 1;
        }
        assert(hit == covered(ivs@, p as int));
        let ghost old_pages = pages@;
        if hit {
            pages.push(p);
        }
        proof {
            assert forall|q: int| 0 <= q < p + 1 implies (#[trigger] covered(ivs@, q)
                <==> in_list(pages@, q)) by {
                if q < p {
                    assert(covered(ivs@, q) <==> in_list(old_pages, q));
                    if in_list(old_pages, q) {
                        let x = choose|x: int| 0 <= x < old_pages.len() && old_pages[x] as int == q;
                        assert(pages@[x] as int == q);
                    }
                    if in_list(pages@, q) {
                        let x = choose|x: int| 0 <= x < pages@.len() && pages@[x] as int == q;
                        assert(old_pages[x] as int == q);
                    }
                } else {
                    if hit {
                        assert(pages@[pages@.len() - 1] as int == q);
                    } else {
                        if in_list(pages@, q) {
                            let x = choose|x: int| 0 <= x < pages@.len() && pages@[x] as int == q;
                            assert(false);
                        }
                    }
                }
            }
        }
        p = p + 1;
    }
    proof {
        assert forall|q: int| #[trigger] covered(ivs@, q) <==> in_list(pages@, q) by {
            if covered(ivs@, q) {
                assert(0 <= q < total_pages as int);
            }
            if in_list(pages@, q) {
                let x = choose|x: int| 0 <= x < pages@.len() && pages@[x] as int == q;
                assert(0 <= q < total_pages as int);
            }
        }
    }
    pages
}

/// Turn a range expression and a page count into the canonical selection:
/// ascending, duplicate-free, every index within the document, holding
/// exactly the indices the expression selects. A blank expression selects
/// every page; a malformed token contributes nothing.
pub fn parse_page_range(range_str: &str, total_pages: u16) -> (pages: Vec<usize>)
    ensures
        forall|i: int, j: int| 0 <= i < j < pages@.len() ==> pages@[i] < pages@[j],
        forall|i: int| 0 <= i < pages@.len() ==> (pages@[i] as int) < total_pages as int,
        forall|p: int|
            #![trigger selected(range_str@, total_pages as int, p)]
            selected(range_str@, total_pages as int, p) <==> in_list(pages@, p),
        trimmed(range_str@).len() == 0 ==> pages@ =~= Seq::new(
            total_pages as nat,
            |i: int| i as usize,
        ),
{
    let len = range_str.unicode_len();
    let ghost sv = range_str@;
    let (wa, wb) = trim_span(range_str, 0, len);
    proof {
        assert(sv.subrange(0, len as int) =~= sv);
    }
    if wa == wb {
        // Blank expression: every page of the document.
        let mut pages: Vec<usize> = Vec::new();
        let mut p: usize = 0;
        while p < total_pages as usize
            invariant
                p <= total_pages as usize,
                pages@.len() == p,
                forall|i: int| 0 <= i < p ==> pages@[i] == i as usize,
            decreases total_pages as usize - p,
        {
            pages.push(p);
            p = p + 1;
        }
        proof {
            assert(trimmed(sv).len() == 0);
            assert(pages@ =~= Seq::new(total_pages as nat, |i: int| i as usize));
            assert forall|p2: int| selected(sv, total_pages as int, p2) implies in_list(
                pages@,
                p2,
            ) by {
                assert(pages@[p2] as int == p2);
            }
            assert forall|p2: int| in_list(pages@, p2) implies selected(
                sv,
                total_pages as int,
                p2,
            ) by {
                let x = choose|x: int| 0 <= x < pages@.len() && pages@[x] as int == p2;
            }
        }
        return pages;
    }
    let intervals = collect_intervals(range_str, total_pages);
    let pages = indices_covered(&intervals, total_pages);
    proof {
        assert(trimmed(sv).len() != 0) by {
            assert(sv.subrange(wa as int, wb as int).len() > 0);
        }
        assert forall|q: int|
            #![trigger selected(sv, total_pages as int, q)]
            selected(sv, total_pages as int, q) <==> in_list(pages@, q) by {
            if selected(sv, total_pages as int, q) {
                let (a, b) = choose|a: int, b: int|
                    is_token_at(sv, a, b) && (token_interval(sv.subrange(a, b), total_pages as int).0
                        <= q < token_interval(sv.subrange(a, b), total_pages as int).1);
                let k = choose|k: int|
                    #![auto]
                    0 <= k < intervals@.len() && (intervals@[k].0 as int, intervals@[k].1 as int)
                        == token_interval(sv.subrange(a, b), total_pages as int);
                assert(covered(intervals@, q));
            }
            if in_list(pages@, q) {
                assert(covered(intervals@, q));
                let k = choose|k: int|
                    #![auto]
                    0 <= k < intervals@.len() && intervals@[k].0 as int <= q && q
                        < intervals@[k].1 as int;
                let (a, b) = choose|a: int, b: int|
                    is_token_at(sv, a, b) && (intervals@[k].0 as int, intervals@[k].1 as int)
                        == token_interval(sv.subrange(a, b), total_pages as int);
                assert(selected(sv, total_pages as int, q));
            }
        }
    }
    pages
}

} // verus!
