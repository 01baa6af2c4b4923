//! Character-level text utilities shared by the parsers of this crate,
//! specified over `Seq<char>`.
use vstd::prelude::*;
use vstd::string::StringExecFns;
use vstd::string::StrSliceExecFns;
use vstd::std_specs::iter::IteratorSpec;

verus! {

/// Unicode `White_Space`, the property that `char::is_whitespace` tests.
pub open spec fn is_ws(c: char) -> bool {
    let u = c as u32;
    (0x09 <= u && u <= 0x0d) || u == 0x20 || u == 0x85 || u == 0xa0 || u == 0x1680
        || (0x2000 <= u && u <= 0x200a) || u == 0x2028 || u == 0x2029 || u == 0x202f
        || u == 0x205f || u == 0x3000
}

/// `s` with its leading whitespace removed.
pub open spec fn trim_start(s: Seq<char>) -> Seq<char>
    decreases s.len(),
{
    if s.len() > 0 && is_ws(s[0]) {
        trim_start(s.drop_first())
    } else {
        s
    }
}

/// `s` with its trailing whitespace removed.
pub open spec fn trim_end(s: Seq<char>) -> Seq<char>
    decreases s.len(),
{
    if s.len() > 0 && is_ws(s.last()) {
        trim_end(s.drop_last())
    } else {
        s
    }
}

/// `s` with leading and trailing whitespace removed (`str::trim`).
pub open spec fn trim(s: Seq<char>) -> Seq<char> {
    trim_end(trim_start(s))
}

/// Whether `c` is whitespace.
pub fn char_is_ws(c: char) -> (r: bool)
    ensures
        r == is_ws(c),
{
    let u = c as u32;
    (0x09 <= u && u <= 0x0d) || u == 0x20 || u == 0x85 || u == 0xa0 || u == 0x1680 || (0x2000
        <= u && u <= 0x200a) || u == 0x2028 || u == 0x2029 || u == 0x202f || u == 0x205f || u
        == 0x3000
}

/// Appends one character to a string (`String::push`).
#[verifier::external_body]
pub(crate) fn string_push(s: &mut String, c: char)
    ensures
        final(s)@ == old(s)@.push(c),
{
    s.push(c);
}

/// The characters of `s`, in order (one pass over its `chars()`).
pub fn chars_of(s: &str) -> (v: Vec<char>)
    ensures
        v@ == s@,
{
    broadcast use vstd::string::axiom_spec_iter, vstd::string::next_postcondition;

    let mut it = s.chars();
    let mut v: Vec<char> = Vec::new();
    loop
        invariant_except_break
            v@ + it.remaining() == s@,
            it.decrease() is Some,
        ensures
            v@ == s@,
        decreases it.decrease()->0,
    {
        match it.next() {
            Some(c) => {
                v.push(c);
            },
            None => {
                break;
            },
        }
    }
    v
}

/// A new string holding the characters `v[lo..hi]`.
pub fn string_of_range(v: &Vec<char>, lo: usize, hi: usize) -> (r: String)
    requires
        lo <= hi <= v@.len(),
    ensures
        r@ == v@.subrange(lo as int, hi as int),
{
    let mut r = String::new();
    let mut i: usize = lo;
    while i < hi
        invariant
            lo <= i <= hi <= v@.len(),
            r@ == v@.subrange(lo as int, i as int),
        decreases hi - i,
    {
        string_push(&mut r, v[i]);
        i = i + 1;
    }
    r
}


/// `s` with every leading `c` removed.
pub open spec fn strip_lead(s: Seq<char>, c: char) -> Seq<char>
    decreases s.len(),
{
    if s.len() > 0 && s[0] == c {
        strip_lead(s.drop_first(), c)
    } else {
        s
    }
}

/// `s` with every trailing `c` removed.
pub open spec fn strip_trail(s: Seq<char>, c: char) -> Seq<char>
    decreases s.len(),
{
    if s.len() > 0 && s.last() == c {
        strip_trail(s.drop_last(), c)
    } else {
        s
    }
}

/// `str::trim_matches` with a single character pattern.
pub open spec fn trim_matches(s: Seq<char>, c: char) -> Seq<char> {
    strip_trail(strip_lead(s, c), c)
}

/// ASCII lower-casing of one character (`char::to_ascii_lowercase`).
pub open spec fn lower_char(c: char) -> char {
    if 'A' <= c && c <= 'Z' {
        ((c as u32) + 32) as char
    } else {
        c
    }
}

/// ASCII lower-casing of a string (`str::to_ascii_lowercase`).
pub open spec fn lower(s: Seq<char>) -> Seq<char> {
    s.map_values(|c: char| lower_char(c))
}

/// Whether `p` is a prefix of `s`.
pub open spec fn starts_with(s: Seq<char>, p: Seq<char>) -> bool {
    p.len() <= s.len() && s.subrange(0, p.len() as int) == p
}

/// Index of the first `c` in `s`, or `-1` when there is none.
pub open spec fn index_of(s: Seq<char>, c: char) -> int
    decreases s.len(),
{
    if s.len() == 0 {
        -1
    } else if s[0] == c {
        0
    } else {
        let r = index_of(s.drop_first(), c);
        if r < 0 {
            -1
        } else {
            r + 1
        }
    }
}

/// The pieces of `s` between occurrences of `c` (`str::split` with a char).
pub open spec fn split(s: Seq<char>, c: char) -> Seq<Seq<char>>
    decreases s.len(),
{
    let i = index_of(s, c);
    if i < 0 {
        seq![s]
    } else {
        proof {
            lemma_index_of_bounds(s, c);
        }
        seq![s.take(i)] + split(s.skip(i + 1), c)
    }
}

/// The lines of `s` (`str::lines`): split after each `\n`, dropping the
/// `\n` and a `\r` just before it; no empty line after a final `\n`.
pub open spec fn lines(s: Seq<char>) -> Seq<Seq<char>>
    decreases s.len(),
{
    if s.len() == 0 {
        seq![]
    } else {
        let i = index_of(s, '\n');
        if i < 0 {
            seq![s]
        } else {
            proof {
                lemma_index_of_bounds(s, '\n');
            }
            let line = s.take(i);
            let line = if line.len() > 0 && line.last() == '\r' {
                line.drop_last()
            } else {
                line
            };
            seq![line] + lines(s.skip(i + 1))
        }
    }
}

pub proof fn lemma_index_of_bounds(s: Seq<char>, c: char)
    ensures
        -1 <= index_of(s, c) < s.len(),
        index_of(s, c) >= 0 ==> s[index_of(s, c)] == c,
        index_of(s, c) < 0 ==> forall|k: int| 0 <= k < s.len() ==> s[k] != c,
        index_of(s, c) >= 0 ==> forall|k: int| 0 <= k < index_of(s, c) ==> s[k] != c,
    decreases s.len(),
{
    if s.len() > 0 && s[0] != c {
        lemma_index_of_bounds(s.drop_first(), c);
        assert forall|k: int| 1 <= k < s.len() implies s[k] == s.drop_first()[k - 1] by {}
    }
}

/// The first `c` is at `k` when `s[k] == c` and no earlier character is `c`.
pub proof fn lemma_index_of_found(s: Seq<char>, c: char, k: int)
    requires
        0 <= k < s.len(),
        s[k] == c,
        forall|j: int| 0 <= j < k ==> s[j] != c,
    ensures
        index_of(s, c) == k,
    decreases k,
{
    if k > 0 {
        lemma_index_of_found(s.drop_first(), c, k - 1);
    }
}

/// There is no `c` in `s` when no character of it is `c`.
pub proof fn lemma_index_of_absent(s: Seq<char>, c: char)
    requires
        forall|j: int| 0 <= j < s.len() ==> s[j] != c,
    ensures
        index_of(s, c) == -1,
    decreases s.len(),
{
    if s.len() > 0 {
        lemma_index_of_absent(s.drop_first(), c);
    }
}

/// Bounds `[a, b)` of `v[lo..hi]` with whitespace trimmed from both ends.
pub fn trim_range(v: &Vec<char>, lo: usize, hi: usize) -> (r: (usize, usize))
    requires
        lo <= hi <= v@.len(),
    ensures
        lo <= r.0 <= r.1 <= hi,
        v@.subrange(r.0 as int, r.1 as int) == trim(v@.subrange(lo as int, hi as int)),
{
    let mut a = lo;
    while a < hi && char_is_ws(v[a])
        invariant
            lo <= a <= hi <= v@.len(),
            trim_start(v@.subrange(lo as int, hi as int)) == trim_start(
                v@.subrange(a as int, hi as int),
            ),
        decreases hi - a,
    {
        assert(v@.subrange(a as int, hi as int).drop_first() =~= v@.subrange(
            a + 1,
            hi as int,
        ));
        a = a + 1;
    }
    let mut b = hi;
    while b > a && char_is_ws(v[b - 1])
        invariant
            lo <= a <= b <= hi <= v@.len(),
            trim_end(v@.subrange(a as int, hi as int)) == trim_end(
                v@.subrange(a as int, b as int),
            ),
        decreases b - a,
    {
        assert(v@.subrange(a as int, b as int).drop_last() =~= v@.subrange(
            a as int,
            b - 1,
        ));
        b = b - 1;
    }
    (a, b)
}

/// Bounds `[a, b)` of `v[lo..hi]` with every leading and trailing `c` removed.
pub fn trim_char_range(v: &Vec<char>, lo: usize, hi: usize, c: char) -> (r: (usize, usize))
    requires
        lo <= hi <= v@.len(),
    ensures
        lo <= r.0 <= r.1 <= hi,
        v@.subrange(r.0 as int, r.1 as int) == trim_matches(
            v@.subrange(lo as int, hi as int),
            c,
        ),
{
    let mut a = lo;
    while a < hi && v[a] == c
        invariant
            lo <= a <= hi <= v@.len(),
            strip_lead(v@.subrange(lo as int, hi as int), c) == strip_lead(
                v@.subrange(a as int, hi as int),
                c,
            ),
        decreases hi - a,
    {
        assert(v@.subrange(a as int, hi as int).drop_first() =~= v@.subrange(
            a + 1,
            hi as int,
        ));
        a = a + 1;
    }
    let mut b = hi;
    while b > a && v[b - 1] == c
        invariant
            lo <= a <= b <= hi <= v@.len(),
            strip_trail(v@.subrange(a as int, hi as int), c) == strip_trail(
                v@.subrange(a as int, b as int),
                c,
            ),
        decreases b - a,
    {
        assert(v@.subrange(a as int, b as int).drop_last() =~= v@.subrange(
            a as int,
            b - 1,
        ));
        b = b - 1;
    }
    (a, b)
}

/// Index of the first `c` in `v[lo..hi]`, if any.
pub fn find_char(v: &Vec<char>, lo: usize, hi: usize, c: char) -> (r: Option<usize>)
    requires
        lo <= hi <= v@.len(),
    ensures
        match r {
            Some(k) => lo <= k < hi && index_of(v@.subrange(lo as int, hi as int), c) == k - lo,
            None => index_of(v@.subrange(lo as int, hi as int), c) == -1,
        },
{
    let mut k = lo;
    while k < hi
        invariant
            lo <= k <= hi <= v@.len(),
            forall|j: int| lo <= j < k ==> v@[j] != c,
        decreases hi - k,
    {
        if v[k] == c {
            proof {
                lemma_index_of_found(v@.subrange(lo as int, hi as int), c, k - lo);
            }
            return Some(k);
        }
        k = k + 1;
    }
    proof {
        lemma_index_of_absent(v@.subrange(lo as int, hi as int), c);
    }
    None
}

/// Whether `v[lo..hi]`, ASCII-lower-cased, equals `t`.
pub fn range_lower_eq(v: &Vec<char>, lo: usize, hi: usize, t: &Vec<char>) -> (r: bool)
    requires
        lo <= hi <= v@.len(),
    ensures
        r == (lower(v@.subrange(lo as int, hi as int)) == t@),
{
    if hi - lo != t.len() {
        assert(lower(v@.subrange(lo as int, hi as int)).len() != t@.len());
        return false;
    }
    let mut i: usize = 0;
    while i < t.len()
        invariant
            lo <= hi <= v@.len(),
            hi - lo == t@.len(),
            i <= t@.len(),
            forall|j: int| 0 <= j < i ==> lower_char(v@[lo + j]) == t@[j],
        decreases t@.len() - i,
    {
        let c = v[lo + i];
        let lc = if c >= 'A' && c <= 'Z' {
            ((c as u8) + 32) as char
        } else {
            c
        };
        if lc != t[i] {
            assert(lower(v@.subrange(lo as int, hi as int))[i as int] != t@[i as int]);
            return false;
        }
        i = i + 1;
    }
    assert(lower(v@.subrange(lo as int, hi as int)) =~= t@);
    true
}

/// Whether `v[lo..hi]` equals `t` exactly.
pub fn range_eq(v: &Vec<char>, lo: usize, hi: usize, t: &Vec<char>) -> (r: bool)
    requires
        lo <= hi <= v@.len(),
    ensures
        r == (v@.subrange(lo as int, hi as int) == t@),
{
    if hi - lo != t.len() {
        return false;
    }
    let mut i: usize = 0;
    while i < t.len()
        invariant
            lo <= hi <= v@.len(),
            hi - lo == t@.len(),
            i <= t@.len(),
            forall|j: int| 0 <= j < i ==> v@[lo + j] == t@[j],
        decreases t@.len() - i,
    {
        if v[lo + i] != t[i] {
            assert(v@.subrange(lo as int, hi as int)[i as int] != t@[i as int]);
            return false;
        }
        i = i + 1;
    }
    assert(v@.subrange(lo as int, hi as int) =~= t@);
    true
}

/// Whether `v[lo..hi]` starts with `t`.
pub fn range_starts_with(v: &Vec<char>, lo: usize, hi: usize, t: &Vec<char>) -> (r: bool)
    requires
        lo <= hi <= v@.len(),
    ensures
        r == starts_with(v@.subrange(lo as int, hi as int), t@),
{
    if hi - lo < t.len() {
        return false;
    }
    let e = lo + t.len();
    let r = range_eq(v, lo, e, t);
    assert(v@.subrange(lo as int, hi as int).subrange(0, t@.len() as int) =~= v@.subrange(
        lo as int,
        e as int,
    ));
    r
}


/// The decimal digit character for `d < 10`.
pub open spec fn digit_char(d: nat) -> char {
    if d == 0 {
        '0'
    } else if d == 1 {
        '1'
    } else if d == 2 {
        '2'
    } else if d == 3 {
        '3'
    } else if d == 4 {
        '4'
    } else if d == 5 {
        '5'
    } else if d == 6 {
        '6'
    } else if d == 7 {
        '7'
    } else if d == 8 {
        '8'
    } else {
        '9'
    }
}

/// The decimal rendering of `n`, without sign or leading zeros.
pub open spec fn decimal(n: nat) -> Seq<char>
    decreases n,
{
    if n < 10 {
        seq![digit_char(n)]
    } else {
        decimal(n / 10).push(digit_char(n % 10))
    }
}

fn digit_of(d: u64) -> (c: char)
    requires
        d < 10,
    ensures
        c == digit_char(d as nat),
{
    if d == 0 {
        '0'
    } else if d == 1 {
        '1'
    } else if d == 2 {
        '2'
    } else if d == 3 {
        '3'
    } else if d == 4 {
        '4'
    } else if d == 5 {
        '5'
    } else if d == 6 {
        '6'
    } else if d == 7 {
        '7'
    } else if d == 8 {
        '8'
    } else {
        '9'
    }
}

/// The decimal rendering of `n` (`u64::to_string`).
pub fn decimal_string(n: u64) -> (r: String)
    ensures
        r@ == decimal(n as nat),
{
    let mut m = n;
    let mut acc: Vec<char> = Vec::new();
    while m >= 10
        invariant
            decimal(n as nat) == decimal(m as nat) + acc@,
        decreases m,
    {
        let d = digit_of(m % 10);
        let ghost old_acc = acc@;
        acc.insert(0, d);
        assert(decimal(m as nat) == decimal((m / 10) as nat).push(digit_char((m % 10) as nat)));
        assert(decimal(m as nat) + old_acc =~= decimal((m / 10) as nat) + acc@);
        m = m / 10;
    }
    let mut r = String::new();
    string_push(&mut r, digit_of(m));
    let mut i: usize = 0;
    while i < acc.len()
        invariant
            i <= acc@.len(),
            r@ == seq![digit_char(m as nat)] + acc@.subrange(0, i as int),
            decimal(n as nat) == decimal(m as nat) + acc@,
            m < 10,
        decreases acc@.len() - i,
    {
        string_push(&mut r, acc[i]);
        assert(acc@.subrange(0, i + 1) =~= acc@.subrange(0, i as int).push(acc@[i as int]));
        i = i + 1;
    }
    assert(acc@.subrange(0, acc@.len() as int) =~= acc@);
    r
}

/// A new string holding `s` followed by `t`.
pub fn concat2(s: &str, t: &str) -> (r: String)
    ensures
        r@ == s@ + t@,
{
    String::from_str(s).concat(t)
}

/// A new string holding `s`, `t` and `u` in turn.
pub fn concat3(s: &str, t: &str, u: &str) -> (r: String)
    ensures
        r@ == s@ + t@ + u@,
{
    String::from_str(s).concat(t).concat(u)
}


/// The first line of `v[st..n]` (non-empty) as `(line_lo, line_hi, next)`:
/// the line is `v[line_lo..line_hi]` and the remaining text starts at `next`.
pub fn next_line(v: &Vec<char>, st: usize, n: usize) -> (r: (usize, usize, usize))
    requires
        st < n <= v@.len(),
    ensures
        st == r.0 <= r.1 <= n,
        st < r.2 <= n,
        lines(v@.subrange(st as int, n as int)) == seq![v@.subrange(r.0 as int, r.1 as int)]
            + lines(v@.subrange(r.2 as int, n as int)),
{
    let ghost s = v@.subrange(st as int, n as int);
    match find_char(v, st, n, '\n') {
        Some(k) => {
            proof {
                lemma_index_of_bounds(s, '\n');
                assert(s.take(k - st) =~= v@.subrange(st as int, k as int));
                assert(s.skip(k - st + 1) =~= v@.subrange(k + 1, n as int));
            }
            let hi = if k > st && v[k - 1] == '\r' {
                assert(v@.subrange(st as int, k as int).drop_last() =~= v@.subrange(
                    st as int,
                    k - 1,
                ));
                k - 1
            } else {
                k
            };
            (st, hi, k + 1)
        },
        None => {
            assert(v@.subrange(n as int, n as int) =~= Seq::<char>::empty());
            assert(lines(Seq::<char>::empty()) =~= Seq::<Seq<char>>::empty());
            assert(lines(s) =~= seq![s]);
            (st, n, n)
        },
    }
}

/// Whether `c` is an ASCII digit.
pub open spec fn is_digit(c: char) -> bool {
    '0' <= c && c <= '9'
}

/// The value of a string of ASCII digits.
pub open spec fn digits_value(d: Seq<char>) -> nat
    decreases d.len(),
{
    if d.len() == 0 {
        0
    } else {
        digits_value(d.drop_last()) * 10 + ((d.last() as u32) - ('0' as u32)) as nat
    }
}

/// Whether `d` is a non-empty run of ASCII digits.
pub open spec fn all_digits(d: Seq<char>) -> bool {
    d.len() > 0 && forall|i: int| 0 <= i < d.len() ==> is_digit(#[trigger] d[i])
}

/// What `str::parse::<u64>` makes of `s`: an optional `+` followed by at
/// least one ASCII digit, with a value that fits in `u64`.
pub open spec fn parse_u64(s: Seq<char>) -> Option<u64> {
    let d = if s.len() > 0 && s[0] == '+' {
        s.skip(1)
    } else {
        s
    };
    if all_digits(d) && digits_value(d) <= u64::MAX {
        Some(digits_value(d) as u64)
    } else {
        None
    }
}

/// What `str::parse::<i64>` makes of `s`: an optional `+` or `-` followed by
/// at least one ASCII digit, with a value that fits in `i64`.
pub open spec fn parse_i64(s: Seq<char>) -> Option<i64> {
    if s.len() > 0 && s[0] == '-' {
        let d = s.skip(1);
        if all_digits(d) && digits_value(d) <= 0x8000_0000_0000_0000 {
            Some((0 - digits_value(d)) as i64)
        } else {
            None
        }
    } else {
        let d = if s.len() > 0 && s[0] == '+' {
            s.skip(1)
        } else {
            s
        };
        if all_digits(d) && digits_value(d) <= i64::MAX {
            Some(digits_value(d) as i64)
        } else {
            None
        }
    }
}

proof fn lemma_digits_value_mono(d: Seq<char>, k: int)
    requires
        0 <= k <= d.len(),
        forall|i: int| 0 <= i < d.len() ==> is_digit(#[trigger] d[i]),
    ensures
        digits_value(d.subrange(0, k)) <= digits_value(d),
    decreases d.len() - k,
{
    if k < d.len() {
        lemma_digits_value_mono(d, k + 1);
        assert(d.subrange(0, k + 1).drop_last() =~= d.subrange(0, k));
    } else {
        assert(d.subrange(0, k) =~= d);
    }
}

/// The value of the digits `v[lo..hi]` when they are all ASCII digits and the
/// value is at most `limit`; `None` otherwise.
fn digits_at_most(v: &Vec<char>, lo: usize, hi: usize, limit: u64) -> (r: Option<u64>)
    requires
        lo <= hi <= v@.len(),
        limit >= 9,
    ensures
        ({
            let d = v@.subrange(lo as int, hi as int);
            match r {
                Some(x) => all_digits(d) && digits_value(d) <= limit && x == digits_value(d),
                None => !(all_digits(d) && digits_value(d) <= limit),
            }
        }),
{
    let ghost d = v@.subrange(lo as int, hi as int);
    if lo == hi {
        return None;
    }
    let mut acc: u64 = 0;
    let mut i = lo;
    while i < hi
        invariant
            lo <= i <= hi <= v@.len(),
            d == v@.subrange(lo as int, hi as int),
            forall|j: int| lo <= j < i ==> is_digit(v@[j]),
            acc == digits_value(v@.subrange(lo as int, i as int)),
            acc <= limit,
            limit >= 9,
        decreases hi - i,
    {
        let c = v[i];
        if !(c >= '0' && c <= '9') {
            assert(!is_digit(d[i - lo]));
            return None;
        }
        let dv = (c as u32 - '0' as u32) as u64;
        assert(v@.subrange(lo as int, i + 1).drop_last() =~= v@.subrange(lo as int, i as int));
        if acc > (limit - dv) / 10 {
            proof {
                assert(acc * 10 + dv > limit) by (nonlinear_arith)
                    requires
                        acc > (limit - dv) / 10,
                        dv <= 9,
                        dv <= limit,
                ;
                if forall|j: int| 0 <= j < d.len() ==> is_digit(#[trigger] d[j]) {
                    lemma_digits_value_mono(d, i + 1 - lo);
                    assert(d.subrange(0, i + 1 - lo) =~= v@.subrange(lo as int, i + 1));
                }
            }
            return None;
        }
        proof {
            assert(acc * 10 + dv <= limit) by (nonlinear_arith)
                requires
                    acc <= (limit - dv) / 10,
                    dv <= limit,
            ;
        }
        acc = acc * 10 + dv;
        i = i + 1;
    }
    assert(v@.subrange(lo as int, hi as int) =~= d);
    Some(acc)
}

/// `str::parse::<u64>` of `v[lo..hi]`.
pub fn parse_u64_range(v: &Vec<char>, lo: usize, hi: usize) -> (r: Option<u64>)
    requires
        lo <= hi <= v@.len(),
    ensures
        r == parse_u64(v@.subrange(lo as int, hi as int)),
{
    let ghost s = v@.subrange(lo as int, hi as int);
    if lo < hi && v[lo] == '+' {
        assert(s.skip(1) =~= v@.subrange(lo + 1, hi as int));
        digits_at_most(v, lo + 1, hi, u64::MAX)
    } else {
        digits_at_most(v, lo, hi, u64::MAX)
    }
}

/// `str::parse::<i64>` of `v[lo..hi]`.
pub fn parse_i64_range(v: &Vec<char>, lo: usize, hi: usize) -> (r: Option<i64>)
    requires
        lo <= hi <= v@.len(),
    ensures
        r == parse_i64(v@.subrange(lo as int, hi as int)),
{
    let ghost s = v@.subrange(lo as int, hi as int);
    if lo < hi && v[lo] == '-' {
        assert(s.skip(1) =~= v@.subrange(lo + 1, hi as int));
        match digits_at_most(v, lo + 1, hi, 0x8000_0000_0000_0000u64) {
            None => None,
            Some(x) => {
                if x == 0x8000_0000_0000_0000u64 {
                    Some(i64::MIN)
                } else {
                    Some(-(x as i64))
                }
            },
        }
    } else if lo < hi && v[lo] == '+' {
        assert(s.skip(1) =~= v@.subrange(lo + 1, hi as int));
        match digits_at_most(v, lo + 1, hi, i64::MAX as u64) {
            None => None,
            Some(x) => Some(x as i64),
        }
    } else {
        match digits_at_most(v, lo, hi, i64::MAX as u64) {
            None => None,
            Some(x) => Some(x as i64),
        }
    }
}


/// Index of the first `a` immediately followed by `b` in `s`, or `-1`.
pub open spec fn index_of_pair(s: Seq<char>, a: char, b: char) -> int
    decreases s.len(),
{
    if s.len() < 2 {
        -1
    } else if s[0] == a && s[1] == b {
        0
    } else {
        let r = index_of_pair(s.drop_first(), a, b);
        if r < 0 {
            -1
        } else {
            r + 1
        }
    }
}

pub proof fn lemma_index_of_pair_bounds(s: Seq<char>, a: char, b: char)
    ensures
        -1 <= index_of_pair(s, a, b) < s.len() - 1 || index_of_pair(s, a, b) == -1,
        index_of_pair(s, a, b) >= 0 ==> s[index_of_pair(s, a, b)] == a && s[index_of_pair(s, a, b) + 1] == b,
    decreases s.len(),
{
    if s.len() >= 2 && !(s[0] == a && s[1] == b) {
        lemma_index_of_pair_bounds(s.drop_first(), a, b);
    }
}

proof fn lemma_index_of_pair_found(s: Seq<char>, a: char, b: char, k: int)
    requires
        0 <= k < s.len() - 1,
        s[k] == a && s[k + 1] == b,
        forall|j: int| 0 <= j < k ==> !(#[trigger] s[j] == a && s[j + 1] == b),
    ensures
        index_of_pair(s, a, b) == k,
    decreases k,
{
    if k > 0 {
        lemma_index_of_pair_found(s.drop_first(), a, b, k - 1);
    }
}

proof fn lemma_index_of_pair_absent(s: Seq<char>, a: char, b: char)
    requires
        forall|j: int| 0 <= j < s.len() - 1 ==> !(#[trigger] s[j] == a && s[j + 1] == b),
    ensures
        index_of_pair(s, a, b) == -1,
    decreases s.len(),
{
    if s.len() >= 2 {
        lemma_index_of_pair_absent(s.drop_first(), a, b);
    }
}

/// Index of the first `a` immediately followed by `b` in `v[lo..hi]`.
pub fn find_pair(v: &Vec<char>, lo: usize, hi: usize, a: char, b: char) -> (r: Option<usize>)
    requires
        lo <= hi <= v@.len(),
    ensures
        match r {
            Some(k) => lo <= k && k + 1 < hi && index_of_pair(
                v@.subrange(lo as int, hi as int),
                a,
                b,
            ) == k - lo,
            None => index_of_pair(v@.subrange(lo as int, hi as int), a, b) == -1,
        },
{
    let ghost s = v@.subrange(lo as int, hi as int);
    let mut k = lo;
    while k < hi && hi - k >= 2
        invariant
            lo <= k <= hi <= v@.len(),
            s == v@.subrange(lo as int, hi as int),
            forall|j: int| lo <= j < k ==> !(#[trigger] v@[j] == a && v@[j + 1] == b),
        decreases hi - k,
    {
        if v[k] == a && v[k + 1] == b {
            proof {
                lemma_index_of_pair_found(s, a, b, k - lo);
            }
            return Some(k);
        }
        k = k + 1;
    }
    proof {
        lemma_index_of_pair_absent(s, a, b);
    }
    None
}

/// The pieces of `s` between occurrences of `a` followed by `b`
/// (`str::split` with a two-character pattern).
pub open spec fn split_pair(s: Seq<char>, a: char, b: char) -> Seq<Seq<char>>
    decreases s.len(),
{
    let i = index_of_pair(s, a, b);
    if i < 0 {
        seq![s]
    } else {
        proof {
            lemma_index_of_pair_bounds(s, a, b);
        }
        seq![s.take(i)] + split_pair(s.skip(i + 2), a, b)
    }
}

/// `s` with every `\r\n` replaced by `\n` (`str::replace("\r\n", "\n")`).
pub open spec fn crlf_to_lf(s: Seq<char>) -> Seq<char>
    decreases s.len(),
{
    if s.len() >= 2 && s[0] == '\r' && s[1] == '\n' {
        seq!['\n'] + crlf_to_lf(s.skip(2))
    } else if s.len() > 0 {
        seq![s[0]] + crlf_to_lf(s.skip(1))
    } else {
        Seq::empty()
    }
}

/// `s` with every `\r` replaced by `\n`.
pub open spec fn cr_to_lf(s: Seq<char>) -> Seq<char> {
    s.map_values(|c: char| if c == '\r' { '\n' } else { c })
}

/// The characters of `s` with every `\r\n` replaced by `\n`.
pub fn crlf_to_lf_chars(v: &Vec<char>) -> (r: Vec<char>)
    ensures
        r@ == crlf_to_lf(v@),
{
    let n = v.len();
    let mut out: Vec<char> = Vec::new();
    let mut i: usize = 0;
    assert(v@.skip(0) =~= v@);
    while i < n
        invariant
            i <= n == v@.len(),
            crlf_to_lf(v@) == out@ + crlf_to_lf(v@.skip(i as int)),
        decreases n - i,
    {
        let ghost rest = v@.skip(i as int);
        if v[i] == '\r' && i + 1 < n && v[i + 1] == '\n' {
            assert(rest.skip(2) =~= v@.skip(i + 2));
            out.push('\n');
            assert(crlf_to_lf(v@) =~= out@ + crlf_to_lf(v@.skip(i + 2)));
            i = i + 2;
        } else {
            assert(rest.skip(1) =~= v@.skip(i + 1));
            out.push(v[i]);
            assert(crlf_to_lf(v@) =~= out@ + crlf_to_lf(v@.skip(i + 1)));
            i = i + 1;
        }
    }
    assert(v@.skip(n as int) =~= Seq::<char>::empty());
    assert(out@ + crlf_to_lf(Seq::<char>::empty()) =~= out@);
    out
}


/// The decimal rendering of a signed integer, with a leading `-` when it is
/// negative (`i64::to_string`).
pub open spec fn signed_decimal(n: int) -> Seq<char> {
    if n < 0 {
        seq!['-'] + decimal((0 - n) as nat)
    } else {
        decimal(n as nat)
    }
}

/// The decimal rendering of `n` (`i64::to_string`).
pub fn signed_decimal_string(n: i64) -> (r: String)
    ensures
        r@ == signed_decimal(n as int),
{
    if n < 0 {
        let m = (0i128 - n as i128) as u64;
        let digits = decimal_string(m);
        let mut r = String::new();
        string_push(&mut r, '-');
        r.append(digits.as_str());
        r
    } else {
        decimal_string(n as u64)
    }
}


/// Index of the first occurrence of `p` in `s`, or `-1` (`str::find`).
pub open spec fn index_of_sub(s: Seq<char>, p: Seq<char>) -> int
    decreases s.len(),
{
    if s.len() < p.len() {
        -1
    } else if s.take(p.len() as int) == p {
        0
    } else if s.len() == 0 {
        -1
    } else {
        let r = index_of_sub(s.drop_first(), p);
        if r < 0 {
            -1
        } else {
            r + 1
        }
    }
}

/// A found occurrence lies inside `s` and matches `p`.
pub proof fn lemma_index_of_sub_bounds(s: Seq<char>, p: Seq<char>)
    ensures
        index_of_sub(s, p) >= -1,
        index_of_sub(s, p) >= 0 ==> index_of_sub(s, p) + p.len() <= s.len() && s.subrange(
            index_of_sub(s, p),
            index_of_sub(s, p) + p.len(),
        ) == p,
    decreases s.len(),
{
    if s.len() >= p.len() && s.take(p.len() as int) != p && s.len() > 0 {
        lemma_index_of_sub_bounds(s.drop_first(), p);
        let r = index_of_sub(s.drop_first(), p);
        if r >= 0 {
            assert(s.subrange(r + 1, r + 1 + p.len()) =~= s.drop_first().subrange(r, r + p.len()));
        }
    }
}

proof fn lemma_index_of_sub_found(s: Seq<char>, p: Seq<char>, k: int)
    requires
        0 <= k,
        k + p.len() <= s.len(),
        s.subrange(k, k + p.len()) == p,
        forall|j: int| 0 <= j < k ==> #[trigger] s.subrange(j, j + p.len()) != p,
    ensures
        index_of_sub(s, p) == k,
    decreases k,
{
    assert(s.take(p.len() as int) =~= s.subrange(0, p.len() as int));
    if k > 0 {
        assert(s.subrange(0, 0int + p.len()) != p);
        assert forall|j: int| 0 <= j < k - 1 implies #[trigger] s.drop_first().subrange(
            j,
            j + p.len(),
        ) != p by {
            assert(s.drop_first().subrange(j, j + p.len()) =~= s.subrange(j + 1, j + 1 + p.len()));
        }
        assert(s.drop_first().subrange(k - 1, k - 1 + p.len()) =~= s.subrange(k, k + p.len()));
        lemma_index_of_sub_found(s.drop_first(), p, k - 1);
    }
}

proof fn lemma_index_of_sub_absent(s: Seq<char>, p: Seq<char>)
    requires
        forall|j: int| 0 <= j && j + p.len() <= s.len() ==> #[trigger] s.subrange(j, j + p.len()) != p,
    ensures
        index_of_sub(s, p) == -1,
    decreases s.len(),
{
    if s.len() >= p.len() {
        assert(s.take(p.len() as int) =~= s.subrange(0, p.len() as int));
        assert(s.subrange(0, 0int + p.len()) != p);
        if s.len() > 0 {
            assert forall|j: int| 0 <= j && j + p.len() <= s.drop_first().len() implies #[trigger] s.drop_first().subrange(
                j,
                j + p.len(),
            ) != p by {
                assert(s.drop_first().subrange(j, j + p.len()) =~= s.subrange(j + 1, j + 1 + p.len()));
            }
            lemma_index_of_sub_absent(s.drop_first(), p);
        }
    }
}

/// No occurrence of `p` starts before the first one.
pub proof fn lemma_index_of_sub_first(s: Seq<char>, p: Seq<char>, j: int)
    requires
        0 <= j,
        j + p.len() <= s.len(),
        s.subrange(j, j + p.len()) == p,
    ensures
        0 <= index_of_sub(s, p) <= j,
    decreases j,
{
    assert(s.take(p.len() as int) =~= s.subrange(0, p.len() as int));
    if j > 0 && s.take(p.len() as int) != p {
        assert(s.drop_first().subrange(j - 1, j - 1 + p.len()) =~= s.subrange(j, j + p.len()));
        lemma_index_of_sub_first(s.drop_first(), p, j - 1);
    }
}

/// Index of the first occurrence of `t` in `v[lo..hi]`.
pub fn find_sub(v: &Vec<char>, lo: usize, hi: usize, t: &Vec<char>) -> (r: Option<usize>)
    requires
        lo <= hi <= v@.len(),
    ensures
        match r {
            Some(k) => lo <= k && k + t@.len() <= hi && index_of_sub(
                v@.subrange(lo as int, hi as int),
                t@,
            ) == k - lo,
            None => index_of_sub(v@.subrange(lo as int, hi as int), t@) == -1,
        },
{
    let ghost s = v@.subrange(lo as int, hi as int);
    if t.len() == 0 {
        proof {
            assert(s.subrange(0, 0) =~= t@);
            lemma_index_of_sub_found(s, t@, 0);
        }
        return Some(lo);
    }
    let mut i = lo;
    while i < hi && hi - i >= t.len()
        invariant
            lo <= i <= hi <= v@.len(),
            t@.len() > 0,
            s == v@.subrange(lo as int, hi as int),
            forall|j: int| 0 <= j < i - lo ==> #[trigger] s.subrange(j, j + t@.len()) != t@,
        decreases hi - i,
    {
        assert(s.subrange(i - lo, i - lo + t@.len()) =~= v@.subrange(i as int, i + t@.len()));
        if range_eq(v, i, i + t.len(), t) {
            proof {
                lemma_index_of_sub_found(s, t@, i - lo);
            }
            return Some(i);
        }
        i = i + 1;
    }
    proof {
        assert forall|j: int| 0 <= j && j + t@.len() <= s.len() implies #[trigger] s.subrange(
            j,
            j + t@.len(),
        ) != t@ by {
            assert(j < i - lo);
        }
        lemma_index_of_sub_absent(s, t@);
    }
    None
}

/// Whether `p` occurs in `s` (`str::contains`).
pub open spec fn contains(s: Seq<char>, p: Seq<char>) -> bool {
    exists|i: int| 0 <= i && i + p.len() <= s.len() && #[trigger] s.subrange(i, i + p.len()) == p
}

/// Whether `t` occurs in `v[lo..hi]`.
pub fn range_contains(v: &Vec<char>, lo: usize, hi: usize, t: &Vec<char>) -> (r: bool)
    requires
        lo <= hi <= v@.len(),
    ensures
        r == contains(v@.subrange(lo as int, hi as int), t@),
{
    let ghost s = v@.subrange(lo as int, hi as int);
    if t.len() > hi - lo {
        return false;
    }
    if t.len() == 0 {
        assert(s.subrange(0, 0 + t@.len() as int) =~= t@);
        return true;
    }
    let mut i = lo;
    while i <= hi && hi - i >= t.len()
        invariant
            lo <= i <= hi <= v@.len(),
            t@.len() <= hi - lo,
            t@.len() >= 1,
            s == v@.subrange(lo as int, hi as int),
            forall|j: int| 0 <= j < i - lo ==> #[trigger] s.subrange(j, j + t@.len()) != t@,
        decreases hi - i,
    {
        if range_eq(v, i, i + t.len(), t) {
            assert(s.subrange(i - lo, i - lo + t@.len()) =~= v@.subrange(
                i as int,
                i + t@.len(),
            ));
            return true;
        }
        assert(s.subrange(i - lo, i - lo + t@.len()) =~= v@.subrange(i as int, i + t@.len()));
        i = i + 1;
    }
    assert forall|j: int| 0 <= j && j + t@.len() <= s.len() implies #[trigger] s.subrange(
        j,
        j + t@.len(),
    ) != t@ by {
        assert(j < i - lo);
    }
    false
}

/// Whether `t` occurs in `s` (`str::contains`).
pub fn str_contains(s: &str, t: &str) -> (r: bool)
    ensures
        r == contains(s@, t@),
{
    let v = chars_of(s);
    let w = chars_of(t);
    let n = v.len();
    assert(v@.subrange(0, n as int) =~= s@);
    range_contains(&v, 0, n, &w)
}

/// Whether `s` starts with `t` (`str::starts_with`).
pub fn str_starts_with(s: &str, t: &str) -> (r: bool)
    ensures
        r == starts_with(s@, t@),
{
    let v = chars_of(s);
    let w = chars_of(t);
    let n = v.len();
    assert(v@.subrange(0, n as int) =~= s@);
    range_starts_with(&v, 0, n, &w)
}

/// Whether `s` equals `t`.
pub fn str_eq(s: &str, t: &str) -> (r: bool)
    ensures
        r == (s@ == t@),
{
    let v = chars_of(s);
    let w = chars_of(t);
    let n = v.len();
    assert(v@.subrange(0, n as int) =~= s@);
    range_eq(&v, 0, n, &w)
}

/// `s` with ASCII letters lower-cased (`str::to_ascii_lowercase`).
pub fn to_ascii_lower(s: &str) -> (r: String)
    ensures
        r@ == lower(s@),
{
    let v = chars_of(s);
    let mut out = String::new();
    let mut i: usize = 0;
    while i < v.len()
        invariant
            i <= v@.len(),
            v@ == s@,
            out@ == lower(v@.subrange(0, i as int)),
        decreases v@.len() - i,
    {
        let c = v[i];
        let lc = if c >= 'A' && c <= 'Z' {
            ((c as u8) + 32) as char
        } else {
            c
        };
        string_push(&mut out, lc);
        assert(lower(v@.subrange(0, i + 1)) =~= lower(v@.subrange(0, i as int)).push(lc));
        i = i + 1;
    }
    assert(v@.subrange(0, v@.len() as int) =~= v@);
    out
}

} // verus!
