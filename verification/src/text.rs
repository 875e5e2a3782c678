//! Character-sequence utilities with exact specifications.
use vstd::prelude::*;

verus! {

/// Appends one character to a `String` (std `String::push`).
#[verifier::external_body]
fn push_char(s: &mut String, c: char)
    ensures
        final(s)@ == old(s)@.push(c),
{
    s.push(c);
}

/// The characters of `s`, in order.
pub fn chars_of(s: &str) -> (r: Vec<char>)
    ensures
        r@ == s@,
{
    let mut r: Vec<char> = Vec::new();
    for c in it: s.chars()
        invariant
            r@ == it.seq().take(it.index() as int),
            it.seq() == s@,
    {
        r.push(c);
    }
    r
}

/// A `String` holding exactly the characters of `v`.
pub fn string_of(v: &Vec<char>) -> (r: String)
    ensures
        r@ == v@,
{
    let mut r = String::new();
    for i in 0..v.len()
        invariant
            r@ == v@.take(i as int),
    {
        push_char(&mut r, v[i]);
        assert(v@.take(i + 1) == v@.take(i as int).push(v@[i as int]));
    }
    assert(v@.take(v.len() as int) == v@);
    r
}


/// `pat` occurs in `s` starting at position `i`.
pub open spec fn occurs_at(s: Seq<char>, pat: Seq<char>, i: int) -> bool {
    0 <= i && i + pat.len() <= s.len() && s.subrange(i, i + pat.len()) == pat
}

/// `pat` occurs somewhere in `s` (`str::contains`).
pub open spec fn contains_seq(s: Seq<char>, pat: Seq<char>) -> bool {
    exists|i: int| occurs_at(s, pat, i)
}

/// The pieces of `s[start..]` when it is cut at the non-overlapping
/// occurrences of `pat`, found left to right, the search resuming at `i`.
pub open spec fn split_scan(s: Seq<char>, pat: Seq<char>, start: int, i: int) -> Seq<Seq<char>>
    decreases s.len() - i,
{
    if pat.len() == 0 || i < start || i + pat.len() > s.len() {
        seq![s.subrange(start, s.len() as int)]
    } else if occurs_at(s, pat, i) {
        seq![s.subrange(start, i)] + split_scan(s, pat, i + pat.len(), i + pat.len())
    } else {
        split_scan(s, pat, start, i + 1)
    }
}

/// `str::split` with a non-empty string pattern: the pieces between the
/// non-overlapping occurrences of `pat`, leftmost first. (An empty pattern
/// leaves `s` in one piece.)
pub open spec fn split_seq(s: Seq<char>, pat: Seq<char>) -> Seq<Seq<char>> {
    split_scan(s, pat, 0, 0)
}

/// `str::replace(pat, "")`: every non-overlapping occurrence of `pat` removed.
pub open spec fn remove_all_seq(s: Seq<char>, pat: Seq<char>) -> Seq<char> {
    split_seq(s, pat).flatten()
}

/// Compares `s[i..i + pat.len()]` with `pat`.
pub fn occurs_at_exec(s: &Vec<char>, pat: &Vec<char>, i: usize) -> (r: bool)
    ensures
        r == occurs_at(s@, pat@, i as int),
{
    if i > s.len() || pat.len() > s.len() - i {
        return false;
    }
    let mut k: usize = 0;
    while k < pat.len()
        invariant
            i + pat.len() <= s.len(),
            k <= pat.len(),
            forall|j: int| 0 <= j < k ==> s@[i + j] == pat@[j],
        decreases pat.len() - k,
    {
        if s[i + k] != pat[k] {
            assert(s@.subrange(i as int, i + pat.len())[k as int] != pat@[k as int]);
            return false;
        }
        k += 1;
    }
    assert(s@.subrange(i as int, i + pat.len()) =~= pat@);
    true
}

/// Whether `pat` occurs in `s`.
pub fn contains(s: &Vec<char>, pat: &Vec<char>) -> (r: bool)
    ensures
        r == contains_seq(s@, pat@),
{
    if pat.len() > s.len() {
        assert forall|j: int| !occurs_at(s@, pat@, j) by {}
        return false;
    }
    if pat.len() == 0 {
        assert(s@.subrange(0, 0) =~= pat@);
        assert(occurs_at(s@, pat@, 0));
        return true;
    }
    let last = s.len() - pat.len();
    let mut i: usize = 0;
    while i <= last
        invariant
            pat.len() > 0,
            last == s.len() - pat.len(),
            i <= last + 1,
            forall|j: int| 0 <= j < i ==> !occurs_at(s@, pat@, j),
        decreases last + 1 - i,
    {
        if occurs_at_exec(s, pat, i) {
            return true;
        }
        i += 1;
    }
    assert forall|j: int| !occurs_at(s@, pat@, j) by {}
    false
}

/// The copy of `s[from..to]`.
pub fn slice_chars(s: &Vec<char>, from: usize, to: usize) -> (r: Vec<char>)
    requires
        from <= to <= s.len(),
    ensures
        r@ == s@.subrange(from as int, to as int),
{
    let mut r: Vec<char> = Vec::new();
    let mut k = from;
    while k < to
        invariant
            from <= k <= to <= s.len(),
            r@ == s@.subrange(from as int, k as int),
        decreases to - k,
    {
        r.push(s[k]);
        k += 1;
    }
    r
}

/// Piece number `n` of `s` split at `pat` (`s.split(pat).nth(n)`).
pub fn split_piece(s: &Vec<char>, pat: &Vec<char>, n: usize) -> (r: Option<Vec<char>>)
    ensures
        n < split_seq(s@, pat@).len() ==> r is Some && r->0@ == split_seq(s@, pat@)[n as int],
        n >= split_seq(s@, pat@).len() ==> r is None,
{
    if pat.len() == 0 {
        return if n == 0 {
            Some(slice_chars(s, 0, s.len()))
        } else {
            None
        };
    }
    let ghost whole = split_seq(s@, pat@);
    let ghost mut done: Seq<Seq<char>> = Seq::empty();
    let mut start: usize = 0;
    let mut i: usize = 0;
    let mut k: usize = 0;
    while i < s.len()
        invariant
            pat.len() > 0,
            start <= i <= s.len(),
            k <= n,
            done.len() == k,
            whole == split_seq(s@, pat@),
            whole == done + split_scan(s@, pat@, start as int, i as int),
        decreases s.len() - i,
    {
        if occurs_at_exec(s, pat, i) {
            if k == n {
                let piece = slice_chars(s, start, i);
                assert(whole[k as int] == piece@);
                return Some(piece);
            }
            proof {
                done = done.push(s@.subrange(start as int, i as int));
            }
            k += 1;
            start = i + pat.len();
            i = start;
            assert(whole == done + split_scan(s@, pat@, start as int, i as int));
        } else {
            i += 1;
        }
    }
    assert(split_scan(s@, pat@, start as int, i as int) == seq![s@.subrange(start as int, s.len() as int)]);
    if k == n {
        Some(slice_chars(s, start, s.len()))
    } else {
        None
    }
}


/// `s` with every non-overlapping occurrence of `pat` removed.
pub fn remove_all(s: &Vec<char>, pat: &Vec<char>) -> (r: Vec<char>)
    ensures
        r@ == remove_all_seq(s@, pat@),
{
    if pat.len() == 0 {
        let r = slice_chars(s, 0, s.len());
        assert(split_seq(s@, pat@) == seq![s@.subrange(0, s.len() as int)]);
        proof {
            Seq::<Seq<char>>::empty().lemma_flatten_push(s@.subrange(0, s.len() as int));
        }
        assert(s@.subrange(0, s.len() as int) == s@);
        return r;
    }
    let ghost whole = split_seq(s@, pat@);
    let ghost mut done: Seq<Seq<char>> = Seq::empty();
    let mut out: Vec<char> = Vec::new();
    let mut start: usize = 0;
    let mut i: usize = 0;
    while i < s.len()
        invariant
            pat.len() > 0,
            start <= i <= s.len(),
            whole == split_seq(s@, pat@),
            whole == done + split_scan(s@, pat@, start as int, i as int),
            out@ == done.flatten() + s@.subrange(start as int, i as int),
        decreases s.len() - i,
    {
        if occurs_at_exec(s, pat, i) {
            let ghost piece = s@.subrange(start as int, i as int);
            proof {
                done.lemma_flatten_push(piece);
                done = done.push(piece);
            }
            i = i + pat.len();
            start = i;
            assert(s@.subrange(start as int, i as int) =~= Seq::<char>::empty());
            assert(out@ =~= done.flatten() + s@.subrange(start as int, i as int));
        } else {
            out.push(s[i]);
            i += 1;
            assert(out@ =~= done.flatten() + s@.subrange(start as int, i as int));
        }
    }
    let ghost last = s@.subrange(start as int, s.len() as int);
    assert(split_scan(s@, pat@, start as int, i as int) == seq![last]);
    assert(whole == done.push(last));
    proof {
        done.lemma_flatten_push(last);
    }
    out
}

/// The characters that `char::is_whitespace` accepts (Unicode `White_Space`).
pub open spec fn is_white_space(c: char) -> bool {
    ||| '\u{9}' <= c <= '\u{d}'
    ||| c == ' '
    ||| c == '\u{85}'
    ||| c == '\u{a0}'
    ||| c == '\u{1680}'
    ||| '\u{2000}' <= c <= '\u{200a}'
    ||| c == '\u{2028}'
    ||| c == '\u{2029}'
    ||| c == '\u{202f}'
    ||| c == '\u{205f}'
    ||| c == '\u{3000}'
}

/// `s` without its leading white space.
pub open spec fn trim_start_seq(s: Seq<char>) -> Seq<char>
    decreases s.len(),
{
    if s.len() > 0 && is_white_space(s[0]) {
        trim_start_seq(s.drop_first())
    } else {
        s
    }
}

/// `s` without its trailing white space.
pub open spec fn trim_end_seq(s: Seq<char>) -> Seq<char>
    decreases s.len(),
{
    if s.len() > 0 && is_white_space(s.last()) {
        trim_end_seq(s.drop_last())
    } else {
        s
    }
}

/// `str::trim`: white space removed from both ends.
pub open spec fn trim_seq(s: Seq<char>) -> Seq<char> {
    trim_end_seq(trim_start_seq(s))
}

fn white_space(c: char) -> (r: bool)
    ensures
        r == is_white_space(c),
{
    ('\u{9}' <= c && c <= '\u{d}') || c == ' ' || c == '\u{85}' || c == '\u{a0}' || c == '\u{1680}'
        || ('\u{2000}' <= c && c <= '\u{200a}') || c == '\u{2028}' || c == '\u{2029}'
        || c == '\u{202f}' || c == '\u{205f}' || c == '\u{3000}'
}

/// `s` with white space removed from both ends.
pub fn trim(s: &Vec<char>) -> (r: Vec<char>)
    ensures
        r@ == trim_seq(s@),
{
    let mut a: usize = 0;
    assert(s@.subrange(0, s.len() as int) == s@);
    while a < s.len() && white_space(s[a])
        invariant
            a <= s.len(),
            trim_start_seq(s@) == trim_start_seq(s@.subrange(a as int, s.len() as int)),
        decreases s.len() - a,
    {
        assert(s@.subrange(a as int, s.len() as int).drop_first() =~= s@.subrange(a + 1, s.len() as int));
        a += 1;
    }
    assert(trim_start_seq(s@) == s@.subrange(a as int, s.len() as int));
    let mut b: usize = s.len();
    while b > a && white_space(s[b - 1])
        invariant
            a <= b <= s.len(),
            trim_seq(s@) == trim_end_seq(s@.subrange(a as int, b as int)),
        decreases b,
    {
        assert(s@.subrange(a as int, b as int).drop_last() =~= s@.subrange(a as int, b - 1));
        b -= 1;
    }
    slice_chars(s, a, b)
}

/// All the strings of `parts`, one after another, as characters.
pub fn concat_strings(parts: &Vec<String>) -> (r: Vec<char>)
    ensures
        r@ == parts.deep_view().flatten(),
{
    let ghost views = parts.deep_view();
    let mut out: Vec<char> = Vec::new();
    for i in 0..parts.len()
        invariant
            views == parts.deep_view(),
            out@ == views.take(i as int).flatten(),
    {
        let cs = chars_of(parts[i].as_str());
        let ghost before = out@;
        let mut k: usize = 0;
        while k < cs.len()
            invariant
                out@ == before + cs@.take(k as int),
                k <= cs.len(),
            decreases cs.len() - k,
        {
            out.push(cs[k]);
            k += 1;
            assert(out@ =~= before + cs@.take(k as int));
        }
        assert(cs@.take(k as int) == cs@);
        assert(views.take(i + 1) =~= views.take(i as int).push(parts@[i as int]@));
        proof {
            views.take(i as int).lemma_flatten_push(parts@[i as int]@);
        }
    }
    assert(views.take(parts.len() as int) =~= views);
    out
}


/// The ASCII digit for `d < 10`.
pub open spec fn digit_char(d: nat) -> char {
    (d + 48) as char
}

/// The decimal representation of `n`, without sign or leading zeros
/// (what `Display` prints for an unsigned integer).
pub open spec fn decimal(n: nat) -> Seq<char>
    decreases n,
{
    if n < 10 {
        seq![digit_char(n)]
    } else {
        decimal(n / 10).push(digit_char(n % 10))
    }
}

fn digit_of(d: u64) -> (c: char)
    requires
        d < 10,
    ensures
        c == digit_char(d as nat),
{
    ((d as u8) + 48u8) as char
}

/// The decimal representation of `n`.
pub fn decimal_chars(n: u64) -> (r: Vec<char>)
    ensures
        r@ == decimal(n as nat),
    decreases n,
{
    if n < 10 {
        let mut r = Vec::new();
        r.push(digit_of(n));
        r
    } else {
        let mut r = decimal_chars(n / 10);
        r.push(digit_of(n % 10));
        r
    }
}

/// An ASCII decimal digit.
pub open spec fn is_digit(c: char) -> bool {
    '0' <= c <= '9'
}

/// The value of an ASCII digit.
pub open spec fn digit_value(c: char) -> int {
    c as int - '0' as int
}

/// The number that a string of decimal digits denotes.
pub open spec fn digits_value(s: Seq<char>) -> int
    decreases s.len(),
{
    if s.len() == 0 {
        0
    } else {
        digits_value(s.drop_last()) * 10 + digit_value(s.last())
    }
}

/// The digits of an unsigned integer literal: `s` without one leading `+`.
pub open spec fn unsigned_digits(s: Seq<char>) -> Seq<char> {
    if s.len() > 0 && s[0] == '+' {
        s.drop_first()
    } else {
        s
    }
}

/// What `FromStr` gives for an unsigned integer type whose largest value is
/// `max`: an optional `+` followed by at least one ASCII digit, and a value
/// that fits; anything else is an error.
pub open spec fn parse_unsigned(s: Seq<char>, max: int) -> Option<int> {
    let d = unsigned_digits(s);
    if d.len() > 0 && (forall|i: int| 0 <= i < d.len() ==> is_digit(#[trigger] d[i]))
        && digits_value(d) <= max {
        Some(digits_value(d))
    } else {
        None
    }
}

/// Parses an unsigned decimal number no greater than `max`, as `FromStr` does.
pub fn parse_unsigned_chars(s: &Vec<char>, max: u64) -> (r: Option<u64>)
    ensures
        match r {
            Some(v) => parse_unsigned(s@, max as int) == Some(v as int),
            None => parse_unsigned(s@, max as int) is None,
        },
{
    let ghost d = unsigned_digits(s@);
    let first: usize = if s.len() > 0 && s[0] == '+' { 1 } else { 0 };
    assert(d =~= s@.subrange(first as int, s.len() as int));
    if first >= s.len() {
        return None;
    }
    let limit: u128 = max as u128 + 1;
    let mut acc: u128 = 0;
    let mut i = first;
    while i < s.len()
        invariant
            first <= i <= s.len(),
            first < s.len(),
            d == s@.subrange(first as int, s.len() as int),
            d == unsigned_digits(s@),
            limit == max + 1,
            forall|j: int| first <= j < i ==> is_digit(#[trigger] s@[j]),
            acc <= limit,
            digits_value(s@.subrange(first as int, i as int)) >= 0,
            acc < limit ==> acc == digits_value(s@.subrange(first as int, i as int)),
            acc == limit ==> digits_value(s@.subrange(first as int, i as int)) >= limit,
        decreases s.len() - i,
    {
        let c = s[i];
        if !('0' <= c && c <= '9') {
            assert(!is_digit(d[i - first]));
            return None;
        }
        let v = ((c as u32) - 48) as u128;
        assert(s@.subrange(first as int, i + 1).drop_last() =~= s@.subrange(first as int, i as int));
        if acc < limit {
            let next = acc * 10 + v;
            acc = if next < limit { next } else { limit };
        }
        i += 1;
    }
    assert(s@.subrange(first as int, s.len() as int) == d);
    assert forall|j: int| 0 <= j < d.len() implies is_digit(#[trigger] d[j]) by {
        assert(d[j] == s@[first + j]);
    }
    if acc < limit {
        Some(acc as u64)
    } else {
        None
    }
}


/// Whether two character sequences are equal.
pub fn chars_equal(a: &Vec<char>, b: &Vec<char>) -> (r: bool)
    ensures
        r == (a@ == b@),
{
    if a.len() != b.len() {
        return false;
    }
    let mut i: usize = 0;
    while i < a.len()
        invariant
            a.len() == b.len(),
            i <= a.len(),
            forall|j: int| 0 <= j < i ==> a@[j] == b@[j],
        decreases a.len() - i,
    {
        if a[i] != b[i] {
            return false;
        }
        i += 1;
    }
    assert(a@ =~= b@);
    true
}


/// Splitting always yields at least one piece.
pub proof fn lemma_split_nonempty(s: Seq<char>, pat: Seq<char>)
    ensures
        split_seq(s, pat).len() >= 1,
{
    lemma_split_scan_nonempty(s, pat, 0, 0);
}

proof fn lemma_split_scan_nonempty(s: Seq<char>, pat: Seq<char>, start: int, i: int)
    ensures
        split_scan(s, pat, start, i).len() >= 1,
    decreases s.len() - i,
{
    if pat.len() == 0 || i < start || i + pat.len() > s.len() {
    } else if occurs_at(s, pat, i) {
        lemma_split_scan_nonempty(s, pat, i + pat.len(), i + pat.len());
    } else {
        lemma_split_scan_nonempty(s, pat, start, i + 1);
    }
}

/// Piece `n` of `s` split at the string `pat`.
pub fn cut(s: &Vec<char>, pat: &str, n: usize) -> (r: Option<Vec<char>>)
    ensures
        n < split_seq(s@, pat@).len() ==> r is Some && r->0@ == split_seq(s@, pat@)[n as int],
        n >= split_seq(s@, pat@).len() ==> r is None,
{
    let p = chars_of(pat);
    split_piece(s, &p, n)
}

/// The first piece of `s` split at the string `pat`.
pub fn cut_first(s: &Vec<char>, pat: &str) -> (r: Vec<char>)
    ensures
        r@ == split_seq(s@, pat@)[0],
{
    proof {
        lemma_split_nonempty(s@, pat@);
    }
    let p = chars_of(pat);
    match split_piece(s, &p, 0) {
        Some(v) => v,
        None => Vec::new(),
    }
}

/// `s` with every occurrence of the string `pat` removed.
pub fn remove_str(s: &Vec<char>, pat: &str) -> (r: Vec<char>)
    ensures
        r@ == remove_all_seq(s@, pat@),
{
    let p = chars_of(pat);
    remove_all(s, &p)
}

/// Whether `s` equals the string `t`.
pub fn equals_str(s: &Vec<char>, t: &str) -> (r: bool)
    ensures
        r == (s@ == t@),
{
    let tc = chars_of(t);
    chars_equal(s, &tc)
}


/// The pieces joined with `sep` between neighbours (`[T]::join`).
pub open spec fn join_seq(items: Seq<Seq<char>>, sep: Seq<char>) -> Seq<char>
    decreases items.len(),
{
    if items.len() == 0 {
        Seq::empty()
    } else if items.len() == 1 {
        items[0]
    } else {
        join_seq(items.drop_last(), sep) + sep + items.last()
    }
}

/// The strings of `items` joined with `sep` between neighbours.
pub fn join_strings(items: &Vec<String>, sep: &str) -> (r: String)
    ensures
        r@ == join_seq(items.deep_view(), sep@),
{
    let ghost views = items.deep_view();
    let mut r = String::new();
    for i in 0..items.len()
        invariant
            views == items.deep_view(),
            r@ == join_seq(views.take(i as int), sep@),
    {
        assert(views.take(i + 1).drop_last() =~= views.take(i as int));
        if i != 0 {
            r.append(sep);
        }
        r.append(items[i].as_str());
    }
    assert(views.take(items.len() as int) =~= views);
    r
}


proof fn lemma_decimal_digits(n: nat)
    ensures
        decimal(n).len() > 0,
        forall|i: int| 0 <= i < decimal(n).len() ==> is_digit(#[trigger] decimal(n)[i]),
        digits_value(decimal(n)) == n,
    decreases n,
{
    let d = decimal(n);
    assert(digit_value(digit_char(n % 10)) == n % 10);
    assert(d.last() == digit_char(n % 10));
    assert(digits_value(d) == digits_value(d.drop_last()) * 10 + digit_value(d.last()));
    if n < 10 {
        assert(d.drop_last() =~= Seq::<char>::empty());
    } else {
        lemma_decimal_digits(n / 10);
        assert(d.drop_last() =~= decimal(n / 10));
        assert((n / 10) * 10 + n % 10 == n) by (nonlinear_arith);
    }
}

/// Reading back a number written in decimal gives the number, for any
/// integer type wide enough to hold it.
pub proof fn law_decimal_reads_back(n: nat, max: int)
    requires
        n <= max,
    ensures
        parse_unsigned(decimal(n), max) == Some(n as int),
{
    lemma_decimal_digits(n);
    assert(is_digit(decimal(n)[0]));
    assert(unsigned_digits(decimal(n)) == decimal(n));
}


/// The last character of `pat` occurs nowhere else in it, so no occurrence
/// of `pat` can begin inside another one.
pub open spec fn last_char_unique(pat: Seq<char>) -> bool {
    &&& pat.len() > 0
    &&& forall|k: int| 0 <= k < pat.len() - 1 ==> #[trigger] pat[k] != pat.last()
}

proof fn lemma_scan_skips(s: Seq<char>, pat: Seq<char>, start: int, i: int, j: int)
    requires
        start <= i <= j,
        forall|k: int| i <= k < j ==> !occurs_at(s, pat, k),
    ensures
        split_scan(s, pat, start, i) == split_scan(s, pat, start, j),
    decreases j - i,
{
    if i < j && !(pat.len() == 0 || i + pat.len() > s.len()) {
        lemma_scan_skips(s, pat, start, i + 1, j);
    }
}

proof fn lemma_scan_shift(pre: Seq<char>, y: Seq<char>, pat: Seq<char>, a: int, b: int)
    requires
        0 <= a <= b <= y.len(),
    ensures
        split_scan(pre + y, pat, pre.len() + a, pre.len() + b) == split_scan(y, pat, a, b),
    decreases y.len() - b,
{
    let s = pre + y;
    let l = pre.len() as int;
    if pat.len() == 0 || b + pat.len() > y.len() {
        assert(s.subrange(l + a, s.len() as int) =~= y.subrange(a, y.len() as int));
    } else {
        assert(s.subrange(l + b, l + b + pat.len()) =~= y.subrange(b, b + pat.len()));
        assert(s.subrange(l + a, l + b) =~= y.subrange(a, b));
        if occurs_at(y, pat, b) {
            lemma_scan_shift(pre, y, pat, b + pat.len(), b + pat.len());
        } else {
            lemma_scan_shift(pre, y, pat, a, b + 1);
        }
    }
}

/// No occurrence of `pat` starts before the end of `x` in `x + pat + y`
/// when `x` holds none and `pat` cannot overlap itself.
pub proof fn lemma_first_occurrence_after(x: Seq<char>, pat: Seq<char>, y: Seq<char>)
    requires
        last_char_unique(pat),
        !contains_seq(x, pat),
    ensures
        forall|k: int| 0 <= k < x.len() ==> !occurs_at(x + pat + y, pat, k),
{
    let s = x + pat + y;
    assert forall|k: int| 0 <= k < x.len() implies !occurs_at(s, pat, k) by {
        if occurs_at(s, pat, k) {
            if k + pat.len() <= x.len() {
                assert(x.subrange(k, k + pat.len()) =~= s.subrange(k, k + pat.len()));
                assert(occurs_at(x, pat, k));
            } else {
                let m = k + pat.len() - x.len();
                assert(s.subrange(k, k + pat.len())[pat.len() - 1] == s[k + pat.len() - 1]);
                assert(s[k + pat.len() - 1] == pat[m - 1]);
                assert(pat[m - 1] != pat.last());
            }
        }
    }
}

/// Cutting `x + pat + y` at `pat`, when `x` holds no occurrence and `pat`
/// cannot overlap itself, gives `x` and then the pieces of `y`.
pub proof fn lemma_split_after_first(x: Seq<char>, pat: Seq<char>, y: Seq<char>)
    requires
        last_char_unique(pat),
        !contains_seq(x, pat),
    ensures
        split_seq(x + pat + y, pat) == seq![x] + split_seq(y, pat),
{
    let s = x + pat + y;
    let l = x.len() as int;
    lemma_first_occurrence_after(x, pat, y);
    lemma_scan_skips(s, pat, 0, 0, l);
    assert(s.subrange(l, l + pat.len()) =~= pat);
    assert(s.subrange(0, l) =~= x);
    assert(s =~= (x + pat) + y);
    lemma_scan_shift(x + pat, y, pat, 0, 0);
}

/// A text without `pat` is one piece.
pub proof fn lemma_split_without(x: Seq<char>, pat: Seq<char>)
    requires
        pat.len() > 0,
        !contains_seq(x, pat),
    ensures
        split_seq(x, pat) == seq![x],
{
    lemma_scan_skips(x, pat, 0, 0, x.len() as int);
    assert(x.subrange(0, x.len() as int) =~= x);
}

/// A text none of whose characters starts `pat` holds no `pat`.
pub proof fn lemma_no_first_char(x: Seq<char>, pat: Seq<char>)
    requires
        pat.len() > 0,
        forall|i: int| 0 <= i < x.len() ==> #[trigger] x[i] != pat[0],
    ensures
        !contains_seq(x, pat),
{
    assert forall|k: int| !occurs_at(x, pat, k) by {
        if occurs_at(x, pat, k) {
            assert(x.subrange(k, k + pat.len())[0] == x[k]);
        }
    }
}

/// A text whose first part has no character that starts `pat` holds `pat`
/// only where its second part does.
pub proof fn lemma_no_occurrence_concat(x: Seq<char>, y: Seq<char>, pat: Seq<char>)
    requires
        pat.len() > 0,
        forall|i: int| 0 <= i < x.len() ==> #[trigger] x[i] != pat[0],
        !contains_seq(y, pat),
    ensures
        !contains_seq(x + y, pat),
{
    let s = x + y;
    assert forall|k: int| !occurs_at(s, pat, k) by {
        if occurs_at(s, pat, k) {
            assert(s.subrange(k, k + pat.len())[0] == s[k]);
            if k < x.len() {
                assert(s[k] == x[k]);
            } else {
                assert(s.subrange(k, k + pat.len()) =~= y.subrange(k - x.len(), k - x.len() + pat.len()));
                assert(occurs_at(y, pat, k - x.len()));
            }
        }
    }
}

/// A one-character pattern occurs exactly where its character does.
pub proof fn lemma_single_char(x: Seq<char>, pat: Seq<char>)
    requires
        pat.len() == 1,
    ensures
        !contains_seq(x, pat) <==> forall|i: int| 0 <= i < x.len() ==> #[trigger] x[i] != pat[0],
{
    if forall|i: int| 0 <= i < x.len() ==> #[trigger] x[i] != pat[0] {
        lemma_no_first_char(x, pat);
    }
    if !contains_seq(x, pat) {
        assert forall|i: int| 0 <= i < x.len() implies #[trigger] x[i] != pat[0] by {
            if x[i] == pat[0] {
                assert(x.subrange(i, i + 1) =~= pat);
                assert(occurs_at(x, pat, i));
            }
        }
    }
}

/// The decimal digits of a number hold no character other than digits.
pub proof fn lemma_decimal_is_digits(n: nat)
    ensures
        decimal(n).len() > 0,
        forall|i: int| 0 <= i < decimal(n).len() ==> is_digit(#[trigger] decimal(n)[i]),
{
    lemma_decimal_digits(n);
}

/// Different numbers are written differently.
pub proof fn law_decimal_injective(m: nat, n: nat)
    requires
        decimal(m) == decimal(n),
    ensures
        m == n,
{
    law_decimal_reads_back(m, m as int);
    law_decimal_reads_back(n, n as int);
    lemma_decimal_digits(m);
    lemma_decimal_digits(n);
}

} // verus!
