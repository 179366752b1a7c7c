//! Character-level helpers over the `Seq<char>` view of strings.

use vstd::prelude::*;
use vstd::string::*;

verus! {

/// White space in the sense of `char::is_whitespace` (Unicode `White_Space`).
pub open spec fn is_space(c: char) -> bool {
    ('\t' <= c && c <= '\r') || c == ' ' || c == '\u{85}' || c == '\u{a0}' || c == '\u{1680}'
        || ('\u{2000}' <= c && c <= '\u{200a}') || c == '\u{2028}' || c == '\u{2029}'
        || c == '\u{202f}' || c == '\u{205f}' || c == '\u{3000}'
}

/// `s` without its leading white space.
pub open spec fn trim_front(s: Seq<char>) -> Seq<char>
    decreases s.len(),
{
    if s.len() > 0 && is_space(s[0]) {
        trim_front(s.drop_first())
    } else {
        s
    }
}

/// `s` without its trailing white space.
pub open spec fn trim_back(s: Seq<char>) -> Seq<char>
    decreases s.len(),
{
    if s.len() > 0 && is_space(s.last()) {
        trim_back(s.drop_last())
    } else {
        s
    }
}

/// `s` without leading and trailing white space, as `str::trim` returns it.
pub open spec fn trim(s: Seq<char>) -> Seq<char> {
    trim_back(trim_front(s))
}

/// `t` occurs in `s` starting at position `i`.
pub open spec fn occurs_at(s: Seq<char>, t: Seq<char>, i: int) -> bool {
    0 <= i && i + t.len() <= s.len() && s.subrange(i, i + t.len()) == t
}

/// `t` occurs somewhere in `s`.
pub open spec fn has_infix(s: Seq<char>, t: Seq<char>) -> bool {
    exists|i: int| occurs_at(s, t, i)
}

/// `s` begins with `t`.
pub open spec fn has_prefix(s: Seq<char>, t: Seq<char>) -> bool {
    occurs_at(s, t, 0)
}

pub fn is_space_char(c: char) -> (r: bool)
    ensures
        r == is_space(c),
{
    ('\t' <= c && c <= '\r') || c == ' ' || c == '\u{85}' || c == '\u{a0}' || c == '\u{1680}'
        || ('\u{2000}' <= c && c <= '\u{200a}') || c == '\u{2028}' || c == '\u{2029}'
        || c == '\u{202f}' || c == '\u{205f}' || c == '\u{3000}'
}

/// The characters of `s`, one per element.
pub fn to_chars(s: &str) -> (r: Vec<char>)
    ensures
        r@ == s@,
{
    let n = s.unicode_len();
    let mut out: Vec<char> = Vec::new();
    let mut i: usize = 0;
    while i < n
        invariant
            n == s@.len(),
            i <= n,
            out@ == s@.subrange(0, i as int),
        decreases n - i,
    {
        out.push(s.get_char(i));
        i += 1;
        assert(out@ =~= s@.subrange(0, i as int));
    }
    assert(out@ =~= s@);
    out
}

/// Bounds `(a, b)` such that `cs[a..b]` is `cs` trimmed.
pub fn trim_bounds(cs: &Vec<char>) -> (r: (usize, usize))
    ensures
        r.0 <= r.1 <= cs@.len(),
        cs@.subrange(r.0 as int, r.1 as int) == trim(cs@),
{
    let n = cs.len();
    let mut i: usize = 0;
    assert(cs@.subrange(0, n as int) =~= cs@);
    while i < n && is_space_char(cs[i])
        invariant
            n == cs@.len(),
            i <= n,
            trim_front(cs@) == trim_front(cs@.subrange(i as int, n as int)),
        decreases n - i,
    {
        assert(cs@.subrange(i as int, n as int).drop_first() =~= cs@.subrange(i + 1, n as int));
        i += 1;
    }
    assert(trim_front(cs@) == cs@.subrange(i as int, n as int));
    let mut j: usize = n;
    while j > i && is_space_char(cs[j - 1])
        invariant
            n == cs@.len(),
            i <= j <= n,
            trim_back(cs@.subrange(i as int, n as int)) == trim_back(cs@.subrange(i as int, j as int)),
        decreases j,
    {
        assert(cs@.subrange(i as int, j as int).drop_last() =~= cs@.subrange(i as int, j - 1));
        j -= 1;
    }
    (i, j)
}

/// `s` with leading and trailing white space removed.
pub fn trim_str(s: &str) -> (r: String)
    ensures
        r@ == trim(s@),
{
    let cs = to_chars(s);
    let (a, b) = trim_bounds(&cs);
    String::from_str(s.substring_char(a, b))
}


/// Whether `t` occurs in `s` at position `i`.
fn matches_at(s: &Vec<char>, t: &Vec<char>, i: usize) -> (r: bool)
    requires
        i + t@.len() <= s@.len(),
    ensures
        r == occurs_at(s@, t@, i as int),
{
    let n = s.len();
    let mut k: usize = 0;
    while k < t.len()
        invariant
            n == s@.len(),
            i + t@.len() <= n,
            k <= t@.len(),
            forall|m: int| 0 <= m < k ==> s@[i + m] == t@[m],
        decreases t@.len() - k,
    {
        if s[i + k] != t[k] {
            assert(s@.subrange(i as int, i + t@.len())[k as int] != t@[k as int]);
            return false;
        }
        k += 1;
    }
    assert(s@.subrange(i as int, i + t@.len()) =~= t@);
    true
}

/// Whether `t` occurs anywhere in `s`.
fn find_in(s: &Vec<char>, t: &Vec<char>) -> (r: bool)
    ensures
        r == has_infix(s@, t@),
{
    if t.len() > s.len() {
        return false;
    }
    let last = s.len() - t.len();
    let mut i: usize = 0;
    while i < last
        invariant
            last + t@.len() == s@.len(),
            i <= last,
            forall|j: int| 0 <= j < i ==> !occurs_at(s@, t@, j),
        decreases last - i,
    {
        if matches_at(s, t, i) {
            return true;
        }
        i += 1;
    }
    matches_at(s, t, last)
}

/// Whether `t` occurs in `s`, as `str::contains` answers it.
pub fn contains_str(s: &str, t: &str) -> (r: bool)
    ensures
        r == has_infix(s@, t@),
{
    let a = to_chars(s);
    let b = to_chars(t);
    find_in(&a, &b)
}

/// Whether `s` begins with `t`, as `str::starts_with` answers it.
pub fn starts_with_str(s: &str, t: &str) -> (r: bool)
    ensures
        r == has_prefix(s@, t@),
{
    let a = to_chars(s);
    let b = to_chars(t);
    if b.len() > a.len() {
        false
    } else {
        matches_at(&a, &b, 0)
    }
}

/// The digit character for `d < 10`.
pub open spec fn digit_char(d: nat) -> char {
    (d + 48) as char
}

/// Decimal notation of `n`, without sign or leading zeros.
pub open spec fn decimal(n: nat) -> Seq<char>
    decreases n,
{
    if n < 10 {
        seq![digit_char(n)]
    } else {
        decimal(n / 10).push(digit_char(n % 10))
    }
}

fn digit_text(d: u64) -> (r: &'static str)
    requires
        d < 10,
    ensures
        r@ == seq![digit_char(d as nat)],
{
    proof {
        reveal_strlit("0");
        reveal_strlit("1");
        reveal_strlit("2");
        reveal_strlit("3");
        reveal_strlit("4");
        reveal_strlit("5");
        reveal_strlit("6");
        reveal_strlit("7");
        reveal_strlit("8");
        reveal_strlit("9");
    }
    let r = if d == 0 {
        "0"
    } else if d == 1 {
        "1"
    } else if d == 2 {
        "2"
    } else if d == 3 {
        "3"
    } else if d == 4 {
        "4"
    } else if d == 5 {
        "5"
    } else if d == 6 {
        "6"
    } else if d == 7 {
        "7"
    } else if d == 8 {
        "8"
    } else {
        "9"
    };
    assert(r@ =~= seq![digit_char(d as nat)]);
    r
}

/// Appends the decimal notation of `n` to `out`.
pub fn push_decimal(out: &mut String, n: u64)
    ensures
        final(out)@ == old(out)@ + decimal(n as nat),
    decreases n,
{
    if n >= 10 {
        push_decimal(out, n / 10);
    }
    out.append(digit_text(n % 10));
    assert(old(out)@ + decimal(n as nat) =~= final(out)@) by {
        if n >= 10 {
            assert(decimal(n as nat) == decimal((n / 10) as nat).push(digit_char((n % 10) as nat)));
        }
    }
}

/// Decimal notation of `n`.
pub fn decimal_string(n: u64) -> (r: String)
    ensures
        r@ == decimal(n as nat),
{
    let mut out = String::new();
    push_decimal(&mut out, n);
    assert(out@ =~= decimal(n as nat));
    out
}

pub open spec fn is_digit(c: char) -> bool {
    '0' <= c && c <= '9'
}

pub open spec fn all_digits(s: Seq<char>) -> bool {
    forall|i: int| 0 <= i < s.len() ==> is_digit(#[trigger] s[i])
}

/// Value of a digit string read as a decimal number.
pub open spec fn digits_value(s: Seq<char>) -> nat
    decreases s.len(),
{
    if s.len() == 0 {
        0
    } else {
        digits_value(s.drop_last()) * 10 + (s.last() as nat - 48) as nat
    }
}

/// The digits that `u32::from_str` reads: the text without one leading `+`.
pub open spec fn unsigned_digits(s: Seq<char>) -> Seq<char> {
    if s.len() > 0 && s[0] == '+' {
        s.drop_first()
    } else {
        s
    }
}

/// What `u32::from_str` gives for `s`: a number for one or more digits
/// (after an optional `+`) whose value fits in 32 bits, nothing otherwise.
pub open spec fn parse_u32(s: Seq<char>) -> Option<u32> {
    let d = unsigned_digits(s);
    if d.len() > 0 && all_digits(d) && digits_value(d) <= u32::MAX {
        Some(digits_value(d) as u32)
    } else {
        None
    }
}

proof fn lemma_value_grows(s: Seq<char>, k: int)
    requires
        0 <= k <= s.len(),
    ensures
        digits_value(s.subrange(0, k)) <= digits_value(s),
    decreases s.len() - k,
{
    if k < s.len() {
        lemma_value_grows(s, k + 1);
        assert(s.subrange(0, k + 1).drop_last() =~= s.subrange(0, k));
    } else {
        assert(s.subrange(0, k) =~= s);
    }
}

fn parse_digits(cs: &Vec<char>, start: usize) -> (r: Option<u32>)
    requires
        start <= cs@.len(),
    ensures
        ({
            let d = cs@.subrange(start as int, cs@.len() as int);
            r == (if d.len() > 0 && all_digits(d) && digits_value(d) <= u32::MAX {
                Some(digits_value(d) as u32)
            } else {
                None::<u32>
            })
        }),
{
    let ghost d = cs@.subrange(start as int, cs@.len() as int);
    if start == cs.len() {
        return None;
    }
    let mut acc: u64 = 0;
    let mut i: usize = start;
    while i < cs.len()
        invariant
            start <= i <= cs@.len(),
            d == cs@.subrange(start as int, cs@.len() as int),
            all_digits(d.subrange(0, i - start)),
            acc == digits_value(d.subrange(0, i - start)),
            acc <= u32::MAX,
        decreases cs@.len() - i,
    {
        let c = cs[i];
        if !('0' <= c && c <= '9') {
            assert(d[i - start] == c);
            return None;
        }
        let v = (c as u32 - 48) as u64;
        proof {
            assert(d.subrange(0, i - start + 1).drop_last() =~= d.subrange(0, i - start));
            assert(d.subrange(0, i - start + 1).last() == c);
        }
        acc = acc * 10 + v;
        assert(all_digits(d.subrange(0, i - start + 1))) by {
            assert forall|m: int| 0 <= m < i - start + 1 implies is_digit(
                #[trigger] d.subrange(0, i - start + 1)[m],
            ) by {
                if m < i - start {
                    assert(d.subrange(0, i - start + 1)[m] == d.subrange(0, i - start)[m]);
                }
            }
        }
        if acc > 4294967295 {
            proof {
                lemma_value_grows(d, i - start + 1);
            }
            return None;
        }
        i += 1;
    }
    assert(d.subrange(0, i - start) =~= d);
    Some(acc as u32)
}

/// Reads `s` as `u32::from_str` does.
pub fn parse_u32_str(s: &str) -> (r: Option<u32>)
    ensures
        r == parse_u32(s@),
{
    let cs = to_chars(s);
    if cs.len() > 0 && cs[0] == '+' {
        assert(cs@.subrange(1, cs@.len() as int) =~= s@.drop_first());
        parse_digits(&cs, 1)
    } else {
        assert(cs@.subrange(0, cs@.len() as int) =~= s@);
        parse_digits(&cs, 0)
    }
}


/// Number of characters of `s` before the first `c` (all of `s` if it has none).
pub open spec fn count_before(s: Seq<char>, c: char) -> nat
    decreases s.len(),
{
    if s.len() == 0 || s[0] == c {
        0
    } else {
        1 + count_before(s.drop_first(), c)
    }
}

/// Number of characters before the first line feed of `s` (all of `s` if it has none).
pub open spec fn line_end(s: Seq<char>) -> nat {
    count_before(s, '\n')
}

/// `s` without one trailing carriage return.
pub open spec fn strip_cr(s: Seq<char>) -> Seq<char> {
    if s.len() > 0 && s.last() == '\r' {
        s.drop_last()
    } else {
        s
    }
}

/// The lines of `s` as `str::lines` yields them: split at each line feed, a
/// trailing carriage return dropped from each, and no empty last line after a
/// final line feed.
pub open spec fn lines(s: Seq<char>) -> Seq<Seq<char>>
    decreases s.len(),
{
    if s.len() == 0 {
        seq![]
    } else if line_end(s) < s.len() {
        seq![strip_cr(s.subrange(0, line_end(s) as int))] + lines(
            s.subrange(line_end(s) as int + 1, s.len() as int),
        )
    } else {
        seq![strip_cr(s)]
    }
}

/// The views of a sequence of strings.
pub open spec fn views(v: Seq<String>) -> Seq<Seq<char>> {
    v.map_values(|x: String| x@)
}

pub proof fn lemma_count_before(s: Seq<char>, c: char, e: int)
    requires
        0 <= e <= s.len(),
        forall|m: int| 0 <= m < e ==> s[m] != c,
        e == s.len() || s[e] == c,
    ensures
        count_before(s, c) == e,
    decreases e,
{
    if e > 0 {
        lemma_count_before(s.drop_first(), c, e - 1);
    }
}

/// The lines of `s`.
pub fn split_lines(s: &str) -> (r: Vec<String>)
    ensures
        views(r@) == lines(s@),
{
    let cs = to_chars(s);
    let n = cs.len();
    let mut out: Vec<String> = Vec::new();
    let mut pos: usize = 0;
    assert(cs@.subrange(0, n as int) =~= cs@);
    assert(views(out@) =~= seq![]);
    while pos < n
        invariant
            n == cs@.len(),
            cs@ == s@,
            pos <= n,
            views(out@) + lines(cs@.subrange(pos as int, n as int)) == lines(cs@),
        decreases n - pos,
    {
        let ghost rest = cs@.subrange(pos as int, n as int);
        let mut j: usize = pos;
        while j < n && cs[j] != '\n'
            invariant
                n == cs@.len(),
                pos <= j <= n,
                forall|m: int| pos <= m < j ==> cs@[m] != '\n',
            decreases n - j,
        {
            j += 1;
        }
        proof {
            lemma_count_before(rest, '\n', j - pos);
        }
        let mut e: usize = j;
        if e > pos && cs[e - 1] == '\r' {
            e -= 1;
        }
        let line = String::from_str(s.substring_char(pos, e));
        let ghost old_out = out@;
        out.push(line);
        proof {
            assert(views(out@) =~= views(old_out).push(line@));
            if j < n {
                assert(rest.subrange(j - pos + 1, rest.len() as int) =~= cs@.subrange(j + 1, n as int));
                assert(strip_cr(rest.subrange(0, j - pos)) =~= cs@.subrange(pos as int, e as int));
                assert(views(out@) + lines(cs@.subrange(j + 1, n as int)) =~= views(old_out) + lines(rest));
            } else {
                assert(rest.subrange(0, j - pos) =~= rest);
                assert(strip_cr(rest) =~= cs@.subrange(pos as int, e as int));
                assert(cs@.subrange(n as int, n as int) =~= seq![]);
                assert(views(out@) + lines(cs@.subrange(n as int, n as int)) =~= views(old_out) + lines(rest));
            }
        }
        if j < n {
            pos = j + 1;
        } else {
            pos = n;
        }
    }
    assert(cs@.subrange(n as int, n as int) =~= seq![]);
    assert(views(out@) =~= views(out@) + lines(cs@.subrange(n as int, n as int)));
    out
}


/// `a` followed by `b`.
pub fn join2(a: &str, b: &str) -> (r: String)
    ensures
        r@ == a@ + b@,
{
    String::from_str(a).concat(b)
}

/// `a`, then `b`, then `c`.
pub fn join3(a: &str, b: &str, c: &str) -> (r: String)
    ensures
        r@ == a@ + b@ + c@,
{
    String::from_str(a).concat(b).concat(c)
}

/// The view of an optional string.
pub open spec fn opt_view(o: Option<String>) -> Option<Seq<char>> {
    match o {
        Some(s) => Some(s@),
        None => None,
    }
}

/// Appends a copy of `s` to `v`.
pub fn push_text(v: &mut Vec<String>, s: &str)
    ensures
        views(final(v)@) == views(old(v)@).push(s@),
{
    v.push(String::from_str(s));
    assert(views(final(v)@) =~= views(old(v)@).push(s@));
}


/// The last white-space separated word of `t`, or nothing when `t` ends in
/// white space or is empty.
pub open spec fn tail_word(t: Seq<char>) -> Seq<char>
    decreases t.len(),
{
    if t.len() == 0 || is_space(t.last()) {
        seq![]
    } else {
        tail_word(t.drop_last()).push(t.last())
    }
}

/// The last word of `s`, as `s.split_whitespace().last()` gives it (empty
/// when `s` holds no word).
pub open spec fn last_word(s: Seq<char>) -> Seq<char> {
    tail_word(trim(s))
}

/// The last word of `s` (empty when there is none).
pub fn last_word_str(s: &str) -> (r: String)
    ensures
        r@ == last_word(s@),
{
    let cs = to_chars(s);
    let (a, b) = trim_bounds(&cs);
    let mut k: usize = b;
    assert(cs@.subrange(b as int, b as int) =~= seq![]);
    assert(tail_word(cs@.subrange(a as int, b as int)) =~= tail_word(cs@.subrange(a as int, b as int))
        + cs@.subrange(b as int, b as int));
    while k > a && !is_space_char(cs[k - 1])
        invariant
            a <= k <= b <= cs@.len(),
            tail_word(cs@.subrange(a as int, b as int)) == tail_word(cs@.subrange(a as int, k as int))
                + cs@.subrange(k as int, b as int),
        decreases k,
    {
        let ghost t = cs@.subrange(a as int, k as int);
        assert(t.drop_last() =~= cs@.subrange(a as int, k - 1));
        assert(tail_word(t) == tail_word(t.drop_last()).push(t.last()));
        assert(tail_word(t) + cs@.subrange(k as int, b as int) =~= tail_word(cs@.subrange(a as int, k - 1))
            + cs@.subrange(k - 1, b as int));
        k -= 1;
    }
    assert(tail_word(cs@.subrange(a as int, k as int)) =~= seq![]);
    assert(tail_word(cs@.subrange(a as int, b as int)) =~= cs@.subrange(k as int, b as int));
    String::from_str(s.substring_char(k, b))
}

/// Whether two strings hold the same characters.
pub fn text_equal(a: &str, b: &str) -> (r: bool)
    ensures
        r == (a@ == b@),
{
    let n = a.unicode_len();
    if n != b.unicode_len() {
        return false;
    }
    let mut i: usize = 0;
    while i < n
        invariant
            n == a@.len(),
            n == b@.len(),
            i <= n,
            forall|j: int| 0 <= j < i ==> a@[j] == b@[j],
        decreases n - i,
    {
        if a.get_char(i) != b.get_char(i) {
            return false;
        }
        i += 1;
    }
    assert(a@ =~= b@);
    true
}


/// `s` ends with `t`.
pub open spec fn has_suffix(s: Seq<char>, t: Seq<char>) -> bool {
    occurs_at(s, t, s.len() - t.len())
}

/// Whether `s` ends with `t`, as `str::ends_with` answers it.
pub fn ends_with_str(s: &str, t: &str) -> (r: bool)
    ensures
        r == has_suffix(s@, t@),
{
    let a = to_chars(s);
    let b = to_chars(t);
    if b.len() > a.len() {
        false
    } else {
        matches_at(&a, &b, a.len() - b.len())
    }
}

/// Number of leading characters of `s` that are not white space.
pub open spec fn word_len(s: Seq<char>) -> nat
    decreases s.len(),
{
    if s.len() == 0 || is_space(s[0]) {
        0
    } else {
        1 + word_len(s.drop_first())
    }
}

/// The first white-space separated word of `s` (empty when there is none).
pub open spec fn first_word(s: Seq<char>) -> Seq<char> {
    let t = trim_front(s);
    t.subrange(0, word_len(t) as int)
}

/// What follows the first word of `s`.
pub open spec fn after_first_word(s: Seq<char>) -> Seq<char> {
    let t = trim_front(s);
    t.subrange(word_len(t) as int, t.len() as int)
}

/// The second white-space separated word of `s` (empty when there is none).
pub open spec fn second_word(s: Seq<char>) -> Seq<char> {
    first_word(after_first_word(s))
}

proof fn lemma_word_len(s: Seq<char>, e: int)
    requires
        0 <= e <= s.len(),
        forall|m: int| 0 <= m < e ==> !is_space(s[m]),
        e == s.len() || is_space(s[e]),
    ensures
        word_len(s) == e,
    decreases e,
{
    if e > 0 {
        lemma_word_len(s.drop_first(), e - 1);
    }
}

/// Bounds of the first word of `cs[from..]`, and where what follows it begins.
fn word_at(cs: &Vec<char>, from: usize) -> (r: (usize, usize))
    requires
        from <= cs@.len(),
    ensures
        from <= r.0 <= r.1 <= cs@.len(),
        cs@.subrange(r.0 as int, r.1 as int) == first_word(cs@.subrange(from as int, cs@.len() as int)),
        cs@.subrange(r.1 as int, cs@.len() as int) == after_first_word(
            cs@.subrange(from as int, cs@.len() as int),
        ),
{
    let n = cs.len();
    let ghost s = cs@.subrange(from as int, n as int);
    let mut i: usize = from;
    while i < n && is_space_char(cs[i])
        invariant
            n == cs@.len(),
            from <= i <= n,
            s == cs@.subrange(from as int, n as int),
            trim_front(s) == trim_front(cs@.subrange(i as int, n as int)),
        decreases n - i,
    {
        assert(cs@.subrange(i as int, n as int).drop_first() =~= cs@.subrange(i + 1, n as int));
        i += 1;
    }
    let ghost t = cs@.subrange(i as int, n as int);
    assert(trim_front(s) == t);
    let mut j: usize = i;
    while j < n && !is_space_char(cs[j])
        invariant
            n == cs@.len(),
            i <= j <= n,
            forall|m: int| i <= m < j ==> !is_space(cs@[m]),
        decreases n - j,
    {
        j += 1;
    }
    proof {
        lemma_word_len(t, j - i);
        assert(t.subrange(0, j - i) =~= cs@.subrange(i as int, j as int));
        assert(t.subrange(j - i, t.len() as int) =~= cs@.subrange(j as int, n as int));
    }
    (i, j)
}

/// The first word of `s`.
pub fn first_word_str(s: &str) -> (r: String)
    ensures
        r@ == first_word(s@),
{
    let cs = to_chars(s);
    assert(cs@.subrange(0, cs@.len() as int) =~= s@);
    let (a, b) = word_at(&cs, 0);
    String::from_str(s.substring_char(a, b))
}

/// The second word of `s`.
pub fn second_word_str(s: &str) -> (r: String)
    ensures
        r@ == second_word(s@),
{
    let cs = to_chars(s);
    assert(cs@.subrange(0, cs@.len() as int) =~= s@);
    let (_, b) = word_at(&cs, 0);
    let (c, d) = word_at(&cs, b);
    String::from_str(s.substring_char(c, d))
}


/// Lower-case hexadecimal digit for `d < 16`.
pub open spec fn hex_char(d: nat) -> char {
    if d < 10 {
        (d + 48) as char
    } else {
        (d + 87) as char
    }
}

/// How `c` is written inside a JSON string: a quote and a backslash behind a
/// backslash, a control character below U+0020 as `\u00XX`, anything else as
/// it is.
pub open spec fn json_escape_char(c: char) -> Seq<char> {
    if c == '"' {
        seq!['\\', '"']
    } else if c == '\\' {
        seq!['\\', '\\']
    } else if (c as u32) < 0x20 {
        seq!['\\', 'u', '0', '0', hex_char((c as nat) / 16), hex_char((c as nat) % 16)]
    } else {
        seq![c]
    }
}

/// `s` written as the inside of a JSON string.
pub open spec fn json_escape(s: Seq<char>) -> Seq<char>
    decreases s.len(),
{
    if s.len() == 0 {
        seq![]
    } else {
        json_escape(s.drop_last()) + json_escape_char(s.last())
    }
}

fn hex_text(d: u32) -> (r: &'static str)
    requires
        d < 16,
    ensures
        r@ == seq![hex_char(d as nat)],
{
    if d < 10 {
        digit_text(d as u64)
    } else {
        proof {
            reveal_strlit("a");
            reveal_strlit("b");
            reveal_strlit("c");
            reveal_strlit("d");
            reveal_strlit("e");
            reveal_strlit("f");
        }
        let r = if d == 10 {
            "a"
        } else if d == 11 {
            "b"
        } else if d == 12 {
            "c"
        } else if d == 13 {
            "d"
        } else if d == 14 {
            "e"
        } else {
            "f"
        };
        assert(r@ =~= seq![hex_char(d as nat)]);
        r
    }
}

/// `s` written as the inside of a JSON string (see `json_escape`).
pub fn json_escape_str(s: &str) -> (r: String)
    ensures
        r@ == json_escape(s@),
{
    let n = s.unicode_len();
    let mut out = String::new();
    let mut i: usize = 0;
    assert(out@ =~= json_escape(s@.subrange(0, 0)));
    while i < n
        invariant
            n == s@.len(),
            i <= n,
            out@ == json_escape(s@.subrange(0, i as int)),
        decreases n - i,
    {
        let c = s.get_char(i);
        let ghost before = out@;
        proof {
            reveal_strlit("\\");
            reveal_strlit("\"");
            reveal_strlit("u00");
        }
        assert(s@.subrange(0, i + 1).drop_last() =~= s@.subrange(0, i as int));
        assert(s@.subrange(0, i + 1).last() == c);
        if c == '"' {
            out.append("\\");
            out.append("\"");
            assert("\\"@ =~= seq!['\\']);
            assert("\""@ =~= seq!['"']);
        } else if c == '\\' {
            out.append("\\");
            out.append("\\");
            assert("\\"@ =~= seq!['\\']);
        } else if (c as u32) < 0x20 {
            let v = c as u32;
            assert(v as nat == c as nat);
            out.append("\\");
            out.append("u00");
            out.append(hex_text(v / 16));
            out.append(hex_text(v % 16));
            assert("\\"@ =~= seq!['\\']);
            assert("u00"@ =~= seq!['u', '0', '0']);
        } else {
            out.append(s.substring_char(i, i + 1));
            assert(s@.subrange(i as int, i + 1) =~= seq![c]);
        }
        assert(out@ =~= before + json_escape_char(c));
        i += 1;
    }
    assert(s@.subrange(0, n as int) =~= s@);
    out
}

} // verus!
