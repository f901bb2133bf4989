//! Text primitives shared by the whole library: the order and equality of
//! texts, numbers written in decimal and read from it, white space, and
//! paths taken as texts with `/` between their components.

use vstd::prelude::*;
use vstd::std_specs::iter::IteratorSpec;

verus! {

/// Strict lexicographic order on character sequences, by code point.
pub open spec fn lex_lt(a: Seq<char>, b: Seq<char>) -> bool
    decreases a.len(),
{
    if b.len() == 0 {
        false
    } else if a.len() == 0 {
        true
    } else if a[0] != b[0] {
        (a[0] as int) < (b[0] as int)
    } else {
        lex_lt(a.drop_first(), b.drop_first())
    }
}

/// Three-way outcome of comparing two texts.
#[derive(Clone, Copy, Debug, PartialEq, Eq, Structural)]
pub enum Rank {
    Before,
    Same,
    After,
}

/// How `a` stands to `b` in the order of texts.
pub open spec fn rank_of(a: Seq<char>, b: Seq<char>) -> Rank {
    if a == b {
        Rank::Same
    } else if lex_lt(a, b) {
        Rank::Before
    } else {
        Rank::After
    }
}

/// Two texts with the same first character are equal exactly if what
/// follows it is equal.
pub proof fn lemma_drop_first_eq(a: Seq<char>, b: Seq<char>)
    requires
        a.len() > 0,
        b.len() > 0,
        a[0] == b[0],
    ensures
        (a == b) <==> (a.drop_first() == b.drop_first()),
{
    if a.drop_first() == b.drop_first() {
        assert(a =~= seq![a[0]] + a.drop_first());
        assert(b =~= seq![b[0]] + b.drop_first());
    }
}

/// Compares two texts character by character.
pub fn compare_text(a: &str, b: &str) -> (r: Rank)
    ensures
        r == rank_of(a@, b@),
{
    let mut ia = a.chars();
    let mut ib = b.chars();
    loop
        invariant
            ia.obeys_prophetic_iter_laws(),
            ib.obeys_prophetic_iter_laws(),
            rank_of(a@, b@) == rank_of(ia.remaining(), ib.remaining()),
            ia.decrease() is Some,
        decreases ia.decrease()->0,
    {
        let ghost ra = ia.remaining();
        let ghost rb = ib.remaining();
        let ca = ia.next();
        let cb = ib.next();
        match (ca, cb) {
            (None, None) => {
                assert(ra =~= rb);
                return Rank::Same;
            },
            (None, Some(_)) => {
                assert(ra.len() == 0 && rb.len() > 0);
                return Rank::Before;
            },
            (Some(_), None) => {
                assert(ra.len() > 0 && rb.len() == 0);
                return Rank::After;
            },
            (Some(x), Some(y)) => {
                if x != y {
                    assert(ra != rb);
                    if x < y {
                        return Rank::Before;
                    } else {
                        return Rank::After;
                    }
                }
                proof {
                    lemma_drop_first_eq(ra, rb);
                }
            },
        }
    }
}

/// The texts of a list of strings, in the same order.
pub open spec fn texts(list: Seq<String>) -> Seq<Seq<char>> {
    Seq::new(list.len(), |i: int| list[i]@)
}

/// The text of an optional string.
pub open spec fn optional_text(s: Option<String>) -> Option<Seq<char>> {
    match s {
        Some(t) => Some(t@),
        None => None,
    }
}

/// Whether two texts hold the same characters.
pub fn text_eq(a: &str, b: &str) -> (r: bool)
    ensures
        r == (a@ == b@),
{
    match compare_text(a, b) {
        Rank::Same => true,
        _ => false,
    }
}

/// No text comes before itself.
pub proof fn lemma_lex_irreflexive(a: Seq<char>)
    ensures
        !lex_lt(a, a),
    decreases a.len(),
{
    if a.len() > 0 {
        lemma_lex_irreflexive(a.drop_first());
    }
}

/// Of two different texts exactly one comes before the other.
pub proof fn lemma_lex_total(a: Seq<char>, b: Seq<char>)
    ensures
        a != b ==> (lex_lt(a, b) <==> !lex_lt(b, a)),
        a == b ==> !lex_lt(a, b),
    decreases a.len(),
{
    if a == b {
        lemma_lex_irreflexive(a);
    } else if a.len() == 0 || b.len() == 0 {
        if a.len() == 0 && b.len() == 0 {
            assert(a =~= b);
        }
    } else if a[0] == b[0] {
        lemma_drop_first_eq(a, b);
        lemma_lex_total(a.drop_first(), b.drop_first());
    }
}

/// The order is transitive.
pub proof fn lemma_lex_transitive(a: Seq<char>, b: Seq<char>, c: Seq<char>)
    requires
        lex_lt(a, b),
        lex_lt(b, c),
    ensures
        lex_lt(a, c),
    decreases a.len(),
{
    if a.len() > 0 && a[0] == b[0] && b[0] == c[0] {
        lemma_lex_transitive(a.drop_first(), b.drop_first(), c.drop_first());
    }
}

/// The characters of a text, in order.
pub fn to_chars(s: &str) -> (v: Vec<char>)
    ensures
        v@ == s@,
{
    let mut v: Vec<char> = Vec::new();
    for c in it: s.chars()
        invariant
            v@ == it.seq().take(it.index() as int),
    {
        v.push(c);
    }
    v
}

/// A path extended by one more component, with `/` between the two where
/// the base does not already end in one. A component that starts at the
/// root replaces the base.
pub open spec fn joined(base: Seq<char>, name: Seq<char>) -> Seq<char> {
    if name.len() > 0 && name[0] == '/' {
        name
    } else if base.len() == 0 || base.last() == '/' {
        base + name
    } else {
        base + seq!['/'] + name
    }
}

/// Extends the path `base` by the component `name`.
pub fn join_path(base: &str, name: &str) -> (r: String)
    ensures
        r@ == joined(base@, name@),
{
    let name_len = name.unicode_len();
    if name_len > 0 && name.get_char(0) == '/' {
        return String::from_str(name);
    }
    let base_len = base.unicode_len();
    let mut r = String::from_str(base);
    if base_len > 0 && base.get_char(base_len - 1) != '/' {
        proof {
            reveal_strlit("/");
        }
        r.append("/");
        assert(r@ =~= base@ + seq!['/']);
    }
    r.append(name);
    r
}

/// The decimal digit that stands for `d`, for `d` below ten.
pub open spec fn digit(d: nat) -> char {
    if d == 0 {
        '0'
    } else if d == 1 {
        '1'
    } else if d == 2 {
        '2'
    } else if d == 3 {
        '3'
    } else if d == 4 {
        '4'
    } else if d == 5 {
        '5'
    } else if d == 6 {
        '6'
    } else if d == 7 {
        '7'
    } else if d == 8 {
        '8'
    } else {
        '9'
    }
}

/// A number written in decimal, without sign or leading zeros.
pub open spec fn decimal_text(n: nat) -> Seq<char>
    decreases n,
{
    if n < 10 {
        seq![digit(n)]
    } else {
        decimal_text(n / 10).push(digit(n % 10))
    }
}

fn digit_text(d: u64) -> (r: &'static str)
    requires
        d < 10,
    ensures
        r@ == seq![digit(d as nat)],
{
    proof {
        reveal_strlit("0");
        reveal_strlit("1");
        reveal_strlit("2");
        reveal_strlit("3");
        reveal_strlit("4");
        reveal_strlit("5");
        reveal_strlit("6");
        reveal_strlit("7");
        reveal_strlit("8");
        reveal_strlit("9");
    }
    let r = if d == 0 {
        "0"
    } else if d == 1 {
        "1"
    } else if d == 2 {
        "2"
    } else if d == 3 {
        "3"
    } else if d == 4 {
        "4"
    } else if d == 5 {
        "5"
    } else if d == 6 {
        "6"
    } else if d == 7 {
        "7"
    } else if d == 8 {
        "8"
    } else {
        "9"
    };
    assert(r@ =~= seq![digit(d as nat)]);
    r
}

/// Writes a number in decimal.
pub fn decimal(n: u64) -> (r: String)
    ensures
        r@ == decimal_text(n as nat),
    decreases n,
{
    if n < 10 {
        String::from_str(digit_text(n))
    } else {
        let mut r = decimal(n / 10);
        r.append(digit_text(n % 10));
        assert(r@ =~= decimal_text((n / 10) as nat).push(digit((n % 10) as nat)));
        r
    }
}

/// A whole number written in decimal, with a minus sign where it is below
/// zero.
pub open spec fn signed_text(n: int) -> Seq<char> {
    if n < 0 {
        seq!['-'] + decimal_text((-n) as nat)
    } else {
        decimal_text(n as nat)
    }
}

/// Writes a whole number in decimal.
pub fn decimal_signed(n: i64) -> (r: String)
    ensures
        r@ == signed_text(n as int),
{
    if n < 0 {
        let magnitude: u64 = (-(n as i128)) as u64;
        let digits = decimal(magnitude);
        proof {
            reveal_strlit("-");
        }
        let r = concat2("-", digits.as_str());
        assert(r@ =~= seq!['-'] + decimal_text((-n) as nat));
        r
    } else {
        decimal(n as u64)
    }
}

/// Whether `needle` stands in `hay` starting at position `i`.
pub open spec fn occurs_at(hay: Seq<char>, needle: Seq<char>, i: int) -> bool {
    0 <= i && i + needle.len() <= hay.len() && hay.subrange(i, i + needle.len()) == needle
}

/// Whether `needle` stands somewhere in `hay`.
pub open spec fn occurs_in(hay: Seq<char>, needle: Seq<char>) -> bool {
    exists|i: int| occurs_at(hay, needle, i)
}

fn matches_at(hay: &Vec<char>, needle: &Vec<char>, i: usize) -> (r: bool)
    requires
        i + needle.len() <= hay.len(),
    ensures
        r == occurs_at(hay@, needle@, i as int),
{
    let mut k: usize = 0;
    while k < needle.len()
        invariant
            k <= needle.len(),
            i + needle.len() <= hay.len(),
            forall|j: int| 0 <= j < k ==> hay@[i + j] == needle@[j],
        decreases needle.len() - k,
    {
        if hay[i + k] != needle[k] {
            assert(hay@.subrange(i as int, i + needle.len())[k as int] == hay@[i + k]);
            return false;
        }
        k = k + 1;
    }
    assert(hay@.subrange(i as int, i + needle.len()) =~= needle@);
    true
}

/// Whether the text `needle` stands somewhere in the text `hay`.
pub fn contains_text(hay: &str, needle: &str) -> (r: bool)
    ensures
        r == occurs_in(hay@, needle@),
{
    let h = to_chars(hay);
    let n = to_chars(needle);
    if n.len() > h.len() {
        return false;
    }
    let last: usize = h.len() - n.len();
    let mut i: usize = 0;
    loop
        invariant
            i <= last,
            last == h.len() - n.len(),
            n.len() <= h.len(),
            h@ == hay@,
            n@ == needle@,
            forall|j: int| 0 <= j < i ==> !occurs_at(hay@, needle@, j),
        decreases last - i,
    {
        if matches_at(&h, &n, i) {
            return true;
        }
        if i == last {
            return false;
        }
        i = i + 1;
    }
}

/// Whether a character is white space: the blank, the controls from tab to
/// carriage return, next line, and the spaces and line separators beyond
/// the first 128 characters.
pub open spec fn is_space(c: char) -> bool {
    ||| c == ' '
    ||| ('\t' <= c && c <= '\r')
    ||| c == '\u{85}'
    ||| c == '\u{A0}'
    ||| c == '\u{1680}'
    ||| ('\u{2000}' <= c && c <= '\u{200A}')
    ||| c == '\u{2028}'
    ||| c == '\u{2029}'
    ||| c == '\u{202F}'
    ||| c == '\u{205F}'
    ||| c == '\u{3000}'
}

/// Tells white space from other characters.
pub fn space(c: char) -> (r: bool)
    ensures
        r == is_space(c),
{
    c == ' ' || ('\t' <= c && c <= '\r') || c == '\u{85}' || c == '\u{A0}' || c == '\u{1680}' || (
    '\u{2000}' <= c && c <= '\u{200A}') || c == '\u{2028}' || c == '\u{2029}' || c == '\u{202F}'
        || c == '\u{205F}' || c == '\u{3000}'
}

/// The first position from `from` on that holds no white space.
pub open spec fn skip_spaces(s: Seq<char>, from: nat) -> nat
    decreases s.len() - from,
{
    if from < s.len() && is_space(s[from as int]) {
        skip_spaces(s, from + 1)
    } else {
        from
    }
}

/// The end of `s` before `to` once the white space in front of `to` is
/// left off, but no further back than `from`.
pub open spec fn drop_spaces(s: Seq<char>, from: nat, to: nat) -> nat
    decreases to,
{
    if to > from && to <= s.len() && is_space(s[to - 1]) {
        drop_spaces(s, from, (to - 1) as nat)
    } else {
        to
    }
}

/// A text without the white space at its two ends.
pub open spec fn trimmed(s: Seq<char>) -> Seq<char> {
    let start = skip_spaces(s, 0);
    let end = drop_spaces(s, start, s.len());
    s.subrange(start as int, end as int)
}

/// Takes the white space off both ends of a text.
pub fn trim_text(s: &str) -> (r: String)
    ensures
        r@ == trimmed(s@),
{
    let chars = to_chars(s);
    let mut start: usize = 0;
    while start < chars.len() && space(chars[start])
        invariant
            start <= chars.len(),
            skip_spaces(chars@, 0) == skip_spaces(chars@, start as nat),
        decreases chars.len() - start,
    {
        start = start + 1;
    }
    let mut end: usize = chars.len();
    while end > start && space(chars[end - 1])
        invariant
            start <= end <= chars.len(),
            drop_spaces(chars@, start as nat, chars@.len()) == drop_spaces(
                chars@,
                start as nat,
                end as nat,
            ),
        decreases end,
    {
        end = end - 1;
    }
    String::from_str(s.substring_char(start, end))
}

/// The value of a decimal digit, and `None` for any other character.
pub open spec fn digit_value(c: char) -> Option<nat> {
    if '0' <= c && c <= '9' {
        Some((c as nat - '0' as nat) as nat)
    } else {
        None
    }
}

/// The number that a row of decimal digits stands for; `None` for the empty
/// text and for a text with anything but digits in it.
pub open spec fn digits_value(s: Seq<char>) -> Option<nat>
    decreases s.len(),
{
    if s.len() == 0 {
        None
    } else if s.len() == 1 {
        digit_value(s[0])
    } else {
        match (digits_value(s.drop_last()), digit_value(s.last())) {
            (Some(high), Some(low)) => Some(high * 10 + low),
            _ => None,
        }
    }
}

/// The number that a text stands for: decimal digits, with or without a
/// plus sign in front.
pub open spec fn unsigned_value(s: Seq<char>) -> Option<nat> {
    if s.len() > 0 && s[0] == '+' {
        digits_value(s.drop_first())
    } else {
        digits_value(s)
    }
}

/// A longer row of digits stands for no smaller a number than its beginning,
/// and is no number at all where its beginning is none.
proof fn lemma_digits_prefix(s: Seq<char>, k: int)
    requires
        1 <= k <= s.len(),
    ensures
        digits_value(s.take(k)) is None ==> digits_value(s) is None,
        digits_value(s) matches Some(v) ==> digits_value(s.take(k)) matches Some(p) && p <= v,
    decreases s.len(),
{
    if k == s.len() {
        assert(s.take(k) =~= s);
    } else {
        assert(s.drop_last().take(k) =~= s.take(k));
        lemma_digits_prefix(s.drop_last(), k);
    }
}

fn digit_of(c: char) -> (r: Option<u64>)
    ensures
        match r {
            Some(d) => digit_value(c) == Some(d as nat) && d < 10,
            None => digit_value(c) is None,
        },
{
    if c == '0' {
        Some(0)
    } else if c == '1' {
        Some(1)
    } else if c == '2' {
        Some(2)
    } else if c == '3' {
        Some(3)
    } else if c == '4' {
        Some(4)
    } else if c == '5' {
        Some(5)
    } else if c == '6' {
        Some(6)
    } else if c == '7' {
        Some(7)
    } else if c == '8' {
        Some(8)
    } else if c == '9' {
        Some(9)
    } else {
        None
    }
}

/// Reads a number as `unsigned_value` describes. `None` where the text is
/// no number or the number does not fit in 64 bits.
pub fn parse_u64(s: &str) -> (r: Option<u64>)
    ensures
        r == match unsigned_value(s@) {
            Some(v) => if v <= u64::MAX {
                Some(v as u64)
            } else {
                None
            },
            None => None,
        },
{
    let chars = to_chars(s);
    let first: usize = if chars.len() > 0 && chars[0] == '+' {
        1
    } else {
        0
    };
    let ghost digits = chars@.subrange(first as int, chars@.len() as int);
    proof {
        if first == 1 {
            assert(digits =~= s@.drop_first());
        } else {
            assert(digits =~= s@);
        }
    }
    if first == chars.len() {
        return None;
    }
    let mut value: u64 = 0;
    let mut i: usize = first;
    while i < chars.len()
        invariant
            first <= i <= chars.len(),
            first < chars.len(),
            digits == chars@.subrange(first as int, chars@.len() as int),
            unsigned_value(s@) == digits_value(digits),
            i > first ==> digits_value(digits.take(i - first)) == Some(value as nat),
            i == first ==> value == 0,
        decreases chars.len() - i,
    {
        let ghost seen = digits.take(i - first);
        let ghost next = digits.take(i + 1 - first);
        proof {
            assert(next.drop_last() =~= seen);
            assert(next.last() == chars@[i as int]);
            assert(next.len() == i + 1 - first);
            assert(digits_value(next) == if i == first {
                digit_value(chars@[i as int])
            } else {
                match digit_value(chars@[i as int]) {
                    Some(low) => Some(value as nat * 10 + low),
                    None => None,
                }
            });
            lemma_digits_prefix(digits, i + 1 - first);
        }
        match digit_of(chars[i]) {
            None => {
                return None;
            },
            Some(d) => {
                if value > (u64::MAX - d) / 10 {
                    assert(value * 10 + d > u64::MAX);
                    return None;
                }
                value = value * 10 + d;
            },
        }
        i = i + 1;
    }
    assert(digits.take(i - first) =~= digits);
    Some(value)
}

/// The position of the last `c` before `to`, if there is one.
pub open spec fn last_of(s: Seq<char>, c: char, to: nat) -> Option<int>
    decreases to,
{
    if to == 0 || to > s.len() {
        None
    } else if s[to - 1] == c {
        Some(to - 1)
    } else {
        last_of(s, c, (to - 1) as nat)
    }
}

/// Finds the last `c` before `to`.
pub(crate) fn find_last(chars: &Vec<char>, c: char, to: usize) -> (r: Option<usize>)
    requires
        to <= chars.len(),
    ensures
        match r {
            Some(k) => last_of(chars@, c, to as nat) == Some(k as int) && k < to,
            None => last_of(chars@, c, to as nat) is None,
        },
{
    let mut at: usize = to;
    while at > 0 && chars[at - 1] != c
        invariant
            at <= to <= chars.len(),
            last_of(chars@, c, to as nat) == last_of(chars@, c, at as nat),
        decreases at,
    {
        at = at - 1;
    }
    if at == 0 {
        None
    } else {
        Some(at - 1)
    }
}

/// Where a path ends once the separators and the `.` components at its
/// end are left off, which name nothing: the length of what is left of its
/// first `to` characters.
pub open spec fn path_end(path: Seq<char>, to: nat) -> nat
    decreases to,
{
    if to == 0 || to > path.len() {
        0
    } else if path[to - 1] == '/' {
        path_end(path, (to - 1) as nat)
    } else if to >= 2 && path[to - 1] == '.' && path[to - 2] == '/' {
        path_end(path, (to - 2) as nat)
    } else {
        to
    }
}

/// Finds where the first `to` characters of a path end.
fn find_end(chars: &Vec<char>, to: usize) -> (r: usize)
    requires
        to <= chars.len(),
    ensures
        r == path_end(chars@, to as nat),
        r <= to,
{
    let mut at: usize = to;
    loop
        invariant
            at <= to <= chars.len(),
            path_end(chars@, to as nat) == path_end(chars@, at as nat),
        decreases at,
    {
        if at == 0 {
            return 0;
        }
        if chars[at - 1] == '/' {
            at = at - 1;
        } else if at >= 2 && chars[at - 1] == '.' && chars[at - 2] == '/' {
            at = at - 2;
        } else {
            return at;
        }
    }
}

/// The directory that holds `path`: the path without its last component
/// and without the separators on either side of it. That is the root for
/// an entry of the root and the empty path for a bare name. The root and
/// the empty path have none.
pub open spec fn parent_of(path: Seq<char>) -> Option<Seq<char>> {
    let end = path_end(path, path.len());
    if end == 0 {
        None
    } else {
        match last_of(path, '/', end) {
            None => Some(Seq::empty()),
            Some(k) => {
                let above = path_end(path, k as nat);
                if above == 0 {
                    Some(seq!['/'])
                } else {
                    Some(path.subrange(0, above as int))
                }
            },
        }
    }
}

/// The directory that holds `path`.
pub fn parent_dir(path: &str) -> (r: Option<String>)
    ensures
        match r {
            Some(p) => parent_of(path@) == Some(p@),
            None => parent_of(path@) is None,
        },
{
    let chars = to_chars(path);
    let end = find_end(&chars, chars.len());
    if end == 0 {
        return None;
    }
    match find_last(&chars, '/', end) {
        None => Some(String::new()),
        Some(k) => {
            let above = find_end(&chars, k);
            if above == 0 {
                proof {
                    reveal_strlit("/");
                }
                let root = String::from_str("/");
                assert(root@ =~= seq!['/']);
                Some(root)
            } else {
                Some(String::from_str(path.substring_char(0, above)))
            }
        },
    }
}

/// The last component of a path: what stands behind the last `/` of the
/// path once the separators and the `.` components at its end are left
/// off. The root, the empty path and a path that ends in `..` or is no
/// more than `.` name no file.
pub open spec fn file_name_of(path: Seq<char>) -> Option<Seq<char>> {
    let end = path_end(path, path.len());
    let start = match last_of(path, '/', end) {
        Some(k) => k + 1,
        None => 0,
    };
    let name = path.subrange(start, end as int);
    if end == 0 || name == seq!['.'] || name == seq!['.', '.'] {
        None
    } else {
        Some(name)
    }
}

/// The last component of a path.
pub fn file_name(path: &str) -> (r: Option<String>)
    ensures
        match r {
            Some(name) => file_name_of(path@) == Some(name@),
            None => file_name_of(path@) is None,
        },
{
    let chars = to_chars(path);
    let end = find_end(&chars, chars.len());
    if end == 0 {
        return None;
    }
    let start: usize = match find_last(&chars, '/', end) {
        Some(k) => k + 1,
        None => 0,
    };
    let len = end - start;
    let ghost name = path@.subrange(start as int, end as int);
    if len == 1 && chars[start] == '.' {
        assert(name =~= seq!['.']);
        return None;
    }
    if len == 2 && chars[start] == '.' && chars[start + 1] == '.' {
        assert(name =~= seq!['.', '.']);
        return None;
    }
    proof {
        if name == seq!['.'] {
            assert(name.len() == 1 && name[0] == '.');
        }
        if name == seq!['.', '.'] {
            assert(name.len() == 2 && name[0] == '.' && name[1] == '.');
        }
    }
    Some(String::from_str(path.substring_char(start, end)))
}

/// The position of the `.` that sets the extension of a file name apart:
/// its last one, unless that is the first character of the name.
pub open spec fn extension_dot(name: Seq<char>) -> Option<int> {
    match last_of(name, '.', name.len()) {
        Some(k) => if k == 0 {
            None
        } else {
            Some(k)
        },
        None => None,
    }
}

/// A file name without its extension.
pub open spec fn stem_of(name: Seq<char>) -> Seq<char> {
    match extension_dot(name) {
        Some(k) => name.subrange(0, k),
        None => name,
    }
}

/// The extension of a file name, without the `.` before it.
pub open spec fn extension_of(name: Seq<char>) -> Option<Seq<char>> {
    match extension_dot(name) {
        Some(k) => Some(name.subrange(k + 1, name.len() as int)),
        None => None,
    }
}

/// Takes the extension off a file name.
pub fn file_stem(name: &str) -> (r: String)
    ensures
        r@ == stem_of(name@),
{
    let chars = to_chars(name);
    match find_last(&chars, '.', chars.len()) {
        Some(k) => {
            if k == 0 {
                String::from_str(name)
            } else {
                String::from_str(name.substring_char(0, k))
            }
        },
        None => String::from_str(name),
    }
}

/// The extension of a file name.
pub fn file_extension(name: &str) -> (r: Option<String>)
    ensures
        match r {
            Some(e) => extension_of(name@) == Some(e@),
            None => extension_of(name@) is None,
        },
{
    let chars = to_chars(name);
    match find_last(&chars, '.', chars.len()) {
        Some(k) => {
            if k == 0 {
                None
            } else {
                Some(String::from_str(name.substring_char(k + 1, chars.len())))
            }
        },
        None => None,
    }
}

/// The first position from `from` on that holds no `/`.
pub open spec fn skip_slashes(s: Seq<char>, from: nat) -> nat
    decreases s.len() - from,
{
    if from < s.len() && s[from as int] == '/' {
        skip_slashes(s, from + 1)
    } else {
        from
    }
}

/// A path without the separators at its start, which makes it relative.
pub open spec fn relative(path: Seq<char>) -> Seq<char> {
    path.subrange(skip_slashes(path, 0) as int, path.len() as int)
}

/// Takes the separators off the start of a path.
pub fn make_relative(path: &str) -> (r: String)
    ensures
        r@ == relative(path@),
{
    let chars = to_chars(path);
    let mut start: usize = 0;
    while start < chars.len() && chars[start] == '/'
        invariant
            start <= chars.len(),
            skip_slashes(chars@, 0) == skip_slashes(chars@, start as nat),
        decreases chars.len() - start,
    {
        start = start + 1;
    }
    String::from_str(path.substring_char(start, chars.len()))
}

/// One text after another.
pub fn concat2(a: &str, b: &str) -> (r: String)
    ensures
        r@ == a@ + b@,
{
    let mut r = String::from_str(a);
    r.append(b);
    r
}

/// Three texts one after another.
pub fn concat3(a: &str, b: &str, c: &str) -> (r: String)
    ensures
        r@ == a@ + b@ + c@,
{
    let mut r = String::from_str(a);
    r.append(b);
    r.append(c);
    r
}

/// The first `upto` texts of a list written one after another, with `sep`
/// between each two.
pub open spec fn joined_with(list: Seq<Seq<char>>, sep: Seq<char>, upto: nat) -> Seq<char>
    decreases upto,
{
    if upto == 0 || upto > list.len() {
        Seq::empty()
    } else if upto == 1 {
        list[0]
    } else {
        joined_with(list, sep, (upto - 1) as nat) + sep + list[upto - 1]
    }
}

/// Writes the texts of a list one after another, with `sep` between each
/// two.
pub fn join_texts(list: &Vec<String>, sep: &str) -> (r: String)
    ensures
        r@ == joined_with(texts(list@), sep@, list@.len()),
{
    let mut r = String::new();
    let mut i: usize = 0;
    while i < list.len()
        invariant
            i <= list.len(),
            r@ == joined_with(texts(list@), sep@, i as nat),
        decreases list.len() - i,
    {
        assert(texts(list@)[i as int] == list@[i as int]@);
        if i > 0 {
            r.append(sep);
        }
        r.append(list[i].as_str());
        assert(r@ =~= joined_with(texts(list@), sep@, (i + 1) as nat));
        i = i + 1;
    }
    r
}

/// Whether `s` can name an entry of a directory: it is not empty, holds no
/// separator and is neither `.` nor `..`.
pub open spec fn is_name(s: Seq<char>) -> bool {
    &&& s.len() > 0
    &&& forall|i: int| 0 <= i < s.len() ==> s[i] != '/'
    &&& s != seq!['.']
    &&& s != seq!['.', '.']
}

/// Whether `s` can name an entry of a directory.
pub fn names_entry(s: &str) -> (r: bool)
    ensures
        r == is_name(s@),
{
    let chars = to_chars(s);
    if chars.len() == 0 {
        return false;
    }
    if chars.len() == 1 && chars[0] == '.' {
        assert(s@ =~= seq!['.']);
        return false;
    }
    if chars.len() == 2 && chars[0] == '.' && chars[1] == '.' {
        assert(s@ =~= seq!['.', '.']);
        return false;
    }
    proof {
        if s@ == seq!['.'] {
            assert(s@.len() == 1 && s@[0] == '.');
        }
        if s@ == seq!['.', '.'] {
            assert(s@.len() == 2 && s@[0] == '.' && s@[1] == '.');
        }
    }
    let mut i: usize = 0;
    while i < chars.len()
        invariant
            i <= chars.len(),
            chars@ == s@,
            forall|j: int| 0 <= j < i ==> s@[j] != '/',
        decreases chars.len() - i,
    {
        if chars[i] == '/' {
            return false;
        }
        i = i + 1;
    }
    true
}

/// A path as it stands once the separators and the `.` components at its
/// end are left off; of the root, the root.
pub open spec fn trimmed_path(path: Seq<char>) -> Seq<char> {
    let end = path_end(path, path.len());
    if end > 0 {
        path.subrange(0, end as int)
    } else if path.len() > 0 {
        seq!['/']
    } else {
        Seq::empty()
    }
}

/// Leaves the separators and the `.` components at the end of a path off.
pub fn trim_path(path: &str) -> (r: String)
    ensures
        r@ == trimmed_path(path@),
{
    let chars = to_chars(path);
    let end = find_end(&chars, chars.len());
    if end > 0 {
        String::from_str(path.substring_char(0, end))
    } else if chars.len() > 0 {
        proof {
            reveal_strlit("/");
        }
        let root = String::from_str("/");
        assert(root@ =~= seq!['/']);
        root
    } else {
        String::new()
    }
}

/// A bare name is an entry of the directory it is read in: it is its own
/// file name, and nothing stands above it.
pub proof fn lemma_name_stands_alone(name: Seq<char>)
    requires
        is_name(name),
    ensures
        file_name_of(name) == Some(name),
        parent_of(name) == Some(Seq::<char>::empty()),
{
    assert(joined(Seq::<char>::empty(), name) =~= name);
    lemma_joined_is_an_entry(Seq::empty(), name);
}

/// A name joined to a directory is an entry of that directory: the name is
/// the file name of the joined path, and the directory stands above it.
pub proof fn lemma_joined_is_an_entry(dir: Seq<char>, name: Seq<char>)
    requires
        is_name(name),
    ensures
        file_name_of(joined(dir, name)) == Some(name),
        parent_of(joined(dir, name)) == Some(trimmed_path(dir)),
{
    let path = joined(dir, name);
    let n = (path.len() - name.len()) as nat;
    assert(name[0] != '/');
    assert(forall|i: int| 0 <= i < name.len() ==> path[n + i] == name[i]);
    assert(path.subrange(n as int, path.len() as int) =~= name);
    assert(path[path.len() - 1] == name[name.len() - 1]);
    if name.len() == 1 {
        if name[0] == '.' {
            assert(name =~= seq!['.']);
        }
    } else {
        assert(path[path.len() - 2] == name[name.len() - 2]);
    }
    assert(path_end(path, path.len()) == path.len());
    lemma_last_of_skips(path, '/', n, path.len());
    if n == 0 {
        assert(dir.len() == 0);
        assert(last_of(path, '/', 0) is None);
    } else {
        assert(path[n - 1] == '/');
        assert(last_of(path, '/', n) == Some(n - 1));
        if dir.last() == '/' {
            assert(n == dir.len());
            lemma_path_end_of_prefix(dir, path, (n - 1) as nat);
            assert(path_end(dir, dir.len()) == path_end(dir, (n - 1) as nat));
        } else {
            assert(n == dir.len() + 1);
            lemma_path_end_of_prefix(dir, path, dir.len());
        }
        let above = path_end(dir, dir.len());
        lemma_path_end_bound(dir, dir.len());
        assert(path.subrange(0, above as int) =~= dir.subrange(0, above as int));
    }
}

proof fn lemma_last_of_skips(s: Seq<char>, c: char, from: nat, to: nat)
    requires
        from <= to <= s.len(),
        forall|i: int| from <= i < to ==> s[i] != c,
    ensures
        last_of(s, c, to) == last_of(s, c, from),
    decreases to,
{
    if from < to {
        lemma_last_of_skips(s, c, from, (to - 1) as nat);
    }
}

/// A path that ends in a name has a directory above it.
pub proof fn lemma_named_has_parent(path: Seq<char>)
    requires
        path.len() > 0,
        path.last() != '/',
        path.last() != '.',
    ensures
        parent_of(path) is Some,
        path_end(path, path.len()) == path.len(),
{
}

/// Separators at the end of a path change neither the file it names nor
/// the directory above it.
pub proof fn lemma_trailing_separator_is_idle(path: Seq<char>)
    ensures
        file_name_of(path.push('/')) == file_name_of(path),
        parent_of(path.push('/')) == parent_of(path),
{
    let longer = path.push('/');
    assert(longer.len() == path.len() + 1);
    assert(longer[longer.len() - 1] == '/');
    lemma_path_end_of_prefix(path, longer, path.len());
    assert(path_end(longer, longer.len()) == path_end(path, path.len()));
    let end = path_end(path, path.len());
    lemma_path_end_bound(path, path.len());
    lemma_last_of_prefix(path, longer, '/', end);
    match last_of(path, '/', end) {
        Some(k) => {
            lemma_last_of_bound(path, '/', end);
            lemma_path_end_of_prefix(path, longer, k as nat);
            lemma_path_end_bound(path, k as nat);
            assert(longer.subrange(0, path_end(path, k as nat) as int) =~= path.subrange(
                0,
                path_end(path, k as nat) as int,
            ));
            assert(longer.subrange(k + 1, end as int) =~= path.subrange(k + 1, end as int));
        },
        None => {
            assert(longer.subrange(0, end as int) =~= path.subrange(0, end as int));
        },
    }
}

proof fn lemma_path_end_bound(path: Seq<char>, to: nat)
    ensures
        path_end(path, to) <= to,
        path_end(path, to) <= path.len(),
    decreases to,
{
    if to == 0 || to > path.len() {
    } else if path[to - 1] == '/' {
        lemma_path_end_bound(path, (to - 1) as nat);
    } else if to >= 2 && path[to - 1] == '.' && path[to - 2] == '/' {
        lemma_path_end_bound(path, (to - 2) as nat);
    }
}

proof fn lemma_path_end_of_prefix(path: Seq<char>, longer: Seq<char>, to: nat)
    requires
        to <= path.len() <= longer.len(),
        forall|i: int| 0 <= i < path.len() ==> longer[i] == path[i],
    ensures
        path_end(longer, to) == path_end(path, to),
    decreases to,
{
    if to == 0 {
    } else if path[to - 1] == '/' {
        lemma_path_end_of_prefix(path, longer, (to - 1) as nat);
    } else if to >= 2 && path[to - 1] == '.' && path[to - 2] == '/' {
        lemma_path_end_of_prefix(path, longer, (to - 2) as nat);
    }
}

proof fn lemma_last_of_prefix(path: Seq<char>, longer: Seq<char>, c: char, to: nat)
    requires
        to <= path.len() <= longer.len(),
        forall|i: int| 0 <= i < path.len() ==> longer[i] == path[i],
    ensures
        last_of(longer, c, to) == last_of(path, c, to),
    decreases to,
{
    if to > 0 && path[to - 1] != c {
        lemma_last_of_prefix(path, longer, c, (to - 1) as nat);
    }
}

proof fn lemma_last_of_bound(s: Seq<char>, c: char, to: nat)
    ensures
        last_of(s, c, to) matches Some(k) ==> 0 <= k < to && k < s.len() && s[k] == c,
    decreases to,
{
    if to > 0 && to <= s.len() && s[to - 1] != c {
        lemma_last_of_bound(s, c, (to - 1) as nat);
    }
}

/// Appends a copy of `s` to a list of strings.
pub fn push_text(list: &mut Vec<String>, s: &str)
    ensures
        texts(final(list)@) == texts(old(list)@).push(s@),
{
    list.push(String::from_str(s));
    assert(texts(list@) =~= texts(old(list)@).push(s@));
}

} // verus!
