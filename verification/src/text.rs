//! Operations on strings, stated over sequences of characters.

use vstd::prelude::*;
use vstd::string::*;
use vstd::utf8::*;

verus! {

/// Whether two strings hold the same characters.
pub fn str_eq(a: &str, b: &str) -> (r: bool)
    ensures
        r == (a@ == b@),
{
    let x = a.as_bytes();
    let y = b.as_bytes();
    proof {
        encode_utf8_decode_utf8(a@);
        encode_utf8_decode_utf8(b@);
    }
    if x.len() != y.len() {
        return false;
    }
    for i in 0..x.len()
        invariant
            x@ == encode_utf8(a@),
            y@ == encode_utf8(b@),
            x.len() == y.len(),
            forall|j: int| 0 <= j < i ==> x@[j] == y@[j],
    {
        if x[i] != y[i] {
            return false;
        }
    }
    assert(x@ =~= y@);
    true
}

/// The characters of a string.
pub fn chars_of(s: &str) -> (v: Vec<char>)
    ensures
        v@ == s@,
{
    let mut v: Vec<char> = Vec::new();
    for c in it: s.chars()
        invariant
            v@ == it.seq().take(it.index() as int),
            it.seq() == s@,
    {
        v.push(c);
        assert(it.seq().take(it.index() + 1) =~= it.seq().take(it.index() as int).push(c));
    }
    assert(v@ =~= s@);
    v
}

/// Two strings, one after the other.
pub fn joined(a: &str, b: &str) -> (r: String)
    ensures
        r@ == a@ + b@,
{
    a.to_owned().concat(b)
}

/// Three strings, one after the other.
pub fn joined3(a: &str, b: &str, c: &str) -> (r: String)
    ensures
        r@ == a@ + b@ + c@,
{
    a.to_owned().concat(b).concat(c)
}

/// `pat` stands in `s` at position `i`.
pub open spec fn occurs_at(s: Seq<char>, pat: Seq<char>, i: int) -> bool {
    0 <= i && i + pat.len() <= s.len() && s.subrange(i, i + pat.len()) == pat
}

/// `i` is the first position at which `pat` stands in `s`.
pub open spec fn first_at(s: Seq<char>, pat: Seq<char>, i: int) -> bool {
    occurs_at(s, pat, i) && forall|j: int| 0 <= j < i ==> !occurs_at(s, pat, j)
}

/// What stands before and after the first occurrence of `pat`.
pub open spec fn split_at_first(s: Seq<char>, pat: Seq<char>) -> Option<(Seq<char>, Seq<char>)> {
    if exists|i: int| first_at(s, pat, i) {
        let i = choose|i: int| first_at(s, pat, i);
        Some((s.take(i), s.skip(i + pat.len())))
    } else {
        None
    }
}

/// The model of an optional pair of strings.
pub open spec fn opt_pair(p: Option<(&str, &str)>) -> Option<(Seq<char>, Seq<char>)> {
    match p {
        Some((a, b)) => Some((a@, b@)),
        None => None,
    }
}

/// The first occurrence is where a text is split.
pub proof fn lemma_split_at(s: Seq<char>, pat: Seq<char>, i: int)
    requires
        first_at(s, pat, i),
    ensures
        split_at_first(s, pat) == Some((s.take(i), s.skip(i + pat.len()))),
{
    let k = choose|k: int| first_at(s, pat, k);
    assert(first_at(s, pat, k));
    if k < i {
        assert(!occurs_at(s, pat, k));
    } else if i < k {
        assert(!occurs_at(s, pat, i));
    }
}

/// Whether `pat` stands in `s` at position `i`.
fn stands_at(s: &Vec<char>, pat: &Vec<char>, i: usize) -> (r: bool)
    requires
        i + pat.len() <= s.len(),
    ensures
        r == occurs_at(s@, pat@, i as int),
{
    for j in 0..pat.len()
        invariant
            i + pat.len() <= s.len(),
            forall|k: int| 0 <= k < j ==> s@[i + k] == pat@[k],
    {
        if s[i + j] != pat[j] {
            assert(s@.subrange(i as int, i + pat@.len())[j as int] != pat@[j as int]);
            return false;
        }
    }
    assert(s@.subrange(i as int, i + pat@.len()) =~= pat@);
    true
}

/// Splits at the first occurrence of `pat`.
pub fn split_once<'a>(s: &'a str, pat: &str) -> (r: Option<(&'a str, &'a str)>)
    ensures
        opt_pair(r) == split_at_first(s@, pat@),
{
    let cs = chars_of(s);
    let ps = chars_of(pat);
    if ps.len() > cs.len() {
        assert(forall|i: int| !occurs_at(s@, pat@, i));
        return None;
    }
    let last: usize = cs.len() - ps.len();
    let mut i: usize = 0;
    while i <= last
        invariant
            cs@ == s@,
            ps@ == pat@,
            last + ps.len() == cs.len(),
            forall|j: int| 0 <= j < i ==> !occurs_at(s@, pat@, j),
        ensures
            forall|j: int| 0 <= j <= last ==> !occurs_at(s@, pat@, j),
        decreases last + 1 - i,
    {
        if stands_at(&cs, &ps, i) {
            proof {
                lemma_split_at(s@, pat@, i as int);
            }
            let head = s.substring_char(0, i);
            let tail = s.substring_char(i + ps.len(), cs.len());
            assert(head@ =~= s@.take(i as int));
            assert(tail@ =~= s@.skip(i + pat@.len()));
            return Some((head, tail));
        }
        if i == last {
            break;
        }
        i = i + 1;
    }
    assert forall|j: int| !first_at(s@, pat@, j) by {
        if occurs_at(s@, pat@, j) {
            assert(j <= last);
        }
    }
    None
}

/// Whether `s` begins with `prefix`.
pub fn starts_with(s: &str, prefix: &str) -> (r: bool)
    ensures
        r == prefix@.is_prefix_of(s@),
{
    let cs = chars_of(s);
    let ps = chars_of(prefix);
    if ps.len() > cs.len() {
        return false;
    }
    let r = stands_at(&cs, &ps, 0);
    assert(s@.subrange(0, prefix@.len() as int) =~= s@.take(prefix@.len() as int));
    r
}

/// The characters with the Unicode property White_Space.
pub open spec fn is_white(c: char) -> bool {
    ||| '\u{9}' <= c <= '\u{d}'
    ||| c == ' '
    ||| c == '\u{85}'
    ||| c == '\u{a0}'
    ||| c == '\u{1680}'
    ||| '\u{2000}' <= c <= '\u{200a}'
    ||| c == '\u{2028}'
    ||| c == '\u{2029}'
    ||| c == '\u{202f}'
    ||| c == '\u{205f}'
    ||| c == '\u{3000}'
}

fn white(c: char) -> (r: bool)
    ensures
        r == is_white(c),
{
    ('\u{9}' <= c && c <= '\u{d}') || c == ' ' || c == '\u{85}' || c == '\u{a0}' || c == '\u{1680}'
        || ('\u{2000}' <= c && c <= '\u{200a}') || c == '\u{2028}' || c == '\u{2029}' || c
        == '\u{202f}' || c == '\u{205f}' || c == '\u{3000}'
}

/// `s` without the white space at its end.
pub open spec fn trimmed_end(s: Seq<char>) -> Seq<char>
    decreases s.len(),
{
    if s.len() > 0 && is_white(s.last()) {
        trimmed_end(s.drop_last())
    } else {
        s
    }
}

/// `s` without the white space at its start.
pub open spec fn trimmed_start(s: Seq<char>) -> Seq<char>
    decreases s.len(),
{
    if s.len() > 0 && is_white(s[0]) {
        trimmed_start(s.skip(1))
    } else {
        s
    }
}

/// `s` without the white space at either end.
pub open spec fn trimmed(s: Seq<char>) -> Seq<char> {
    trimmed_start(trimmed_end(s))
}

/// The text without the white space at its end.
pub fn trim_end(s: &str) -> (r: &str)
    ensures
        r@ == trimmed_end(s@),
{
    let cs = chars_of(s);
    let mut n: usize = cs.len();
    assert(cs@.take(n as int) =~= cs@);
    while n > 0 && white(cs[n - 1])
        invariant
            cs@ == s@,
            n <= cs.len(),
            trimmed_end(s@.take(n as int)) == trimmed_end(s@),
        decreases n,
    {
        assert(s@.take(n as int).drop_last() =~= s@.take(n - 1));
        n = n - 1;
    }
    let r = s.substring_char(0, n);
    assert(r@ =~= s@.take(n as int));
    r
}

/// The text without the white space at its start.
pub fn trim_start(s: &str) -> (r: &str)
    ensures
        r@ == trimmed_start(s@),
{
    let cs = chars_of(s);
    let mut n: usize = 0;
    assert(cs@.skip(0) =~= cs@);
    while n < cs.len() && white(cs[n])
        invariant
            cs@ == s@,
            n <= cs.len(),
            trimmed_start(s@.skip(n as int)) == trimmed_start(s@),
        decreases cs.len() - n,
    {
        assert(s@.skip(n as int).skip(1) =~= s@.skip(n + 1));
        n = n + 1;
    }
    let r = s.substring_char(n, cs.len());
    assert(r@ =~= s@.skip(n as int));
    r
}

/// The text without the white space around it.
pub fn trim(s: &str) -> (r: &str)
    ensures
        r@ == trimmed(s@),
{
    trim_start(trim_end(s))
}

/// ASCII letters in lower case, every other character unchanged.
pub open spec fn ascii_lower(c: char) -> char {
    if 'A' <= c <= 'Z' {
        (c as u32 + 32) as char
    } else {
        c
    }
}

/// Equality up to the case of ASCII letters.
pub open spec fn same_ignoring_case(a: Seq<char>, b: Seq<char>) -> bool {
    a.len() == b.len() && forall|i: int|
        0 <= i < a.len() ==> ascii_lower(#[trigger] a[i]) == ascii_lower(b[i])
}

fn lower(c: char) -> (r: u32)
    ensures
        r == ascii_lower(c) as u32,
{
    if 'A' <= c && c <= 'Z' {
        c as u32 + 32
    } else {
        c as u32
    }
}

/// Compares two texts, with no regard to the case of ASCII letters.
pub fn eq_ignore_ascii_case(a: &str, b: &str) -> (r: bool)
    ensures
        r == same_ignoring_case(a@, b@),
{
    let x = chars_of(a);
    let y = chars_of(b);
    if x.len() != y.len() {
        return false;
    }
    for i in 0..x.len()
        invariant
            x@ == a@,
            y@ == b@,
            x.len() == y.len(),
            forall|j: int| 0 <= j < i ==> ascii_lower(#[trigger] a@[j]) == ascii_lower(b@[j]),
    {
        if lower(x[i]) != lower(y[i]) {
            return false;
        }
    }
    true
}

/// What `str::to_lowercase` makes of a text.
pub uninterp spec fn lowercase_text(s: Seq<char>) -> Seq<char>;

/// Every character is an ASCII character.
pub open spec fn all_ascii(s: Seq<char>) -> bool {
    forall|i: int| 0 <= i < s.len() ==> #[trigger] s[i] <= '\u{7f}'
}

/// Calls `str::to_lowercase`. The result depends on the text alone. In a text of
/// ASCII characters alone the letters are put in lower case, and all else stays
/// as it is; what becomes of other characters is left to Unicode.
#[verifier::external_body]
pub(crate) fn to_lowercase(s: &str) -> (r: String)
    ensures
        r@ == lowercase_text(s@),
        all_ascii(s@) ==> r@ == s@.map_values(|c: char| ascii_lower(c)),
{
    s.to_lowercase()
}

pub open spec fn is_digit(c: char) -> bool {
    '0' <= c <= '9'
}

pub open spec fn all_digits(s: Seq<char>) -> bool {
    forall|i: int| 0 <= i < s.len() ==> is_digit(#[trigger] s[i])
}

/// The number that a run of digits writes.
pub open spec fn digits_value(s: Seq<char>) -> nat
    decreases s.len(),
{
    if s.len() == 0 {
        0
    } else {
        (10 * digits_value(s.drop_last()) + (s.last() as nat - '0' as nat)) as nat
    }
}

/// The number that `s` writes, if `s` is made of digits alone.
pub open spec fn written(s: Seq<char>) -> Option<nat> {
    if s.len() > 0 && all_digits(s) {
        Some(digits_value(s))
    } else {
        None
    }
}

/// The integer that `s` writes: an optional sign, then digits.
pub open spec fn integer_text(s: Seq<char>) -> Option<int> {
    if s.len() > 0 && s[0] == '-' {
        match written(s.skip(1)) {
            Some(n) => Some(-(n as int)),
            None => None,
        }
    } else if s.len() > 0 && s[0] == '+' {
        match written(s.skip(1)) {
            Some(n) => Some(n as int),
            None => None,
        }
    } else {
        match written(s) {
            Some(n) => Some(n as int),
            None => None,
        }
    }
}

/// Numbers from here on are too large for every integer type that is parsed.
pub const TOO_LARGE: u128 = 0x1_0000_0000_0000_0000;

/// The digits from position `from` on, as a number that stops at `TOO_LARGE`.
fn read_digits(cs: &Vec<char>, from: usize) -> (r: Option<u128>)
    requires
        from <= cs.len(),
    ensures
        match (r, written(cs@.skip(from as int))) {
            (Some(v), Some(n)) => v == (if n < TOO_LARGE {
                n as int
            } else {
                TOO_LARGE as int
            }),
            (None, None) => true,
            _ => false,
        },
{
    let ghost body = cs@.skip(from as int);
    if from == cs.len() {
        return None;
    }
    let mut acc: u128 = 0;
    for i in from..cs.len()
        invariant
            from < cs.len(),
            body == cs@.skip(from as int),
            all_digits(body.take(i - from)),
            acc == (if digits_value(body.take(i - from)) < TOO_LARGE {
                digits_value(body.take(i - from)) as int
            } else {
                TOO_LARGE as int
            }),
            acc <= TOO_LARGE,
    {
        let c = cs[i];
        assert(body[i - from] == c);
        assert(body.take(i - from + 1).drop_last() =~= body.take(i - from));
        if c < '0' || c > '9' {
            assert(!is_digit(body[i - from]));
            return None;
        }
        let d: u128 = (c as u32 - '0' as u32) as u128;
        acc = 10 * acc + d;
        if acc > TOO_LARGE {
            acc = TOO_LARGE;
        }
    }
    assert(body.take(cs.len() - from) =~= body);
    Some(acc)
}

/// What `s` writes, if it is an `i64`.
pub open spec fn i64_text(s: Seq<char>) -> Option<i64> {
    match integer_text(s) {
        Some(v) => if i64::MIN <= v <= i64::MAX {
            Some(v as i64)
        } else {
            None
        },
        None => None,
    }
}

/// Reads a signed decimal number.
pub fn parse_i64(s: &str) -> (r: Option<i64>)
    ensures
        r == i64_text(s@),
{
    let cs = chars_of(s);
    if cs.len() > 0 && cs[0] == '-' {
        match read_digits(&cs, 1) {
            Some(n) => if n <= 0x8000_0000_0000_0000 {
                Some((0 - n as i128) as i64)
            } else {
                None
            },
            None => None,
        }
    } else {
        let from: usize = if cs.len() > 0 && cs[0] == '+' {
            1
        } else {
            0
        };
        assert(cs@.skip(0) =~= cs@);
        match read_digits(&cs, from) {
            Some(n) => if n <= 0x7fff_ffff_ffff_ffff {
                Some(n as i64)
            } else {
                None
            },
            None => None,
        }
    }
}

/// What `s` writes, if it is a `u32`: no minus sign is allowed.
pub open spec fn u32_text(s: Seq<char>) -> Option<u32> {
    match integer_text(s) {
        Some(v) => if (s.len() == 0 || s[0] != '-') && v <= u32::MAX {
            Some(v as u32)
        } else {
            None
        },
        None => None,
    }
}

/// Reads an unsigned decimal number.
pub fn parse_u32(s: &str) -> (r: Option<u32>)
    ensures
        r == u32_text(s@),
{
    let cs = chars_of(s);
    if cs.len() > 0 && cs[0] == '-' {
        return None;
    }
    let from: usize = if cs.len() > 0 && cs[0] == '+' {
        1
    } else {
        0
    };
    assert(cs@.skip(0) =~= cs@);
    match read_digits(&cs, from) {
        Some(n) => if n <= 0xffff_ffff {
            Some(n as u32)
        } else {
            None
        },
        None => None,
    }
}

/// The decimal digits of a number.
pub open spec fn decimal(n: nat) -> Seq<char>
    decreases n,
{
    if n < 10 {
        seq![('0' as nat + n) as char]
    } else {
        decimal(n / 10).push(('0' as nat + n % 10) as char)
    }
}

/// An integer in decimal, with a minus sign if it is negative.
pub open spec fn int_text(i: int) -> Seq<char> {
    if i < 0 {
        seq!['-'] + decimal((-i) as nat)
    } else {
        decimal(i as nat)
    }
}

fn digit_text(d: u64) -> (r: &'static str)
    requires
        d < 10,
    ensures
        r@ == seq![('0' as nat + d as nat) as char],
{
    proof {
        reveal_strlit("0");
        reveal_strlit("1");
        reveal_strlit("2");
        reveal_strlit("3");
        reveal_strlit("4");
        reveal_strlit("5");
        reveal_strlit("6");
        reveal_strlit("7");
        reveal_strlit("8");
        reveal_strlit("9");
    }
    if d == 0 {
        "0"
    } else if d == 1 {
        "1"
    } else if d == 2 {
        "2"
    } else if d == 3 {
        "3"
    } else if d == 4 {
        "4"
    } else if d == 5 {
        "5"
    } else if d == 6 {
        "6"
    } else if d == 7 {
        "7"
    } else if d == 8 {
        "8"
    } else {
        "9"
    }
}

/// Writes a number in decimal digits.
pub fn u64_to_text(n: u64) -> (r: String)
    ensures
        r@ == decimal(n as nat),
    decreases n,
{
    if n < 10 {
        digit_text(n).to_owned()
    } else {
        let head = u64_to_text(n / 10);
        let tail = digit_text(n % 10);
        let r = head.concat(tail);
        assert(r@ =~= decimal(n as nat));
        r
    }
}

/// Writes a number in decimal digits, with a minus sign where it is negative.
pub fn i64_to_text(i: i64) -> (r: String)
    ensures
        r@ == int_text(i as int),
{
    if i < 0 {
        let n: u64 = (0 - i as i128) as u64;
        proof {
            reveal_strlit("-");
        }
        assert("-"@ =~= seq!['-']);
        joined("-", u64_to_text(n).as_str())
    } else {
        u64_to_text(i as u64)
    }
}

/// Reading the decimal digits of a number gives the number back.
pub proof fn decimal_reads_back(n: nat)
    ensures
        written(decimal(n)) == Some(n),
        decimal(n)[0] != '-',
        decimal(n)[0] != '+',
    decreases n,
{
    if n < 10 {
        let s = decimal(n);
        assert(s.drop_last() =~= Seq::<char>::empty());
        assert(digits_value(s.drop_last()) == 0);
    } else {
        decimal_reads_back(n / 10);
        let s = decimal(n);
        assert(s.drop_last() =~= decimal(n / 10));
        assert(s[0] == decimal(n / 10)[0]);
    }
}

/// Parsing the text of an integer gives the integer back.
pub proof fn integer_reads_back(i: int)
    ensures
        integer_text(int_text(i)) == Some(i),
{
    if i < 0 {
        decimal_reads_back((-i) as nat);
        assert(int_text(i).skip(1) =~= decimal((-i) as nat));
    } else {
        decimal_reads_back(i as nat);
    }
}

/// The order of strings: by the first character in which they differ, and a
/// prefix before what it is a prefix of.
pub open spec fn lex_less(a: Seq<char>, b: Seq<char>) -> bool
    decreases a.len(),
{
    if b.len() == 0 {
        false
    } else if a.len() == 0 {
        true
    } else if a[0] == b[0] {
        lex_less(a.skip(1), b.skip(1))
    } else {
        a[0] < b[0]
    }
}

/// Whether one text comes before another.
pub fn text_less(a: &str, b: &str) -> (r: bool)
    ensures
        r == lex_less(a@, b@),
{
    let x = chars_of(a);
    let y = chars_of(b);
    let mut i: usize = 0;
    assert(x@.skip(0) =~= x@);
    assert(y@.skip(0) =~= y@);
    while i < x.len() && i < y.len()
        invariant
            x@ == a@,
            y@ == b@,
            i <= x.len(),
            i <= y.len(),
            lex_less(a@.skip(i as int), b@.skip(i as int)) == lex_less(a@, b@),
        decreases x.len() - i,
    {
        assert(a@.skip(i as int)[0] == x@[i as int]);
        assert(b@.skip(i as int)[0] == y@[i as int]);
        if x[i] != y[i] {
            return x[i] < y[i];
        }
        assert(a@.skip(i as int).skip(1) =~= a@.skip(i + 1));
        assert(b@.skip(i as int).skip(1) =~= b@.skip(i + 1));
        i = i + 1;
    }
    i < y.len()
}

/// The order of strings is transitive.
pub proof fn lex_less_transitive(a: Seq<char>, b: Seq<char>, c: Seq<char>)
    requires
        lex_less(a, b),
        lex_less(b, c),
    ensures
        lex_less(a, c),
    decreases a.len(),
{
    if a.len() > 0 && b.len() > 0 && c.len() > 0 && a[0] == b[0] && b[0] == c[0] {
        lex_less_transitive(a.skip(1), b.skip(1), c.skip(1));
    }
}

/// Of two strings one comes first, or they are the same.
pub proof fn lex_less_total(a: Seq<char>, b: Seq<char>)
    ensures
        lex_less(a, b) || lex_less(b, a) || a == b,
        !(lex_less(a, b) && lex_less(b, a)),
        !lex_less(a, a),
    decreases a.len(),
{
    if a.len() > 0 {
        lex_less_total(a.skip(1), a.skip(1));
    }
    if a.len() > 0 && b.len() > 0 && a[0] == b[0] {
        lex_less_total(a.skip(1), b.skip(1));
        if a.skip(1) == b.skip(1) {
            assert(a =~= seq![a[0]] + a.skip(1));
            assert(b =~= seq![b[0]] + b.skip(1));
        }
    } else if a.len() == 0 && b.len() == 0 {
        assert(a =~= b);
    }
}

/// The model of an outcome: done, or the text of an error.
pub open spec fn unit_result(r: Result<(), String>) -> Result<(), Seq<char>> {
    match r {
        Ok(()) => Ok(()),
        Err(e) => Err(e@),
    }
}

/// A text is split where the separator stands first: the parts and the separator
/// make up the text, and the separator does not stand further to the front.
pub proof fn split_is_at_the_first(s: Seq<char>, pat: Seq<char>)
    ensures
        match split_at_first(s, pat) {
            Some((head, tail)) => s == head + pat + tail && forall|j: int|
                0 <= j < head.len() && j + pat.len() <= s.len() ==> #[trigger] s.subrange(
                    j,
                    j + pat.len(),
                ) != pat,
            None => forall|j: int|
                0 <= j && j + pat.len() <= s.len() ==> #[trigger] s.subrange(j, j + pat.len())
                    != pat,
        },
{
    if exists|i: int| first_at(s, pat, i) {
        let i = choose|i: int| first_at(s, pat, i);
        lemma_split_at(s, pat, i);
        assert(occurs_at(s, pat, i));
        assert(s =~= s.take(i) + pat + s.skip(i + pat.len())) by {
            assert forall|k: int| 0 <= k < s.len() implies s[k] == #[trigger] (s.take(i) + pat
                + s.skip(i + pat.len()))[k] by {
                if i <= k < i + pat.len() {
                    assert(s.subrange(i, i + pat.len())[k - i] == pat[k - i]);
                }
            }
        }
        assert forall|j: int| 0 <= j < i && j + pat.len() <= s.len() implies #[trigger] s.subrange(
            j,
            j + pat.len(),
        ) != pat by {
            assert(!occurs_at(s, pat, j));
        }
    } else {
        assert forall|j: int| 0 <= j && j + pat.len() <= s.len() implies #[trigger] s.subrange(
            j,
            j + pat.len(),
        ) != pat by {
            if occurs_at(s, pat, j) {
                lemma_first_exists(s, pat, j);
            }
        }
    }
}

proof fn lemma_first_exists(s: Seq<char>, pat: Seq<char>, j: int)
    requires
        occurs_at(s, pat, j),
    ensures
        exists|i: int| first_at(s, pat, i),
    decreases j,
{
    if exists|k: int| 0 <= k < j && occurs_at(s, pat, k) {
        let k = choose|k: int| 0 <= k < j && occurs_at(s, pat, k);
        lemma_first_exists(s, pat, k);
    } else {
        assert(first_at(s, pat, j));
    }
}

/// A text that holds no separator is read back from in front of one, whatever
/// comes behind.
pub proof fn parts_are_read_back(head: Seq<char>, c: char, tail: Seq<char>)
    requires
        !head.contains(c),
    ensures
        split_at_first(head + seq![c] + tail, seq![c]) == Some((head, tail)),
        split_at_first(head, seq![c]) is None,
{
    let s = head + seq![c] + tail;
    let n = head.len() as int;
    assert(s.subrange(n, n + 1) =~= seq![c]);
    assert forall|j: int| 0 <= j < n implies !occurs_at(s, seq![c], j) by {
        if occurs_at(s, seq![c], j) {
            assert(s.subrange(j, j + 1)[0] == c);
            assert(head[j] == c);
        }
    }
    lemma_split_at(s, seq![c], n);
    assert(s.take(n) =~= head);
    assert(s.skip(n + 1) =~= tail);
    assert forall|j: int| !first_at(head, seq![c], j) by {
        if occurs_at(head, seq![c], j) {
            assert(head.subrange(j, j + 1)[0] == c);
            assert(head[j] == c);
        }
    }
}

/// A text that does not hold the first character of a separator is read back from in
/// front of one, whatever comes behind, and holds no separator itself.
pub proof fn separators_are_found(head: Seq<char>, sep: Seq<char>, tail: Seq<char>)
    requires
        sep.len() > 0,
        !head.contains(sep[0]),
    ensures
        split_at_first(head + sep + tail, sep) == Some((head, tail)),
        split_at_first(head, sep) is None,
{
    let s = head + sep + tail;
    let n = head.len() as int;
    assert(s.subrange(n, n + sep.len()) =~= sep);
    assert(occurs_at(s, sep, n));
    assert forall|j: int| 0 <= j < n implies !occurs_at(s, sep, j) by {
        if occurs_at(s, sep, j) {
            assert(s.subrange(j, j + sep.len())[0] == s[j]);
            assert(head[j] == s[j]);
        }
    }
    assert(first_at(s, sep, n));
    lemma_split_at(s, sep, n);
    assert(s.take(n) =~= head);
    assert(s.skip(n + sep.len()) =~= tail);
    assert forall|j: int| !first_at(head, sep, j) by {
        if occurs_at(head, sep, j) {
            assert(head.subrange(j, j + sep.len())[0] == head[j]);
        }
    }
}

/// A text of white space alone.
pub open spec fn all_white(s: Seq<char>) -> bool {
    forall|i: int| 0 <= i < s.len() ==> is_white(#[trigger] s[i])
}

proof fn lemma_trimmed_end(s: Seq<char>)
    ensures
        trimmed_end(s).len() <= s.len(),
        s == trimmed_end(s) + s.skip(trimmed_end(s).len() as int),
        all_white(s.skip(trimmed_end(s).len() as int)),
        trimmed_end(s).len() > 0 ==> !is_white(trimmed_end(s).last()),
    decreases s.len(),
{
    if s.len() > 0 && is_white(s.last()) {
        let init = s.drop_last();
        lemma_trimmed_end(init);
        let t = trimmed_end(s);
        let n = t.len() as int;
        assert(s.skip(n) =~= init.skip(n).push(s.last()));
        assert(s =~= init.push(s.last()));
        assert(init == t + init.skip(n));
        assert(s =~= t + s.skip(n));
    } else {
        assert(s =~= s + s.skip(s.len() as int));
    }
}

proof fn lemma_trimmed_start(s: Seq<char>)
    ensures
        trimmed_start(s).len() <= s.len(),
        s == s.take(s.len() - trimmed_start(s).len()) + trimmed_start(s),
        all_white(s.take(s.len() - trimmed_start(s).len())),
        trimmed_start(s).len() > 0 ==> !is_white(trimmed_start(s)[0]),
        trimmed_start(s).len() > 0 ==> trimmed_start(s).last() == s.last(),
    decreases s.len(),
{
    if s.len() > 0 && is_white(s[0]) {
        let rest = s.skip(1);
        lemma_trimmed_start(rest);
        let t = trimmed_start(s);
        let n = s.len() - t.len();
        assert(s =~= seq![s[0]] + rest);
        assert(s.take(n) =~= seq![s[0]] + rest.take(n - 1));
        assert(s =~= s.take(n) + t);
        assert(all_white(s.take(n))) by {
            assert forall|i: int| 0 <= i < n implies is_white(#[trigger] s.take(n)[i]) by {
                if i > 0 {
                    assert(rest.take(n - 1)[i - 1] == s.take(n)[i]);
                }
            }
        }
    } else {
        assert(s.take(0) =~= Seq::<char>::empty());
        assert(s =~= s.take(0) + s);
    }
}

/// Trimming takes away the white space around a text and nothing else: what is
/// left neither begins nor ends with white space.
pub proof fn trimming_takes_white_space(s: Seq<char>)
    ensures
        exists|l: Seq<char>, r: Seq<char>|
            #[trigger] all_white(l) && #[trigger] all_white(r) && s == l + trimmed(s) + r,
        trimmed(s).len() > 0 ==> !is_white(trimmed(s)[0]) && !is_white(trimmed(s).last()),
        exists|r: Seq<char>| #[trigger] all_white(r) && s == trimmed_end(s) + r,
        trimmed_end(s).len() > 0 ==> !is_white(trimmed_end(s).last()),
{
    lemma_trimmed_end(s);
    let e = trimmed_end(s);
    lemma_trimmed_start(e);
    let l = e.take(e.len() - trimmed(s).len());
    let r = s.skip(e.len() as int);
    assert(all_white(l) && all_white(r) && s == l + trimmed(s) + r);
    assert(s == e + r);
}

proof fn lemma_white_end(s: Seq<char>, r: Seq<char>)
    requires
        all_white(r),
        s.len() > 0 ==> !is_white(s.last()),
    ensures
        trimmed_end(s + r) == s,
    decreases r.len(),
{
    let t = s + r;
    if r.len() > 0 {
        let init = r.drop_last();
        assert(all_white(init)) by {
            assert forall|i: int| 0 <= i < init.len() implies is_white(#[trigger] init[i]) by {
                assert(r[i] == init[i]);
            }
        }
        lemma_white_end(s, init);
        assert(t.drop_last() =~= s + init);
        assert(t.last() == r[r.len() - 1]);
    } else {
        assert(t =~= s);
    }
}

proof fn lemma_white_start(l: Seq<char>, s: Seq<char>)
    requires
        all_white(l),
        s.len() > 0 ==> !is_white(s[0]),
    ensures
        trimmed_start(l + s) == s,
    decreases l.len(),
{
    let t = l + s;
    if l.len() > 0 {
        let rest = l.skip(1);
        assert(all_white(rest)) by {
            assert forall|i: int| 0 <= i < rest.len() implies is_white(#[trigger] rest[i]) by {
                assert(l[i + 1] == rest[i]);
            }
        }
        lemma_white_start(rest, s);
        assert(t.skip(1) =~= rest + s);
        assert(t[0] == l[0]);
    } else {
        assert(t =~= s);
    }
}

/// A text without white space at its ends is what is left of it, whatever white
/// space stands around it.
pub proof fn trimming_keeps_the_text(l: Seq<char>, s: Seq<char>, r: Seq<char>)
    requires
        all_white(l),
        all_white(r),
        s.len() > 0 ==> !is_white(s[0]) && !is_white(s.last()),
    ensures
        trimmed(l + s + r) == s,
        trimmed_end(s + r) == s,
{
    lemma_white_end(s, r);
    lemma_white_start(l, s);
    if s.len() == 0 {
        let none = Seq::<char>::empty();
        let w = l + r;
        assert(all_white(w)) by {
            assert forall|i: int| 0 <= i < w.len() implies is_white(#[trigger] w[i]) by {
                if i < l.len() {
                    assert(w[i] == l[i]);
                } else {
                    assert(w[i] == r[i - l.len()]);
                }
            }
        }
        lemma_white_end(none, w);
        assert(none + w =~= l + s + r);
        assert(s =~= none);
    } else {
        assert((l + s).last() == s.last());
        lemma_white_end(l + s, r);
    }
}

/// Of the ASCII characters, the space and those from tab to carriage return are
/// white space.
pub proof fn ascii_white_space(c: char)
    requires
        c <= '\u{7f}',
    ensures
        is_white(c) <==> c == ' ' || c == '\t' || c == '\n' || c == '\u{b}' || c == '\u{c}' || c
            == '\r',
{
}

/// The decimal digits of a number, from the last to the first.
pub proof fn digits_of_numbers(n: nat, d: nat)
    requires
        d < 10,
    ensures
        decimal(d).len() == 1,
        decimal(d)[0] as nat == '0' as nat + d,
        n > 0 ==> decimal(10 * n + d) == decimal(n) + decimal(d),
{
    if n > 0 {
        let m = (10 * n + d) as nat;
        assert(m / 10 == n && m % 10 == d) by (nonlinear_arith)
            requires
                m == 10 * n + d,
                d < 10,
        ;
        assert(decimal(m) =~= decimal(n) + decimal(d));
    }
}

/// A text is read as a number exactly if it is made of digits, with a sign in
/// front at most. An unsigned number has no minus sign.
pub proof fn numbers_are_digits(s: Seq<char>)
    ensures
        i64_text(s) is Some ==> s.len() > 0 && (s[0] == '-' || s[0] == '+' || '0' <= s[0] <= '9')
            && forall|i: int| 0 < i < s.len() ==> '0' <= #[trigger] s[i] <= '9',
        u32_text(s) is Some ==> s.len() > 0 && (s[0] == '+' || '0' <= s[0] <= '9') && forall|
            i: int,
        |
            0 < i < s.len() ==> '0' <= #[trigger] s[i] <= '9',
{
    let rest = s.skip(1);
    assert forall|i: int| 0 < i < s.len() && integer_text(s) is Some implies '0' <= #[trigger] s[i]
        <= '9' by {
        if s[0] == '-' || s[0] == '+' {
            assert(is_digit(rest[i - 1]));
        } else {
            assert(is_digit(s[i]));
        }
    }
    if integer_text(s) is Some && s[0] != '-' && s[0] != '+' {
        assert(is_digit(s[0]));
    }
}

/// The digits of a number are read as the number where it fits, with or without a
/// plus sign, and with a minus sign as its opposite.
pub proof fn numbers_are_read(n: nat)
    ensures
        n <= i64::MAX ==> i64_text(decimal(n)) == Some(n as i64),
        n <= i64::MAX ==> i64_text(seq!['+'] + decimal(n)) == Some(n as i64),
        n <= -(i64::MIN as int) ==> i64_text(seq!['-'] + decimal(n)) == Some((-n) as i64),
        n > i64::MAX ==> i64_text(decimal(n)) is None,
        n <= u32::MAX ==> u32_text(decimal(n)) == Some(n as u32),
        n > u32::MAX ==> u32_text(decimal(n)) is None,
{
    decimal_reads_back(n);
    let d = decimal(n);
    assert((seq!['+'] + d).skip(1) =~= d);
    assert((seq!['-'] + d).skip(1) =~= d);
}

/// Of two texts the one comes first that has the smaller character where they
/// first differ, or that ends there.
pub proof fn texts_in_order(a: Seq<char>, b: Seq<char>)
    ensures
        lex_less(a, b) <==> exists|i: int|
            0 <= i < b.len() && i <= a.len() && #[trigger] a.take(i) == b.take(i) && (i == a.len()
                || a[i] < b[i]),
    decreases a.len(),
{
    if b.len() > 0 && a.len() > 0 && a[0] == b[0] {
        let (x, y) = (a.skip(1), b.skip(1));
        texts_in_order(x, y);
        if lex_less(a, b) {
            let i = choose|i: int|
                0 <= i < y.len() && i <= x.len() && #[trigger] x.take(i) == y.take(i) && (i
                    == x.len() || x[i] < y[i]);
            assert(a.take(i + 1) =~= seq![a[0]] + x.take(i));
            assert(b.take(i + 1) =~= seq![b[0]] + y.take(i));
            assert(a.take(i + 1) == b.take(i + 1));
        }
        if exists|i: int|
            0 <= i < b.len() && i <= a.len() && #[trigger] a.take(i) == b.take(i) && (i == a.len()
                || a[i] < b[i]) {
            let i = choose|i: int|
                0 <= i < b.len() && i <= a.len() && #[trigger] a.take(i) == b.take(i) && (i
                    == a.len() || a[i] < b[i]);
            assert(i > 0);
            assert(x.take(i - 1) =~= a.take(i).skip(1));
            assert(y.take(i - 1) =~= b.take(i).skip(1));
        }
    } else if b.len() > 0 {
        assert(a.take(0) =~= b.take(0));
        if exists|i: int|
            0 <= i < b.len() && i <= a.len() && #[trigger] a.take(i) == b.take(i) && (i == a.len()
                || a[i] < b[i]) {
            let i = choose|i: int|
                0 <= i < b.len() && i <= a.len() && #[trigger] a.take(i) == b.take(i) && (i
                    == a.len() || a[i] < b[i]);
            if i > 0 {
                assert(a.take(i)[0] == b.take(i)[0]);
            }
        }
    }
}

/// Two texts are the same but for the case of letters exactly if they are equally
/// long and at each place have the same character, or a capital letter of the
/// ASCII alphabet and the small one.
pub proof fn case_of_letters(a: Seq<char>, b: Seq<char>)
    ensures
        same_ignoring_case(a, b) <==> a.len() == b.len() && forall|i: int|
            0 <= i < a.len() ==> {
                ||| #[trigger] a[i] == b[i]
                ||| 'A' <= a[i] <= 'Z' && b[i] as u32 == a[i] as u32 + 32
                ||| 'A' <= b[i] <= 'Z' && a[i] as u32 == b[i] as u32 + 32
            },
{
    assert forall|i: int| 0 <= i < a.len() && 0 <= i < b.len() implies (ascii_lower(
        #[trigger] a[i],
    ) == ascii_lower(b[i]) <==> {
        ||| a[i] == b[i]
        ||| 'A' <= a[i] <= 'Z' && b[i] as u32 == a[i] as u32 + 32
        ||| 'A' <= b[i] <= 'Z' && a[i] as u32 == b[i] as u32 + 32
    }) by {}
}

/// One more digit behind a number makes it ten times as large and adds the digit, whatever
/// zeros stand in front. A sign alone is no number, and neither is an empty text.
pub proof fn digits_add_up(s: Seq<char>, c: char)
    requires
        '0' <= c <= '9',
        forall|i: int| 0 <= i < s.len() ==> '0' <= #[trigger] s[i] <= '9',
    ensures
        integer_text(seq![c]) == Some(c as int - '0' as int),
        s.len() > 0 ==> (integer_text(s) matches Some(v) && integer_text(s.push(c)) == Some(
            10 * v + (c as int - '0' as int),
        )),
        s.len() > 0 ==> integer_text(seq!['+'] + s) == integer_text(s),
        s.len() > 0 ==> (integer_text(s) matches Some(v) && integer_text(seq!['-'] + s)
            == Some(-v)),
        integer_text(seq!['+']) is None && integer_text(seq!['-']) is None,
        integer_text(Seq::empty()) is None,
        u32_text(seq!['-'] + s) is None,
        s.len() > 0 ==> u32_text(seq!['+'] + s) == u32_text(s),
        s.len() > 0 ==> (integer_text(s) matches Some(v) && (v > -(i64::MIN as int) ==> i64_text(
            seq!['-'] + s,
        ) is None)),
{
    let one = seq![c];
    let more = s.push(c);
    assert(one.drop_last() =~= Seq::<char>::empty());
    assert(digits_value(one.drop_last()) == 0);
    assert(more.drop_last() =~= s);
    assert(more.last() == c);
    assert(all_digits(one) && all_digits(s) && all_digits(more));
    assert((seq!['+'] + s).skip(1) =~= s);
    assert((seq!['-'] + s).skip(1) =~= s);
    assert(seq!['+'].skip(1) =~= Seq::<char>::empty());
    assert(seq!['-'].skip(1) =~= Seq::<char>::empty());
}

/// Beyond ASCII these characters are white space, and no others.
pub proof fn other_white_space(c: char)
    requires
        c > '\u{7f}',
    ensures
        is_white(c) <==> {
            let n = c as u32;
            ||| n == 0x85 || n == 0xa0 || n == 0x1680
            ||| 0x2000 <= n < 0x200b
            ||| n == 0x2028 || n == 0x2029 || n == 0x202f || n == 0x205f || n == 0x3000
        },
{
}

} // verus!
