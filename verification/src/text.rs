//! Comparisons of text.

use vstd::prelude::*;
use vstd::string::*;
use crate::keyed::Key;

verus! {

impl Key for String {
    fn same(&self, other: &Self) -> (b: bool) {
        *self == *other
    }
}

/// Whether two texts hold the same characters.
pub fn same_text(a: &str, b: &str) -> (r: bool)
    ensures
        r == (a@ == b@),
{
    a.to_owned() == b.to_owned()
}

/// An ASCII capital as the small letter, any other character as it is.
pub open spec fn ascii_small(c: char) -> char {
    if 'A' <= c && c <= 'Z' {
        ((c as u8 + 32) as u8) as char
    } else {
        c
    }
}

fn to_ascii_small(c: char) -> (r: char)
    ensures
        r == ascii_small(c),
{
    if 'A' <= c && c <= 'Z' {
        (c as u8 + 32) as char
    } else {
        c
    }
}

/// Equality of texts that does not tell ASCII capitals from small letters.
pub open spec fn same_ignoring_case(a: Seq<char>, b: Seq<char>) -> bool {
    &&& a.len() == b.len()
    &&& forall|i: int| 0 <= i < a.len() ==> ascii_small(#[trigger] a[i]) == ascii_small(b[i])
}

/// Whether two texts agree but for the case of ASCII letters.
pub fn eq_ignore_ascii_case(a: &str, b: &str) -> (r: bool)
    ensures
        r == same_ignoring_case(a@, b@),
{
    let n: usize = a.unicode_len();
    if n != b.unicode_len() {
        return false;
    }
    let mut i: usize = 0;
    while i < n
        invariant
            i <= n == a@.len() == b@.len(),
            forall|j: int| 0 <= j < i ==> ascii_small(#[trigger] a@[j]) == ascii_small(b@[j]),
        decreases n - i,
    {
        if to_ascii_small(a.get_char(i)) != to_ascii_small(b.get_char(i)) {
            return false;
        }
        i += 1;
    }
    true
}

/// Whether a list of texts holds `word`.
pub open spec fn holds_text(list: Seq<String>, word: Seq<char>) -> bool {
    exists|i: int| 0 <= i < list.len() && (#[trigger] list[i])@ == word
}

/// Whether a list of texts holds `word`.
pub fn contains_text(list: &Vec<String>, word: &str) -> (r: bool)
    ensures
        r == holds_text(list@, word@),
{
    let mut i: usize = 0;
    while i < list.len()
        invariant
            i <= list@.len(),
            forall|j: int| 0 <= j < i ==> (#[trigger] list@[j])@ != word@,
        decreases list.len() - i,
    {
        if same_text(list[i].as_str(), word) {
            return true;
        }
        i += 1;
    }
    false
}

// ---------------------------------------------------------------------------
// Parts of a text
// ---------------------------------------------------------------------------

/// The part of a text that follows a beginning, where it begins so.
pub open spec fn after_prefix(s: Seq<char>, p: Seq<char>) -> Option<Seq<char>> {
    if p.len() <= s.len() && s.take(p.len() as int) == p {
        Some(s.skip(p.len() as int))
    } else {
        None
    }
}

/// The part of a text that goes before an ending, where it ends so.
pub open spec fn before_suffix(s: Seq<char>, p: Seq<char>) -> Option<Seq<char>> {
    if p.len() <= s.len() && s.skip(s.len() - p.len()) == p {
        Some(s.take(s.len() - p.len()))
    } else {
        None
    }
}

/// What an optional text says.
pub open spec fn opt_text(s: Option<&str>) -> Option<Seq<char>> {
    match s {
        Some(t) => Some(t@),
        None => None,
    }
}

/// The part of a text that follows a beginning, where it begins so.
pub fn strip_prefix<'a>(s: &'a str, p: &str) -> (r: Option<&'a str>)
    ensures
        opt_text(r) == after_prefix(s@, p@),
{
    let n: usize = s.unicode_len();
    let m: usize = p.unicode_len();
    if m > n {
        return None;
    }
    if same_text(s.substring_char(0, m), p) {
        assert(s@.subrange(0, m as int) =~= s@.take(m as int));
        assert(s@.subrange(m as int, n as int) =~= s@.skip(m as int));
        Some(s.substring_char(m, n))
    } else {
        assert(s@.subrange(0, m as int) =~= s@.take(m as int));
        None
    }
}

/// The part of a text that goes before an ending, where it ends so.
pub fn strip_suffix<'a>(s: &'a str, p: &str) -> (r: Option<&'a str>)
    ensures
        opt_text(r) == before_suffix(s@, p@),
{
    let n: usize = s.unicode_len();
    let m: usize = p.unicode_len();
    if m > n {
        return None;
    }
    assert(s@.subrange(n - m, n as int) =~= s@.skip(n - m));
    if same_text(s.substring_char(n - m, n), p) {
        assert(s@.subrange(0, n - m) =~= s@.take(n - m));
        Some(s.substring_char(0, n - m))
    } else {
        None
    }
}

/// Whether a text holds another at a place.
pub open spec fn stands_at(s: Seq<char>, p: Seq<char>, i: int) -> bool {
    0 <= i && i + p.len() <= s.len() && s.subrange(i, i + p.len()) == p
}

/// The first place from `from` on at which a text holds another.
pub open spec fn place_of_text(s: Seq<char>, p: Seq<char>, from: int) -> Option<int>
    decreases s.len() - from + 1,
{
    if from < 0 || from + p.len() > s.len() {
        None
    } else if stands_at(s, p, from) {
        Some(from)
    } else {
        place_of_text(s, p, from + 1)
    }
}

/// Whether a text holds another.
pub open spec fn has_text(s: Seq<char>, p: Seq<char>) -> bool {
    place_of_text(s, p, 0) is Some
}

/// A place found is one at which the text stands.
pub proof fn lemma_place(s: Seq<char>, p: Seq<char>, from: int)
    ensures
        match place_of_text(s, p, from) {
            Some(i) => from <= i && stands_at(s, p, i),
            None => true,
        },
    decreases s.len() - from + 1,
{
    if !(from < 0 || from + p.len() > s.len()) && !stands_at(s, p, from) {
        lemma_place(s, p, from + 1);
    }
}

/// The first place at which a text holds another.
pub fn find_text(s: &str, p: &str) -> (r: Option<usize>)
    ensures
        match place_of_text(s@, p@, 0) {
            Some(i) => r is Some && r->0 == i && i + p@.len() <= s@.len(),
            None => r is None,
        },
{
    let n: usize = s.unicode_len();
    let m: usize = p.unicode_len();
    if m > n {
        return None;
    }
    let mut i: usize = 0;
    while i <= n - m
        invariant
            n == s@.len(),
            m == p@.len(),
            m <= n,
            i <= n - m + 1,
            place_of_text(s@, p@, 0) == place_of_text(s@, p@, i as int),
        decreases n - m + 1 - i,
    {
        if same_text(s.substring_char(i, i + m), p) {
            return Some(i);
        }
        if i == n - m {
            assert(place_of_text(s@, p@, i + 1) is None);
            return None;
        }
        i += 1;
    }
    None
}

/// Whether a text holds another.
pub fn contains_piece(s: &str, p: &str) -> (r: bool)
    ensures
        r == has_text(s@, p@),
{
    find_text(s, p).is_some()
}

/// What goes before and what follows the first place of a separator.
pub open spec fn parted(s: Seq<char>, p: Seq<char>) -> Option<(Seq<char>, Seq<char>)> {
    match place_of_text(s, p, 0) {
        Some(i) => Some((s.take(i), s.skip(i + p.len()))),
        None => None,
    }
}

/// What goes before and what follows the first place of a separator.
pub fn split_once<'a>(s: &'a str, p: &str) -> (r: Option<(&'a str, &'a str)>)
    ensures
        match parted(s@, p@) {
            Some((a, b)) => r is Some && (r->0).0@ == a && (r->0).1@ == b,
            None => r is None,
        },
{
    match find_text(s, p) {
        Some(i) => {
            let n: usize = s.unicode_len();
            let m: usize = p.unicode_len();
            assert(s@.subrange(0, i as int) =~= s@.take(i as int));
            assert(s@.subrange(i + m, n as int) =~= s@.skip(i + m));
            Some((s.substring_char(0, i), s.substring_char(i + m, n)))
        },
        None => None,
    }
}

/// Whether a character is white space.
pub open spec fn is_blank_char(c: char) -> bool {
    let n = c as u32;
    9 <= n <= 13 || n == 32 || n == 0x85 || n == 0xA0 || n == 0x1680 || 0x2000 <= n <= 0x200A || n
        == 0x2028 || n == 0x2029 || n == 0x202F || n == 0x205F || n == 0x3000
}

fn blank_char(c: char) -> (r: bool)
    ensures
        r == is_blank_char(c),
{
    let n: u32 = c as u32;
    (9 <= n && n <= 13) || n == 32 || n == 0x85 || n == 0xA0 || n == 0x1680 || (0x2000 <= n && n
        <= 0x200A) || n == 0x2028 || n == 0x2029 || n == 0x202F || n == 0x205F || n == 0x3000
}

/// A text without the white space at its beginning.
pub open spec fn trimmed_front(s: Seq<char>) -> Seq<char>
    decreases s.len(),
{
    if s.len() > 0 && is_blank_char(s[0]) {
        trimmed_front(s.skip(1))
    } else {
        s
    }
}

/// A text without the white space at its end.
pub open spec fn trimmed_back(s: Seq<char>) -> Seq<char>
    decreases s.len(),
{
    if s.len() > 0 && is_blank_char(s.last()) {
        trimmed_back(s.drop_last())
    } else {
        s
    }
}

/// A text without the white space at its beginning and its end.
pub open spec fn trimmed(s: Seq<char>) -> Seq<char> {
    trimmed_back(trimmed_front(s))
}

/// A text without the white space at its beginning and its end.
pub fn trim<'a>(s: &'a str) -> (r: &'a str)
    ensures
        r@ == trimmed(s@),
{
    let n: usize = s.unicode_len();
    let mut a: usize = 0;
    assert(s@.skip(0) =~= s@);
    while a < n && blank_char(s.get_char(a))
        invariant
            a <= n,
            n == s@.len(),
            trimmed_front(s@) == trimmed_front(s@.skip(a as int)),
        decreases n - a,
    {
        assert(s@.skip(a as int).skip(1) =~= s@.skip(a + 1));
        a += 1;
    }
    let mut b: usize = n;
    assert(s@.subrange(a as int, n as int) =~= s@.skip(a as int));
    while a < b && blank_char(s.get_char((b - 1) as usize))
        invariant
            a <= b <= n,
            n == s@.len(),
            trimmed(s@) == trimmed_back(s@.subrange(a as int, b as int)),
        decreases b,
    {
        assert(s@.subrange(a as int, b as int).drop_last() =~= s@.subrange(a as int, b - 1));
        b -= 1;
    }
    s.substring_char(a, b)
}

/// A text without a character at its end, however often it stands there.
pub open spec fn without_last(s: Seq<char>, c: char) -> Seq<char>
    decreases s.len(),
{
    if s.len() > 0 && s.last() == c {
        without_last(s.drop_last(), c)
    } else {
        s
    }
}

/// A text without a character at its end, however often it stands there.
pub fn trim_end_matches<'a>(s: &'a str, c: char) -> (r: &'a str)
    ensures
        r@ == without_last(s@, c),
{
    let n: usize = s.unicode_len();
    let mut b: usize = n;
    assert(s@.take(n as int) =~= s@);
    while 0 < b && s.get_char((b - 1) as usize) == c
        invariant
            b <= n,
            n == s@.len(),
            without_last(s@, c) == without_last(s@.take(b as int), c),
        decreases b,
    {
        assert(s@.take(b as int).drop_last() =~= s@.take(b - 1));
        b -= 1;
    }
    assert(s@.subrange(0, b as int) =~= s@.take(b as int));
    s.substring_char(0, b)
}

/// A text without an ending, however often it stands there.
pub open spec fn without_endings(s: Seq<char>, p: Seq<char>) -> Seq<char>
    decreases s.len(),
{
    match before_suffix(s, p) {
        Some(rest) if p.len() > 0 => without_endings(rest, p),
        _ => s,
    }
}

/// A text without an ending, however often it stands there.
pub fn trim_end_text<'a>(s: &'a str, p: &str) -> (r: &'a str)
    ensures
        r@ == without_endings(s@, p@),
{
    if p.unicode_len() == 0 {
        return s;
    }
    let mut rest: &'a str = s;
    loop
        invariant
            p@.len() > 0,
            without_endings(s@, p@) == without_endings(rest@, p@),
        ensures
            rest@ == without_endings(s@, p@),
        decreases rest@.len(),
    {
        match strip_suffix(rest, p) {
            Some(t) => {
                rest = t;
            },
            None => {
                break;
            },
        }
    }
    rest
}

/// A text without a beginning, however often it stands there.
pub open spec fn without_beginnings(s: Seq<char>, p: Seq<char>) -> Seq<char>
    decreases s.len(),
{
    match after_prefix(s, p) {
        Some(rest) if p.len() > 0 => without_beginnings(rest, p),
        _ => s,
    }
}

/// A text without a beginning, however often it stands there.
pub fn trim_start_text<'a>(s: &'a str, p: &str) -> (r: &'a str)
    ensures
        r@ == without_beginnings(s@, p@),
{
    if p.unicode_len() == 0 {
        return s;
    }
    let mut rest: &'a str = s;
    loop
        invariant
            p@.len() > 0,
            without_beginnings(s@, p@) == without_beginnings(rest@, p@),
        ensures
            rest@ == without_beginnings(s@, p@),
        decreases rest@.len(),
    {
        match strip_prefix(rest, p) {
            Some(t) => {
                rest = t;
            },
            None => {
                break;
            },
        }
    }
    rest
}

/// The number that a digit stands for.
pub open spec fn digit_of(c: char) -> Option<nat> {
    if '0' <= c && c <= '9' {
        Some((c as u32 - 48) as nat)
    } else {
        None
    }
}

/// The number that a text of digits stands for, `None` where it holds anything else.
pub open spec fn number_in(s: Seq<char>) -> Option<nat>
    decreases s.len(),
{
    if s.len() == 0 {
        Some(0)
    } else {
        match (number_in(s.drop_last()), digit_of(s.last())) {
            (Some(n), Some(d)) => Some(10 * n + d),
            _ => None,
        }
    }
}

/// The number that a text of at least one digit stands for, where it is no greater than `max`.
pub open spec fn unsigned_in(s: Seq<char>, max: nat) -> Option<nat> {
    match number_in(s) {
        Some(n) if s.len() > 0 && n <= max => Some(n),
        _ => None,
    }
}

proof fn lemma_number_prefix(s: Seq<char>, k: int)
    requires
        0 <= k <= s.len(),
    ensures
        number_in(s) is Some ==> number_in(s.take(k)) is Some && number_in(s.take(k))->0
            <= number_in(s)->0,
    decreases s.len(),
{
    if k < s.len() {
        lemma_number_prefix(s.drop_last(), k);
        assert(s.drop_last().take(k) =~= s.take(k));
    } else {
        assert(s.take(k) =~= s);
    }
}

/// The number that a text of at least one digit stands for, where it is no greater than `max`.
pub fn parse_unsigned(s: &str, max: u64) -> (r: Option<u64>)
    ensures
        match unsigned_in(s@, max as nat) {
            Some(n) => r is Some && r->0 == n,
            None => r is None,
        },
{
    let n: usize = s.unicode_len();
    if n == 0 {
        return None;
    }
    let mut total: u64 = 0;
    let mut i: usize = 0;
    assert(s@.take(0) =~= Seq::<char>::empty());
    while i < n
        invariant
            i <= n,
            n == s@.len(),
            n > 0,
            total <= max,
            number_in(s@.take(i as int)) == Some(total as nat),
        decreases n - i,
    {
        let c = s.get_char(i);
        let ghost next = s@.take(i + 1);
        proof {
            assert(next.drop_last() =~= s@.take(i as int));
            lemma_number_prefix(s@, i + 1);
        }
        if !('0' <= c && c <= '9') {
            assert(digit_of(c) is None);
            assert(number_in(next) is None);
            return None;
        }
        let d: u64 = (c as u32 - 48) as u64;
        assert(number_in(next) == Some((10 * total + d) as nat));
        if total > max / 10 || total * 10 > max - (if d <= max {
            d
        } else {
            max
        }) || d > max {
            assert(10 * total + d > max);
            return None;
        }
        total = total * 10 + d;
        i += 1;
    }
    assert(s@.take(n as int) =~= s@);
    Some(total)
}

/// The number that a text with an optional sign stands for, where 32 bits can hold it.
pub open spec fn signed_in(s: Seq<char>) -> Option<int> {
    if s.len() > 0 && s[0] == '-' {
        match unsigned_in(s.skip(1), 0x8000_0000) {
            Some(n) => Some(-(n as int)),
            None => None,
        }
    } else {
        match unsigned_in(if s.len() > 0 && s[0] == '+' {
            s.skip(1)
        } else {
            s
        }, 0x7fff_ffff) {
            Some(n) => Some(n as int),
            None => None,
        }
    }
}

/// The number that a text with an optional sign stands for, where 32 bits can hold it.
pub fn parse_signed(s: &str) -> (r: Option<i32>)
    ensures
        match signed_in(s@) {
            Some(n) => r is Some && r->0 == n,
            None => r is None,
        },
{
    let n: usize = s.unicode_len();
    if n == 0 {
        return None;
    }
    let first = s.get_char(0);
    assert(s@.subrange(1, n as int) =~= s@.skip(1));
    if first == '-' {
        match parse_unsigned(s.substring_char(1, n), 0x8000_0000) {
            Some(m) => if m == 0x8000_0000 {
                Some(i32::MIN)
            } else {
                Some(-(m as i32))
            },
            None => None,
        }
    } else {
        let rest = if first == '+' {
            s.substring_char(1, n)
        } else {
            s
        };
        match parse_unsigned(rest, 0x7fff_ffff) {
            Some(m) => Some(m as i32),
            None => None,
        }
    }
}

/// The number that a text with an optional plus sign stands for, where 32 bits can hold it.
pub open spec fn natural_in(s: Seq<char>) -> Option<nat> {
    unsigned_in(if s.len() > 0 && s[0] == '+' {
        s.skip(1)
    } else {
        s
    }, 0xffff_ffff)
}

/// The number that a text with an optional plus sign stands for, where 32 bits can hold it.
pub fn parse_natural(s: &str) -> (r: Option<u32>)
    ensures
        match natural_in(s@) {
            Some(n) => r is Some && r->0 == n,
            None => r is None,
        },
{
    let n: usize = s.unicode_len();
    if n == 0 {
        return None;
    }
    assert(s@.subrange(1, n as int) =~= s@.skip(1));
    let rest = if s.get_char(0) == '+' {
        s.substring_char(1, n)
    } else {
        s
    };
    match parse_unsigned(rest, 0xffff_ffff) {
        Some(m) => Some(m as u32),
        None => None,
    }
}

/// The number that a word or digits stand for.
pub open spec fn word_number(s: Seq<char>) -> Option<nat> {
    if s == "zero"@ {
        Some(0)
    } else if s == "one"@ {
        Some(1)
    } else if s == "two"@ {
        Some(2)
    } else if s == "three"@ {
        Some(3)
    } else if s == "four"@ {
        Some(4)
    } else if s == "five"@ {
        Some(5)
    } else if s == "six"@ {
        Some(6)
    } else if s == "seven"@ {
        Some(7)
    } else if s == "eight"@ {
        Some(8)
    } else if s == "nine"@ {
        Some(9)
    } else if s == "ten"@ {
        Some(10)
    } else if s == "eleven"@ {
        Some(11)
    } else if s == "twelve"@ {
        Some(12)
    } else if s == "thirteen"@ {
        Some(13)
    } else if s == "fourteen"@ {
        Some(14)
    } else if s == "fifteen"@ {
        Some(15)
    } else if s == "sixteen"@ {
        Some(16)
    } else if s == "seventeen"@ {
        Some(17)
    } else if s == "eighteen"@ {
        Some(18)
    } else if s == "nineteen"@ {
        Some(19)
    } else if s == "twenty"@ {
        Some(20)
    } else {
        unsigned_in(s, 0xffff_ffff)
    }
}

/// The number that a word or digits stand for.
pub fn parse_number(s: &str) -> (r: Option<u32>)
    ensures
        match word_number(s@) {
            Some(n) => r is Some && r->0 == n,
            None => r is None,
        },
{
    if same_text(s, "zero") {
        Some(0)
    } else if same_text(s, "one") {
        Some(1)
    } else if same_text(s, "two") {
        Some(2)
    } else if same_text(s, "three") {
        Some(3)
    } else if same_text(s, "four") {
        Some(4)
    } else if same_text(s, "five") {
        Some(5)
    } else if same_text(s, "six") {
        Some(6)
    } else if same_text(s, "seven") {
        Some(7)
    } else if same_text(s, "eight") {
        Some(8)
    } else if same_text(s, "nine") {
        Some(9)
    } else if same_text(s, "ten") {
        Some(10)
    } else if same_text(s, "eleven") {
        Some(11)
    } else if same_text(s, "twelve") {
        Some(12)
    } else if same_text(s, "thirteen") {
        Some(13)
    } else if same_text(s, "fourteen") {
        Some(14)
    } else if same_text(s, "fifteen") {
        Some(15)
    } else if same_text(s, "sixteen") {
        Some(16)
    } else if same_text(s, "seventeen") {
        Some(17)
    } else if same_text(s, "eighteen") {
        Some(18)
    } else if same_text(s, "nineteen") {
        Some(19)
    } else if same_text(s, "twenty") {
        Some(20)
    } else {
        match parse_unsigned(s, 0xffff_ffff) {
            Some(n) => Some(n as u32),
            None => None,
        }
    }
}

/// What `str::to_lowercase` makes of a text.
pub uninterp spec fn lowercase(s: Seq<char>) -> Seq<char>;

/// Whether a text is made of ASCII characters.
pub open spec fn is_ascii_text(s: Seq<char>) -> bool {
    forall|i: int| 0 <= i < s.len() ==> (#[trigger] s[i] as int) < 128
}

/// A text with ASCII capitals as the small letters.
pub open spec fn small_letters(s: Seq<char>) -> Seq<char> {
    Seq::new(s.len(), |i: int| ascii_small(s[i]))
}

/// The text in small letters, as `str::to_lowercase` gives it. The result depends on the text
/// alone. Of an ASCII text the capitals `A` to `Z` become `a` to `z` and nothing else changes;
/// which other letters become which is left to the Unicode tables of the standard library.
#[verifier::external_body]
pub(crate) fn to_lowercase(s: &str) -> (r: String)
    ensures
        r@ == lowercase(s@),
        is_ascii_text(s@) ==> r@ == small_letters(s@),
{
    s.to_lowercase()
}

/// What the debug format of the standard library makes of a text.
pub uninterp spec fn quoted(s: Seq<char>) -> Seq<char>;

/// The text in quotation marks, as the `Debug` implementation of `str` writes it. The result
/// depends on the text alone; which characters are escaped is left to the standard library.
#[verifier::external_body]
pub(crate) fn quote(s: &str) -> (r: String)
    ensures
        r@ == quoted(s@),
{
    format!("{:?}", s)
}

/// An ASCII small letter as the capital, any other character as it is.
pub open spec fn ascii_capital(c: char) -> char {
    if 'a' <= c && c <= 'z' {
        ((c as u8 - 32) as u8) as char
    } else {
        c
    }
}

/// A text in words with single spaces between them, each word beginning with a capital. `fresh`
/// says that a word is about to begin, `started` that one has gone before.
pub open spec fn capitalized(s: Seq<char>, fresh: bool, started: bool) -> Seq<char>
    decreases s.len(),
{
    if s.len() == 0 {
        Seq::empty()
    } else if is_blank_char(s[0]) {
        capitalized(s.skip(1), true, started)
    } else if fresh {
        (if started {
            seq![' ', ascii_capital(s[0])]
        } else {
            seq![ascii_capital(s[0])]
        }) + capitalized(s.skip(1), false, true)
    } else {
        seq![s[0]] + capitalized(s.skip(1), false, true)
    }
}

fn to_ascii_capital(c: char) -> (r: char)
    ensures
        r == ascii_capital(c),
{
    if 'a' <= c && c <= 'z' {
        (c as u8 - 32) as char
    } else {
        c
    }
}

/// Appending a character, as `String::push` does.
pub assume_specification[ String::push ](s: &mut String, c: char)
    ensures
        final(s)@ == old(s)@.push(c),
;

/// A text in words with single spaces between them, each word beginning with a capital.
pub fn capitalize_words(s: &str) -> (r: String)
    ensures
        r@ == capitalized(s@, true, false),
{
    let n: usize = s.unicode_len();
    let mut out: String = String::new();
    let mut fresh: bool = true;
    let mut started: bool = false;
    let mut i: usize = 0;
    assert(s@.skip(0) =~= s@);
    assert(out@ + capitalized(s@.skip(0), fresh, started) =~= capitalized(s@, true, false));
    while i < n
        invariant
            i <= n,
            n == s@.len(),
            !fresh ==> started,
            out@ + capitalized(s@.skip(i as int), fresh, started) == capitalized(s@, true, false),
        decreases n - i,
    {
        let c = s.get_char(i);
        let ghost rest = s@.skip(i as int);
        let ghost before = out@;
        let ghost whole = capitalized(rest, fresh, started);
        assert(rest[0] == c);
        assert(rest.skip(1) =~= s@.skip(i + 1));
        if blank_char(c) {
            fresh = true;
        } else if fresh {
            if started {
                out.push(' ');
            }
            out.push(to_ascii_capital(c));
            fresh = false;
            started = true;
        } else {
            out.push(c);
        }
        assert(out@ + capitalized(s@.skip(i + 1), fresh, started) =~= before + whole);
        i += 1;
    }
    assert(s@.skip(n as int).len() == 0);
    assert(out@ + capitalized(s@.skip(n as int), fresh, started) =~= out@);
    out
}

/// The character of a digit.
pub open spec fn digit_char(d: nat) -> char {
    if d == 0 {
        '0'
    } else if d == 1 {
        '1'
    } else if d == 2 {
        '2'
    } else if d == 3 {
        '3'
    } else if d == 4 {
        '4'
    } else if d == 5 {
        '5'
    } else if d == 6 {
        '6'
    } else if d == 7 {
        '7'
    } else if d == 8 {
        '8'
    } else {
        '9'
    }
}

/// A number in decimal digits.
pub open spec fn decimal(n: nat) -> Seq<char>
    decreases n,
{
    if n < 10 {
        seq![digit_char(n)]
    } else {
        decimal(n / 10).push(digit_char(n % 10))
    }
}

fn digit_text(d: u128) -> (r: &'static str)
    requires
        d < 10,
    ensures
        r@ == seq![digit_char(d as nat)],
{
    proof {
        reveal_strlit("0");
        reveal_strlit("1");
        reveal_strlit("2");
        reveal_strlit("3");
        reveal_strlit("4");
        reveal_strlit("5");
        reveal_strlit("6");
        reveal_strlit("7");
        reveal_strlit("8");
        reveal_strlit("9");
    }
    let r = if d == 0 {
        "0"
    } else if d == 1 {
        "1"
    } else if d == 2 {
        "2"
    } else if d == 3 {
        "3"
    } else if d == 4 {
        "4"
    } else if d == 5 {
        "5"
    } else if d == 6 {
        "6"
    } else if d == 7 {
        "7"
    } else if d == 8 {
        "8"
    } else {
        "9"
    };
    assert(r@ =~= seq![digit_char(d as nat)]);
    r
}

/// Appends a number in decimal digits to a text.
pub fn push_number(s: &mut String, n: u128)
    ensures
        final(s)@ == old(s)@ + decimal(n as nat),
    decreases n,
{
    let ghost start = s@;
    if n >= 10 {
        push_number(s, n / 10);
        s.append(digit_text(n % 10));
        assert(start + decimal((n / 10) as nat) + seq![digit_char((n % 10) as nat)] =~= start
            + decimal(n as nat));
    } else {
        s.append(digit_text(n));
    }
}

} // verus!
