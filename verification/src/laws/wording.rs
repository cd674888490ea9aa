//! What texts say: parts of texts, numbers, and conditions with a number in them.

use vstd::prelude::*;
use crate::ability::Comparator;
use crate::conditions::{
    between, condition_in, hand_condition, source_condition, threshold, ConditionModel,
    PlayerQuantity,
};
use crate::text::{
    after_prefix, ascii_capital, ascii_small, before_suffix, capitalized, decimal, digit_char,
    digit_of, has_text, lemma_place, number_in, parted, place_of_text, same_ignoring_case,
    signed_in, stands_at, trimmed, trimmed_back, trimmed_front, unsigned_in, without_beginnings,
    without_endings, without_last, word_number,
};

verus! {

/// What follows a beginning is found exactly when the text is the beginning and that.
pub proof fn what_follows_a_beginning(s: Seq<char>, p: Seq<char>, r: Seq<char>)
    ensures
        after_prefix(p + r, p) == Some(r),
        after_prefix(s, p) == Some(r) <==> s == p + r,
{
    assert((p + r).take(p.len() as int) =~= p);
    assert((p + r).skip(p.len() as int) =~= r);
    if after_prefix(s, p) == Some(r) {
        assert(s =~= p + r);
    }
}

/// What goes before an ending is found exactly when the text is that and the ending.
pub proof fn what_goes_before_an_ending(s: Seq<char>, p: Seq<char>, r: Seq<char>)
    ensures
        before_suffix(r + p, p) == Some(r),
        before_suffix(s, p) == Some(r) <==> s == r + p,
{
    let t = r + p;
    assert(t.skip(t.len() - p.len()) =~= p);
    assert(t.take(t.len() - p.len()) =~= r);
    if before_suffix(s, p) == Some(r) {
        assert(s =~= r + p);
    }
}

/// A text holds another exactly when that is a part of it.
pub proof fn parts_of_texts(s: Seq<char>, p: Seq<char>)
    ensures
        has_text(s, p) <==> exists|i: int|
            0 <= i && i + p.len() <= s.len() && #[trigger] s.subrange(i, i + p.len()) == p,
{
    lemma_place(s, p, 0);
    if has_text(s, p) {
        let i = place_of_text(s, p, 0)->0;
        assert(s.subrange(i, i + p.len()) == p);
    }
    if exists|i: int|
        0 <= i && i + p.len() <= s.len() && #[trigger] s.subrange(i, i + p.len()) == p {
        let i = choose|i: int|
            0 <= i && i + p.len() <= s.len() && #[trigger] s.subrange(i, i + p.len()) == p;
        lemma_some_place(s, p, 0, i);
    }
}

proof fn lemma_some_place(s: Seq<char>, p: Seq<char>, from: int, i: int)
    requires
        0 <= from <= i,
        stands_at(s, p, i),
    ensures
        place_of_text(s, p, from) is Some,
        place_of_text(s, p, from)->0 <= i,
    decreases i - from,
{
    if !stands_at(s, p, from) {
        lemma_some_place(s, p, from + 1, i);
    }
}

/// A text is parted at the first separator: what goes before, the separator and what follows are the
/// text, and no separator stands earlier.
pub proof fn texts_are_parted_at_the_first_place(s: Seq<char>, p: Seq<char>, i: int)
    requires
        parted(s, p) is Some,
    ensures
        s == (parted(s, p)->0).0 + p + (parted(s, p)->0).1,
        0 <= i < (parted(s, p)->0).0.len() ==> !stands_at(s, p, i),
{
    lemma_place(s, p, 0);
    let k = place_of_text(s, p, 0)->0;
    assert(s =~= s.take(k) + p + s.skip(k + p.len())) by {
        assert(s.subrange(k, k + p.len()) == p);
        assert forall|j: int| k <= j < k + p.len() implies s[j] == p[j - k] by {
            assert(s.subrange(k, k + p.len())[j - k] == s[j]);
        }
    }
    if 0 <= i < k && stands_at(s, p, i) {
        lemma_some_place(s, p, 0, i);
    }
}

/// Spaces at the beginning and at the end do not matter; a text without them stays as it is.
pub proof fn spaces_at_the_ends_do_not_matter(s: Seq<char>)
    ensures
        trimmed(seq![' '] + s) == trimmed(s),
        s.len() > 0 && 'a' <= s[0] && s[0] <= 'z' && 'a' <= s.last() && s.last() <= 'z' ==> trimmed(
            s,
        ) == s,
        trimmed(s).len() <= s.len(),
{
    let t = seq![' '] + s;
    assert(t.skip(1) =~= s);
    assert(t[0] == ' ');
    lemma_front(s);
    lemma_back(trimmed_front(s));
}

proof fn lemma_front(s: Seq<char>)
    ensures
        trimmed_front(s).len() <= s.len(),
    decreases s.len(),
{
    if s.len() > 0 {
        lemma_front(s.skip(1));
    }
}

proof fn lemma_back(s: Seq<char>)
    ensures
        trimmed_back(s).len() <= s.len(),
    decreases s.len(),
{
    if s.len() > 0 {
        lemma_back(s.drop_last());
    }
}

/// Each digit more makes a number ten times as great and adds the digit; anything else is no number.
pub proof fn numbers_are_read_digit_by_digit(s: Seq<char>, d: nat, c: char)
    requires
        d < 10,
    ensures
        number_in(Seq::empty()) == Some(0nat),
        number_in(s) is Some ==> number_in(s.push(digit_char(d))) == Some(10 * number_in(s)->0 + d),
        !('0' <= c && c <= '9') ==> number_in(s.push(c)) is None,
{
    assert(s.push(digit_char(d)).drop_last() =~= s);
    assert(s.push(c).drop_last() =~= s);
}

/// A number that is written down is read again.
pub proof fn what_is_written_is_read(n: nat)
    ensures
        number_in(decimal(n)) == Some(n),
        decimal(n).len() > 0,
        n <= 0xffff_ffff ==> unsigned_in(decimal(n), 0xffff_ffff) == Some(n),
        n <= 0x7fff_ffff ==> signed_in(seq!['-'] + decimal(n)) == Some(-(n as int)),
        n <= 0x7fff_ffff ==> signed_in(seq!['+'] + decimal(n)) == Some(n as int),
        n <= 0x7fff_ffff ==> signed_in(decimal(n)) == Some(n as int),
    decreases n,
{
    lemma_written(n);
    assert((seq!['-'] + decimal(n)).skip(1) =~= decimal(n));
    assert((seq!['+'] + decimal(n)).skip(1) =~= decimal(n));
    lemma_first_digit(n);
}

proof fn lemma_written(n: nat)
    ensures
        number_in(decimal(n)) == Some(n),
        decimal(n).len() > 0,
    decreases n,
{
    if n < 10 {
        let s: Seq<char> = Seq::empty();
        numbers_are_read_digit_by_digit(s, n, 'x');
        assert(s.push(digit_char(n)) =~= decimal(n));
    } else {
        lemma_written(n / 10);
        numbers_are_read_digit_by_digit(decimal(n / 10), n % 10, 'x');
    }
}

proof fn lemma_first_digit(n: nat)
    ensures
        decimal(n).len() > 0,
        digit_of(decimal(n)[0]) is Some,
        decimal(n)[0] != '-' && decimal(n)[0] != '+',
    decreases n,
{
    if n >= 10 {
        lemma_first_digit(n / 10);
    }
}

/// Capital and small letters stand for each other; of other characters the case does not matter.
pub proof fn capital_and_small_letters(c: char)
    ensures
        'a' <= c && c <= 'z' ==> ascii_small(ascii_capital(c)) == c && ascii_capital(c) != c,
        'A' <= c && c <= 'Z' ==> ascii_capital(ascii_small(c)) == c && ascii_small(c) != c,
        !('A' <= c && c <= 'Z') ==> ascii_small(c) == c,
        !('a' <= c && c <= 'z') ==> ascii_capital(c) == c,
{
}

/// Texts that agree but for the case of letters are as long as each other, and it does not matter
/// which is compared with which.
pub proof fn comparing_without_case(a: Seq<char>, b: Seq<char>)
    ensures
        same_ignoring_case(a, a),
        same_ignoring_case(a, b) <==> same_ignoring_case(b, a),
        same_ignoring_case(a, b) ==> a.len() == b.len(),
{
}

proof fn lemma_word_one()
    ensures
        "one"@ != "zero"@,
{
    reveal_strlit("one");
    assert("one"@ != "zero"@) by {
        reveal_strlit("zero");
        assert("one"@.len() == 3 && "zero"@.len() == 4);
    }
}

proof fn lemma_word_two()
    ensures
        "two"@ != "zero"@,
        "two"@ != "one"@,
{
    reveal_strlit("two");
    assert("two"@ != "zero"@) by {
        reveal_strlit("zero");
        assert("two"@.len() == 3 && "zero"@.len() == 4);
    }
    assert("two"@ != "one"@) by {
        reveal_strlit("one");
        assert("two"@[0] == 't' && "one"@[0] == 'o');
    }
}

proof fn lemma_word_three()
    ensures
        "three"@ != "zero"@,
        "three"@ != "one"@,
        "three"@ != "two"@,
{
    reveal_strlit("three");
    assert("three"@ != "zero"@) by {
        reveal_strlit("zero");
        assert("three"@.len() == 5 && "zero"@.len() == 4);
    }
    assert("three"@ != "one"@) by {
        reveal_strlit("one");
        assert("three"@.len() == 5 && "one"@.len() == 3);
    }
    assert("three"@ != "two"@) by {
        reveal_strlit("two");
        assert("three"@.len() == 5 && "two"@.len() == 3);
    }
}

proof fn lemma_word_four()
    ensures
        "four"@ != "zero"@,
        "four"@ != "one"@,
        "four"@ != "two"@,
        "four"@ != "three"@,
{
    reveal_strlit("four");
    assert("four"@ != "zero"@) by {
        reveal_strlit("zero");
        assert("four"@[0] == 'f' && "zero"@[0] == 'z');
    }
    assert("four"@ != "one"@) by {
        reveal_strlit("one");
        assert("four"@.len() == 4 && "one"@.len() == 3);
    }
    assert("four"@ != "two"@) by {
        reveal_strlit("two");
        assert("four"@.len() == 4 && "two"@.len() == 3);
    }
    assert("four"@ != "three"@) by {
        reveal_strlit("three");
        assert("four"@.len() == 4 && "three"@.len() == 5);
    }
}

proof fn lemma_word_five()
    ensures
        "five"@ != "zero"@,
        "five"@ != "one"@,
        "five"@ != "two"@,
        "five"@ != "three"@,
        "five"@ != "four"@,
{
    reveal_strlit("five");
    assert("five"@ != "zero"@) by {
        reveal_strlit("zero");
        assert("five"@[0] == 'f' && "zero"@[0] == 'z');
    }
    assert("five"@ != "one"@) by {
        reveal_strlit("one");
        assert("five"@.len() == 4 && "one"@.len() == 3);
    }
    assert("five"@ != "two"@) by {
        reveal_strlit("two");
        assert("five"@.len() == 4 && "two"@.len() == 3);
    }
    assert("five"@ != "three"@) by {
        reveal_strlit("three");
        assert("five"@.len() == 4 && "three"@.len() == 5);
    }
    assert("five"@ != "four"@) by {
        reveal_strlit("four");
        assert("five"@[1] == 'i' && "four"@[1] == 'o');
    }
}

proof fn lemma_word_six()
    ensures
        "six"@ != "zero"@,
        "six"@ != "one"@,
        "six"@ != "two"@,
        "six"@ != "three"@,
        "six"@ != "four"@,
        "six"@ != "five"@,
{
    reveal_strlit("six");
    assert("six"@ != "zero"@) by {
        reveal_strlit("zero");
        assert("six"@.len() == 3 && "zero"@.len() == 4);
    }
    assert("six"@ != "one"@) by {
        reveal_strlit("one");
        assert("six"@[0] == 's' && "one"@[0] == 'o');
    }
    assert("six"@ != "two"@) by {
        reveal_strlit("two");
        assert("six"@[0] == 's' && "two"@[0] == 't');
    }
    assert("six"@ != "three"@) by {
        reveal_strlit("three");
        assert("six"@.len() == 3 && "three"@.len() == 5);
    }
    assert("six"@ != "four"@) by {
        reveal_strlit("four");
        assert("six"@.len() == 3 && "four"@.len() == 4);
    }
    assert("six"@ != "five"@) by {
        reveal_strlit("five");
        assert("six"@.len() == 3 && "five"@.len() == 4);
    }
}

proof fn lemma_word_seven()
    ensures
        "seven"@ != "zero"@,
        "seven"@ != "one"@,
        "seven"@ != "two"@,
        "seven"@ != "three"@,
        "seven"@ != "four"@,
        "seven"@ != "five"@,
        "seven"@ != "six"@,
{
    reveal_strlit("seven");
    assert("seven"@ != "zero"@) by {
        reveal_strlit("zero");
        assert("seven"@.len() == 5 && "zero"@.len() == 4);
    }
    assert("seven"@ != "one"@) by {
        reveal_strlit("one");
        assert("seven"@.len() == 5 && "one"@.len() == 3);
    }
    assert("seven"@ != "two"@) by {
        reveal_strlit("two");
        assert("seven"@.len() == 5 && "two"@.len() == 3);
    }
    assert("seven"@ != "three"@) by {
        reveal_strlit("three");
        assert("seven"@[0] == 's' && "three"@[0] == 't');
    }
    assert("seven"@ != "four"@) by {
        reveal_strlit("four");
        assert("seven"@.len() == 5 && "four"@.len() == 4);
    }
    assert("seven"@ != "five"@) by {
        reveal_strlit("five");
        assert("seven"@.len() == 5 && "five"@.len() == 4);
    }
    assert("seven"@ != "six"@) by {
        reveal_strlit("six");
        assert("seven"@.len() == 5 && "six"@.len() == 3);
    }
}

proof fn lemma_word_eight()
    ensures
        "eight"@ != "zero"@,
        "eight"@ != "one"@,
        "eight"@ != "two"@,
        "eight"@ != "three"@,
        "eight"@ != "four"@,
        "eight"@ != "five"@,
        "eight"@ != "six"@,
        "eight"@ != "seven"@,
{
    reveal_strlit("eight");
    assert("eight"@ != "zero"@) by {
        reveal_strlit("zero");
        assert("eight"@.len() == 5 && "zero"@.len() == 4);
    }
    assert("eight"@ != "one"@) by {
        reveal_strlit("one");
        assert("eight"@.len() == 5 && "one"@.len() == 3);
    }
    assert("eight"@ != "two"@) by {
        reveal_strlit("two");
        assert("eight"@.len() == 5 && "two"@.len() == 3);
    }
    assert("eight"@ != "three"@) by {
        reveal_strlit("three");
        assert("eight"@[0] == 'e' && "three"@[0] == 't');
    }
    assert("eight"@ != "four"@) by {
        reveal_strlit("four");
        assert("eight"@.len() == 5 && "four"@.len() == 4);
    }
    assert("eight"@ != "five"@) by {
        reveal_strlit("five");
        assert("eight"@.len() == 5 && "five"@.len() == 4);
    }
    assert("eight"@ != "six"@) by {
        reveal_strlit("six");
        assert("eight"@.len() == 5 && "six"@.len() == 3);
    }
    assert("eight"@ != "seven"@) by {
        reveal_strlit("seven");
        assert("eight"@[0] == 'e' && "seven"@[0] == 's');
    }
}

proof fn lemma_word_nine()
    ensures
        "nine"@ != "zero"@,
        "nine"@ != "one"@,
        "nine"@ != "two"@,
        "nine"@ != "three"@,
        "nine"@ != "four"@,
        "nine"@ != "five"@,
        "nine"@ != "six"@,
        "nine"@ != "seven"@,
        "nine"@ != "eight"@,
{
    reveal_strlit("nine");
    assert("nine"@ != "zero"@) by {
        reveal_strlit("zero");
        assert("nine"@[0] == 'n' && "zero"@[0] == 'z');
    }
    assert("nine"@ != "one"@) by {
        reveal_strlit("one");
        assert("nine"@.len() == 4 && "one"@.len() == 3);
    }
    assert("nine"@ != "two"@) by {
        reveal_strlit("two");
        assert("nine"@.len() == 4 && "two"@.len() == 3);
    }
    assert("nine"@ != "three"@) by {
        reveal_strlit("three");
        assert("nine"@.len() == 4 && "three"@.len() == 5);
    }
    assert("nine"@ != "four"@) by {
        reveal_strlit("four");
        assert("nine"@[0] == 'n' && "four"@[0] == 'f');
    }
    assert("nine"@ != "five"@) by {
        reveal_strlit("five");
        assert("nine"@[0] == 'n' && "five"@[0] == 'f');
    }
    assert("nine"@ != "six"@) by {
        reveal_strlit("six");
        assert("nine"@.len() == 4 && "six"@.len() == 3);
    }
    assert("nine"@ != "seven"@) by {
        reveal_strlit("seven");
        assert("nine"@.len() == 4 && "seven"@.len() == 5);
    }
    assert("nine"@ != "eight"@) by {
        reveal_strlit("eight");
        assert("nine"@.len() == 4 && "eight"@.len() == 5);
    }
}

proof fn lemma_word_ten()
    ensures
        "ten"@ != "zero"@,
        "ten"@ != "one"@,
        "ten"@ != "two"@,
        "ten"@ != "three"@,
        "ten"@ != "four"@,
        "ten"@ != "five"@,
        "ten"@ != "six"@,
        "ten"@ != "seven"@,
        "ten"@ != "eight"@,
        "ten"@ != "nine"@,
{
    reveal_strlit("ten");
    assert("ten"@ != "zero"@) by {
        reveal_strlit("zero");
        assert("ten"@.len() == 3 && "zero"@.len() == 4);
    }
    assert("ten"@ != "one"@) by {
        reveal_strlit("one");
        assert("ten"@[0] == 't' && "one"@[0] == 'o');
    }
    assert("ten"@ != "two"@) by {
        reveal_strlit("two");
        assert("ten"@[1] == 'e' && "two"@[1] == 'w');
    }
    assert("ten"@ != "three"@) by {
        reveal_strlit("three");
        assert("ten"@.len() == 3 && "three"@.len() == 5);
    }
    assert("ten"@ != "four"@) by {
        reveal_strlit("four");
        assert("ten"@.len() == 3 && "four"@.len() == 4);
    }
    assert("ten"@ != "five"@) by {
        reveal_strlit("five");
        assert("ten"@.len() == 3 && "five"@.len() == 4);
    }
    assert("ten"@ != "six"@) by {
        reveal_strlit("six");
        assert("ten"@[0] == 't' && "six"@[0] == 's');
    }
    assert("ten"@ != "seven"@) by {
        reveal_strlit("seven");
        assert("ten"@.len() == 3 && "seven"@.len() == 5);
    }
    assert("ten"@ != "eight"@) by {
        reveal_strlit("eight");
        assert("ten"@.len() == 3 && "eight"@.len() == 5);
    }
    assert("ten"@ != "nine"@) by {
        reveal_strlit("nine");
        assert("ten"@.len() == 3 && "nine"@.len() == 4);
    }
}

proof fn lemma_word_eleven()
    ensures
        "eleven"@ != "zero"@,
        "eleven"@ != "one"@,
        "eleven"@ != "two"@,
        "eleven"@ != "three"@,
        "eleven"@ != "four"@,
        "eleven"@ != "five"@,
        "eleven"@ != "six"@,
        "eleven"@ != "seven"@,
        "eleven"@ != "eight"@,
        "eleven"@ != "nine"@,
        "eleven"@ != "ten"@,
{
    reveal_strlit("eleven");
    assert("eleven"@ != "zero"@) by {
        reveal_strlit("zero");
        assert("eleven"@.len() == 6 && "zero"@.len() == 4);
    }
    assert("eleven"@ != "one"@) by {
        reveal_strlit("one");
        assert("eleven"@.len() == 6 && "one"@.len() == 3);
    }
    assert("eleven"@ != "two"@) by {
        reveal_strlit("two");
        assert("eleven"@.len() == 6 && "two"@.len() == 3);
    }
    assert("eleven"@ != "three"@) by {
        reveal_strlit("three");
        assert("eleven"@.len() == 6 && "three"@.len() == 5);
    }
    assert("eleven"@ != "four"@) by {
        reveal_strlit("four");
        assert("eleven"@.len() == 6 && "four"@.len() == 4);
    }
    assert("eleven"@ != "five"@) by {
        reveal_strlit("five");
        assert("eleven"@.len() == 6 && "five"@.len() == 4);
    }
    assert("eleven"@ != "six"@) by {
        reveal_strlit("six");
        assert("eleven"@.len() == 6 && "six"@.len() == 3);
    }
    assert("eleven"@ != "seven"@) by {
        reveal_strlit("seven");
        assert("eleven"@.len() == 6 && "seven"@.len() == 5);
    }
    assert("eleven"@ != "eight"@) by {
        reveal_strlit("eight");
        assert("eleven"@.len() == 6 && "eight"@.len() == 5);
    }
    assert("eleven"@ != "nine"@) by {
        reveal_strlit("nine");
        assert("eleven"@.len() == 6 && "nine"@.len() == 4);
    }
    assert("eleven"@ != "ten"@) by {
        reveal_strlit("ten");
        assert("eleven"@.len() == 6 && "ten"@.len() == 3);
    }
}

proof fn lemma_word_twelve()
    ensures
        "twelve"@ != "zero"@,
        "twelve"@ != "one"@,
        "twelve"@ != "two"@,
        "twelve"@ != "three"@,
        "twelve"@ != "four"@,
        "twelve"@ != "five"@,
        "twelve"@ != "six"@,
        "twelve"@ != "seven"@,
        "twelve"@ != "eight"@,
        "twelve"@ != "nine"@,
        "twelve"@ != "ten"@,
        "twelve"@ != "eleven"@,
{
    reveal_strlit("twelve");
    assert("twelve"@ != "zero"@) by {
        reveal_strlit("zero");
        assert("twelve"@.len() == 6 && "zero"@.len() == 4);
    }
    assert("twelve"@ != "one"@) by {
        reveal_strlit("one");
        assert("twelve"@.len() == 6 && "one"@.len() == 3);
    }
    assert("twelve"@ != "two"@) by {
        reveal_strlit("two");
        assert("twelve"@.len() == 6 && "two"@.len() == 3);
    }
    assert("twelve"@ != "three"@) by {
        reveal_strlit("three");
        assert("twelve"@.len() == 6 && "three"@.len() == 5);
    }
    assert("twelve"@ != "four"@) by {
        reveal_strlit("four");
        assert("twelve"@.len() == 6 && "four"@.len() == 4);
    }
    assert("twelve"@ != "five"@) by {
        reveal_strlit("five");
        assert("twelve"@.len() == 6 && "five"@.len() == 4);
    }
    assert("twelve"@ != "six"@) by {
        reveal_strlit("six");
        assert("twelve"@.len() == 6 && "six"@.len() == 3);
    }
    assert("twelve"@ != "seven"@) by {
        reveal_strlit("seven");
        assert("twelve"@.len() == 6 && "seven"@.len() == 5);
    }
    assert("twelve"@ != "eight"@) by {
        reveal_strlit("eight");
        assert("twelve"@.len() == 6 && "eight"@.len() == 5);
    }
    assert("twelve"@ != "nine"@) by {
        reveal_strlit("nine");
        assert("twelve"@.len() == 6 && "nine"@.len() == 4);
    }
    assert("twelve"@ != "ten"@) by {
        reveal_strlit("ten");
        assert("twelve"@.len() == 6 && "ten"@.len() == 3);
    }
    assert("twelve"@ != "eleven"@) by {
        reveal_strlit("eleven");
        assert("twelve"@[0] == 't' && "eleven"@[0] == 'e');
    }
}

proof fn lemma_word_thirteen()
    ensures
        "thirteen"@ != "zero"@,
        "thirteen"@ != "one"@,
        "thirteen"@ != "two"@,
        "thirteen"@ != "three"@,
        "thirteen"@ != "four"@,
        "thirteen"@ != "five"@,
        "thirteen"@ != "six"@,
        "thirteen"@ != "seven"@,
        "thirteen"@ != "eight"@,
        "thirteen"@ != "nine"@,
        "thirteen"@ != "ten"@,
        "thirteen"@ != "eleven"@,
        "thirteen"@ != "twelve"@,
{
    reveal_strlit("thirteen");
    assert("thirteen"@ != "zero"@) by {
        reveal_strlit("zero");
        assert("thirteen"@.len() == 8 && "zero"@.len() == 4);
    }
    assert("thirteen"@ != "one"@) by {
        reveal_strlit("one");
        assert("thirteen"@.len() == 8 && "one"@.len() == 3);
    }
    assert("thirteen"@ != "two"@) by {
        reveal_strlit("two");
        assert("thirteen"@.len() == 8 && "two"@.len() == 3);
    }
    assert("thirteen"@ != "three"@) by {
        reveal_strlit("three");
        assert("thirteen"@.len() == 8 && "three"@.len() == 5);
    }
    assert("thirteen"@ != "four"@) by {
        reveal_strlit("four");
        assert("thirteen"@.len() == 8 && "four"@.len() == 4);
    }
    assert("thirteen"@ != "five"@) by {
        reveal_strlit("five");
        assert("thirteen"@.len() == 8 && "five"@.len() == 4);
    }
    assert("thirteen"@ != "six"@) by {
        reveal_strlit("six");
        assert("thirteen"@.len() == 8 && "six"@.len() == 3);
    }
    assert("thirteen"@ != "seven"@) by {
        reveal_strlit("seven");
        assert("thirteen"@.len() == 8 && "seven"@.len() == 5);
    }
    assert("thirteen"@ != "eight"@) by {
        reveal_strlit("eight");
        assert("thirteen"@.len() == 8 && "eight"@.len() == 5);
    }
    assert("thirteen"@ != "nine"@) by {
        reveal_strlit("nine");
        assert("thirteen"@.len() == 8 && "nine"@.len() == 4);
    }
    assert("thirteen"@ != "ten"@) by {
        reveal_strlit("ten");
        assert("thirteen"@.len() == 8 && "ten"@.len() == 3);
    }
    assert("thirteen"@ != "eleven"@) by {
        reveal_strlit("eleven");
        assert("thirteen"@.len() == 8 && "eleven"@.len() == 6);
    }
    assert("thirteen"@ != "twelve"@) by {
        reveal_strlit("twelve");
        assert("thirteen"@.len() == 8 && "twelve"@.len() == 6);
    }
}

proof fn lemma_word_fourteen()
    ensures
        "fourteen"@ != "zero"@,
        "fourteen"@ != "one"@,
        "fourteen"@ != "two"@,
        "fourteen"@ != "three"@,
        "fourteen"@ != "four"@,
        "fourteen"@ != "five"@,
        "fourteen"@ != "six"@,
        "fourteen"@ != "seven"@,
        "fourteen"@ != "eight"@,
        "fourteen"@ != "nine"@,
        "fourteen"@ != "ten"@,
        "fourteen"@ != "eleven"@,
        "fourteen"@ != "twelve"@,
        "fourteen"@ != "thirteen"@,
{
    reveal_strlit("fourteen");
    assert("fourteen"@ != "zero"@) by {
        reveal_strlit("zero");
        assert("fourteen"@.len() == 8 && "zero"@.len() == 4);
    }
    assert("fourteen"@ != "one"@) by {
        reveal_strlit("one");
        assert("fourteen"@.len() == 8 && "one"@.len() == 3);
    }
    assert("fourteen"@ != "two"@) by {
        reveal_strlit("two");
        assert("fourteen"@.len() == 8 && "two"@.len() == 3);
    }
    assert("fourteen"@ != "three"@) by {
        reveal_strlit("three");
        assert("fourteen"@.len() == 8 && "three"@.len() == 5);
    }
    assert("fourteen"@ != "four"@) by {
        reveal_strlit("four");
        assert("fourteen"@.len() == 8 && "four"@.len() == 4);
    }
    assert("fourteen"@ != "five"@) by {
        reveal_strlit("five");
        assert("fourteen"@.len() == 8 && "five"@.len() == 4);
    }
    assert("fourteen"@ != "six"@) by {
        reveal_strlit("six");
        assert("fourteen"@.len() == 8 && "six"@.len() == 3);
    }
    assert("fourteen"@ != "seven"@) by {
        reveal_strlit("seven");
        assert("fourteen"@.len() == 8 && "seven"@.len() == 5);
    }
    assert("fourteen"@ != "eight"@) by {
        reveal_strlit("eight");
        assert("fourteen"@.len() == 8 && "eight"@.len() == 5);
    }
    assert("fourteen"@ != "nine"@) by {
        reveal_strlit("nine");
        assert("fourteen"@.len() == 8 && "nine"@.len() == 4);
    }
    assert("fourteen"@ != "ten"@) by {
        reveal_strlit("ten");
        assert("fourteen"@.len() == 8 && "ten"@.len() == 3);
    }
    assert("fourteen"@ != "eleven"@) by {
        reveal_strlit("eleven");
        assert("fourteen"@.len() == 8 && "eleven"@.len() == 6);
    }
    assert("fourteen"@ != "twelve"@) by {
        reveal_strlit("twelve");
        assert("fourteen"@.len() == 8 && "twelve"@.len() == 6);
    }
    assert("fourteen"@ != "thirteen"@) by {
        reveal_strlit("thirteen");
        assert("fourteen"@[0] == 'f' && "thirteen"@[0] == 't');
    }
}

proof fn lemma_word_fifteen()
    ensures
        "fifteen"@ != "zero"@,
        "fifteen"@ != "one"@,
        "fifteen"@ != "two"@,
        "fifteen"@ != "three"@,
        "fifteen"@ != "four"@,
        "fifteen"@ != "five"@,
        "fifteen"@ != "six"@,
        "fifteen"@ != "seven"@,
        "fifteen"@ != "eight"@,
        "fifteen"@ != "nine"@,
        "fifteen"@ != "ten"@,
        "fifteen"@ != "eleven"@,
        "fifteen"@ != "twelve"@,
        "fifteen"@ != "thirteen"@,
        "fifteen"@ != "fourteen"@,
{
    reveal_strlit("fifteen");
    assert("fifteen"@ != "zero"@) by {
        reveal_strlit("zero");
        assert("fifteen"@.len() == 7 && "zero"@.len() == 4);
    }
    assert("fifteen"@ != "one"@) by {
        reveal_strlit("one");
        assert("fifteen"@.len() == 7 && "one"@.len() == 3);
    }
    assert("fifteen"@ != "two"@) by {
        reveal_strlit("two");
        assert("fifteen"@.len() == 7 && "two"@.len() == 3);
    }
    assert("fifteen"@ != "three"@) by {
        reveal_strlit("three");
        assert("fifteen"@.len() == 7 && "three"@.len() == 5);
    }
    assert("fifteen"@ != "four"@) by {
        reveal_strlit("four");
        assert("fifteen"@.len() == 7 && "four"@.len() == 4);
    }
    assert("fifteen"@ != "five"@) by {
        reveal_strlit("five");
        assert("fifteen"@.len() == 7 && "five"@.len() == 4);
    }
    assert("fifteen"@ != "six"@) by {
        reveal_strlit("six");
        assert("fifteen"@.len() == 7 && "six"@.len() == 3);
    }
    assert("fifteen"@ != "seven"@) by {
        reveal_strlit("seven");
        assert("fifteen"@.len() == 7 && "seven"@.len() == 5);
    }
    assert("fifteen"@ != "eight"@) by {
        reveal_strlit("eight");
        assert("fifteen"@.len() == 7 && "eight"@.len() == 5);
    }
    assert("fifteen"@ != "nine"@) by {
        reveal_strlit("nine");
        assert("fifteen"@.len() == 7 && "nine"@.len() == 4);
    }
    assert("fifteen"@ != "ten"@) by {
        reveal_strlit("ten");
        assert("fifteen"@.len() == 7 && "ten"@.len() == 3);
    }
    assert("fifteen"@ != "eleven"@) by {
        reveal_strlit("eleven");
        assert("fifteen"@.len() == 7 && "eleven"@.len() == 6);
    }
    assert("fifteen"@ != "twelve"@) by {
        reveal_strlit("twelve");
        assert("fifteen"@.len() == 7 && "twelve"@.len() == 6);
    }
    assert("fifteen"@ != "thirteen"@) by {
        reveal_strlit("thirteen");
        assert("fifteen"@.len() == 7 && "thirteen"@.len() == 8);
    }
    assert("fifteen"@ != "fourteen"@) by {
        reveal_strlit("fourteen");
        assert("fifteen"@.len() == 7 && "fourteen"@.len() == 8);
    }
}

proof fn lemma_word_sixteen()
    ensures
        "sixteen"@ != "zero"@,
        "sixteen"@ != "one"@,
        "sixteen"@ != "two"@,
        "sixteen"@ != "three"@,
        "sixteen"@ != "four"@,
        "sixteen"@ != "five"@,
        "sixteen"@ != "six"@,
        "sixteen"@ != "seven"@,
        "sixteen"@ != "eight"@,
        "sixteen"@ != "nine"@,
        "sixteen"@ != "ten"@,
        "sixteen"@ != "eleven"@,
        "sixteen"@ != "twelve"@,
        "sixteen"@ != "thirteen"@,
        "sixteen"@ != "fourteen"@,
        "sixteen"@ != "fifteen"@,
{
    reveal_strlit("sixteen");
    assert("sixteen"@ != "zero"@) by {
        reveal_strlit("zero");
        assert("sixteen"@.len() == 7 && "zero"@.len() == 4);
    }
    assert("sixteen"@ != "one"@) by {
        reveal_strlit("one");
        assert("sixteen"@.len() == 7 && "one"@.len() == 3);
    }
    assert("sixteen"@ != "two"@) by {
        reveal_strlit("two");
        assert("sixteen"@.len() == 7 && "two"@.len() == 3);
    }
    assert("sixteen"@ != "three"@) by {
        reveal_strlit("three");
        assert("sixteen"@.len() == 7 && "three"@.len() == 5);
    }
    assert("sixteen"@ != "four"@) by {
        reveal_strlit("four");
        assert("sixteen"@.len() == 7 && "four"@.len() == 4);
    }
    assert("sixteen"@ != "five"@) by {
        reveal_strlit("five");
        assert("sixteen"@.len() == 7 && "five"@.len() == 4);
    }
    assert("sixteen"@ != "six"@) by {
        reveal_strlit("six");
        assert("sixteen"@.len() == 7 && "six"@.len() == 3);
    }
    assert("sixteen"@ != "seven"@) by {
        reveal_strlit("seven");
        assert("sixteen"@.len() == 7 && "seven"@.len() == 5);
    }
    assert("sixteen"@ != "eight"@) by {
        reveal_strlit("eight");
        assert("sixteen"@.len() == 7 && "eight"@.len() == 5);
    }
    assert("sixteen"@ != "nine"@) by {
        reveal_strlit("nine");
        assert("sixteen"@.len() == 7 && "nine"@.len() == 4);
    }
    assert("sixteen"@ != "ten"@) by {
        reveal_strlit("ten");
        assert("sixteen"@.len() == 7 && "ten"@.len() == 3);
    }
    assert("sixteen"@ != "eleven"@) by {
        reveal_strlit("eleven");
        assert("sixteen"@.len() == 7 && "eleven"@.len() == 6);
    }
    assert("sixteen"@ != "twelve"@) by {
        reveal_strlit("twelve");
        assert("sixteen"@.len() == 7 && "twelve"@.len() == 6);
    }
    assert("sixteen"@ != "thirteen"@) by {
        reveal_strlit("thirteen");
        assert("sixteen"@.len() == 7 && "thirteen"@.len() == 8);
    }
    assert("sixteen"@ != "fourteen"@) by {
        reveal_strlit("fourteen");
        assert("sixteen"@.len() == 7 && "fourteen"@.len() == 8);
    }
    assert("sixteen"@ != "fifteen"@) by {
        reveal_strlit("fifteen");
        assert("sixteen"@[0] == 's' && "fifteen"@[0] == 'f');
    }
}

proof fn lemma_word_seventeen()
    ensures
        "seventeen"@ != "zero"@,
        "seventeen"@ != "one"@,
        "seventeen"@ != "two"@,
        "seventeen"@ != "three"@,
        "seventeen"@ != "four"@,
        "seventeen"@ != "five"@,
        "seventeen"@ != "six"@,
        "seventeen"@ != "seven"@,
        "seventeen"@ != "eight"@,
        "seventeen"@ != "nine"@,
        "seventeen"@ != "ten"@,
        "seventeen"@ != "eleven"@,
        "seventeen"@ != "twelve"@,
        "seventeen"@ != "thirteen"@,
        "seventeen"@ != "fourteen"@,
        "seventeen"@ != "fifteen"@,
        "seventeen"@ != "sixteen"@,
{
    reveal_strlit("seventeen");
    assert("seventeen"@ != "zero"@) by {
        reveal_strlit("zero");
        assert("seventeen"@.len() == 9 && "zero"@.len() == 4);
    }
    assert("seventeen"@ != "one"@) by {
        reveal_strlit("one");
        assert("seventeen"@.len() == 9 && "one"@.len() == 3);
    }
    assert("seventeen"@ != "two"@) by {
        reveal_strlit("two");
        assert("seventeen"@.len() == 9 && "two"@.len() == 3);
    }
    assert("seventeen"@ != "three"@) by {
        reveal_strlit("three");
        assert("seventeen"@.len() == 9 && "three"@.len() == 5);
    }
    assert("seventeen"@ != "four"@) by {
        reveal_strlit("four");
        assert("seventeen"@.len() == 9 && "four"@.len() == 4);
    }
    assert("seventeen"@ != "five"@) by {
        reveal_strlit("five");
        assert("seventeen"@.len() == 9 && "five"@.len() == 4);
    }
    assert("seventeen"@ != "six"@) by {
        reveal_strlit("six");
        assert("seventeen"@.len() == 9 && "six"@.len() == 3);
    }
    assert("seventeen"@ != "seven"@) by {
        reveal_strlit("seven");
        assert("seventeen"@.len() == 9 && "seven"@.len() == 5);
    }
    assert("seventeen"@ != "eight"@) by {
        reveal_strlit("eight");
        assert("seventeen"@.len() == 9 && "eight"@.len() == 5);
    }
    assert("seventeen"@ != "nine"@) by {
        reveal_strlit("nine");
        assert("seventeen"@.len() == 9 && "nine"@.len() == 4);
    }
    assert("seventeen"@ != "ten"@) by {
        reveal_strlit("ten");
        assert("seventeen"@.len() == 9 && "ten"@.len() == 3);
    }
    assert("seventeen"@ != "eleven"@) by {
        reveal_strlit("eleven");
        assert("seventeen"@.len() == 9 && "eleven"@.len() == 6);
    }
    assert("seventeen"@ != "twelve"@) by {
        reveal_strlit("twelve");
        assert("seventeen"@.len() == 9 && "twelve"@.len() == 6);
    }
    assert("seventeen"@ != "thirteen"@) by {
        reveal_strlit("thirteen");
        assert("seventeen"@.len() == 9 && "thirteen"@.len() == 8);
    }
    assert("seventeen"@ != "fourteen"@) by {
        reveal_strlit("fourteen");
        assert("seventeen"@.len() == 9 && "fourteen"@.len() == 8);
    }
    assert("seventeen"@ != "fifteen"@) by {
        reveal_strlit("fifteen");
        assert("seventeen"@.len() == 9 && "fifteen"@.len() == 7);
    }
    assert("seventeen"@ != "sixteen"@) by {
        reveal_strlit("sixteen");
        assert("seventeen"@.len() == 9 && "sixteen"@.len() == 7);
    }
}

proof fn lemma_word_eighteen()
    ensures
        "eighteen"@ != "zero"@,
        "eighteen"@ != "one"@,
        "eighteen"@ != "two"@,
        "eighteen"@ != "three"@,
        "eighteen"@ != "four"@,
        "eighteen"@ != "five"@,
        "eighteen"@ != "six"@,
        "eighteen"@ != "seven"@,
        "eighteen"@ != "eight"@,
        "eighteen"@ != "nine"@,
        "eighteen"@ != "ten"@,
        "eighteen"@ != "eleven"@,
        "eighteen"@ != "twelve"@,
        "eighteen"@ != "thirteen"@,
        "eighteen"@ != "fourteen"@,
        "eighteen"@ != "fifteen"@,
        "eighteen"@ != "sixteen"@,
        "eighteen"@ != "seventeen"@,
{
    reveal_strlit("eighteen");
    assert("eighteen"@ != "zero"@) by {
        reveal_strlit("zero");
        assert("eighteen"@.len() == 8 && "zero"@.len() == 4);
    }
    assert("eighteen"@ != "one"@) by {
        reveal_strlit("one");
        assert("eighteen"@.len() == 8 && "one"@.len() == 3);
    }
    assert("eighteen"@ != "two"@) by {
        reveal_strlit("two");
        assert("eighteen"@.len() == 8 && "two"@.len() == 3);
    }
    assert("eighteen"@ != "three"@) by {
        reveal_strlit("three");
        assert("eighteen"@.len() == 8 && "three"@.len() == 5);
    }
    assert("eighteen"@ != "four"@) by {
        reveal_strlit("four");
        assert("eighteen"@.len() == 8 && "four"@.len() == 4);
    }
    assert("eighteen"@ != "five"@) by {
        reveal_strlit("five");
        assert("eighteen"@.len() == 8 && "five"@.len() == 4);
    }
    assert("eighteen"@ != "six"@) by {
        reveal_strlit("six");
        assert("eighteen"@.len() == 8 && "six"@.len() == 3);
    }
    assert("eighteen"@ != "seven"@) by {
        reveal_strlit("seven");
        assert("eighteen"@.len() == 8 && "seven"@.len() == 5);
    }
    assert("eighteen"@ != "eight"@) by {
        reveal_strlit("eight");
        assert("eighteen"@.len() == 8 && "eight"@.len() == 5);
    }
    assert("eighteen"@ != "nine"@) by {
        reveal_strlit("nine");
        assert("eighteen"@.len() == 8 && "nine"@.len() == 4);
    }
    assert("eighteen"@ != "ten"@) by {
        reveal_strlit("ten");
        assert("eighteen"@.len() == 8 && "ten"@.len() == 3);
    }
    assert("eighteen"@ != "eleven"@) by {
        reveal_strlit("eleven");
        assert("eighteen"@.len() == 8 && "eleven"@.len() == 6);
    }
    assert("eighteen"@ != "twelve"@) by {
        reveal_strlit("twelve");
        assert("eighteen"@.len() == 8 && "twelve"@.len() == 6);
    }
    assert("eighteen"@ != "thirteen"@) by {
        reveal_strlit("thirteen");
        assert("eighteen"@[0] == 'e' && "thirteen"@[0] == 't');
    }
    assert("eighteen"@ != "fourteen"@) by {
        reveal_strlit("fourteen");
        assert("eighteen"@[0] == 'e' && "fourteen"@[0] == 'f');
    }
    assert("eighteen"@ != "fifteen"@) by {
        reveal_strlit("fifteen");
        assert("eighteen"@.len() == 8 && "fifteen"@.len() == 7);
    }
    assert("eighteen"@ != "sixteen"@) by {
        reveal_strlit("sixteen");
        assert("eighteen"@.len() == 8 && "sixteen"@.len() == 7);
    }
    assert("eighteen"@ != "seventeen"@) by {
        reveal_strlit("seventeen");
        assert("eighteen"@.len() == 8 && "seventeen"@.len() == 9);
    }
}

proof fn lemma_word_nineteen()
    ensures
        "nineteen"@ != "zero"@,
        "nineteen"@ != "one"@,
        "nineteen"@ != "two"@,
        "nineteen"@ != "three"@,
        "nineteen"@ != "four"@,
        "nineteen"@ != "five"@,
        "nineteen"@ != "six"@,
        "nineteen"@ != "seven"@,
        "nineteen"@ != "eight"@,
        "nineteen"@ != "nine"@,
        "nineteen"@ != "ten"@,
        "nineteen"@ != "eleven"@,
        "nineteen"@ != "twelve"@,
        "nineteen"@ != "thirteen"@,
        "nineteen"@ != "fourteen"@,
        "nineteen"@ != "fifteen"@,
        "nineteen"@ != "sixteen"@,
        "nineteen"@ != "seventeen"@,
        "nineteen"@ != "eighteen"@,
{
    reveal_strlit("nineteen");
    assert("nineteen"@ != "zero"@) by {
        reveal_strlit("zero");
        assert("nineteen"@.len() == 8 && "zero"@.len() == 4);
    }
    assert("nineteen"@ != "one"@) by {
        reveal_strlit("one");
        assert("nineteen"@.len() == 8 && "one"@.len() == 3);
    }
    assert("nineteen"@ != "two"@) by {
        reveal_strlit("two");
        assert("nineteen"@.len() == 8 && "two"@.len() == 3);
    }
    assert("nineteen"@ != "three"@) by {
        reveal_strlit("three");
        assert("nineteen"@.len() == 8 && "three"@.len() == 5);
    }
    assert("nineteen"@ != "four"@) by {
        reveal_strlit("four");
        assert("nineteen"@.len() == 8 && "four"@.len() == 4);
    }
    assert("nineteen"@ != "five"@) by {
        reveal_strlit("five");
        assert("nineteen"@.len() == 8 && "five"@.len() == 4);
    }
    assert("nineteen"@ != "six"@) by {
        reveal_strlit("six");
        assert("nineteen"@.len() == 8 && "six"@.len() == 3);
    }
    assert("nineteen"@ != "seven"@) by {
        reveal_strlit("seven");
        assert("nineteen"@.len() == 8 && "seven"@.len() == 5);
    }
    assert("nineteen"@ != "eight"@) by {
        reveal_strlit("eight");
        assert("nineteen"@.len() == 8 && "eight"@.len() == 5);
    }
    assert("nineteen"@ != "nine"@) by {
        reveal_strlit("nine");
        assert("nineteen"@.len() == 8 && "nine"@.len() == 4);
    }
    assert("nineteen"@ != "ten"@) by {
        reveal_strlit("ten");
        assert("nineteen"@.len() == 8 && "ten"@.len() == 3);
    }
    assert("nineteen"@ != "eleven"@) by {
        reveal_strlit("eleven");
        assert("nineteen"@.len() == 8 && "eleven"@.len() == 6);
    }
    assert("nineteen"@ != "twelve"@) by {
        reveal_strlit("twelve");
        assert("nineteen"@.len() == 8 && "twelve"@.len() == 6);
    }
    assert("nineteen"@ != "thirteen"@) by {
        reveal_strlit("thirteen");
        assert("nineteen"@[0] == 'n' && "thirteen"@[0] == 't');
    }
    assert("nineteen"@ != "fourteen"@) by {
        reveal_strlit("fourteen");
        assert("nineteen"@[0] == 'n' && "fourteen"@[0] == 'f');
    }
    assert("nineteen"@ != "fifteen"@) by {
        reveal_strlit("fifteen");
        assert("nineteen"@.len() == 8 && "fifteen"@.len() == 7);
    }
    assert("nineteen"@ != "sixteen"@) by {
        reveal_strlit("sixteen");
        assert("nineteen"@.len() == 8 && "sixteen"@.len() == 7);
    }
    assert("nineteen"@ != "seventeen"@) by {
        reveal_strlit("seventeen");
        assert("nineteen"@.len() == 8 && "seventeen"@.len() == 9);
    }
    assert("nineteen"@ != "eighteen"@) by {
        reveal_strlit("eighteen");
        assert("nineteen"@[0] == 'n' && "eighteen"@[0] == 'e');
    }
}

proof fn lemma_word_twenty()
    ensures
        "twenty"@ != "zero"@,
        "twenty"@ != "one"@,
        "twenty"@ != "two"@,
        "twenty"@ != "three"@,
        "twenty"@ != "four"@,
        "twenty"@ != "five"@,
        "twenty"@ != "six"@,
        "twenty"@ != "seven"@,
        "twenty"@ != "eight"@,
        "twenty"@ != "nine"@,
        "twenty"@ != "ten"@,
        "twenty"@ != "eleven"@,
        "twenty"@ != "twelve"@,
        "twenty"@ != "thirteen"@,
        "twenty"@ != "fourteen"@,
        "twenty"@ != "fifteen"@,
        "twenty"@ != "sixteen"@,
        "twenty"@ != "seventeen"@,
        "twenty"@ != "eighteen"@,
        "twenty"@ != "nineteen"@,
{
    reveal_strlit("twenty");
    assert("twenty"@ != "zero"@) by {
        reveal_strlit("zero");
        assert("twenty"@.len() == 6 && "zero"@.len() == 4);
    }
    assert("twenty"@ != "one"@) by {
        reveal_strlit("one");
        assert("twenty"@.len() == 6 && "one"@.len() == 3);
    }
    assert("twenty"@ != "two"@) by {
        reveal_strlit("two");
        assert("twenty"@.len() == 6 && "two"@.len() == 3);
    }
    assert("twenty"@ != "three"@) by {
        reveal_strlit("three");
        assert("twenty"@.len() == 6 && "three"@.len() == 5);
    }
    assert("twenty"@ != "four"@) by {
        reveal_strlit("four");
        assert("twenty"@.len() == 6 && "four"@.len() == 4);
    }
    assert("twenty"@ != "five"@) by {
        reveal_strlit("five");
        assert("twenty"@.len() == 6 && "five"@.len() == 4);
    }
    assert("twenty"@ != "six"@) by {
        reveal_strlit("six");
        assert("twenty"@.len() == 6 && "six"@.len() == 3);
    }
    assert("twenty"@ != "seven"@) by {
        reveal_strlit("seven");
        assert("twenty"@.len() == 6 && "seven"@.len() == 5);
    }
    assert("twenty"@ != "eight"@) by {
        reveal_strlit("eight");
        assert("twenty"@.len() == 6 && "eight"@.len() == 5);
    }
    assert("twenty"@ != "nine"@) by {
        reveal_strlit("nine");
        assert("twenty"@.len() == 6 && "nine"@.len() == 4);
    }
    assert("twenty"@ != "ten"@) by {
        reveal_strlit("ten");
        assert("twenty"@.len() == 6 && "ten"@.len() == 3);
    }
    assert("twenty"@ != "eleven"@) by {
        reveal_strlit("eleven");
        assert("twenty"@[0] == 't' && "eleven"@[0] == 'e');
    }
    assert("twenty"@ != "twelve"@) by {
        reveal_strlit("twelve");
        assert("twenty"@[3] == 'n' && "twelve"@[3] == 'l');
    }
    assert("twenty"@ != "thirteen"@) by {
        reveal_strlit("thirteen");
        assert("twenty"@.len() == 6 && "thirteen"@.len() == 8);
    }
    assert("twenty"@ != "fourteen"@) by {
        reveal_strlit("fourteen");
        assert("twenty"@.len() == 6 && "fourteen"@.len() == 8);
    }
    assert("twenty"@ != "fifteen"@) by {
        reveal_strlit("fifteen");
        assert("twenty"@.len() == 6 && "fifteen"@.len() == 7);
    }
    assert("twenty"@ != "sixteen"@) by {
        reveal_strlit("sixteen");
        assert("twenty"@.len() == 6 && "sixteen"@.len() == 7);
    }
    assert("twenty"@ != "seventeen"@) by {
        reveal_strlit("seventeen");
        assert("twenty"@.len() == 6 && "seventeen"@.len() == 9);
    }
    assert("twenty"@ != "eighteen"@) by {
        reveal_strlit("eighteen");
        assert("twenty"@.len() == 6 && "eighteen"@.len() == 8);
    }
    assert("twenty"@ != "nineteen"@) by {
        reveal_strlit("nineteen");
        assert("twenty"@.len() == 6 && "nineteen"@.len() == 8);
    }
}

/// The words for numbers up to twenty are read as those numbers, and digits as what they stand for.
pub proof fn words_for_numbers(n: nat)
    ensures
        word_number("zero"@) == Some(0nat),
        word_number("one"@) == Some(1nat),
        word_number("two"@) == Some(2nat),
        word_number("three"@) == Some(3nat),
        word_number("four"@) == Some(4nat),
        word_number("five"@) == Some(5nat),
        word_number("six"@) == Some(6nat),
        word_number("seven"@) == Some(7nat),
        word_number("eight"@) == Some(8nat),
        word_number("nine"@) == Some(9nat),
        word_number("ten"@) == Some(10nat),
        word_number("eleven"@) == Some(11nat),
        word_number("twelve"@) == Some(12nat),
        word_number("thirteen"@) == Some(13nat),
        word_number("fourteen"@) == Some(14nat),
        word_number("fifteen"@) == Some(15nat),
        word_number("sixteen"@) == Some(16nat),
        word_number("seventeen"@) == Some(17nat),
        word_number("eighteen"@) == Some(18nat),
        word_number("nineteen"@) == Some(19nat),
        word_number("twenty"@) == Some(20nat),
        n <= 0xffff_ffff ==> word_number(decimal(n)) == Some(n),
{
    lemma_word_one();
    lemma_word_two();
    lemma_word_three();
    lemma_word_four();
    lemma_word_five();
    lemma_word_six();
    lemma_word_seven();
    lemma_word_eight();
    lemma_word_nine();
    lemma_word_ten();
    lemma_word_eleven();
    lemma_word_twelve();
    lemma_word_thirteen();
    lemma_word_fourteen();
    lemma_word_fifteen();
    lemma_word_sixteen();
    lemma_word_seventeen();
    lemma_word_eighteen();
    lemma_word_nineteen();
    lemma_word_twenty();
    what_is_written_is_read(n);
    lemma_first_digit(n);
    assert(decimal(n) != "zero"@) by {
        reveal_strlit("zero");
    }
    assert(decimal(n) != "one"@) by {
        reveal_strlit("one");
    }
    assert(decimal(n) != "two"@) by {
        reveal_strlit("two");
    }
    assert(decimal(n) != "three"@) by {
        reveal_strlit("three");
    }
    assert(decimal(n) != "four"@) by {
        reveal_strlit("four");
    }
    assert(decimal(n) != "five"@) by {
        reveal_strlit("five");
    }
    assert(decimal(n) != "six"@) by {
        reveal_strlit("six");
    }
    assert(decimal(n) != "seven"@) by {
        reveal_strlit("seven");
    }
    assert(decimal(n) != "eight"@) by {
        reveal_strlit("eight");
    }
    assert(decimal(n) != "nine"@) by {
        reveal_strlit("nine");
    }
    assert(decimal(n) != "ten"@) by {
        reveal_strlit("ten");
    }
    assert(decimal(n) != "eleven"@) by {
        reveal_strlit("eleven");
    }
    assert(decimal(n) != "twelve"@) by {
        reveal_strlit("twelve");
    }
    assert(decimal(n) != "thirteen"@) by {
        reveal_strlit("thirteen");
    }
    assert(decimal(n) != "fourteen"@) by {
        reveal_strlit("fourteen");
    }
    assert(decimal(n) != "fifteen"@) by {
        reveal_strlit("fifteen");
    }
    assert(decimal(n) != "sixteen"@) by {
        reveal_strlit("sixteen");
    }
    assert(decimal(n) != "seventeen"@) by {
        reveal_strlit("seventeen");
    }
    assert(decimal(n) != "eighteen"@) by {
        reveal_strlit("eighteen");
    }
    assert(decimal(n) != "nineteen"@) by {
        reveal_strlit("nineteen");
    }
    assert(decimal(n) != "twenty"@) by {
        reveal_strlit("twenty");
    }
}

/// Whether a text differs from another at a place.
spec fn differs_at(s: Seq<char>, p: Seq<char>, k: int) -> bool {
    0 <= k < s.len() && k < p.len() && s[k] != p[k]
}

/// Whether a text differs from another at a place counted from the end.
spec fn differs_before(s: Seq<char>, p: Seq<char>, k: int) -> bool {
    0 < k <= s.len() && k <= p.len() && s[s.len() - k] != p[p.len() - k]
}

proof fn lemma_not_after(s: Seq<char>, p: Seq<char>, k: int)
    requires
        differs_at(s, p, k),
    ensures
        after_prefix(s, p) is None,
        s != p,
{
    if p.len() <= s.len() && s.take(p.len() as int) == p {
        assert(s.take(p.len() as int)[k] == s[k]);
    }
}

proof fn lemma_not_before(s: Seq<char>, p: Seq<char>, k: int)
    requires
        differs_before(s, p, k),
    ensures
        before_suffix(s, p) is None,
        s != p,
{
    if p.len() <= s.len() && s.skip(s.len() - p.len()) == p {
        assert(s.skip(s.len() - p.len())[p.len() - k] == s[s.len() - k]);
    }
}

/// What stands between a beginning and an ending is found.
pub proof fn what_stands_between(p: Seq<char>, w: Seq<char>, q: Seq<char>)
    ensures
        between(p + w + q, p, q) == Some(w),
        threshold(p + w + q, p, q) == word_number(trimmed(w)),
{
    what_follows_a_beginning(p + w + q, p, w + q);
    assert(p + w + q =~= p + (w + q));
    what_goes_before_an_ending(w + q, q, w);
}

/// A text that asks for so many cards in the graveyard asks for just that number.
pub proof fn texts_about_the_size_of_the_graveyard(w: Seq<char>, n: nat)
    requires
        word_number(trimmed(w)) == Some(n),
    ensures
        condition_in("there are "@ + w + " or more cards in your graveyard"@) == Some(ConditionModel::GraveyardCardCountAtLeast { count: n as usize }),
{
    let p = "there are "@;
    let e = " or more cards in your graveyard"@;
    let s = p + w + e;
    what_stands_between(p, w, e);
    reveal_strlit("there are ");
    reveal_strlit(" or more cards in your graveyard");
    assert(p.len() == 10 && e.len() == 32);
    assert forall|i: int| 0 <= i < 10 implies #[trigger] s[i] == p[i] by {}
    assert forall|i: int| 0 < i <= 32 implies #[trigger] s[s.len() - i] == e[32 - i] by {}
    assert(differs_at(s, "from your graveyard"@, 0)) by {
        reveal_strlit("from your graveyard");
    }
    lemma_not_after(s, "from your graveyard"@, 0);
    assert(differs_at(s, "this card is in your graveyard"@, 2)) by {
        reveal_strlit("this card is in your graveyard");
    }
    lemma_not_after(s, "this card is in your graveyard"@, 2);
    assert(differs_at(s, "this card is suspended"@, 2)) by {
        reveal_strlit("this card is suspended");
    }
    lemma_not_after(s, "this card is suspended"@, 2);
    assert(differs_at(s, "this creature is attacking"@, 2)) by {
        reveal_strlit("this creature is attacking");
    }
    lemma_not_after(s, "this creature is attacking"@, 2);
    assert(differs_at(s, "this creature is blocked"@, 2)) by {
        reveal_strlit("this creature is blocked");
    }
    lemma_not_after(s, "this creature is blocked"@, 2);
    assert(differs_at(s, "this creature is attacking or blocking"@, 2)) by {
        reveal_strlit("this creature is attacking or blocking");
    }
    lemma_not_after(s, "this creature is attacking or blocking"@, 2);
    assert(differs_at(s, "this creature is attacking or blocking and only once each turn"@, 2)) by {
        reveal_strlit("this creature is attacking or blocking and only once each turn");
    }
    lemma_not_after(s, "this creature is attacking or blocking and only once each turn"@, 2);
    assert(differs_at(s, "this permanent is a creature"@, 2)) by {
        reveal_strlit("this permanent is a creature");
    }
    lemma_not_after(s, "this permanent is a creature"@, 2);
    assert(differs_at(s, "this creature entered this turn"@, 2)) by {
        reveal_strlit("this creature entered this turn");
    }
    lemma_not_after(s, "this creature entered this turn"@, 2);
    assert(differs_at(s, "this land entered this turn"@, 2)) by {
        reveal_strlit("this land entered this turn");
    }
    lemma_not_after(s, "this land entered this turn"@, 2);
    assert(differs_at(s, "enchanted land is untapped"@, 0)) by {
        reveal_strlit("enchanted land is untapped");
    }
    lemma_not_after(s, "enchanted land is untapped"@, 0);
    assert(differs_at(s, "enchanted creature is untapped"@, 0)) by {
        reveal_strlit("enchanted creature is untapped");
    }
    lemma_not_after(s, "enchanted creature is untapped"@, 0);
    assert(differs_at(s, "this creature doesn't have defender"@, 2)) by {
        reveal_strlit("this creature doesn't have defender");
    }
    lemma_not_after(s, "this creature doesn't have defender"@, 2);
    assert(differs_at(s, "this creature is blue"@, 2)) by {
        reveal_strlit("this creature is blue");
    }
    lemma_not_after(s, "this creature is blue"@, 2);
    assert(differs_at(s, "this creature's power is "@, 2)) by {
        reveal_strlit("this creature's power is ");
    }
    lemma_not_after(s, "this creature's power is "@, 2);
    assert(differs_at(s, "this artifact has "@, 2)) by {
        reveal_strlit("this artifact has ");
    }
    lemma_not_after(s, "this artifact has "@, 2);
    assert(differs_at(s, "this enchantment has "@, 2)) by {
        reveal_strlit("this enchantment has ");
    }
    lemma_not_after(s, "this enchantment has "@, 2);
    if after_prefix(s, "there are "@) is Some {
        let r = after_prefix(s, "there are "@)->0;
        reveal_strlit("there are ");
        reveal_strlit(" counters on this artifact");
        if before_suffix(r, " counters on this artifact"@) is Some {
            let a = before_suffix(r, " counters on this artifact"@)->0;
            what_goes_before_an_ending(r, " counters on this artifact"@, a);
            what_follows_a_beginning(s, "there are "@, r);
            assert(s[s.len() - 1] == " counters on this artifact"@[25]);
        }
    }
    if after_prefix(s, "there are no "@) is Some {
        let r = after_prefix(s, "there are no "@)->0;
        reveal_strlit("there are no ");
        reveal_strlit(" counters on this artifact");
        if before_suffix(r, " counters on this artifact"@) is Some {
            let a = before_suffix(r, " counters on this artifact"@)->0;
            what_goes_before_an_ending(r, " counters on this artifact"@, a);
            what_follows_a_beginning(s, "there are no "@, r);
            assert(s[s.len() - 1] == " counters on this artifact"@[25]);
        }
    }
    assert(source_condition(s) is None);
    assert(differs_at(s, "you control a desert or there is a desert card in your graveyard"@, 0)) by {
        reveal_strlit("you control a desert or there is a desert card in your graveyard");
    }
    lemma_not_after(s, "you control a desert or there is a desert card in your graveyard"@, 0);
    assert(differs_at(s, "you control a creature with flying"@, 0)) by {
        reveal_strlit("you control a creature with flying");
    }
    lemma_not_after(s, "you control a creature with flying"@, 0);
    assert(differs_at(s, "you control a legendary creature"@, 0)) by {
        reveal_strlit("you control a legendary creature");
    }
    lemma_not_after(s, "you control a legendary creature"@, 0);
    assert(differs_at(s, "you control another colorless creature"@, 0)) by {
        reveal_strlit("you control another colorless creature");
    }
    lemma_not_after(s, "you control another colorless creature"@, 0);
    assert(differs_at(s, "you control fewer creatures than each opponent"@, 0)) by {
        reveal_strlit("you control fewer creatures than each opponent");
    }
    lemma_not_after(s, "you control fewer creatures than each opponent"@, 0);
    assert(differs_at(s, "you control no creatures"@, 0)) by {
        reveal_strlit("you control no creatures");
    }
    lemma_not_after(s, "you control no creatures"@, 0);
    assert(differs_at(s, "you control "@, 0)) by {
        reveal_strlit("you control ");
    }
    lemma_not_after(s, "you control "@, 0);
    assert(differs_at(s, "you control a "@, 0)) by {
        reveal_strlit("you control a ");
    }
    lemma_not_after(s, "you control a "@, 0);
    assert(differs_at(s, "you control an "@, 0)) by {
        reveal_strlit("you control an ");
    }
    lemma_not_after(s, "you control an "@, 0);
    assert(differs_at(s, "you control a creature with power "@, 0)) by {
        reveal_strlit("you control a creature with power ");
    }
    lemma_not_after(s, "you control a creature with power "@, 0);
    assert(differs_at(s, "creatures you control have total power "@, 0)) by {
        reveal_strlit("creatures you control have total power ");
    }
    lemma_not_after(s, "creatures you control have total power "@, 0);
}

/// A text that asks for so many card types in the graveyard asks for just that number.
pub proof fn texts_about_types_in_the_graveyard(w: Seq<char>, n: nat)
    requires
        word_number(trimmed(w)) == Some(n),
    ensures
        condition_in("there are "@ + w + " or more card types among cards in your graveyard"@) == Some(ConditionModel::GraveyardCardTypeCountAtLeast { count: n as usize }),
{
    let p = "there are "@;
    let e = " or more card types among cards in your graveyard"@;
    let s = p + w + e;
    what_stands_between(p, w, e);
    reveal_strlit("there are ");
    reveal_strlit(" or more card types among cards in your graveyard");
    assert(p.len() == 10 && e.len() == 49);
    assert forall|i: int| 0 <= i < 10 implies #[trigger] s[i] == p[i] by {}
    assert forall|i: int| 0 < i <= 49 implies #[trigger] s[s.len() - i] == e[49 - i] by {}
    assert(differs_at(s, "from your graveyard"@, 0)) by {
        reveal_strlit("from your graveyard");
    }
    lemma_not_after(s, "from your graveyard"@, 0);
    assert(differs_at(s, "this card is in your graveyard"@, 2)) by {
        reveal_strlit("this card is in your graveyard");
    }
    lemma_not_after(s, "this card is in your graveyard"@, 2);
    assert(differs_at(s, "this card is suspended"@, 2)) by {
        reveal_strlit("this card is suspended");
    }
    lemma_not_after(s, "this card is suspended"@, 2);
    assert(differs_at(s, "this creature is attacking"@, 2)) by {
        reveal_strlit("this creature is attacking");
    }
    lemma_not_after(s, "this creature is attacking"@, 2);
    assert(differs_at(s, "this creature is blocked"@, 2)) by {
        reveal_strlit("this creature is blocked");
    }
    lemma_not_after(s, "this creature is blocked"@, 2);
    assert(differs_at(s, "this creature is attacking or blocking"@, 2)) by {
        reveal_strlit("this creature is attacking or blocking");
    }
    lemma_not_after(s, "this creature is attacking or blocking"@, 2);
    assert(differs_at(s, "this creature is attacking or blocking and only once each turn"@, 2)) by {
        reveal_strlit("this creature is attacking or blocking and only once each turn");
    }
    lemma_not_after(s, "this creature is attacking or blocking and only once each turn"@, 2);
    assert(differs_at(s, "this permanent is a creature"@, 2)) by {
        reveal_strlit("this permanent is a creature");
    }
    lemma_not_after(s, "this permanent is a creature"@, 2);
    assert(differs_at(s, "this creature entered this turn"@, 2)) by {
        reveal_strlit("this creature entered this turn");
    }
    lemma_not_after(s, "this creature entered this turn"@, 2);
    assert(differs_at(s, "this land entered this turn"@, 2)) by {
        reveal_strlit("this land entered this turn");
    }
    lemma_not_after(s, "this land entered this turn"@, 2);
    assert(differs_at(s, "enchanted land is untapped"@, 0)) by {
        reveal_strlit("enchanted land is untapped");
    }
    lemma_not_after(s, "enchanted land is untapped"@, 0);
    assert(differs_at(s, "enchanted creature is untapped"@, 0)) by {
        reveal_strlit("enchanted creature is untapped");
    }
    lemma_not_after(s, "enchanted creature is untapped"@, 0);
    assert(differs_at(s, "this creature doesn't have defender"@, 2)) by {
        reveal_strlit("this creature doesn't have defender");
    }
    lemma_not_after(s, "this creature doesn't have defender"@, 2);
    assert(differs_at(s, "this creature is blue"@, 2)) by {
        reveal_strlit("this creature is blue");
    }
    lemma_not_after(s, "this creature is blue"@, 2);
    assert(differs_at(s, "this creature's power is "@, 2)) by {
        reveal_strlit("this creature's power is ");
    }
    lemma_not_after(s, "this creature's power is "@, 2);
    assert(differs_at(s, "this artifact has "@, 2)) by {
        reveal_strlit("this artifact has ");
    }
    lemma_not_after(s, "this artifact has "@, 2);
    assert(differs_at(s, "this enchantment has "@, 2)) by {
        reveal_strlit("this enchantment has ");
    }
    lemma_not_after(s, "this enchantment has "@, 2);
    if after_prefix(s, "there are "@) is Some {
        let r = after_prefix(s, "there are "@)->0;
        reveal_strlit("there are ");
        reveal_strlit(" counters on this artifact");
        if before_suffix(r, " counters on this artifact"@) is Some {
            let a = before_suffix(r, " counters on this artifact"@)->0;
            what_goes_before_an_ending(r, " counters on this artifact"@, a);
            what_follows_a_beginning(s, "there are "@, r);
            assert(s[s.len() - 1] == " counters on this artifact"@[25]);
        }
    }
    if after_prefix(s, "there are no "@) is Some {
        let r = after_prefix(s, "there are no "@)->0;
        reveal_strlit("there are no ");
        reveal_strlit(" counters on this artifact");
        if before_suffix(r, " counters on this artifact"@) is Some {
            let a = before_suffix(r, " counters on this artifact"@)->0;
            what_goes_before_an_ending(r, " counters on this artifact"@, a);
            what_follows_a_beginning(s, "there are no "@, r);
            assert(s[s.len() - 1] == " counters on this artifact"@[25]);
        }
    }
    assert(source_condition(s) is None);
    assert(differs_at(s, "you control a desert or there is a desert card in your graveyard"@, 0)) by {
        reveal_strlit("you control a desert or there is a desert card in your graveyard");
    }
    lemma_not_after(s, "you control a desert or there is a desert card in your graveyard"@, 0);
    assert(differs_at(s, "you control a creature with flying"@, 0)) by {
        reveal_strlit("you control a creature with flying");
    }
    lemma_not_after(s, "you control a creature with flying"@, 0);
    assert(differs_at(s, "you control a legendary creature"@, 0)) by {
        reveal_strlit("you control a legendary creature");
    }
    lemma_not_after(s, "you control a legendary creature"@, 0);
    assert(differs_at(s, "you control another colorless creature"@, 0)) by {
        reveal_strlit("you control another colorless creature");
    }
    lemma_not_after(s, "you control another colorless creature"@, 0);
    assert(differs_at(s, "you control fewer creatures than each opponent"@, 0)) by {
        reveal_strlit("you control fewer creatures than each opponent");
    }
    lemma_not_after(s, "you control fewer creatures than each opponent"@, 0);
    assert(differs_at(s, "you control no creatures"@, 0)) by {
        reveal_strlit("you control no creatures");
    }
    lemma_not_after(s, "you control no creatures"@, 0);
    assert(differs_at(s, "you control "@, 0)) by {
        reveal_strlit("you control ");
    }
    lemma_not_after(s, "you control "@, 0);
    assert(differs_at(s, "you control a "@, 0)) by {
        reveal_strlit("you control a ");
    }
    lemma_not_after(s, "you control a "@, 0);
    assert(differs_at(s, "you control an "@, 0)) by {
        reveal_strlit("you control an ");
    }
    lemma_not_after(s, "you control an "@, 0);
    assert(differs_at(s, "you control a creature with power "@, 0)) by {
        reveal_strlit("you control a creature with power ");
    }
    lemma_not_after(s, "you control a creature with power "@, 0);
    assert(differs_at(s, "creatures you control have total power "@, 0)) by {
        reveal_strlit("creatures you control have total power ");
    }
    lemma_not_after(s, "creatures you control have total power "@, 0);
    if after_prefix(s, "there are "@) is Some {
        let r = after_prefix(s, "there are "@)->0;
        reveal_strlit(" or more cards in your graveyard");
        if before_suffix(r, " or more cards in your graveyard"@) is Some {
            let a = before_suffix(r, " or more cards in your graveyard"@)->0;
            what_goes_before_an_ending(r, " or more cards in your graveyard"@, a);
            what_follows_a_beginning(s, "there are "@, r);
            assert(s[s.len() - 25] == " or more cards in your graveyard"@[7]);
        }
    }
}

/// A text that asks for so many attackers this turn asks for just that number.
pub proof fn texts_about_attackers(w: Seq<char>, n: nat)
    requires
        word_number(trimmed(w)) == Some(n),
    ensures
        condition_in("you attacked with "@ + w + " or more creatures this turn"@) == Some(ConditionModel::YouAttackedWithAtLeast { count: n as u32 }),
{
    let p = "you attacked with "@;
    let e = " or more creatures this turn"@;
    let s = p + w + e;
    what_stands_between(p, w, e);
    reveal_strlit("you attacked with ");
    reveal_strlit(" or more creatures this turn");
    assert(p.len() == 18 && e.len() == 28);
    assert forall|i: int| 0 <= i < 18 implies #[trigger] s[i] == p[i] by {}
    assert forall|i: int| 0 < i <= 28 implies #[trigger] s[s.len() - i] == e[28 - i] by {}
    assert(differs_at(s, "from your graveyard"@, 0)) by {
        reveal_strlit("from your graveyard");
    }
    lemma_not_after(s, "from your graveyard"@, 0);
    assert(differs_at(s, "this card is in your graveyard"@, 0)) by {
        reveal_strlit("this card is in your graveyard");
    }
    lemma_not_after(s, "this card is in your graveyard"@, 0);
    assert(differs_at(s, "this card is suspended"@, 0)) by {
        reveal_strlit("this card is suspended");
    }
    lemma_not_after(s, "this card is suspended"@, 0);
    assert(differs_at(s, "this creature is attacking"@, 0)) by {
        reveal_strlit("this creature is attacking");
    }
    lemma_not_after(s, "this creature is attacking"@, 0);
    assert(differs_at(s, "this creature is blocked"@, 0)) by {
        reveal_strlit("this creature is blocked");
    }
    lemma_not_after(s, "this creature is blocked"@, 0);
    assert(differs_at(s, "this creature is attacking or blocking"@, 0)) by {
        reveal_strlit("this creature is attacking or blocking");
    }
    lemma_not_after(s, "this creature is attacking or blocking"@, 0);
    assert(differs_at(s, "this creature is attacking or blocking and only once each turn"@, 0)) by {
        reveal_strlit("this creature is attacking or blocking and only once each turn");
    }
    lemma_not_after(s, "this creature is attacking or blocking and only once each turn"@, 0);
    assert(differs_at(s, "this permanent is a creature"@, 0)) by {
        reveal_strlit("this permanent is a creature");
    }
    lemma_not_after(s, "this permanent is a creature"@, 0);
    assert(differs_at(s, "this creature entered this turn"@, 0)) by {
        reveal_strlit("this creature entered this turn");
    }
    lemma_not_after(s, "this creature entered this turn"@, 0);
    assert(differs_at(s, "this land entered this turn"@, 0)) by {
        reveal_strlit("this land entered this turn");
    }
    lemma_not_after(s, "this land entered this turn"@, 0);
    assert(differs_at(s, "enchanted land is untapped"@, 0)) by {
        reveal_strlit("enchanted land is untapped");
    }
    lemma_not_after(s, "enchanted land is untapped"@, 0);
    assert(differs_at(s, "enchanted creature is untapped"@, 0)) by {
        reveal_strlit("enchanted creature is untapped");
    }
    lemma_not_after(s, "enchanted creature is untapped"@, 0);
    assert(differs_at(s, "this creature doesn't have defender"@, 0)) by {
        reveal_strlit("this creature doesn't have defender");
    }
    lemma_not_after(s, "this creature doesn't have defender"@, 0);
    assert(differs_at(s, "this creature is blue"@, 0)) by {
        reveal_strlit("this creature is blue");
    }
    lemma_not_after(s, "this creature is blue"@, 0);
    assert(differs_at(s, "this creature's power is "@, 0)) by {
        reveal_strlit("this creature's power is ");
    }
    lemma_not_after(s, "this creature's power is "@, 0);
    assert(differs_at(s, "this artifact has "@, 0)) by {
        reveal_strlit("this artifact has ");
    }
    lemma_not_after(s, "this artifact has "@, 0);
    assert(differs_at(s, "this enchantment has "@, 0)) by {
        reveal_strlit("this enchantment has ");
    }
    lemma_not_after(s, "this enchantment has "@, 0);
    assert(differs_at(s, "there are "@, 0)) by {
        reveal_strlit("there are ");
    }
    lemma_not_after(s, "there are "@, 0);
    assert(differs_at(s, "there are no "@, 0)) by {
        reveal_strlit("there are no ");
    }
    lemma_not_after(s, "there are no "@, 0);
    assert(source_condition(s) is None);
    assert(differs_at(s, "you control a desert or there is a desert card in your graveyard"@, 4)) by {
        reveal_strlit("you control a desert or there is a desert card in your graveyard");
    }
    lemma_not_after(s, "you control a desert or there is a desert card in your graveyard"@, 4);
    assert(differs_at(s, "you control a creature with flying"@, 4)) by {
        reveal_strlit("you control a creature with flying");
    }
    lemma_not_after(s, "you control a creature with flying"@, 4);
    assert(differs_at(s, "you control a legendary creature"@, 4)) by {
        reveal_strlit("you control a legendary creature");
    }
    lemma_not_after(s, "you control a legendary creature"@, 4);
    assert(differs_at(s, "you control another colorless creature"@, 4)) by {
        reveal_strlit("you control another colorless creature");
    }
    lemma_not_after(s, "you control another colorless creature"@, 4);
    assert(differs_at(s, "you control fewer creatures than each opponent"@, 4)) by {
        reveal_strlit("you control fewer creatures than each opponent");
    }
    lemma_not_after(s, "you control fewer creatures than each opponent"@, 4);
    assert(differs_at(s, "you control no creatures"@, 4)) by {
        reveal_strlit("you control no creatures");
    }
    lemma_not_after(s, "you control no creatures"@, 4);
    assert(differs_at(s, "you control "@, 4)) by {
        reveal_strlit("you control ");
    }
    lemma_not_after(s, "you control "@, 4);
    assert(differs_at(s, "you control a "@, 4)) by {
        reveal_strlit("you control a ");
    }
    lemma_not_after(s, "you control a "@, 4);
    assert(differs_at(s, "you control an "@, 4)) by {
        reveal_strlit("you control an ");
    }
    lemma_not_after(s, "you control an "@, 4);
    assert(differs_at(s, "you control a creature with power "@, 4)) by {
        reveal_strlit("you control a creature with power ");
    }
    lemma_not_after(s, "you control a creature with power "@, 4);
    assert(differs_at(s, "creatures you control have total power "@, 0)) by {
        reveal_strlit("creatures you control have total power ");
    }
    lemma_not_after(s, "creatures you control have total power "@, 0);
    assert(differs_at(s, "there are "@, 0)) by {
        reveal_strlit("there are ");
    }
    lemma_not_after(s, "there are "@, 0);
    assert(differs_at(s, "there is an "@, 0)) by {
        reveal_strlit("there is an ");
    }
    lemma_not_after(s, "there is an "@, 0);
    assert(differs_at(s, "two or more "@, 0)) by {
        reveal_strlit("two or more ");
    }
    lemma_not_after(s, "two or more "@, 0);
    assert(differs_at(s, "you have no cards in hand"@, 4)) by {
        reveal_strlit("you have no cards in hand");
    }
    lemma_not_after(s, "you have no cards in hand"@, 4);
    assert(differs_at(s, "you have more cards in hand than each opponent"@, 4)) by {
        reveal_strlit("you have more cards in hand than each opponent");
    }
    lemma_not_after(s, "you have more cards in hand than each opponent"@, 4);
    assert(differs_at(s, "you have exactly zero or seven cards in hand"@, 4)) by {
        reveal_strlit("you have exactly zero or seven cards in hand");
    }
    lemma_not_after(s, "you have exactly zero or seven cards in hand"@, 4);
    assert(differs_at(s, "you have exactly "@, 4)) by {
        reveal_strlit("you have exactly ");
    }
    lemma_not_after(s, "you have exactly "@, 4);
    assert(differs_at(s, "this spell is the first spell you've cast this game"@, 0)) by {
        reveal_strlit("this spell is the first spell you've cast this game");
    }
    lemma_not_after(s, "this spell is the first spell you've cast this game"@, 0);
    assert(differs_at(s, "an opponent searched their library this turn"@, 0)) by {
        reveal_strlit("an opponent searched their library this turn");
    }
    lemma_not_after(s, "an opponent searched their library this turn"@, 0);
    assert(differs_at(s, "you've been attacked this step"@, 3)) by {
        reveal_strlit("you've been attacked this step");
    }
    lemma_not_after(s, "you've been attacked this step"@, 3);
    assert(differs_at(s, "an opponent has three or more poison counters"@, 0)) by {
        reveal_strlit("an opponent has three or more poison counters");
    }
    lemma_not_after(s, "an opponent has three or more poison counters"@, 0);
    assert(differs_at(s, "you attacked this turn"@, 13)) by {
        reveal_strlit("you attacked this turn");
    }
    lemma_not_after(s, "you attacked this turn"@, 13);
    assert(differs_at(s, "you gained life this turn"@, 4)) by {
        reveal_strlit("you gained life this turn");
    }
    lemma_not_after(s, "you gained life this turn"@, 4);
    assert(differs_at(s, "you created a token this turn"@, 4)) by {
        reveal_strlit("you created a token this turn");
    }
    lemma_not_after(s, "you created a token this turn"@, 4);
    assert(differs_at(s, "a creature died this turn"@, 0)) by {
        reveal_strlit("a creature died this turn");
    }
    lemma_not_after(s, "a creature died this turn"@, 0);
    assert(differs_at(s, "you've cast a noncreature spell this turn"@, 3)) by {
        reveal_strlit("you've cast a noncreature spell this turn");
    }
    lemma_not_after(s, "you've cast a noncreature spell this turn"@, 3);
    assert(differs_at(s, "you've discarded a card this turn"@, 3)) by {
        reveal_strlit("you've discarded a card this turn");
    }
    lemma_not_after(s, "you've discarded a card this turn"@, 3);
    assert(differs_at(s, "you've sacrificed an artifact this turn"@, 3)) by {
        reveal_strlit("you've sacrificed an artifact this turn");
    }
    lemma_not_after(s, "you've sacrificed an artifact this turn"@, 3);
    assert(differs_at(s, "you had a creature enter the battlefield under your control this turn"@, 4)) by {
        reveal_strlit("you had a creature enter the battlefield under your control this turn");
    }
    lemma_not_after(s, "you had a creature enter the battlefield under your control this turn"@, 4);
    assert(differs_at(s, "you had an angel or berserker enter the battlefield under your control this turn"@, 4)) by {
        reveal_strlit("you had an angel or berserker enter the battlefield under your control this turn");
    }
    lemma_not_after(s, "you had an angel or berserker enter the battlefield under your control this turn"@, 4);
    assert(differs_at(s, "this artifact or another artifact entered the battlefield under your control this turn"@, 0)) by {
        reveal_strlit("this artifact or another artifact entered the battlefield under your control this turn");
    }
    lemma_not_after(s, "this artifact or another artifact entered the battlefield under your control this turn"@, 0);
}

/// A text that asks for so many spells this turn asks for just that number.
pub proof fn texts_about_spells(w: Seq<char>, n: nat)
    requires
        word_number(trimmed(w)) == Some(n),
    ensures
        condition_in("you've cast "@ + w + " or more spells this turn"@) == Some(ConditionModel::YouCastSpellCountAtLeast { count: n as u32 }),
{
    let p = "you've cast "@;
    let e = " or more spells this turn"@;
    let s = p + w + e;
    what_stands_between(p, w, e);
    reveal_strlit("you've cast ");
    reveal_strlit(" or more spells this turn");
    assert(p.len() == 12 && e.len() == 25);
    assert forall|i: int| 0 <= i < 12 implies #[trigger] s[i] == p[i] by {}
    assert forall|i: int| 0 < i <= 25 implies #[trigger] s[s.len() - i] == e[25 - i] by {}
    assert(differs_at(s, "from your graveyard"@, 0)) by {
        reveal_strlit("from your graveyard");
    }
    lemma_not_after(s, "from your graveyard"@, 0);
    assert(differs_at(s, "this card is in your graveyard"@, 0)) by {
        reveal_strlit("this card is in your graveyard");
    }
    lemma_not_after(s, "this card is in your graveyard"@, 0);
    assert(differs_at(s, "this card is suspended"@, 0)) by {
        reveal_strlit("this card is suspended");
    }
    lemma_not_after(s, "this card is suspended"@, 0);
    assert(differs_at(s, "this creature is attacking"@, 0)) by {
        reveal_strlit("this creature is attacking");
    }
    lemma_not_after(s, "this creature is attacking"@, 0);
    assert(differs_at(s, "this creature is blocked"@, 0)) by {
        reveal_strlit("this creature is blocked");
    }
    lemma_not_after(s, "this creature is blocked"@, 0);
    assert(differs_at(s, "this creature is attacking or blocking"@, 0)) by {
        reveal_strlit("this creature is attacking or blocking");
    }
    lemma_not_after(s, "this creature is attacking or blocking"@, 0);
    assert(differs_at(s, "this creature is attacking or blocking and only once each turn"@, 0)) by {
        reveal_strlit("this creature is attacking or blocking and only once each turn");
    }
    lemma_not_after(s, "this creature is attacking or blocking and only once each turn"@, 0);
    assert(differs_at(s, "this permanent is a creature"@, 0)) by {
        reveal_strlit("this permanent is a creature");
    }
    lemma_not_after(s, "this permanent is a creature"@, 0);
    assert(differs_at(s, "this creature entered this turn"@, 0)) by {
        reveal_strlit("this creature entered this turn");
    }
    lemma_not_after(s, "this creature entered this turn"@, 0);
    assert(differs_at(s, "this land entered this turn"@, 0)) by {
        reveal_strlit("this land entered this turn");
    }
    lemma_not_after(s, "this land entered this turn"@, 0);
    assert(differs_at(s, "enchanted land is untapped"@, 0)) by {
        reveal_strlit("enchanted land is untapped");
    }
    lemma_not_after(s, "enchanted land is untapped"@, 0);
    assert(differs_at(s, "enchanted creature is untapped"@, 0)) by {
        reveal_strlit("enchanted creature is untapped");
    }
    lemma_not_after(s, "enchanted creature is untapped"@, 0);
    assert(differs_at(s, "this creature doesn't have defender"@, 0)) by {
        reveal_strlit("this creature doesn't have defender");
    }
    lemma_not_after(s, "this creature doesn't have defender"@, 0);
    assert(differs_at(s, "this creature is blue"@, 0)) by {
        reveal_strlit("this creature is blue");
    }
    lemma_not_after(s, "this creature is blue"@, 0);
    assert(differs_at(s, "this creature's power is "@, 0)) by {
        reveal_strlit("this creature's power is ");
    }
    lemma_not_after(s, "this creature's power is "@, 0);
    assert(differs_at(s, "this artifact has "@, 0)) by {
        reveal_strlit("this artifact has ");
    }
    lemma_not_after(s, "this artifact has "@, 0);
    assert(differs_at(s, "this enchantment has "@, 0)) by {
        reveal_strlit("this enchantment has ");
    }
    lemma_not_after(s, "this enchantment has "@, 0);
    assert(differs_at(s, "there are "@, 0)) by {
        reveal_strlit("there are ");
    }
    lemma_not_after(s, "there are "@, 0);
    assert(differs_at(s, "there are no "@, 0)) by {
        reveal_strlit("there are no ");
    }
    lemma_not_after(s, "there are no "@, 0);
    assert(source_condition(s) is None);
    assert(differs_at(s, "you control a desert or there is a desert card in your graveyard"@, 3)) by {
        reveal_strlit("you control a desert or there is a desert card in your graveyard");
    }
    lemma_not_after(s, "you control a desert or there is a desert card in your graveyard"@, 3);
    assert(differs_at(s, "you control a creature with flying"@, 3)) by {
        reveal_strlit("you control a creature with flying");
    }
    lemma_not_after(s, "you control a creature with flying"@, 3);
    assert(differs_at(s, "you control a legendary creature"@, 3)) by {
        reveal_strlit("you control a legendary creature");
    }
    lemma_not_after(s, "you control a legendary creature"@, 3);
    assert(differs_at(s, "you control another colorless creature"@, 3)) by {
        reveal_strlit("you control another colorless creature");
    }
    lemma_not_after(s, "you control another colorless creature"@, 3);
    assert(differs_at(s, "you control fewer creatures than each opponent"@, 3)) by {
        reveal_strlit("you control fewer creatures than each opponent");
    }
    lemma_not_after(s, "you control fewer creatures than each opponent"@, 3);
    assert(differs_at(s, "you control no creatures"@, 3)) by {
        reveal_strlit("you control no creatures");
    }
    lemma_not_after(s, "you control no creatures"@, 3);
    assert(differs_at(s, "you control "@, 3)) by {
        reveal_strlit("you control ");
    }
    lemma_not_after(s, "you control "@, 3);
    assert(differs_at(s, "you control a "@, 3)) by {
        reveal_strlit("you control a ");
    }
    lemma_not_after(s, "you control a "@, 3);
    assert(differs_at(s, "you control an "@, 3)) by {
        reveal_strlit("you control an ");
    }
    lemma_not_after(s, "you control an "@, 3);
    assert(differs_at(s, "you control a creature with power "@, 3)) by {
        reveal_strlit("you control a creature with power ");
    }
    lemma_not_after(s, "you control a creature with power "@, 3);
    assert(differs_at(s, "creatures you control have total power "@, 0)) by {
        reveal_strlit("creatures you control have total power ");
    }
    lemma_not_after(s, "creatures you control have total power "@, 0);
    assert(differs_at(s, "there are "@, 0)) by {
        reveal_strlit("there are ");
    }
    lemma_not_after(s, "there are "@, 0);
    assert(differs_at(s, "there is an "@, 0)) by {
        reveal_strlit("there is an ");
    }
    lemma_not_after(s, "there is an "@, 0);
    assert(differs_at(s, "two or more "@, 0)) by {
        reveal_strlit("two or more ");
    }
    lemma_not_after(s, "two or more "@, 0);
    assert(differs_at(s, "you have no cards in hand"@, 3)) by {
        reveal_strlit("you have no cards in hand");
    }
    lemma_not_after(s, "you have no cards in hand"@, 3);
    assert(differs_at(s, "you have more cards in hand than each opponent"@, 3)) by {
        reveal_strlit("you have more cards in hand than each opponent");
    }
    lemma_not_after(s, "you have more cards in hand than each opponent"@, 3);
    assert(differs_at(s, "you have exactly zero or seven cards in hand"@, 3)) by {
        reveal_strlit("you have exactly zero or seven cards in hand");
    }
    lemma_not_after(s, "you have exactly zero or seven cards in hand"@, 3);
    assert(differs_at(s, "you have exactly "@, 3)) by {
        reveal_strlit("you have exactly ");
    }
    lemma_not_after(s, "you have exactly "@, 3);
    assert(differs_at(s, "this spell is the first spell you've cast this game"@, 0)) by {
        reveal_strlit("this spell is the first spell you've cast this game");
    }
    lemma_not_after(s, "this spell is the first spell you've cast this game"@, 0);
    assert(differs_at(s, "an opponent searched their library this turn"@, 0)) by {
        reveal_strlit("an opponent searched their library this turn");
    }
    lemma_not_after(s, "an opponent searched their library this turn"@, 0);
    assert(differs_at(s, "you've been attacked this step"@, 7)) by {
        reveal_strlit("you've been attacked this step");
    }
    lemma_not_after(s, "you've been attacked this step"@, 7);
    assert(differs_at(s, "an opponent has three or more poison counters"@, 0)) by {
        reveal_strlit("an opponent has three or more poison counters");
    }
    lemma_not_after(s, "an opponent has three or more poison counters"@, 0);
    assert(differs_at(s, "you attacked this turn"@, 3)) by {
        reveal_strlit("you attacked this turn");
    }
    lemma_not_after(s, "you attacked this turn"@, 3);
    assert(differs_at(s, "you gained life this turn"@, 3)) by {
        reveal_strlit("you gained life this turn");
    }
    lemma_not_after(s, "you gained life this turn"@, 3);
    assert(differs_at(s, "you created a token this turn"@, 3)) by {
        reveal_strlit("you created a token this turn");
    }
    lemma_not_after(s, "you created a token this turn"@, 3);
    assert(differs_at(s, "a creature died this turn"@, 0)) by {
        reveal_strlit("a creature died this turn");
    }
    lemma_not_after(s, "a creature died this turn"@, 0);
    assert(differs_before(s, "you've cast a noncreature spell this turn"@, 11)) by {
        reveal_strlit("you've cast a noncreature spell this turn");
    }
    lemma_not_before(s, "you've cast a noncreature spell this turn"@, 11);
    assert(differs_at(s, "you've discarded a card this turn"@, 7)) by {
        reveal_strlit("you've discarded a card this turn");
    }
    lemma_not_after(s, "you've discarded a card this turn"@, 7);
    assert(differs_at(s, "you've sacrificed an artifact this turn"@, 7)) by {
        reveal_strlit("you've sacrificed an artifact this turn");
    }
    lemma_not_after(s, "you've sacrificed an artifact this turn"@, 7);
    assert(differs_at(s, "you had a creature enter the battlefield under your control this turn"@, 3)) by {
        reveal_strlit("you had a creature enter the battlefield under your control this turn");
    }
    lemma_not_after(s, "you had a creature enter the battlefield under your control this turn"@, 3);
    assert(differs_at(s, "you had an angel or berserker enter the battlefield under your control this turn"@, 3)) by {
        reveal_strlit("you had an angel or berserker enter the battlefield under your control this turn");
    }
    lemma_not_after(s, "you had an angel or berserker enter the battlefield under your control this turn"@, 3);
    assert(differs_at(s, "this artifact or another artifact entered the battlefield under your control this turn"@, 0)) by {
        reveal_strlit("this artifact or another artifact entered the battlefield under your control this turn");
    }
    lemma_not_after(s, "this artifact or another artifact entered the battlefield under your control this turn"@, 0);
    assert(differs_at(s, "you attacked with "@, 3)) by {
        reveal_strlit("you attacked with ");
    }
    lemma_not_after(s, "you attacked with "@, 3);
}

/// A text that asks for just so many cards in hand asks for that number.
pub proof fn texts_about_the_size_of_the_hand(w: Seq<char>, n: nat)
    requires
        word_number(trimmed(w)) == Some(n),
        w != "zero or seven"@,
    ensures
        condition_in("you have exactly "@ + w + " cards in hand"@) == Some(ConditionModel::HandSizeExact { count: n as usize }),
{
    let p = "you have exactly "@;
    let e = " cards in hand"@;
    let s = p + w + e;
    what_stands_between(p, w, e);
    reveal_strlit("you have exactly ");
    reveal_strlit(" cards in hand");
    assert(p.len() == 17 && e.len() == 14);
    assert forall|i: int| 0 <= i < 17 implies #[trigger] s[i] == p[i] by {}
    assert forall|i: int| 0 < i <= 14 implies #[trigger] s[s.len() - i] == e[14 - i] by {}
    assert(differs_at(s, "from your graveyard"@, 0)) by {
        reveal_strlit("from your graveyard");
    }
    lemma_not_after(s, "from your graveyard"@, 0);
    assert(differs_at(s, "this card is in your graveyard"@, 0)) by {
        reveal_strlit("this card is in your graveyard");
    }
    lemma_not_after(s, "this card is in your graveyard"@, 0);
    assert(differs_at(s, "this card is suspended"@, 0)) by {
        reveal_strlit("this card is suspended");
    }
    lemma_not_after(s, "this card is suspended"@, 0);
    assert(differs_at(s, "this creature is attacking"@, 0)) by {
        reveal_strlit("this creature is attacking");
    }
    lemma_not_after(s, "this creature is attacking"@, 0);
    assert(differs_at(s, "this creature is blocked"@, 0)) by {
        reveal_strlit("this creature is blocked");
    }
    lemma_not_after(s, "this creature is blocked"@, 0);
    assert(differs_at(s, "this creature is attacking or blocking"@, 0)) by {
        reveal_strlit("this creature is attacking or blocking");
    }
    lemma_not_after(s, "this creature is attacking or blocking"@, 0);
    assert(differs_at(s, "this creature is attacking or blocking and only once each turn"@, 0)) by {
        reveal_strlit("this creature is attacking or blocking and only once each turn");
    }
    lemma_not_after(s, "this creature is attacking or blocking and only once each turn"@, 0);
    assert(differs_at(s, "this permanent is a creature"@, 0)) by {
        reveal_strlit("this permanent is a creature");
    }
    lemma_not_after(s, "this permanent is a creature"@, 0);
    assert(differs_at(s, "this creature entered this turn"@, 0)) by {
        reveal_strlit("this creature entered this turn");
    }
    lemma_not_after(s, "this creature entered this turn"@, 0);
    assert(differs_at(s, "this land entered this turn"@, 0)) by {
        reveal_strlit("this land entered this turn");
    }
    lemma_not_after(s, "this land entered this turn"@, 0);
    assert(differs_at(s, "enchanted land is untapped"@, 0)) by {
        reveal_strlit("enchanted land is untapped");
    }
    lemma_not_after(s, "enchanted land is untapped"@, 0);
    assert(differs_at(s, "enchanted creature is untapped"@, 0)) by {
        reveal_strlit("enchanted creature is untapped");
    }
    lemma_not_after(s, "enchanted creature is untapped"@, 0);
    assert(differs_at(s, "this creature doesn't have defender"@, 0)) by {
        reveal_strlit("this creature doesn't have defender");
    }
    lemma_not_after(s, "this creature doesn't have defender"@, 0);
    assert(differs_at(s, "this creature is blue"@, 0)) by {
        reveal_strlit("this creature is blue");
    }
    lemma_not_after(s, "this creature is blue"@, 0);
    assert(differs_at(s, "this creature's power is "@, 0)) by {
        reveal_strlit("this creature's power is ");
    }
    lemma_not_after(s, "this creature's power is "@, 0);
    assert(differs_at(s, "this artifact has "@, 0)) by {
        reveal_strlit("this artifact has ");
    }
    lemma_not_after(s, "this artifact has "@, 0);
    assert(differs_at(s, "this enchantment has "@, 0)) by {
        reveal_strlit("this enchantment has ");
    }
    lemma_not_after(s, "this enchantment has "@, 0);
    assert(differs_at(s, "there are "@, 0)) by {
        reveal_strlit("there are ");
    }
    lemma_not_after(s, "there are "@, 0);
    assert(differs_at(s, "there are no "@, 0)) by {
        reveal_strlit("there are no ");
    }
    lemma_not_after(s, "there are no "@, 0);
    assert(source_condition(s) is None);
    assert(differs_at(s, "you control a desert or there is a desert card in your graveyard"@, 4)) by {
        reveal_strlit("you control a desert or there is a desert card in your graveyard");
    }
    lemma_not_after(s, "you control a desert or there is a desert card in your graveyard"@, 4);
    assert(differs_at(s, "you control a creature with flying"@, 4)) by {
        reveal_strlit("you control a creature with flying");
    }
    lemma_not_after(s, "you control a creature with flying"@, 4);
    assert(differs_at(s, "you control a legendary creature"@, 4)) by {
        reveal_strlit("you control a legendary creature");
    }
    lemma_not_after(s, "you control a legendary creature"@, 4);
    assert(differs_at(s, "you control another colorless creature"@, 4)) by {
        reveal_strlit("you control another colorless creature");
    }
    lemma_not_after(s, "you control another colorless creature"@, 4);
    assert(differs_at(s, "you control fewer creatures than each opponent"@, 4)) by {
        reveal_strlit("you control fewer creatures than each opponent");
    }
    lemma_not_after(s, "you control fewer creatures than each opponent"@, 4);
    assert(differs_at(s, "you control no creatures"@, 4)) by {
        reveal_strlit("you control no creatures");
    }
    lemma_not_after(s, "you control no creatures"@, 4);
    assert(differs_at(s, "you control "@, 4)) by {
        reveal_strlit("you control ");
    }
    lemma_not_after(s, "you control "@, 4);
    assert(differs_at(s, "you control a "@, 4)) by {
        reveal_strlit("you control a ");
    }
    lemma_not_after(s, "you control a "@, 4);
    assert(differs_at(s, "you control an "@, 4)) by {
        reveal_strlit("you control an ");
    }
    lemma_not_after(s, "you control an "@, 4);
    assert(differs_at(s, "you control a creature with power "@, 4)) by {
        reveal_strlit("you control a creature with power ");
    }
    lemma_not_after(s, "you control a creature with power "@, 4);
    assert(differs_at(s, "creatures you control have total power "@, 0)) by {
        reveal_strlit("creatures you control have total power ");
    }
    lemma_not_after(s, "creatures you control have total power "@, 0);
    assert(differs_at(s, "there are "@, 0)) by {
        reveal_strlit("there are ");
    }
    lemma_not_after(s, "there are "@, 0);
    assert(differs_at(s, "there is an "@, 0)) by {
        reveal_strlit("there is an ");
    }
    lemma_not_after(s, "there is an "@, 0);
    assert(differs_at(s, "two or more "@, 0)) by {
        reveal_strlit("two or more ");
    }
    lemma_not_after(s, "two or more "@, 0);
    assert(differs_at(s, "you have no cards in hand"@, 9)) by {
        reveal_strlit("you have no cards in hand");
    }
    lemma_not_after(s, "you have no cards in hand"@, 9);
    assert(differs_at(s, "you have more cards in hand than each opponent"@, 9)) by {
        reveal_strlit("you have more cards in hand than each opponent");
    }
    lemma_not_after(s, "you have more cards in hand than each opponent"@, 9);
    reveal_strlit("zero or seven");
    assert("you have exactly zero or seven cards in hand"@ =~= p + "zero or seven"@ + e) by {
        reveal_strlit("you have exactly zero or seven cards in hand");
    }
    if s == "you have exactly zero or seven cards in hand"@ {
        what_stands_between(p, "zero or seven"@, e);
    }
}

/// A text that asks for so much power asks for just that much, where it fits in 32 bits.
pub proof fn texts_about_the_power_of_the_source(w: Seq<char>, n: nat)
    requires
        word_number(trimmed(w)) == Some(n),
        n <= i32::MAX,
    ensures
        condition_in("this creature's power is "@ + w + " or greater"@) == Some(ConditionModel::SourcePowerAtLeast { minimum: n as i32 }),
{
    let p = "this creature's power is "@;
    let e = " or greater"@;
    let s = p + w + e;
    what_stands_between(p, w, e);
    reveal_strlit("this creature's power is ");
    reveal_strlit(" or greater");
    assert(p.len() == 25 && e.len() == 11);
    assert forall|i: int| 0 <= i < 25 implies #[trigger] s[i] == p[i] by {}
    assert forall|i: int| 0 < i <= 11 implies #[trigger] s[s.len() - i] == e[11 - i] by {}
    assert(differs_at(s, "from your graveyard"@, 0)) by {
        reveal_strlit("from your graveyard");
    }
    lemma_not_after(s, "from your graveyard"@, 0);
    assert(differs_at(s, "this card is in your graveyard"@, 6)) by {
        reveal_strlit("this card is in your graveyard");
    }
    lemma_not_after(s, "this card is in your graveyard"@, 6);
    assert(differs_at(s, "this card is suspended"@, 6)) by {
        reveal_strlit("this card is suspended");
    }
    lemma_not_after(s, "this card is suspended"@, 6);
    assert(differs_at(s, "this creature is attacking"@, 13)) by {
        reveal_strlit("this creature is attacking");
    }
    lemma_not_after(s, "this creature is attacking"@, 13);
    assert(differs_at(s, "this creature is blocked"@, 13)) by {
        reveal_strlit("this creature is blocked");
    }
    lemma_not_after(s, "this creature is blocked"@, 13);
    assert(differs_at(s, "this creature is attacking or blocking"@, 13)) by {
        reveal_strlit("this creature is attacking or blocking");
    }
    lemma_not_after(s, "this creature is attacking or blocking"@, 13);
    assert(differs_at(s, "this creature is attacking or blocking and only once each turn"@, 13)) by {
        reveal_strlit("this creature is attacking or blocking and only once each turn");
    }
    lemma_not_after(s, "this creature is attacking or blocking and only once each turn"@, 13);
    assert(differs_at(s, "this permanent is a creature"@, 5)) by {
        reveal_strlit("this permanent is a creature");
    }
    lemma_not_after(s, "this permanent is a creature"@, 5);
    assert(differs_at(s, "this creature entered this turn"@, 13)) by {
        reveal_strlit("this creature entered this turn");
    }
    lemma_not_after(s, "this creature entered this turn"@, 13);
    assert(differs_at(s, "this land entered this turn"@, 5)) by {
        reveal_strlit("this land entered this turn");
    }
    lemma_not_after(s, "this land entered this turn"@, 5);
    assert(differs_at(s, "enchanted land is untapped"@, 0)) by {
        reveal_strlit("enchanted land is untapped");
    }
    lemma_not_after(s, "enchanted land is untapped"@, 0);
    assert(differs_at(s, "enchanted creature is untapped"@, 0)) by {
        reveal_strlit("enchanted creature is untapped");
    }
    lemma_not_after(s, "enchanted creature is untapped"@, 0);
    assert(differs_at(s, "this creature doesn't have defender"@, 13)) by {
        reveal_strlit("this creature doesn't have defender");
    }
    lemma_not_after(s, "this creature doesn't have defender"@, 13);
    assert(differs_at(s, "this creature is blue"@, 13)) by {
        reveal_strlit("this creature is blue");
    }
    lemma_not_after(s, "this creature is blue"@, 13);
}

/// A text that asks for so much power in total asks for just that much, where it fits in 32 bits.
pub proof fn texts_about_total_power(w: Seq<char>, n: nat)
    requires
        word_number(trimmed(w)) == Some(n),
        n <= i32::MAX,
    ensures
        condition_in("creatures you control have total power "@ + w + " or greater"@) == Some(ConditionModel::CreaturesYouControlTotalPowerAtLeast { minimum: n as i32 }),
{
    let p = "creatures you control have total power "@;
    let e = " or greater"@;
    let s = p + w + e;
    what_stands_between(p, w, e);
    reveal_strlit("creatures you control have total power ");
    reveal_strlit(" or greater");
    assert(p.len() == 39 && e.len() == 11);
    assert forall|i: int| 0 <= i < 39 implies #[trigger] s[i] == p[i] by {}
    assert forall|i: int| 0 < i <= 11 implies #[trigger] s[s.len() - i] == e[11 - i] by {}
    assert(differs_at(s, "from your graveyard"@, 0)) by {
        reveal_strlit("from your graveyard");
    }
    lemma_not_after(s, "from your graveyard"@, 0);
    assert(differs_at(s, "this card is in your graveyard"@, 0)) by {
        reveal_strlit("this card is in your graveyard");
    }
    lemma_not_after(s, "this card is in your graveyard"@, 0);
    assert(differs_at(s, "this card is suspended"@, 0)) by {
        reveal_strlit("this card is suspended");
    }
    lemma_not_after(s, "this card is suspended"@, 0);
    assert(differs_at(s, "this creature is attacking"@, 0)) by {
        reveal_strlit("this creature is attacking");
    }
    lemma_not_after(s, "this creature is attacking"@, 0);
    assert(differs_at(s, "this creature is blocked"@, 0)) by {
        reveal_strlit("this creature is blocked");
    }
    lemma_not_after(s, "this creature is blocked"@, 0);
    assert(differs_at(s, "this creature is attacking or blocking"@, 0)) by {
        reveal_strlit("this creature is attacking or blocking");
    }
    lemma_not_after(s, "this creature is attacking or blocking"@, 0);
    assert(differs_at(s, "this creature is attacking or blocking and only once each turn"@, 0)) by {
        reveal_strlit("this creature is attacking or blocking and only once each turn");
    }
    lemma_not_after(s, "this creature is attacking or blocking and only once each turn"@, 0);
    assert(differs_at(s, "this permanent is a creature"@, 0)) by {
        reveal_strlit("this permanent is a creature");
    }
    lemma_not_after(s, "this permanent is a creature"@, 0);
    assert(differs_at(s, "this creature entered this turn"@, 0)) by {
        reveal_strlit("this creature entered this turn");
    }
    lemma_not_after(s, "this creature entered this turn"@, 0);
    assert(differs_at(s, "this land entered this turn"@, 0)) by {
        reveal_strlit("this land entered this turn");
    }
    lemma_not_after(s, "this land entered this turn"@, 0);
    assert(differs_at(s, "enchanted land is untapped"@, 0)) by {
        reveal_strlit("enchanted land is untapped");
    }
    lemma_not_after(s, "enchanted land is untapped"@, 0);
    assert(differs_at(s, "enchanted creature is untapped"@, 0)) by {
        reveal_strlit("enchanted creature is untapped");
    }
    lemma_not_after(s, "enchanted creature is untapped"@, 0);
    assert(differs_at(s, "this creature doesn't have defender"@, 0)) by {
        reveal_strlit("this creature doesn't have defender");
    }
    lemma_not_after(s, "this creature doesn't have defender"@, 0);
    assert(differs_at(s, "this creature is blue"@, 0)) by {
        reveal_strlit("this creature is blue");
    }
    lemma_not_after(s, "this creature is blue"@, 0);
    assert(differs_at(s, "this creature's power is "@, 0)) by {
        reveal_strlit("this creature's power is ");
    }
    lemma_not_after(s, "this creature's power is "@, 0);
    assert(differs_at(s, "this artifact has "@, 0)) by {
        reveal_strlit("this artifact has ");
    }
    lemma_not_after(s, "this artifact has "@, 0);
    assert(differs_at(s, "this enchantment has "@, 0)) by {
        reveal_strlit("this enchantment has ");
    }
    lemma_not_after(s, "this enchantment has "@, 0);
    assert(differs_at(s, "there are "@, 0)) by {
        reveal_strlit("there are ");
    }
    lemma_not_after(s, "there are "@, 0);
    assert(differs_at(s, "there are no "@, 0)) by {
        reveal_strlit("there are no ");
    }
    lemma_not_after(s, "there are no "@, 0);
    assert(source_condition(s) is None);
    assert(differs_at(s, "you control a desert or there is a desert card in your graveyard"@, 0)) by {
        reveal_strlit("you control a desert or there is a desert card in your graveyard");
    }
    lemma_not_after(s, "you control a desert or there is a desert card in your graveyard"@, 0);
    assert(differs_at(s, "you control a creature with flying"@, 0)) by {
        reveal_strlit("you control a creature with flying");
    }
    lemma_not_after(s, "you control a creature with flying"@, 0);
    assert(differs_at(s, "you control a legendary creature"@, 0)) by {
        reveal_strlit("you control a legendary creature");
    }
    lemma_not_after(s, "you control a legendary creature"@, 0);
    assert(differs_at(s, "you control another colorless creature"@, 0)) by {
        reveal_strlit("you control another colorless creature");
    }
    lemma_not_after(s, "you control another colorless creature"@, 0);
    assert(differs_at(s, "you control fewer creatures than each opponent"@, 0)) by {
        reveal_strlit("you control fewer creatures than each opponent");
    }
    lemma_not_after(s, "you control fewer creatures than each opponent"@, 0);
    assert(differs_at(s, "you control no creatures"@, 0)) by {
        reveal_strlit("you control no creatures");
    }
    lemma_not_after(s, "you control no creatures"@, 0);
    assert(differs_at(s, "you control "@, 0)) by {
        reveal_strlit("you control ");
    }
    lemma_not_after(s, "you control "@, 0);
    assert(differs_at(s, "you control a "@, 0)) by {
        reveal_strlit("you control a ");
    }
    lemma_not_after(s, "you control a "@, 0);
    assert(differs_at(s, "you control an "@, 0)) by {
        reveal_strlit("you control an ");
    }
    lemma_not_after(s, "you control an "@, 0);
    assert(differs_at(s, "you control a creature with power "@, 0)) by {
        reveal_strlit("you control a creature with power ");
    }
    lemma_not_after(s, "you control a creature with power "@, 0);
}

/// What texts about the hand say.
pub proof fn texts_about_the_hand()
    ensures
        condition_in("you have no cards in hand"@) == Some(
            ConditionModel::HandSizeExact { count: 0 },
        ),
        condition_in("you have more cards in hand than each opponent"@) == Some(
            ConditionModel::QuantityVsEachOpponent {
                lhs: PlayerQuantity::HandSize,
                comparator: Comparator::GT,
                rhs: PlayerQuantity::HandSize,
            },
        ),
        condition_in("you have exactly zero or seven cards in hand"@) == Some(
            ConditionModel::HandSizeOneOf { counts: seq![0usize, 7usize] },
        ),
{
    assert(condition_in("you have no cards in hand"@) == hand_condition("you have no cards in hand"@)) by {
        reveal_strlit("you have no cards in hand");
        reveal_strlit("you have ");
        lemma_about_the_hand("you have no cards in hand"@);
    }
    assert(condition_in("you have more cards in hand than each opponent"@) == hand_condition("you have more cards in hand than each opponent"@)) by {
        reveal_strlit("you have more cards in hand than each opponent");
        reveal_strlit("you have ");
        lemma_about_the_hand("you have more cards in hand than each opponent"@);
    }
    assert(condition_in("you have exactly zero or seven cards in hand"@) == hand_condition("you have exactly zero or seven cards in hand"@)) by {
        reveal_strlit("you have exactly zero or seven cards in hand");
        reveal_strlit("you have ");
        lemma_about_the_hand("you have exactly zero or seven cards in hand"@);
    }
    assert("you have more cards in hand than each opponent"@ != "you have no cards in hand"@ && "you have exactly zero or seven cards in hand"@ != "you have no cards in hand"@ && "you have exactly zero or seven cards in hand"@ != "you have more cards in hand than each opponent"@) by {
        reveal_strlit("you have no cards in hand");
        reveal_strlit("you have more cards in hand than each opponent");
        reveal_strlit("you have exactly zero or seven cards in hand");
        assert("you have no cards in hand"@.len() == 25 && "you have more cards in hand than each opponent"@.len() == 46 && "you have exactly zero or seven cards in hand"@.len() == 44);
    }
}

/// A text that begins with "you have " speaks of the hand or of nothing that comes before.
proof fn lemma_about_the_hand(s: Seq<char>)
    requires
        s.len() > 9,
        forall|i: int| 0 <= i < 9 ==> #[trigger] s[i] == "you have "@[i],
    ensures
        hand_condition(s) is Some ==> condition_in(s) == hand_condition(s),
{
    reveal_strlit("you have ");
    assert(s[0] == 'y' && s[4] == 'h');
    assert(differs_at(s, "from your graveyard"@, 0)) by {
        reveal_strlit("from your graveyard");
    }
    lemma_not_after(s, "from your graveyard"@, 0);
    assert(differs_at(s, "this card is in your graveyard"@, 0)) by {
        reveal_strlit("this card is in your graveyard");
    }
    lemma_not_after(s, "this card is in your graveyard"@, 0);
    assert(differs_at(s, "this card is suspended"@, 0)) by {
        reveal_strlit("this card is suspended");
    }
    lemma_not_after(s, "this card is suspended"@, 0);
    assert(differs_at(s, "this creature is attacking"@, 0)) by {
        reveal_strlit("this creature is attacking");
    }
    lemma_not_after(s, "this creature is attacking"@, 0);
    assert(differs_at(s, "this creature is blocked"@, 0)) by {
        reveal_strlit("this creature is blocked");
    }
    lemma_not_after(s, "this creature is blocked"@, 0);
    assert(differs_at(s, "this creature is attacking or blocking"@, 0)) by {
        reveal_strlit("this creature is attacking or blocking");
    }
    lemma_not_after(s, "this creature is attacking or blocking"@, 0);
    assert(differs_at(s, "this creature is attacking or blocking and only once each turn"@, 0)) by {
        reveal_strlit("this creature is attacking or blocking and only once each turn");
    }
    lemma_not_after(s, "this creature is attacking or blocking and only once each turn"@, 0);
    assert(differs_at(s, "this permanent is a creature"@, 0)) by {
        reveal_strlit("this permanent is a creature");
    }
    lemma_not_after(s, "this permanent is a creature"@, 0);
    assert(differs_at(s, "this creature entered this turn"@, 0)) by {
        reveal_strlit("this creature entered this turn");
    }
    lemma_not_after(s, "this creature entered this turn"@, 0);
    assert(differs_at(s, "this land entered this turn"@, 0)) by {
        reveal_strlit("this land entered this turn");
    }
    lemma_not_after(s, "this land entered this turn"@, 0);
    assert(differs_at(s, "enchanted land is untapped"@, 0)) by {
        reveal_strlit("enchanted land is untapped");
    }
    lemma_not_after(s, "enchanted land is untapped"@, 0);
    assert(differs_at(s, "enchanted creature is untapped"@, 0)) by {
        reveal_strlit("enchanted creature is untapped");
    }
    lemma_not_after(s, "enchanted creature is untapped"@, 0);
    assert(differs_at(s, "this creature doesn't have defender"@, 0)) by {
        reveal_strlit("this creature doesn't have defender");
    }
    lemma_not_after(s, "this creature doesn't have defender"@, 0);
    assert(differs_at(s, "this creature is blue"@, 0)) by {
        reveal_strlit("this creature is blue");
    }
    lemma_not_after(s, "this creature is blue"@, 0);
    assert(differs_at(s, "this creature's power is "@, 0)) by {
        reveal_strlit("this creature's power is ");
    }
    lemma_not_after(s, "this creature's power is "@, 0);
    assert(differs_at(s, "this artifact has "@, 0)) by {
        reveal_strlit("this artifact has ");
    }
    lemma_not_after(s, "this artifact has "@, 0);
    assert(differs_at(s, "this enchantment has "@, 0)) by {
        reveal_strlit("this enchantment has ");
    }
    lemma_not_after(s, "this enchantment has "@, 0);
    assert(differs_at(s, "there are "@, 0)) by {
        reveal_strlit("there are ");
    }
    lemma_not_after(s, "there are "@, 0);
    assert(differs_at(s, "there are no "@, 0)) by {
        reveal_strlit("there are no ");
    }
    lemma_not_after(s, "there are no "@, 0);
    assert(differs_at(s, "there are "@, 0)) by {
        reveal_strlit("there are ");
    }
    lemma_not_after(s, "there are "@, 0);
    assert(differs_at(s, "there is an "@, 0)) by {
        reveal_strlit("there is an ");
    }
    lemma_not_after(s, "there is an "@, 0);
    assert(differs_at(s, "two or more "@, 0)) by {
        reveal_strlit("two or more ");
    }
    lemma_not_after(s, "two or more "@, 0);
    assert(differs_at(s, "you control a desert or there is a desert card in your graveyard"@, 4)) by {
        reveal_strlit("you control a desert or there is a desert card in your graveyard");
    }
    lemma_not_after(s, "you control a desert or there is a desert card in your graveyard"@, 4);
    assert(differs_at(s, "you control a creature with flying"@, 4)) by {
        reveal_strlit("you control a creature with flying");
    }
    lemma_not_after(s, "you control a creature with flying"@, 4);
    assert(differs_at(s, "you control a legendary creature"@, 4)) by {
        reveal_strlit("you control a legendary creature");
    }
    lemma_not_after(s, "you control a legendary creature"@, 4);
    assert(differs_at(s, "you control another colorless creature"@, 4)) by {
        reveal_strlit("you control another colorless creature");
    }
    lemma_not_after(s, "you control another colorless creature"@, 4);
    assert(differs_at(s, "you control fewer creatures than each opponent"@, 4)) by {
        reveal_strlit("you control fewer creatures than each opponent");
    }
    lemma_not_after(s, "you control fewer creatures than each opponent"@, 4);
    assert(differs_at(s, "you control no creatures"@, 4)) by {
        reveal_strlit("you control no creatures");
    }
    lemma_not_after(s, "you control no creatures"@, 4);
    assert(differs_at(s, "you control "@, 4)) by {
        reveal_strlit("you control ");
    }
    lemma_not_after(s, "you control "@, 4);
    assert(differs_at(s, "you control a "@, 4)) by {
        reveal_strlit("you control a ");
    }
    lemma_not_after(s, "you control a "@, 4);
    assert(differs_at(s, "you control an "@, 4)) by {
        reveal_strlit("you control an ");
    }
    lemma_not_after(s, "you control an "@, 4);
    assert(differs_at(s, "you control a creature with power "@, 4)) by {
        reveal_strlit("you control a creature with power ");
    }
    lemma_not_after(s, "you control a creature with power "@, 4);
    assert(differs_at(s, "creatures you control have total power "@, 0)) by {
        reveal_strlit("creatures you control have total power ");
    }
    lemma_not_after(s, "creatures you control have total power "@, 0);
}

/// A word is written with a capital first, and words are parted by one space.
pub proof fn words_begin_with_capitals(c: char, s: Seq<char>, fresh: bool, started: bool)
    requires
        'a' <= c && c <= 'z',
    ensures
        capitalized(Seq::empty(), fresh, started).len() == 0,
        capitalized(seq![c] + s, true, false) == seq![ascii_capital(c)] + capitalized(
            s,
            false,
            true,
        ),
        capitalized(seq![c] + s, true, true) == seq![' ', ascii_capital(c)] + capitalized(
            s,
            false,
            true,
        ),
        capitalized(seq![c] + s, false, true) == seq![c] + capitalized(s, false, true),
        capitalized(seq![' '] + s, fresh, started) == capitalized(s, true, started),
{
    assert((seq![c] + s).skip(1) =~= s);
    assert((seq![' '] + s).skip(1) =~= s);
    assert((seq![c] + s)[0] == c);
    assert((seq![' '] + s)[0] == ' ');
}

/// All of a character at the end are taken away, and all of a beginning or of an ending.
pub proof fn repeated_ends_are_taken_away(s: Seq<char>, c: char, p: Seq<char>)
    requires
        p.len() > 0,
    ensures
        without_last(s.push(c), c) == without_last(s, c),
        s.len() == 0 || s.last() != c ==> without_last(s, c) == s,
        without_beginnings(p + s, p) == without_beginnings(s, p),
        after_prefix(s, p) is None ==> without_beginnings(s, p) == s,
        without_endings(s + p, p) == without_endings(s, p),
        before_suffix(s, p) is None ==> without_endings(s, p) == s,
{
    assert(s.push(c).drop_last() =~= s);
    what_follows_a_beginning(p + s, p, s);
    what_goes_before_an_ending(s + p, p, s);
}

} // verus!
