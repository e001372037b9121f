//! Character-level helpers shared by the parsers and the message builders.

use vstd::prelude::*;

verus! {

/// `String::push` appends one character to the string.
pub assume_specification[ String::push ](s: &mut String, c: char)
    ensures
        final(s)@ == old(s)@.push(c),
;

/// The string that holds the characters `chars`.
pub fn string_of(chars: &Vec<char>) -> (s: String)
    ensures
        s@ == chars@,
{
    let mut s = String::new();
    let mut i: usize = 0;
    while i < chars.len()
        invariant
            i <= chars@.len(),
            s@ == chars@.subrange(0, i as int),
        decreases chars.len() - i,
    {
        s.push(chars[i]);
        assert(chars@.subrange(0, i + 1) =~= chars@.subrange(0, i as int).push(chars@[i as int]));
        i += 1;
    }
    assert(chars@.subrange(0, i as int) =~= chars@);
    s
}

/// The characters of `s`, in order.
pub fn chars_of(s: &str) -> (out: Vec<char>)
    ensures
        out@ == s@,
{
    let mut out: Vec<char> = Vec::new();
    for c in it: s.chars()
        invariant
            it.seq() == s@,
            out@ == s@.subrange(0, it.index() as int),
    {
        out.push(c);
    }
    out
}

/// Whether a character is a letter or a number in the sense of Unicode.
pub uninterp spec fn unicode_alphanumeric(c: char) -> bool;

/// Calls `char::is_alphanumeric`. The answer is a function of the character
/// alone: the contract gives it the name `unicode_alphanumeric` and claims
/// nothing else of it.
#[verifier::external_body]
fn is_alphanumeric(c: char) -> (b: bool)
    ensures
        b == unicode_alphanumeric(c),
{
    c.is_alphanumeric()
}

/// Whether `c` may stand in the name of a stored playlist.
pub open spec fn is_name_char(c: char) -> bool {
    unicode_alphanumeric(c) || c == '-' || c == '_'
}

/// The characters of `s` that may stand in the name of a stored playlist,
/// in their order.
pub open spec fn name_chars(s: Seq<char>) -> Seq<char>
    decreases s.len(),
{
    if s.len() == 0 {
        Seq::empty()
    } else if is_name_char(s.last()) {
        name_chars(s.drop_last()).push(s.last())
    } else {
        name_chars(s.drop_last())
    }
}

/// Reduces `name` to the characters that may stand in the name of a stored
/// playlist: letters, numbers, `-` and `_`. The others are dropped.
pub fn sanitize(name: String) -> (out: String)
    ensures
        out@ == name_chars(name@),
{
    let mut chars: Vec<char> = Vec::new();
    assert(name@.subrange(0, 0) =~= Seq::<char>::empty());
    for c in it: name.as_str().chars()
        invariant
            it.seq() == name@,
            chars@ == name_chars(name@.subrange(0, it.index() as int)),
    {
        let ghost k = it.index() as int;
        assert(name@.subrange(0, k + 1).drop_last() =~= name@.subrange(0, k));
        assert(name@.subrange(0, k + 1).last() == c);
        if is_alphanumeric(c) || c == '-' || c == '_' {
            chars.push(c);
        }
    }
    assert(name@.subrange(0, name@.len() as int) =~= name@);
    string_of(&chars)
}

/// Whether `word` holds exactly the characters of `text`.
pub fn is_word(word: &Vec<char>, text: &str) -> (same: bool)
    ensures
        same == (word@ == text@),
{
    let mut matches = true;
    let mut count: usize = 0;
    assert(word@.subrange(0, 0) =~= text@.subrange(0, 0));
    for c in it: text.chars()
        invariant
            it.seq() == text@,
            count == it.index(),
            count <= usize::MAX,
            matches == (count <= word@.len() && word@.subrange(0, count as int)
                == text@.subrange(0, count as int)),
    {
        if count >= word.len() {
            return false;
        }
        let ghost k = count as int;
        if matches && word[count] != c {
            assert(word@.subrange(0, k + 1)[k] != text@.subrange(0, k + 1)[k]);
            matches = false;
        } else if matches {
            assert(word@.subrange(0, k + 1) =~= word@.subrange(0, k).push(word@[k]));
            assert(text@.subrange(0, k + 1) =~= text@.subrange(0, k).push(text@[k]));
        } else {
            assert(word@.subrange(0, k + 1).subrange(0, k) =~= word@.subrange(0, k));
            assert(text@.subrange(0, k + 1).subrange(0, k) =~= text@.subrange(0, k));
        }
        count += 1;
    }
    if count != word.len() {
        return false;
    }
    assert(word@.subrange(0, count as int) =~= word@);
    assert(text@.subrange(0, count as int) =~= text@);
    matches
}

/// The characters that separate words: space, tab, line feed, form feed and
/// carriage return.
pub open spec fn is_space(c: char) -> bool {
    c == ' ' || c == '\t' || c == '\n' || c == '\x0C' || c == '\r'
}

/// Whether `c` separates words.
pub fn is_space_char(c: char) -> (b: bool)
    ensures
        b == is_space(c),
{
    c == ' ' || c == '\t' || c == '\n' || c == '\x0C' || c == '\r'
}

/// The words of `s`: its maximal runs of characters that are not spaces, in
/// order.
pub open spec fn words(s: Seq<char>) -> Seq<Seq<char>>
    decreases s.len(),
{
    if s.len() == 0 {
        Seq::empty()
    } else {
        let before = words(s.drop_last());
        let c = s.last();
        if is_space(c) {
            before
        } else if s.len() >= 2 && !is_space(s[s.len() - 2]) {
            before.drop_last().push(before.last().push(c))
        } else {
            before.push(seq![c])
        }
    }
}

/// The contents of a sequence of character vectors.
pub open spec fn lines_view(v: Seq<Vec<char>>) -> Seq<Seq<char>> {
    Seq::new(v.len(), |i: int| v[i]@)
}

/// Splits `s` into its words.
pub fn split_words(s: &Vec<char>) -> (out: Vec<Vec<char>>)
    ensures
        lines_view(out@) == words(s@),
{
    let mut done: Vec<Vec<char>> = Vec::new();
    let mut cur: Vec<char> = Vec::new();
    let mut in_word = false;
    let mut i: usize = 0;
    assert(lines_view(done@) =~= words(s@.subrange(0, 0)));
    while i < s.len()
        invariant
            i <= s.len(),
            in_word == (i > 0 && !is_space(s@[i - 1])),
            in_word ==> lines_view(done@).push(cur@) == words(s@.subrange(0, i as int)),
            !in_word ==> cur@.len() == 0 && lines_view(done@) == words(s@.subrange(0, i as int)),
        decreases s.len() - i,
    {
        let c = s[i];
        let ghost prefix = s@.subrange(0, i as int);
        let ghost next = s@.subrange(0, i + 1);
        assert(next.drop_last() =~= prefix);
        assert(next.last() == c);
        let ghost old_done = lines_view(done@);
        if is_space_char(c) {
            if in_word {
                let ghost word = cur@;
                done.push(cur);
                cur = Vec::new();
                assert(lines_view(done@) =~= old_done.push(word));
            }
            in_word = false;
        } else {
            if in_word {
                assert(next[next.len() - 2] == s@[i - 1]);
                let ghost before = old_done.push(cur@);
                assert(before.drop_last() =~= old_done);
                assert(before.last() == cur@);
            }
            cur.push(c);
            if !in_word {
                assert(cur@ =~= seq![c]);
                assert(i > 0 ==> next[next.len() - 2] == s@[i - 1]);
            }
            in_word = true;
        }
        i += 1;
    }
    assert(s@.subrange(0, i as int) =~= s@);
    if in_word {
        let ghost old_done = lines_view(done@);
        let ghost word = cur@;
        done.push(cur);
        assert(lines_view(done@) =~= old_done.push(word));
    }
    done
}

/// `words` joined by single spaces.
pub open spec fn joined(words: Seq<Seq<char>>) -> Seq<char>
    decreases words.len(),
{
    if words.len() == 0 {
        Seq::empty()
    } else if words.len() == 1 {
        words[0]
    } else {
        joined(words.drop_last()) + seq![' '] + words.last()
    }
}

/// Joins the words from position `from` on by single spaces.
pub fn join_words(words: &Vec<Vec<char>>, from: usize) -> (out: Vec<char>)
    requires
        from <= words@.len(),
    ensures
        out@ == joined(lines_view(words@).skip(from as int)),
{
    let mut out: Vec<char> = Vec::new();
    let mut i: usize = from;
    let ghost all = lines_view(words@).skip(from as int);
    assert(all.subrange(0, 0) =~= Seq::<Seq<char>>::empty());
    while i < words.len()
        invariant
            from <= i <= words@.len(),
            all == lines_view(words@).skip(from as int),
            out@ == joined(all.subrange(0, i - from)),
        decreases words.len() - i,
    {
        let ghost k = i - from;
        assert(all.subrange(0, k + 1).drop_last() =~= all.subrange(0, k));
        assert(all.subrange(0, k + 1).last() == words@[i as int]@);
        if i > from {
            out.push(' ');
        }
        let word = &words[i];
        let ghost start = out@;
        let mut j: usize = 0;
        while j < word.len()
            invariant
                j <= word@.len(),
                out@ == start + word@.subrange(0, j as int),
            decreases word.len() - j,
        {
            out.push(word[j]);
            assert(word@.subrange(0, j + 1) =~= word@.subrange(0, j as int).push(word@[j as int]));
            j += 1;
        }
        assert(word@.subrange(0, j as int) =~= word@);
        assert(out@ =~= joined(all.subrange(0, k + 1)));
        i += 1;
    }
    assert(all.subrange(0, i - from) =~= all);
    out
}

/// Whether `c` is one of the ten decimal digits.
pub open spec fn is_digit(c: char) -> bool {
    '0' <= c <= '9'
}

/// The value of the digit `c`.
pub open spec fn digit_value(c: char) -> nat {
    (c as u32 - '0' as u32) as nat
}

/// The number that the digits `s` write in base ten.
pub open spec fn digits_value(s: Seq<char>) -> nat
    decreases s.len(),
{
    if s.len() == 0 {
        0
    } else {
        digits_value(s.drop_last()) * 10 + digit_value(s.last())
    }
}

/// Whether `s` consists of decimal digits only.
pub open spec fn all_digits(s: Seq<char>) -> bool {
    forall|i: int| 0 <= i < s.len() ==> is_digit(#[trigger] s[i])
}

/// The number that `s` writes: at least one decimal digit, with an optional
/// `+` in front. `None` where `s` is not of that form.
pub open spec fn number(s: Seq<char>) -> Option<nat> {
    let digits = if s.len() > 0 && s[0] == '+' {
        s.skip(1)
    } else {
        s
    };
    if digits.len() > 0 && all_digits(digits) {
        Some(digits_value(digits))
    } else {
        None
    }
}

/// Reads `word` as a number no larger than `max`.
///
/// Returns the number where `word` writes one that is at most `max`, and
/// `None` where it writes a larger one or is no number at all.
pub fn parse_number(word: &Vec<char>, max: usize) -> (out: Option<usize>)
    ensures
        out == match number(word@) {
            Some(n) => if n <= max {
                Some(n as usize)
            } else {
                None
            },
            None => None,
        },
{
    let start: usize = if word.len() > 0 && word[0] == '+' {
        1
    } else {
        0
    };
    let ghost digits = word@.skip(start as int);
    assert(word@.skip(0) =~= word@);
    if word.len() == start {
        return None;
    }
    let mut value: usize = 0;
    let mut too_large = false;
    let mut i: usize = start;
    assert(digits.subrange(0, 0) =~= Seq::<char>::empty());
    while i < word.len()
        invariant
            start <= i <= word@.len(),
            digits == word@.skip(start as int),
            number(word@) == (if digits.len() > 0 && all_digits(digits) {
                Some(digits_value(digits))
            } else {
                None
            }),
            all_digits(digits.subrange(0, i - start)),
            !too_large ==> value == digits_value(digits.subrange(0, i - start)) && value <= max,
            too_large ==> digits_value(digits.subrange(0, i - start)) > max,
        decreases word.len() - i,
    {
        let c = word[i];
        let ghost k = i - start;
        let ghost before = digits.subrange(0, k);
        let ghost after = digits.subrange(0, k + 1);
        assert(after.drop_last() =~= before);
        assert(after.last() == c);
        if !(c >= '0' && c <= '9') {
            assert(!is_digit(digits[k]));
            return None;
        }
        assert forall|j: int| 0 <= j < after.len() implies is_digit(#[trigger] after[j]) by {
            if j < k {
                assert(after[j] == before[j]);
            }
        }
        let d = (c as u32 - '0' as u32) as usize;
        if !too_large {
            if max < d || value > (max - d) / 10 {
                assert(value * 10 + d > max) by (nonlinear_arith)
                    requires
                        max < d || value > (max - d) / 10,
                        value >= 0,
                        d >= 0,
                ;
                too_large = true;
            } else {
                assert(value * 10 + d <= max) by (nonlinear_arith)
                    requires
                        max >= d,
                        value <= (max - d) / 10,
                ;
                value = value * 10 + d;
            }
        }
        i += 1;
    }
    assert(digits.subrange(0, i - start) =~= digits);
    if too_large {
        None
    } else {
        Some(value)
    }
}

/// The character that writes the digit `d`.
pub open spec fn digit_char(d: nat) -> char
    recommends
        d < 10,
{
    (d + '0' as u32) as char
}

/// `n` written in base ten, without leading zeros.
pub open spec fn decimal(n: nat) -> Seq<char>
    decreases n,
{
    if n < 10 {
        seq![digit_char(n)]
    } else {
        decimal(n / 10).push(digit_char(n % 10))
    }
}

/// Appends `n`, written in base ten, to `out`.
pub fn push_decimal(out: &mut Vec<char>, n: u64)
    ensures
        final(out)@ == old(out)@ + decimal(n as nat),
    decreases n,
{
    if n >= 10 {
        push_decimal(out, n / 10);
    }
    let d = (n % 10) as u8;
    out.push((d + 48) as char);
    assert('0' as u32 == 48);
    assert(final(out)@ =~= old(out)@ + decimal(n as nat));
}

/// Appends the characters of `text` to `out`.
pub fn push_str(out: &mut Vec<char>, text: &str)
    ensures
        final(out)@ == old(out)@ + text@,
{
    for c in it: text.chars()
        invariant
            it.seq() == text@,
            out@ == old(out)@ + text@.subrange(0, it.index() as int),
    {
        let ghost k = it.index() as int;
        assert(text@.subrange(0, k + 1) =~= text@.subrange(0, k).push(text@[k]));
        out.push(c);
    }
    assert(text@.subrange(0, text@.len() as int) =~= text@);
}

} // verus!
