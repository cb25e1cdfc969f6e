//! Text primitives: order, search, trimming, decimal numbers.

use vstd::prelude::*;

verus! {

/// `String::push`: appends one character to the end of the string.
pub assume_specification[ String::push ](s: &mut String, c: char)
    ensures
        final(s)@ == old(s)@.push(c),
;

/// A character with the Unicode property `White_Space`.
pub open spec fn white_space(c: char) -> bool {
    let code = c as u32;
    ||| 0x0009 <= code <= 0x000d
    ||| code == 0x0020
    ||| code == 0x0085
    ||| code == 0x00a0
    ||| code == 0x1680
    ||| 0x2000 <= code <= 0x200a
    ||| 0x2028 <= code <= 0x2029
    ||| code == 0x202f
    ||| code == 0x205f
    ||| code == 0x3000
}

/// Whether `c` has the Unicode property `White_Space`.
pub fn is_white_space(c: char) -> (r: bool)
    ensures
        r == white_space(c),
{
    let code = c as u32;
    (0x0009 <= code && code <= 0x000d) || code == 0x0020 || code == 0x0085 || code == 0x00a0 || code
        == 0x1680 || (0x2000 <= code && code <= 0x200a) || (0x2028 <= code && code <= 0x2029)
        || code == 0x202f || code == 0x205f || code == 0x3000
}

/// What `str::to_lowercase` makes of `text`.
pub uninterp spec fn lowercase(text: Seq<char>) -> Seq<char>;

/// `str::to_lowercase`: the Unicode lower case of `text`. The mapping tables are not written out;
/// the answer is the named `lowercase(text@)`. Claimed besides: every character has one or more
/// characters for its lower case, so the answer is empty for the empty text alone.
#[verifier::external_body]
pub(crate) fn to_lowercase(text: &str) -> (r: String)
    ensures
        r@ == lowercase(text@),
        r@.len() == 0 <==> text@.len() == 0,
{
    text.to_lowercase()
}

/// The characters of `text`, in order.
pub fn chars_of(text: &str) -> (chars: Vec<char>)
    ensures
        chars@ == text@,
{
    let mut chars: Vec<char> = Vec::new();
    for c in it: text.chars()
        invariant
            chars@ == it.seq().take(it.index() as int),
            it.seq() == text@,
    {
        chars.push(c);
    }
    assert(text@.take(text@.len() as int) == text@);
    chars
}

/// The characters of `text` from `from` up to but not including `to`.
pub(crate) fn text_between(text: &Vec<char>, from: usize, to: usize) -> (r: String)
    requires
        from <= to <= text.len(),
    ensures
        r@ == text@.subrange(from as int, to as int),
{
    let mut r = String::new();
    let mut i: usize = from;
    while i < to
        invariant
            from <= i <= to <= text.len(),
            r@ == text@.subrange(from as int, i as int),
        decreases to - i,
    {
        r.push(text[i]);
        proof {
            assert(text@.subrange(from as int, i + 1) =~= text@.subrange(from as int, i as int).push(text@[i as int]));
        }
        i += 1;
    }
    r
}

/// Code point order: `a` sorts at or before `b`.
pub open spec fn text_le(a: Seq<char>, b: Seq<char>) -> bool
    decreases a.len(),
{
    if a.len() == 0 {
        true
    } else if b.len() == 0 {
        false
    } else if a[0] != b[0] {
        (a[0] as int) < (b[0] as int)
    } else {
        text_le(a.drop_first(), b.drop_first())
    }
}

/// `needle` occurs in `hay`.
pub open spec fn contains_text(hay: Seq<char>, needle: Seq<char>) -> bool {
    exists|i: int|
        0 <= i <= hay.len() - needle.len() && #[trigger] hay.subrange(i, i + needle.len())
            == needle
}

/// The text left once white space is taken off the front.
pub open spec fn trim_front(s: Seq<char>) -> Seq<char>
    decreases s.len(),
{
    if s.len() > 0 && white_space(s[0]) {
        trim_front(s.drop_first())
    } else {
        s
    }
}

/// The text left once white space is taken off the back.
pub open spec fn trim_back(s: Seq<char>) -> Seq<char>
    decreases s.len(),
{
    if s.len() > 0 && white_space(s.last()) {
        trim_back(s.drop_last())
    } else {
        s
    }
}

/// The text left once white space is taken off both ends.
pub open spec fn trimmed(s: Seq<char>) -> Seq<char> {
    trim_back(trim_front(s))
}

/// The digit character of `d`.
pub open spec fn digit(d: nat) -> char {
    ('0' as u32 + d) as char
}

/// A digit character.
pub open spec fn is_digit(c: char) -> bool {
    '0' as u32 <= c as u32 <= '9' as u32
}

/// `n` in base ten, without leading zeros.
pub open spec fn decimal(n: nat) -> Seq<char>
    decreases n,
{
    if n < 10 {
        seq![digit(n)]
    } else {
        decimal(n / 10).push(digit(n % 10))
    }
}

/// `n` in base ten, with a leading zero below ten.
pub open spec fn two_digits(n: nat) -> Seq<char> {
    if n < 10 {
        seq!['0'] + decimal(n)
    } else {
        decimal(n)
    }
}

/// The views of optional text.
pub open spec fn option_text(text: Option<String>) -> Option<Seq<char>> {
    match text {
        Some(t) => Some(t@),
        None => None,
    }
}

/// Whether `x` is the lower code point.
fn precedes(x: char, y: char) -> (r: bool)
    ensures
        r == ((x as int) < (y as int)),
{
    (x as u32) < (y as u32)
}

/// Whether `a` sorts at or before `b` in code point order, which is how `str` orders.
pub fn sorts_at_or_before(a: &str, b: &str) -> (r: bool)
    ensures
        r == text_le(a@, b@),
{
    let mut rest_a = a.chars();
    let mut rest_b = b.chars();
    loop
        invariant
            text_le(a@, b@) == text_le(vstd::std_specs::iter::IteratorSpec::remaining(&rest_a), vstd::std_specs::iter::IteratorSpec::remaining(&rest_b)),
            vstd::std_specs::iter::IteratorSpec::obeys_prophetic_iter_laws(&rest_a),
            vstd::std_specs::iter::IteratorSpec::obeys_prophetic_iter_laws(&rest_b),
            vstd::std_specs::iter::IteratorSpec::decrease(&rest_a) is Some,
        decreases vstd::std_specs::iter::IteratorSpec::decrease(&rest_a)->0,
    {
        let next_a = rest_a.next();
        let next_b = rest_b.next();
        match next_a {
            None => {
                return true;
            },
            Some(x) => match next_b {
                None => {
                    return false;
                },
                Some(y) => {
                    if x != y {
                        return precedes(x, y);
                    }
                },
            },
        }
    }
}

/// Text order puts any two texts in order.
pub proof fn text_le_total(a: Seq<char>, b: Seq<char>)
    ensures
        text_le(a, b) || text_le(b, a),
    decreases a.len(),
{
    if a.len() > 0 && b.len() > 0 {
        text_le_total(a.drop_first(), b.drop_first());
    }
}

/// Text order chains.
pub proof fn text_le_transitive(a: Seq<char>, b: Seq<char>, c: Seq<char>)
    requires
        text_le(a, b),
        text_le(b, c),
    ensures
        text_le(a, c),
    decreases a.len(),
{
    if a.len() > 0 && b.len() > 0 && c.len() > 0 && a[0] == b[0] && b[0] == c[0] {
        text_le_transitive(a.drop_first(), b.drop_first(), c.drop_first());
    }
}

/// Text order ties equal texts only.
pub proof fn text_le_antisymmetric(a: Seq<char>, b: Seq<char>)
    requires
        text_le(a, b),
        text_le(b, a),
    ensures
        a == b,
    decreases a.len(),
{
    if a.len() > 0 && b.len() > 0 {
        let (rest_a, rest_b) = (a.drop_first(), b.drop_first());
        text_le_antisymmetric(rest_a, rest_b);
        assert forall|i: int| 0 <= i < a.len() implies a[i] == b[i] by {
            if i > 0 {
                assert(rest_a[i - 1] == rest_b[i - 1]);
            }
        }
        assert(rest_a.len() == rest_b.len());
    }
    assert(a =~= b);
}

/// Whether `needle` occurs in `hay`.
pub fn has_text(hay: &str, needle: &str) -> (r: bool)
    ensures
        r == contains_text(hay@, needle@),
{
    let h = chars_of(hay);
    let n = chars_of(needle);
    if h.len() < n.len() {
        return false;
    }
    let last: usize = h.len() - n.len();
    let mut i: usize = 0;
    while i <= last
        invariant
            h@ == hay@,
            n@ == needle@,
            last == h.len() - n.len(),
            i <= last + 1,
            forall|k: int| 0 <= k < i ==> #[trigger] hay@.subrange(k, k + needle@.len()) != needle@,
        decreases last + 1 - i,
    {
        let mut j: usize = 0;
        while j < n.len() && h[i + j] == n[j]
            invariant
                h@ == hay@,
                n@ == needle@,
                i <= last,
                last == h.len() - n.len(),
                j <= n.len(),
                forall|k: int| 0 <= k < j ==> hay@[i + k] == needle@[k],
            decreases n.len() - j,
        {
            j += 1;
        }
        if j == n.len() {
            assert(hay@.subrange(i as int, i + needle@.len()) =~= needle@);
            return true;
        }
        assert(hay@.subrange(i as int, i + needle@.len())[j as int] != needle@[j as int]);
        if i == last {
            return false;
        }
        i += 1;
    }
    false
}

proof fn trim_front_skips(s: Seq<char>, n: int)
    requires
        0 <= n <= s.len(),
        forall|i: int| 0 <= i < n ==> white_space(#[trigger] s[i]),
    ensures
        trim_front(s) == trim_front(s.skip(n)),
    decreases n,
{
    if n > 0 {
        let t = s.drop_first();
        assert forall|i: int| 0 <= i < n - 1 implies white_space(#[trigger] t[i]) by {
            assert(t[i] == s[i + 1]);
        }
        trim_front_skips(t, n - 1);
        assert(t.skip(n - 1) =~= s.skip(n));
    } else {
        assert(s.skip(0) =~= s);
    }
}

proof fn trim_back_drops(s: Seq<char>, n: int)
    requires
        0 <= n <= s.len(),
        forall|i: int| n <= i < s.len() ==> white_space(#[trigger] s[i]),
    ensures
        trim_back(s) == trim_back(s.take(n)),
    decreases s.len() - n,
{
    if n < s.len() {
        trim_back_drops(s.drop_last(), n);
        assert(s.drop_last().take(n) =~= s.take(n));
    } else {
        assert(s.take(n) =~= s);
    }
}

/// `text` without the white space at its two ends.
pub fn trim(text: &str) -> (r: String)
    ensures
        r@ == trimmed(text@),
{
    let chars = chars_of(text);
    let mut from: usize = 0;
    while from < chars.len() && is_white_space(chars[from])
        invariant
            from <= chars.len(),
            forall|i: int| 0 <= i < from ==> white_space(#[trigger] chars@[i]),
        decreases chars.len() - from,
    {
        from += 1;
    }
    let mut to: usize = chars.len();
    while to > from && is_white_space(chars[to - 1])
        invariant
            from <= to <= chars.len(),
            forall|i: int| to <= i < chars.len() ==> white_space(#[trigger] chars@[i]),
        decreases to,
    {
        to -= 1;
    }
    proof {
        let rest = chars@.skip(from as int);
        trim_front_skips(chars@, from as int);
        assert forall|i: int| to - from <= i < rest.len() implies white_space(#[trigger] rest[i]) by {
            assert(rest[i] == chars@[i + from]);
        }
        trim_back_drops(rest, to - from);
        assert(rest.take(to - from) =~= chars@.subrange(from as int, to as int));
    }
    text_between(&chars, from, to)
}

/// Trimming leaves no white space at either end.
pub proof fn trimmed_has_no_outer_white_space(s: Seq<char>)
    ensures
        trimmed(s).len() > 0 ==> !white_space(trimmed(s)[0]) && !white_space(trimmed(s).last()),
{
    trim_front_result(s);
    trim_back_result(trim_front(s));
}

/// Trimming what was trimmed changes nothing.
pub proof fn trim_is_idempotent(s: Seq<char>)
    ensures
        trimmed(trimmed(s)) == trimmed(s),
{
    trimmed_has_no_outer_white_space(s);
}

proof fn trim_front_result(s: Seq<char>)
    ensures
        trim_front(s).len() > 0 ==> !white_space(trim_front(s)[0]),
    decreases s.len(),
{
    if s.len() > 0 && white_space(s[0]) {
        trim_front_result(s.drop_first());
    }
}

proof fn trim_back_result(s: Seq<char>)
    ensures
        trim_back(s).len() > 0 ==> !white_space(trim_back(s).last()) && trim_back(s)[0] == s[0],
        trim_back(s).len() <= s.len(),
    decreases s.len(),
{
    if s.len() > 0 && white_space(s.last()) {
        trim_back_result(s.drop_last());
    }
}

/// Appends `n` in base ten.
pub fn push_decimal(out: &mut String, n: u64)
    ensures
        final(out)@ == old(out)@ + decimal(n as nat),
    decreases n,
{
    if n >= 10 {
        push_decimal(out, n / 10);
    }
    let c = ('0' as u8 + (n % 10) as u8) as char;
    out.push(c);
    assert(c == digit((n % 10) as nat));
}

/// Appends `n` in base ten, with a leading zero below ten.
pub fn push_two_digits(out: &mut String, n: u64)
    ensures
        final(out)@ == old(out)@ + two_digits(n as nat),
{
    if n < 10 {
        out.push('0');
    }
    push_decimal(out, n);
    assert(out@ =~= old(out)@ + two_digits(n as nat));
}

/// Base ten text is never empty and is made of digits alone.
pub proof fn decimal_is_digits(n: nat)
    ensures
        decimal(n).len() > 0,
        forall|i: int| 0 <= i < decimal(n).len() ==> is_digit(#[trigger] decimal(n)[i]),
    decreases n,
{
    if n >= 10 {
        decimal_is_digits(n / 10);
    }
}

/// Different numbers have different base ten text.
pub proof fn decimal_is_injective(a: nat, b: nat)
    requires
        decimal(a) == decimal(b),
    ensures
        a == b,
    decreases a,
{
    decimal_is_digits(a / 10);
    decimal_is_digits(b / 10);
    assert(decimal(a).last() == digit(a % 10));
    assert(decimal(b).last() == digit(b % 10));
    assert(digit(a % 10) as u32 == '0' as u32 + a % 10);
    assert(digit(b % 10) as u32 == '0' as u32 + b % 10);
    if a >= 10 && b >= 10 {
        assert(decimal(a).drop_last() =~= decimal(a / 10));
        assert(decimal(b).drop_last() =~= decimal(b / 10));
        decimal_is_injective(a / 10, b / 10);
    }
}

/// Two texts sort by the first character in which they differ.
pub proof fn texts_sort_by_first_difference(a: Seq<char>, b: Seq<char>, k: int)
    requires
        0 <= k < a.len(),
        k < b.len(),
        forall|i: int| 0 <= i < k ==> a[i] == b[i],
        a[k] != b[k],
    ensures
        text_le(a, b) <==> (a[k] as int) < (b[k] as int),
    decreases k,
{
    if k > 0 {
        assert(a[0] == b[0]);
        let (rest_a, rest_b) = (a.drop_first(), b.drop_first());
        assert forall|i: int| 0 <= i < k - 1 implies rest_a[i] == rest_b[i] by {
            assert(a[i + 1] == b[i + 1]);
        }
        texts_sort_by_first_difference(rest_a, rest_b, k - 1);
    }
}

/// A text sorts before every longer text that begins with it.
pub proof fn text_sorts_before_its_continuations(a: Seq<char>, more: Seq<char>)
    ensures
        text_le(a, a + more),
        text_le(a + more, a) <==> more.len() == 0,
    decreases a.len(),
{
    if a.len() > 0 {
        text_sorts_before_its_continuations(a.drop_first(), more);
        assert((a + more).drop_first() =~= a.drop_first() + more);
    } else {
        assert(a + more =~= more);
    }
}

/// A text is found wherever it stands: with anything before it and anything behind it.
pub proof fn text_is_found_where_it_stands(before: Seq<char>, text: Seq<char>, behind: Seq<char>)
    ensures
        contains_text(before + text + behind, text),
{
    let hay = before + text + behind;
    let at = before.len() as int;
    assert(hay.subrange(at, at + text.len()) =~= text);
}

/// A text that is found stands there: what comes before it, the text and what is behind it make up
/// the whole.
pub proof fn found_text_stands_there(hay: Seq<char>, text: Seq<char>) -> (at: int)
    requires
        contains_text(hay, text),
    ensures
        0 <= at <= hay.len() - text.len(),
        hay == hay.take(at) + text + hay.skip(at + text.len()),
{
    let at = choose|i: int|
        0 <= i <= hay.len() - text.len() && #[trigger] hay.subrange(i, i + text.len()) == text;
    assert(hay =~= hay.take(at) + hay.subrange(at, at + text.len()) + hay.skip(at + text.len()));
    at
}

/// Trimming takes off all white space around a text that neither begins nor ends with white space.
pub proof fn trimming_takes_off_all_outer_white_space(
    before: Seq<char>,
    text: Seq<char>,
    behind: Seq<char>,
)
    requires
        forall|i: int| 0 <= i < before.len() ==> white_space(#[trigger] before[i]),
        forall|i: int| 0 <= i < behind.len() ==> white_space(#[trigger] behind[i]),
        text.len() > 0,
        !white_space(text[0]),
        !white_space(text[text.len() - 1]),
    ensures
        trimmed(before + text + behind) == text,
{
    let whole = before + text + behind;
    let n = before.len() as int;
    assert forall|i: int| 0 <= i < n implies white_space(#[trigger] whole[i]) by {
        assert(whole[i] == before[i]);
    }
    trim_front_skips(whole, n);
    let rest = whole.skip(n);
    assert(rest =~= text + behind);
    assert(rest[0] == text[0]);
    assert(trim_front(rest) == rest);
    let m = text.len() as int;
    assert forall|i: int| m <= i < rest.len() implies white_space(#[trigger] rest[i]) by {
        assert(rest[i] == behind[i - m]);
    }
    trim_back_drops(rest, m);
    assert(rest.take(m) =~= text);
    assert(trim_back(text) == text);
}

/// Nothing is left of white space alone.
pub proof fn trimming_white_space_leaves_nothing(text: Seq<char>)
    requires
        forall|i: int| 0 <= i < text.len() ==> white_space(#[trigger] text[i]),
    ensures
        trimmed(text).len() == 0,
{
    trim_front_skips(text, text.len() as int);
    assert(text.skip(text.len() as int) =~= Seq::<char>::empty());
}

/// White space is what Unicode lists as such: five control characters, the two spaces of Latin-1 and
/// its line break, and the spaces and separators beyond.
pub proof fn white_space_is_that_of_unicode(c: char)
    ensures
        white_space(c) <==> (9 <= c as int <= 13 || c == ' ' || c as int == 133 || c as int == 160
            || c as int == 5760 || 8192 <= c as int <= 8202 || c as int == 8232 || c as int == 8233
            || c as int == 8239 || c as int == 8287 || c as int == 12288),
{
}

/// The number that base ten text stands for.
pub open spec fn decimal_value(text: Seq<char>) -> int
    decreases text.len(),
{
    if text.len() == 0 {
        0
    } else {
        decimal_value(text.drop_last()) * 10 + (text.last() as int - '0' as int)
    }
}

/// Base ten text reads back as its number, and has no leading zero unless it is one digit.
pub proof fn decimal_reads_back(n: nat)
    ensures
        decimal_value(decimal(n)) == n,
        decimal(n).len() > 1 ==> decimal(n)[0] != '0',
    decreases n,
{
    decimal_is_digits(n);
    let text = decimal(n);
    if n < 10 {
        assert(text =~= seq![digit(n)]);
        assert(text.drop_last() =~= Seq::<char>::empty());
        assert(text.last() as int == '0' as int + n);
        assert(decimal_value(Seq::<char>::empty()) == 0);
    } else {
        decimal_reads_back(n / 10);
        decimal_is_digits(n / 10);
        assert(text.drop_last() =~= decimal(n / 10));
        assert(text.last() as int == '0' as int + n % 10);
        if decimal(n / 10).len() == 1 {
            assert(decimal_value(decimal(n / 10)) == decimal_value(
                decimal(n / 10).drop_last(),
            ) * 10 + (decimal(n / 10).last() as int - '0' as int));
            assert(decimal(n / 10).drop_last() =~= Seq::<char>::empty());
            assert(decimal(n / 10)[0] != '0');
        }
        assert(text[0] == decimal(n / 10)[0]);
    }
}

/// Numbers with two digits read back too, and take at least two characters.
pub proof fn two_digits_read_back(n: nat)
    ensures
        decimal_value(two_digits(n)) == n,
        two_digits(n).len() >= 2,
        n < 10 ==> two_digits(n).len() == 2 && two_digits(n)[0] == '0',
        n >= 10 ==> two_digits(n) == decimal(n),
{
    decimal_reads_back(n);
    decimal_is_digits(n);
    if n < 10 {
        let text = two_digits(n);
        assert(text.len() == 2);
        assert(text.drop_last() =~= seq!['0']);
        assert(seq!['0'].drop_last() =~= Seq::<char>::empty());
        assert(decimal_value(seq!['0']) == decimal_value(Seq::<char>::empty()) * 10);
        assert(text.last() == digit(n));
    } else {
        decimal_is_digits(n / 10);
    }
}

/// Optional text is that text, or none.
pub proof fn optional_text_is_that_text(text: Option<String>)
    ensures
        option_text(text) is Some <==> text is Some,
        text matches Some(t) ==> option_text(text) == Some(t@),
{
}

/// Digits are the ten characters from `0` to `9`.
pub proof fn digits_are_ten(c: char, d: nat)
    requires
        d < 10,
    ensures
        is_digit(c) <==> 48 <= c as int <= 57,
        digit(d) as int == 48 + d,
        is_digit(digit(d)),
{
}

} // verus!
