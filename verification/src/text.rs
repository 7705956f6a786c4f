//! Strings as sequences of characters.
//!
//! A string is modelled by its view, the sequence of its characters. The functions here are
//! the handful of string operations that the rest of the library needs, each with an exact
//! statement over that view.
use vstd::prelude::*;

verus! {

/// `std::string::String::push`: the character is appended at the end.
pub assume_specification[ String::push ](s: &mut String, c: char)
    ensures
        final(s)@ == old(s)@.push(c),
;

/// The lower-case form of a text under Unicode's rules, as `str::to_lowercase` computes it.
pub uninterp spec fn lowercase(text: Seq<char>) -> Seq<char>;

/// Calls `str::to_lowercase`. What Unicode makes of a text is a function of the text alone;
/// the contract gives that function a name and says nothing else of it.
#[verifier::external_body]
pub(crate) fn to_lowercase(text: &str) -> (lower: String)
    ensures
        lower@ == lowercase(text@),
{
    text.to_lowercase()
}

/// The characters of an optional text.
pub open spec fn text_of(text: Option<&str>) -> Option<Seq<char>> {
    match text {
        Some(t) => Some(t@),
        None => None,
    }
}

/// The characters of an optional text.
pub open spec fn owned_text(text: Option<String>) -> Option<Seq<char>> {
    match text {
        Some(t) => Some(t@),
        None => None,
    }
}

/// The characters of `text` in order.
pub fn chars_of(text: &str) -> (chars: Vec<char>)
    ensures
        chars@ == text@,
{
    let mut chars: Vec<char> = Vec::new();
    for c in it: text.chars()
        invariant
            it.seq() == text@,
            chars@ == text@.take(it.index() as int),
    {
        chars.push(c);
    }
    chars
}

/// Whether two texts hold the same characters.
pub fn same_text(a: &str, b: &str) -> (same: bool)
    ensures
        same == (a@ == b@),
{
    a.to_owned() == b.to_owned()
}

/// `needle` stands in `hay`, beginning at position `at`.
pub open spec fn occurs_at(hay: Seq<char>, needle: Seq<char>, at: int) -> bool {
    &&& 0 <= at <= hay.len() - needle.len()
    &&& hay.subrange(at, at + needle.len()) == needle
}

/// `needle` stands somewhere in `hay`. The empty text stands in every text.
pub open spec fn occurs_in(hay: Seq<char>, needle: Seq<char>) -> bool {
    exists|at: int| occurs_at(hay, needle, at)
}

/// Whether `needle` begins at position `at` of `hay`.
fn stands_at(hay: &Vec<char>, needle: &Vec<char>, at: usize) -> (found: bool)
    requires
        at + needle@.len() <= hay@.len(),
    ensures
        found == occurs_at(hay@, needle@, at as int),
{
    let end: usize = hay.len();
    let mut i: usize = 0;
    while i < needle.len()
        invariant
            i <= needle@.len(),
            at + needle@.len() <= hay@.len(),
            end == hay@.len(),
            forall|j: int| 0 <= j < i ==> hay@[at + j] == needle@[j],
        decreases needle@.len() - i,
    {
        if hay[at + i] != needle[i] {
            assert(hay@.subrange(at as int, at + needle@.len())[i as int] != needle@[i as int]);
            return false;
        }
        i += 1;
    }
    assert(hay@.subrange(at as int, at + needle@.len()) =~= needle@);
    true
}

/// Whether `needle` is a substring of `hay`.
pub fn contains(hay: &str, needle: &str) -> (found: bool)
    ensures
        found == occurs_in(hay@, needle@),
{
    let hay_chars = chars_of(hay);
    let needle_chars = chars_of(needle);
    if needle_chars.len() > hay_chars.len() {
        return false;
    }
    let last: usize = hay_chars.len() - needle_chars.len();
    let mut at: usize = 0;
    loop
        invariant
            hay_chars@ == hay@,
            needle_chars@ == needle@,
            last == hay_chars@.len() - needle_chars@.len(),
            at <= last,
            forall|j: int| 0 <= j < at ==> !occurs_at(hay@, needle@, j),
        decreases last - at,
    {
        if stands_at(&hay_chars, &needle_chars, at) {
            return true;
        }
        if at == last {
            return false;
        }
        at += 1;
    }
}

/// Whether `text` begins with `prefix`.
pub open spec fn begins_with(text: Seq<char>, prefix: Seq<char>) -> bool {
    occurs_at(text, prefix, 0)
}

/// Whether `text` begins with `prefix`.
pub fn starts_with(text: &str, prefix: &str) -> (found: bool)
    ensures
        found == begins_with(text@, prefix@),
{
    let text_chars = chars_of(text);
    let prefix_chars = chars_of(prefix);
    prefix_chars.len() <= text_chars.len() && stands_at(&text_chars, &prefix_chars, 0)
}

/// The part of `chars` from `from` on, as a string.
pub(crate) fn string_from(chars: &Vec<char>, from: usize) -> (text: String)
    requires
        from <= chars@.len(),
    ensures
        text@ == chars@.skip(from as int),
{
    let mut text = String::new();
    let mut i: usize = from;
    while i < chars.len()
        invariant
            from <= i <= chars@.len(),
            text@ == chars@.subrange(from as int, i as int),
        decreases chars@.len() - i,
    {
        text.push(chars[i]);
        i += 1;
        assert(chars@.subrange(from as int, i as int) =~= chars@.subrange(
            from as int,
            i - 1,
        ).push(chars@[i - 1]));
    }
    assert(chars@.subrange(from as int, i as int) =~= chars@.skip(from as int));
    text
}

/// What follows `prefix` in `text`, where `text` begins with it.
pub fn strip_prefix(text: &str, prefix: &str) -> (rest: Option<String>)
    ensures
        rest is Some <==> begins_with(text@, prefix@),
        rest matches Some(r) ==> text@ == prefix@ + r@,
{
    let text_chars = chars_of(text);
    let prefix_chars = chars_of(prefix);
    if prefix_chars.len() <= text_chars.len() && stands_at(&text_chars, &prefix_chars, 0) {
        let rest = string_from(&text_chars, prefix_chars.len());
        assert(text@ =~= text@.subrange(0, prefix@.len() as int) + rest@);
        Some(rest)
    } else {
        None
    }
}

/// The parts of a text with `sep` between each two of them.
pub open spec fn joined(parts: Seq<Seq<char>>, sep: Seq<char>) -> Seq<char>
    decreases parts.len(),
{
    if parts.len() == 0 {
        Seq::empty()
    } else {
        let front = parts.drop_last();
        if front.len() == 0 {
            parts.last()
        } else {
            joined(front, sep) + sep + parts.last()
        }
    }
}

/// The parts of a text one after the other.
pub open spec fn concatenated(parts: Seq<Seq<char>>) -> Seq<char>
    decreases parts.len(),
{
    if parts.len() == 0 {
        Seq::empty()
    } else {
        concatenated(parts.drop_last()) + parts.last()
    }
}

/// Joins `parts` with `sep` between each two of them.
pub fn join(parts: &Vec<String>, sep: &str) -> (text: String)
    ensures
        text@ == joined(parts.deep_view(), sep@),
{
    let ghost views = parts.deep_view();
    let mut text = String::new();
    let mut i: usize = 0;
    while i < parts.len()
        invariant
            i <= parts@.len(),
            views == parts.deep_view(),
            text@ == joined(views.take(i as int), sep@),
        decreases parts@.len() - i,
    {
        if i > 0 {
            text.append(sep);
        }
        text.append(parts[i].as_str());
        assert(views.take(i + 1).drop_last() =~= views.take(i as int));
        i += 1;
    }
    assert(views.take(i as int) =~= views);
    text
}

/// The digit of value `d` in base ten.
pub open spec fn digit(d: nat) -> char {
    (('0' as nat) + d) as char
}

/// A number in base ten, without leading zeros.
pub open spec fn decimal(n: nat) -> Seq<char>
    decreases n,
{
    if n < 10 {
        seq![digit(n)]
    } else {
        decimal(n / 10).push(digit(n % 10))
    }
}

fn digit_char(d: u8) -> (c: char)
    requires
        d < 10,
    ensures
        c == digit(d as nat),
{
    (48u8 + d) as char
}

/// Appends `n` in base ten.
pub fn push_decimal(out: &mut String, n: u128)
    ensures
        final(out)@ == old(out)@ + decimal(n as nat),
    decreases n,
{
    if n < 10 {
        out.push(digit_char(n as u8));
        assert(out@ =~= old(out)@ + seq![digit(n as nat)]);
    } else {
        push_decimal(out, n / 10);
        out.push(digit_char((n % 10) as u8));
        assert(out@ =~= old(out)@ + decimal((n / 10) as nat).push(digit((n % 10) as nat)));
    }
}

/// The last three digits of `n` in base ten, leading zeros included.
pub open spec fn three_digits(n: nat) -> Seq<char> {
    seq![digit(n / 100 % 10), digit(n / 10 % 10), digit(n % 10)]
}

/// Appends the last three digits of `n`.
pub fn push_three_digits(out: &mut String, n: u128)
    ensures
        final(out)@ == old(out)@ + three_digits(n as nat),
{
    out.push(digit_char((n / 100 % 10) as u8));
    out.push(digit_char((n / 10 % 10) as u8));
    out.push(digit_char((n % 10) as u8));
    assert(out@ =~= old(out)@ + three_digits(n as nat));
}

/// Two numbers with the same digits are the same number.
pub(crate) proof fn lemma_decimal_injective(m: nat, n: nat)
    requires
        decimal(m) == decimal(n),
    ensures
        m == n,
    decreases m,
{
    lemma_decimal_nonempty(m);
    lemma_decimal_nonempty(n);
    assert(decimal(m).last() == digit(m % 10));
    assert(decimal(n).last() == digit(n % 10));
    if m >= 10 && n >= 10 {
        assert(decimal(m).drop_last() =~= decimal(m / 10));
        assert(decimal(n).drop_last() =~= decimal(n / 10));
        lemma_decimal_injective(m / 10, n / 10);
    } else if m >= 10 {
        lemma_decimal_nonempty(m / 10);
    } else if n >= 10 {
        lemma_decimal_nonempty(n / 10);
    }
}

/// A number has at least one digit, and digits only.
pub(crate) proof fn lemma_decimal_nonempty(n: nat)
    ensures
        decimal(n).len() >= 1,
        forall|i: int| 0 <= i < decimal(n).len() ==> '0' <= #[trigger] decimal(n)[i] <= '9',
    decreases n,
{
    if n >= 10 {
        lemma_decimal_nonempty(n / 10);
    }
}

/// The number that decimal digits stand for.
pub open spec fn value(digits: Seq<char>) -> nat
    decreases digits.len(),
{
    if digits.len() == 0 {
        0
    } else {
        (value(digits.drop_last()) * 10 + digits.last() as nat - '0' as nat) as nat
    }
}

/// A number that was written out reads as the same number: digits only, at least one, and no
/// zero in front but that of zero itself.
pub proof fn law_decimal_reads_back(n: nat)
    ensures
        value(decimal(n)) == n,
        decimal(n).len() >= 1,
        forall|i: int| 0 <= i < decimal(n).len() ==> '0' <= #[trigger] decimal(n)[i] <= '9',
        decimal(n)[0] == '0' ==> n == 0 && decimal(n).len() == 1,
    decreases n,
{
    lemma_decimal_nonempty(n);
    if n >= 10 {
        law_decimal_reads_back(n / 10);
        assert(decimal(n).drop_last() =~= decimal(n / 10));
        assert(decimal(n)[0] == decimal(n / 10)[0]);
    } else {
        assert(decimal(n).drop_last() =~= Seq::<char>::empty());
        assert(value(decimal(n).drop_last()) == 0);
    }
}

/// Three digits read as the last three digits of the number.
pub proof fn law_three_digits_read_back(n: nat)
    ensures
        three_digits(n).len() == 3,
        value(three_digits(n)) == n % 1000,
{
    let (a, b, c) = (n / 100 % 10, n / 10 % 10, n % 10);
    lemma_last_three(n);
    lemma_value_of_three(a, b, c);
}

/// The last three digits of a number make up what is left of it after whole thousands.
proof fn lemma_last_three(n: nat)
    ensures
        n / 100 % 10 < 10,
        n / 10 % 10 < 10,
        n / 100 % 10 * 100 + n / 10 % 10 * 10 + n % 10 == n % 1000,
{
    assert(n / 100 == n / 10 / 10);
    assert(n % 10 == n - n / 10 * 10);
    assert(n / 10 % 10 == n / 10 - n / 100 * 10);
    assert(n / 100 % 10 == n / 100 - n / 1000 * 10);
}

/// The number that three digits stand for.
proof fn lemma_value_of_three(a: nat, b: nat, c: nat)
    requires
        a < 10,
        b < 10,
        c < 10,
    ensures
        value(seq![digit(a), digit(b), digit(c)]) == a * 100 + b * 10 + c,
{
    let t = seq![digit(a), digit(b), digit(c)];
    let two = t.drop_last();
    let one = two.drop_last();
    assert(one.drop_last() =~= Seq::<char>::empty());
    assert(value(one.drop_last()) == 0);
    assert(one.last() == digit(a));
    assert(value(one) == a);
    assert(two.last() == digit(b));
    assert(value(two) == a * 10 + b);
    assert(t.last() == digit(c));
}

/// A text occurs in another if and only if the other is that text with something before it and
/// something behind it.
pub proof fn law_occurrence(hay: Seq<char>, needle: Seq<char>)
    ensures
        occurs_in(hay, needle) <==> exists|a: Seq<char>, b: Seq<char>|
            hay == #[trigger] (a + needle + b),
{
    if occurs_in(hay, needle) {
        let at = choose|at: int| occurs_at(hay, needle, at);
        let (a, b) = (hay.take(at), hay.skip(at + needle.len()));
        assert(hay =~= a + needle + b);
    }
    if exists|a: Seq<char>, b: Seq<char>| hay == #[trigger] (a + needle + b) {
        let (a, b) = choose|a: Seq<char>, b: Seq<char>| hay == #[trigger] (a + needle + b);
        let at = a.len() as int;
        assert(hay.subrange(at, at + needle.len()) =~= needle);
        assert(occurs_at(hay, needle, at));
    }
}

/// A text begins with another if and only if it is that text with something behind it.
pub proof fn law_beginning(text: Seq<char>, prefix: Seq<char>)
    ensures
        begins_with(text, prefix) <==> exists|rest: Seq<char>| text == #[trigger] (prefix + rest),
{
    if begins_with(text, prefix) {
        assert(text =~= prefix + text.skip(prefix.len() as int));
    }
    if exists|rest: Seq<char>| text == #[trigger] (prefix + rest) {
        assert(text.subrange(0, prefix.len() as int) =~= prefix);
    }
}

/// A part that joins others comes behind them and a separator; the first needs none.
pub proof fn law_parts_are_joined(parts: Seq<Seq<char>>, part: Seq<char>, sep: Seq<char>)
    ensures
        joined(Seq::empty(), sep) == Seq::<char>::empty(),
        joined(seq![part], sep) == part,
        parts.len() > 0 ==> joined(parts.push(part), sep) == joined(parts, sep) + sep + part,
        concatenated(Seq::empty()) == Seq::<char>::empty(),
        concatenated(parts.push(part)) == concatenated(parts) + part,
{
    assert(parts.push(part).drop_last() =~= parts);
}

/// An optional text is there if and only if its characters are, and they are its own.
pub proof fn law_optional_text(borrowed: Option<&str>, owned: Option<String>)
    ensures
        text_of(borrowed) is Some <==> borrowed is Some,
        borrowed matches Some(t) ==> text_of(borrowed) == Some(t@),
        owned_text(owned) is Some <==> owned is Some,
        owned matches Some(t) ==> owned_text(owned) == Some(t@),
{
}

} // verus!
