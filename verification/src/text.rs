//! Text handling: comparison, trimming and case folding, stated over the
//! characters of a string.

use vstd::prelude::*;

verus! {

/// Whether a character has the Unicode `White_Space` property.
pub open spec fn white_space(c: char) -> bool {
    ||| '\u{9}' <= c <= '\u{d}'
    ||| c == ' '
    ||| c == '\u{85}'
    ||| c == '\u{a0}'
    ||| c == '\u{1680}'
    ||| '\u{2000}' <= c <= '\u{200a}'
    ||| c == '\u{2028}'
    ||| c == '\u{2029}'
    ||| c == '\u{202f}'
    ||| c == '\u{205f}'
    ||| c == '\u{3000}'
}

/// The text without the white space at its start.
pub open spec fn trimmed_start(s: Seq<char>) -> Seq<char>
    decreases s.len(),
{
    if s.len() > 0 && white_space(s[0]) {
        trimmed_start(s.skip(1))
    } else {
        s
    }
}

/// The text without the white space at its end.
pub open spec fn trimmed_end(s: Seq<char>) -> Seq<char>
    decreases s.len(),
{
    if s.len() > 0 && white_space(s.last()) {
        trimmed_end(s.drop_last())
    } else {
        s
    }
}

/// The text without the white space at either end.
pub open spec fn trimmed(s: Seq<char>) -> Seq<char> {
    trimmed_end(trimmed_start(s))
}

/// A character with ASCII capitals replaced by the matching small letter.
pub open spec fn ascii_lower(c: char) -> char {
    if 'A' <= c <= 'Z' {
        ((c as u32) + 32) as char
    } else {
        c
    }
}

/// A text with its ASCII capitals replaced by small letters.
pub open spec fn ascii_lowered(s: Seq<char>) -> Seq<char> {
    s.map_values(|c: char| ascii_lower(c))
}

/// Whether every character of the text is an ASCII character.
pub open spec fn all_ascii(s: Seq<char>) -> bool {
    forall|i: int| 0 <= i < s.len() ==> #[trigger] s[i] <= '\u{7f}'
}

/// Whether text `a` comes strictly before text `b`, character by character:
/// at the first place where they part, either `a` has ended or its character
/// has the smaller code point.
pub open spec fn text_before(a: Seq<char>, b: Seq<char>) -> bool {
    exists|i: int| #[trigger] parts_at(a, b, i)
}

/// Whether `a` and `b` agree before place `i` and `a` comes first there.
pub open spec fn parts_at(a: Seq<char>, b: Seq<char>, i: int) -> bool {
    &&& 0 <= i <= a.len()
    &&& i < b.len()
    &&& a.take(i) == b.take(i)
    &&& i == a.len() || a[i] < b[i]
}

/// What `str::to_lowercase` makes of a text that is not all ASCII.
pub uninterp spec fn unicode_lowercase(s: Seq<char>) -> Seq<char>;

/// The lowercase form of a text.
pub open spec fn lowercase(s: Seq<char>) -> Seq<char> {
    if all_ascii(s) {
        ascii_lowered(s)
    } else {
        unicode_lowercase(s)
    }
}

/// What formatting a text with `{:?}` makes of one that is not plain.
pub uninterp spec fn debug_text(s: Seq<char>) -> Seq<char>;

/// Whether a text consists of printable ASCII characters other than quotation
/// marks, apostrophes and backslashes.
pub open spec fn plain(s: Seq<char>) -> bool {
    forall|i: int|
        0 <= i < s.len() ==> {
            &&& ' ' <= #[trigger] s[i] <= '~'
            &&& s[i] != '"'
            &&& s[i] != '\''
            &&& s[i] != '\\'
        }
}

/// A text between quotation marks, with what cannot stand there escaped.
pub open spec fn quoted(s: Seq<char>) -> Seq<char> {
    if plain(s) {
        seq!['"'] + s + seq!['"']
    } else {
        debug_text(s)
    }
}

/// The parts of a text between its separators.
pub open spec fn fields_at(value: Seq<char>, separator: char) -> Seq<Seq<char>>
    decreases value.len(),
{
    if value.len() == 0 {
        seq![Seq::empty()]
    } else {
        let earlier = fields_at(value.drop_last(), separator);
        if value.last() == separator {
            earlier.push(Seq::empty())
        } else {
            earlier.update(earlier.len() - 1, earlier.last().push(value.last()))
        }
    }
}

/// The character for a decimal digit.
pub open spec fn digit_character(digit: nat) -> char {
    ((digit + 48) as u8) as char
}

/// A number in decimal digits, without leading zeros.
pub open spec fn decimal(n: nat) -> Seq<char>
    decreases n,
{
    if n < 10 {
        seq![digit_character(n)]
    } else {
        decimal(n / 10).push(digit_character(n % 10))
    }
}

/// An optional text as plain data.
pub open spec fn optional_text(text: Option<String>) -> Option<Seq<char>> {
    match text {
        Some(text) => Some(text@),
        None => None,
    }
}

/// Where one text stands in relation to another.
#[derive(Clone, Copy, Debug, PartialEq, Eq, Structural)]
pub enum TextOrder {
    /// The first comes before the second.
    Before,
    /// The two are the same.
    Same,
    /// The first comes after the second.
    After,
}

/// The characters of a text.
pub fn characters(s: &str) -> (r: Vec<char>)
    ensures
        r@ == s@,
{
    let mut r: Vec<char> = Vec::new();
    for c in it: s.chars()
        invariant
            it.seq() == s@,
            r@ == s@.take(it.index()),
    {
        r.push(c);
        assert(r@ == s@.take(it.index() + 1));
    }
    assert(s@.take(s@.len() as int) == s@);
    r
}

/// Returns whether two texts are the same.
pub fn same_text(a: &str, b: &str) -> (r: bool)
    ensures
        r == (a@ == b@),
{
    a.to_owned() == b.to_owned()
}

/// Returns whether a character has the Unicode `White_Space` property.
pub fn is_white_space(c: char) -> (r: bool)
    ensures
        r == white_space(c),
        r <==> {
            let code = c as u32;
            ||| 9 <= code <= 13 || code == 32 || code == 133 || code == 160 || code == 5760
            ||| 8192 <= code <= 8202 || code == 8232 || code == 8233 || code == 8239
            ||| code == 8287 || code == 12288
        },
{
    ('\u{9}' <= c && c <= '\u{d}') || c == ' ' || c == '\u{85}' || c == '\u{a0}' || c == '\u{1680}'
        || ('\u{2000}' <= c && c <= '\u{200a}') || c == '\u{2028}' || c == '\u{2029}' || c
        == '\u{202f}' || c == '\u{205f}' || c == '\u{3000}'
}

/// Returns the text without the white space at either end.
pub fn trim(s: &str) -> (r: &str)
    ensures
        r@ == trimmed(s@),
{
    let chars = characters(s);
    let mut from: usize = 0;
    assert(s@.skip(0) == s@);
    while from < chars.len() && is_white_space(chars[from])
        invariant
            from <= chars@.len(),
            chars@ == s@,
            trimmed_start(s@.skip(from as int)) == trimmed_start(s@),
        decreases chars.len() - from,
    {
        assert(s@.skip(from as int).skip(1) == s@.skip(from + 1));
        from += 1;
    }
    let mut to: usize = chars.len();
    assert(s@.subrange(from as int, to as int) == s@.skip(from as int));
    while to > from && is_white_space(chars[to - 1])
        invariant
            from <= to <= chars@.len(),
            chars@ == s@,
            trimmed_end(s@.subrange(from as int, to as int)) == trimmed(s@),
        decreases to,
    {
        assert(s@.subrange(from as int, to as int).drop_last() == s@.subrange(
            from as int,
            to - 1,
        ));
        to -= 1;
    }
    s.substring_char(from, to)
}

/// Returns the character with an ASCII capital replaced by its small letter.
pub fn lower_ascii(c: char) -> (r: char)
    ensures
        r == ascii_lower(c),
{
    if 'A' <= c && c <= 'Z' {
        let code: u8 = c as u8;
        (code + 32) as char
    } else {
        c
    }
}

/// Returns whether two texts are the same but for the case of ASCII letters.
pub fn same_text_ignoring_ascii_case(a: &str, b: &str) -> (r: bool)
    ensures
        r == (ascii_lowered(a@) == ascii_lowered(b@)),
{
    let left = characters(a);
    let right = characters(b);
    if left.len() != right.len() {
        assert(ascii_lowered(a@).len() != ascii_lowered(b@).len());
        return false;
    }
    let mut i: usize = 0;
    while i < left.len()
        invariant
            left@ == a@,
            right@ == b@,
            left@.len() == right@.len(),
            i <= left@.len(),
            forall|j: int|
                0 <= j < i ==> ascii_lower(#[trigger] left@[j]) == ascii_lower(right@[j]),
        decreases left.len() - i,
    {
        if lower_ascii(left[i]) != lower_ascii(right[i]) {
            assert(ascii_lowered(a@)[i as int] != ascii_lowered(b@)[i as int]);
            return false;
        }
        i += 1;
    }
    assert(ascii_lowered(a@) =~= ascii_lowered(b@));
    true
}

/// Compares two texts character by character.
pub fn text_order(a: &str, b: &str) -> (r: TextOrder)
    ensures
        r == TextOrder::Before <==> text_before(a@, b@),
        r == TextOrder::Same <==> a@ == b@,
        r == TextOrder::After <==> text_before(b@, a@),
{
    let left = characters(a);
    let right = characters(b);
    let mut i: usize = 0;
    while i < left.len() && i < right.len() && left[i] == right[i]
        invariant
            left@ == a@,
            right@ == b@,
            i <= left@.len(),
            i <= right@.len(),
            a@.take(i as int) == b@.take(i as int),
        decreases left.len() - i,
    {
        assert(a@.take(i + 1) == a@.take(i as int).push(a@[i as int]));
        assert(b@.take(i + 1) == b@.take(i as int).push(b@[i as int]));
        i += 1;
    }
    proof {
        lemma_text_before_strict(a@, b@);
    }
    if i < right.len() && (i == left.len() || left[i] < right[i]) {
        assert(parts_at(a@, b@, i as int));
        TextOrder::Before
    } else if i < left.len() {
        assert(parts_at(b@, a@, i as int));
        TextOrder::After
    } else {
        assert(a@.take(i as int) == a@);
        assert(b@.take(i as int) == b@);
        TextOrder::Same
    }
}

/// Joins three texts.
pub fn joined(a: &str, b: &str, c: &str) -> (r: String)
    ensures
        r@ == a@ + b@ + c@,
{
    a.to_owned().concat(b).concat(c)
}

/// Splits a text at its separators.
pub fn split_at(value: &str, separator: char) -> (r: Vec<Vec<char>>)
    ensures
        r@.map_values(|field: Vec<char>| field@) == fields_at(value@, separator),
        r@.len() == fields_at(value@, separator).len(),
        forall|i: int|
            0 <= i < r@.len() ==> (#[trigger] r@[i])@ == fields_at(value@, separator)[i],
{
    let chars = characters(value);
    let mut finished: Vec<Vec<char>> = Vec::new();
    let mut current: Vec<char> = Vec::new();
    let mut i: usize = 0;
    while i < chars.len()
        invariant
            chars@ == value@,
            i <= chars@.len(),
            fields_at(value@.take(i as int), separator) == finished@.map_values(
                |field: Vec<char>| field@,
            ).push(current@),
        decreases chars.len() - i,
    {
        let ghost before = finished@.map_values(|field: Vec<char>| field@);
        let ghost last = current@;
        assert(value@.take(i + 1).drop_last() == value@.take(i as int));
        if chars[i] == separator {
            finished.push(current);
            current = Vec::new();
            assert(finished@.map_values(|field: Vec<char>| field@) =~= before.push(last));
        } else {
            current.push(chars[i]);
            assert(before.push(last).update(before.len() as int, current@) =~= before.push(
                current@,
            ));
        }
        i += 1;
    }
    assert(value@.take(i as int) == value@);
    let ghost before = finished@.map_values(|field: Vec<char>| field@);
    let ghost last = current@;
    finished.push(current);
    assert(finished@.map_values(|field: Vec<char>| field@) =~= before.push(last));
    assert forall|j: int| 0 <= j < finished@.len() implies (#[trigger] finished@[j])@ == fields_at(
        value@,
        separator,
    )[j] by {
        assert(finished@.map_values(|field: Vec<char>| field@)[j] == finished@[j]@);
    }
    finished
}

/// Returns a decimal digit as a text.
fn digit_text(digit: u16) -> (r: &'static str)
    requires
        digit < 10,
    ensures
        r@ == seq![digit_character(digit as nat)],
{
    proof {
        reveal_strlit("0");
        reveal_strlit("1");
        reveal_strlit("2");
        reveal_strlit("3");
        reveal_strlit("4");
        reveal_strlit("5");
        reveal_strlit("6");
        reveal_strlit("7");
        reveal_strlit("8");
        reveal_strlit("9");
    }
    let r = match digit {
        0 => "0",
        1 => "1",
        2 => "2",
        3 => "3",
        4 => "4",
        5 => "5",
        6 => "6",
        7 => "7",
        8 => "8",
        _ => "9",
    };
    assert(r@ =~= seq![digit_character(digit as nat)]);
    r
}

/// Returns a number in decimal digits.
pub fn decimal_text(n: u16) -> (r: String)
    ensures
        r@ == decimal(n as nat),
    decreases n,
{
    if n < 10 {
        digit_text(n).to_owned()
    } else {
        let r = decimal_text(n / 10).concat(digit_text(n % 10));
        assert(r@ =~= decimal(n as nat));
        r
    }
}

/// `str::to_lowercase`: an ASCII text has its capitals replaced by small
/// letters and is otherwise unchanged; what becomes of any other text depends
/// on the text alone and is left to the name [`unicode_lowercase`].
#[verifier::external_body]
pub(crate) fn to_lowercase(s: &str) -> (r: String)
    ensures
        r@ == (if all_ascii(s@) {
            ascii_lowered(s@)
        } else {
            unicode_lowercase(s@)
        }),
{
    s.to_lowercase()
}

/// `format!` with `{:?}` on a text: a plain text is put between quotation
/// marks; what becomes of any other text depends on the text alone and is left
/// to the name [`debug_text`].
#[verifier::external_body]
pub(crate) fn to_debug_text(s: &str) -> (r: String)
    ensures
        r@ == (if plain(s@) {
            seq!['"'] + s@ + seq!['"']
        } else {
            debug_text(s@)
        }),
{
    format!("{:?}", s)
}

/// The order of texts is strict: no text comes before itself, and of two texts
/// at most one comes before the other.
pub proof fn lemma_text_before_strict(a: Seq<char>, b: Seq<char>)
    ensures
        text_before(a, b) ==> a != b && !text_before(b, a),
        !text_before(a, a),
{
    if text_before(a, b) {
        let i = choose|i: int| parts_at(a, b, i);
        if text_before(b, a) {
            let j = choose|j: int| parts_at(b, a, j);
            if i < j {
                assert(a.take(j)[i] == b.take(j)[i]);
            } else if j < i {
                assert(a.take(i)[j] == b.take(i)[j]);
            }
        }
    }
}

/// The order of texts is transitive.
pub proof fn lemma_text_before_transitive(a: Seq<char>, b: Seq<char>, c: Seq<char>)
    requires
        text_before(a, b),
        text_before(b, c),
    ensures
        text_before(a, c),
{
    let i = choose|i: int| parts_at(a, b, i);
    let j = choose|j: int| parts_at(b, c, j);
    let k = if i < j {
        i
    } else {
        j
    };
    assert(a.take(k) =~= a.take(i).take(k));
    assert(b.take(k) =~= b.take(i).take(k));
    assert(b.take(k) =~= b.take(j).take(k));
    assert(c.take(k) =~= c.take(j).take(k));
    if i < j {
        assert(b.take(j)[i] == c.take(j)[i]);
    } else if j < i {
        assert(a.take(i)[j] == b.take(i)[j]);
    }
    assert(parts_at(a, c, k));
}

/// White space is what Unicode calls so: tabulators, line and page breaks, the
/// space, and the wider and narrower spaces beyond ASCII.
pub proof fn law_white_space_characters(c: char)
    ensures
        white_space(c) <==> {
            let code = c as u32;
            ||| code == 9 || code == 10 || code == 11 || code == 12 || code == 13
            ||| code == 32 || code == 133 || code == 160 || code == 5760
            ||| 8192 <= code <= 8202
            ||| code == 8232 || code == 8233 || code == 8239 || code == 8287 || code == 12288
        },
{
}

/// White space around a text is what trimming takes away, and nothing else: a
/// text that neither begins nor ends with white space is what is left of it with
/// any white space put around it.
pub proof fn law_padding_is_trimmed(before: Seq<char>, text: Seq<char>, after: Seq<char>)
    requires
        forall|i: int| 0 <= i < before.len() ==> white_space(#[trigger] before[i]),
        forall|i: int| 0 <= i < after.len() ==> white_space(#[trigger] after[i]),
        text.len() > 0 ==> !white_space(text[0]) && !white_space(text[text.len() - 1]),
    ensures
        trimmed(before + text + after) == text,
{
    lemma_start_trimmed(before, text + after);
    assert(before + text + after =~= before + (text + after));
    if text.len() > 0 {
        assert((text + after)[0] == text[0]);
        lemma_end_trimmed(text, after);
    } else {
        assert(text + after =~= after + Seq::<char>::empty());
        lemma_start_trimmed(after, Seq::empty());
        assert(text =~= Seq::<char>::empty());
    }
}

/// White space at the start is taken away first.
proof fn lemma_start_trimmed(before: Seq<char>, rest: Seq<char>)
    requires
        forall|i: int| 0 <= i < before.len() ==> white_space(#[trigger] before[i]),
    ensures
        trimmed_start(before + rest) == trimmed_start(rest),
    decreases before.len(),
{
    if before.len() == 0 {
        assert(before + rest =~= rest);
    } else {
        assert((before + rest)[0] == before[0]);
        assert((before + rest).skip(1) =~= before.skip(1) + rest);
        assert forall|i: int| 0 <= i < before.skip(1).len() implies white_space(
            #[trigger] before.skip(1)[i],
        ) by {
            assert(before.skip(1)[i] == before[i + 1]);
        }
        lemma_start_trimmed(before.skip(1), rest);
    }
}

/// White space at the end is taken away up to other text.
proof fn lemma_end_trimmed(text: Seq<char>, after: Seq<char>)
    requires
        forall|i: int| 0 <= i < after.len() ==> white_space(#[trigger] after[i]),
        text.len() > 0,
        !white_space(text[text.len() - 1]),
    ensures
        trimmed_end(text + after) == text,
    decreases after.len(),
{
    if after.len() == 0 {
        assert(text + after =~= text);
    } else {
        assert((text + after).last() == after[after.len() - 1]);
        assert((text + after).drop_last() =~= text + after.drop_last());
        lemma_end_trimmed(text, after.drop_last());
    }
}

/// Ignoring the case of ASCII letters replaces the capitals from A to Z by the
/// letters 32 code points on, one by one, and nothing else.
pub proof fn law_ascii_case(s: Seq<char>, i: int)
    requires
        0 <= i < s.len(),
    ensures
        ascii_lowered(s).len() == s.len(),
        65 <= s[i] as u32 <= 90 ==> ascii_lowered(s)[i] as u32 == s[i] as u32 + 32,
        !(65 <= s[i] as u32 <= 90) ==> ascii_lowered(s)[i] == s[i],
{
}

/// The lowercase form of a text in ASCII is the text with its capitals replaced.
pub proof fn law_lowercase_of_ascii(s: Seq<char>, i: int)
    requires
        forall|j: int| 0 <= j < s.len() ==> #[trigger] s[j] <= '\u{7f}',
        0 <= i < s.len(),
    ensures
        lowercase(s).len() == s.len(),
        65 <= s[i] as u32 <= 90 ==> lowercase(s)[i] as u32 == s[i] as u32 + 32,
        !(65 <= s[i] as u32 <= 90) ==> lowercase(s)[i] == s[i],
{
    law_ascii_case(s, i);
}

/// Texts are ordered as in a dictionary: by the first characters in which they
/// differ, and a text comes before its continuations.
pub proof fn law_texts_are_in_dictionary_order(
    common: Seq<char>,
    a: char,
    b: char,
    rest_a: Seq<char>,
    rest_b: Seq<char>,
)
    requires
        (a as u32) < (b as u32),
    ensures
        text_before(common.push(a) + rest_a, common.push(b) + rest_b),
        text_before(common, common.push(b) + rest_b),
{
    let x = common.push(a) + rest_a;
    let y = common.push(b) + rest_b;
    let i = common.len() as int;
    assert(x.take(i) =~= common);
    assert(y.take(i) =~= common);
    assert(common.take(i) =~= common);
    assert(x[i] == a && y[i] == b);
    assert(parts_at(x, y, i));
    assert(parts_at(common, y, i));
}

/// The part before the first separator is the first field, and the others are
/// those of what follows it.  Text without a separator is a single field.
pub proof fn law_fields_end_at_separators(field: Seq<char>, separator: char, rest: Seq<char>)
    requires
        forall|i: int| 0 <= i < field.len() ==> #[trigger] field[i] != separator,
    ensures
        fields_at(field, separator) == seq![field],
        fields_at(field + seq![separator] + rest, separator) == seq![field] + fields_at(
            rest,
            separator,
        ),
    decreases field.len() + rest.len(),
{
    if rest.len() == 0 {
        if field.len() == 0 {
            assert(field =~= Seq::empty());
        } else {
            law_fields_end_at_separators(field.drop_last(), separator, rest);
            assert(field.drop_last().push(field.last()) =~= field);
            assert(seq![field.drop_last()].update(0, field) =~= seq![field]);
        }
        let whole = field + seq![separator] + rest;
        assert(whole =~= field.push(separator));
        assert(whole.drop_last() =~= field);
        assert(whole.last() == separator);
        assert(rest =~= Seq::empty());
        assert(seq![field].push(Seq::empty()) =~= seq![field] + seq![Seq::<char>::empty()]);
    } else {
        let shorter = rest.drop_last();
        law_fields_end_at_separators(field, separator, shorter);
        let whole = field + seq![separator] + rest;
        assert(whole.drop_last() =~= field + seq![separator] + shorter);
        assert(whole.last() == rest.last());
        let later = fields_at(shorter, separator);
        lemma_only_field(shorter, separator);
        if rest.last() == separator {
            assert((seq![field] + later).push(Seq::empty()) =~= seq![field] + later.push(
                Seq::empty(),
            ));
        } else {
            assert((seq![field] + later).update(
                later.len() as int,
                later.last().push(rest.last()),
            ) =~= seq![field] + later.update(later.len() - 1, later.last().push(rest.last())));
        }
    }
}

/// There is at least one field, and a single one is the whole text.
pub proof fn lemma_only_field(value: Seq<char>, separator: char)
    ensures
        fields_at(value, separator).len() >= 1,
        fields_at(value, separator).len() == 1 ==> fields_at(value, separator)[0] == value,
    decreases value.len(),
{
    if value.len() > 0 {
        lemma_only_field(value.drop_last(), separator);
        assert(value.drop_last().push(value.last()) == value);
    } else {
        assert(value =~= Seq::empty());
    }
}

/// A number below ten is written as its digit, and any other as the number of
/// its tens followed by the digit of its ones; the digits are the ten
/// characters from code point 48 on.
pub proof fn law_decimal_digits(n: nat)
    ensures
        n < 10 ==> decimal(n).len() == 1,
        n >= 10 ==> decimal(n).len() == decimal(n / 10).len() + 1,
        n >= 10 ==> decimal(n).drop_last() == decimal(n / 10),
        decimal(n)[decimal(n).len() - 1] as u32 == 48 + n % 10,
{
    if n >= 10 {
        assert(decimal(n).drop_last() =~= decimal(n / 10));
    }
}

/// A text with nothing to escape is quoted as it stands.
pub proof fn law_plain_text_is_quoted_as_it_stands(s: Seq<char>)
    requires
        forall|i: int|
            0 <= i < s.len() ==> {
                &&& '\u{20}' <= #[trigger] s[i] <= '\u{7e}'
                &&& s[i] != '\u{22}' && s[i] != '\u{27}' && s[i] != '\u{5c}'
            },
    ensures
        quoted(s).len() == s.len() + 2,
        quoted(s)[0] as u32 == 34,
        quoted(s)[s.len() as int + 1] as u32 == 34,
        quoted(s).subrange(1, s.len() as int + 1) == s,
{
    assert(plain(s));
    assert(quoted(s).subrange(1, s.len() as int + 1) =~= s);
}

/// An optional text is viewed as the text that there is, if any.
pub proof fn law_optional_text(text: Option<String>)
    ensures
        text is None <==> optional_text(text) is None,
        text matches Some(value) ==> optional_text(text) == Some(value@),
{
}

/// The first place of a separator that a text has.
proof fn lemma_first_place(value: Seq<char>, separator: char, known: int) -> (place: int)
    requires
        0 <= known < value.len(),
        value[known] == separator,
    ensures
        0 <= place <= known,
        value[place] == separator,
        forall|i: int| 0 <= i < place ==> #[trigger] value[i] != separator,
    decreases known,
{
    if exists|i: int| 0 <= i < known && #[trigger] value[i] == separator {
        let i = choose|i: int| 0 <= i < known && #[trigger] value[i] == separator;
        lemma_first_place(value, separator, i)
    } else {
        known
    }
}

/// A text with more than one field is its first field, a separator, and what the
/// other fields are those of.
pub proof fn lemma_first_of_several(value: Seq<char>, separator: char)
    requires
        fields_at(value, separator).len() >= 2,
    ensures
        ({
            let fields = fields_at(value, separator);
            let end = fields[0].len() as int;
            &&& end < value.len()
            &&& value[end] == separator
            &&& fields[0] == value.take(end)
            &&& fields_at(value.skip(end + 1), separator) == fields.skip(1)
        }),
{
    let fields = fields_at(value, separator);
    if forall|i: int| 0 <= i < value.len() ==> #[trigger] value[i] != separator {
        law_fields_end_at_separators(value, separator, Seq::empty());
        assert(fields.len() == 1);
    }
    let known = choose|i: int| 0 <= i < value.len() && #[trigger] value[i] == separator;
    let place = lemma_first_place(value, separator, known);
    let first = value.take(place);
    let rest = value.skip(place + 1);
    assert(value =~= first + seq![separator] + rest);
    assert forall|i: int| 0 <= i < first.len() implies #[trigger] first[i] != separator by {
        assert(first[i] == value[i]);
    }
    law_fields_end_at_separators(first, separator, rest);
    assert(fields[0] == first);
    assert(fields.skip(1) =~= fields_at(rest, separator));
}

/// The part behind the last separator is the last field, and the others are those
/// of what precedes it.
pub proof fn law_last_field_follows_last_separator(
    value: Seq<char>,
    separator: char,
    field: Seq<char>,
)
    requires
        forall|i: int| 0 <= i < field.len() ==> #[trigger] field[i] != separator,
    ensures
        fields_at(value + seq![separator] + field, separator) == fields_at(value, separator).push(
            field,
        ),
    decreases field.len(),
{
    let whole = value + seq![separator] + field;
    let earlier = fields_at(value, separator);
    if field.len() == 0 {
        assert(whole =~= value.push(separator));
        assert(whole.drop_last() =~= value);
        assert(field =~= Seq::<char>::empty());
    } else {
        let shorter = field.drop_last();
        law_last_field_follows_last_separator(value, separator, shorter);
        assert(whole.drop_last() =~= value + seq![separator] + shorter);
        assert(whole.last() == field.last());
        assert(shorter.push(field.last()) =~= field);
        assert(earlier.push(shorter).update(earlier.len() as int, field) =~= earlier.push(field));
    }
}

} // verus!
