//! Which filter directives can be used.
//!
//! `EnvFilter` parses filter directives, but cannot be handed every text.  It
//! takes the places at which it cuts a directive from the directive without the
//! white space around it, and then cuts the directive with that white space.
//! Where white space precedes characters beyond ASCII, such a place may lie
//! within a character, and there it panics.

use crate::text::{is_white_space, split_at};
#[allow(unused_imports)]
use crate::text::{all_ascii, fields_at, white_space};
use tracing_subscriber::EnvFilter;
use vstd::prelude::*;

verus! {

/// How many bytes a character takes in UTF-8.
pub open spec fn width(c: char) -> nat {
    if c <= '\u{7f}' {
        1
    } else if c <= '\u{7ff}' {
        2
    } else if c <= '\u{ffff}' {
        3
    } else {
        4
    }
}

/// How many bytes the first so many characters of a text take.
pub open spec fn offset(text: Seq<char>, count: int) -> nat
    decreases count,
{
    if count <= 0 {
        0
    } else {
        offset(text, count - 1) + width(text[count - 1])
    }
}

/// Whether so many bytes of a text end with a whole character.
pub open spec fn ends_whole(text: Seq<char>, bytes: int) -> bool {
    exists|i: int| 0 <= i <= text.len() && #[trigger] offset(text, i) == bytes
}

/// The first place from the given one on that holds one of two characters, or
/// the end of the text.
pub open spec fn first_of(text: Seq<char>, from: int, a: char, b: char) -> int
    decreases text.len() - from,
{
    if from >= text.len() {
        text.len() as int
    } else if text[from] == a || text[from] == b {
        from
    } else {
        first_of(text, from + 1, a, b)
    }
}

/// The first place from the given one on that holds no white space.
pub open spec fn first_visible(text: Seq<char>, from: int) -> int
    decreases text.len() - from,
{
    if from >= text.len() {
        text.len() as int
    } else if white_space(text[from]) {
        first_visible(text, from + 1)
    } else {
        from
    }
}

/// Whether a directive can be cut for a place in it: so many bytes in, counted
/// without the white space before the directive, a character ends.
pub open spec fn can_cut(directive: Seq<char>, place: int) -> bool {
    ends_whole(
        directive,
        offset(directive, place) - offset(directive, first_visible(directive, 0)),
    )
}

/// Whether a directive has no `=` in a place.
pub open spec fn no_level_at(directive: Seq<char>, place: int) -> bool {
    place < directive.len() ==> directive[place] != '='
}

/// Whether a directive that begins with white space can be cut wherever it has
/// to be.  One that names a span, as in `target[span]` or `target[span{field}]`,
/// is cut at the brackets and braces.  One that sets a level is never accepted
/// with white space before it, and neither is one whose brackets or braces are
/// not closed.
pub open spec fn can_cut_throughout(directive: Seq<char>) -> bool {
    let start = first_visible(directive, 0);
    let open = first_of(directive, start, '[', '=');
    let close = first_of(directive, open + 1, ']', '{');
    let end = first_of(directive, close + 1, '}', '}');
    ||| open == directive.len()
    ||| {
        &&& directive[open] == '['
        &&& open == start || can_cut(directive, open)
        &&& can_cut(directive, open + 1)
        &&& close < directive.len()
        &&& can_cut(directive, close)
        &&& if directive[close] == ']' {
            no_level_at(directive, close + 1)
        } else {
            &&& can_cut(directive, close + 1)
            &&& end < directive.len()
            &&& can_cut(directive, end)
            &&& no_level_at(directive, end + 2)
        }
    }
}

/// Whether `EnvFilter` can be handed a directive.
pub open spec fn parseable_directive(directive: Seq<char>) -> bool {
    ||| directive.len() == 0
    ||| !white_space(directive[0])
    ||| all_ascii(directive)
    ||| can_cut_throughout(directive)
}

/// Whether `EnvFilter` can be handed a text with filter directives, which are
/// separated by commas.  It panics on any other text, or does not accept it.
pub open spec fn parseable(directives: Seq<char>) -> bool {
    forall|i: int|
        0 <= i < fields_at(directives, ',').len() ==> parseable_directive(
            #[trigger] fields_at(directives, ',')[i],
        )
}

/// Whether `EnvFilter` accepts every one of the filter directives in a text.
pub uninterp spec fn valid_filter(directives: Seq<char>) -> bool;

/// Whether filter directives can be used: `EnvFilter` can be handed them, and
/// it accepts them.
pub open spec fn usable_directives(directives: Seq<char>) -> bool {
    parseable(directives) && valid_filter(directives)
}

/// `EnvFilter::try_new`, on a text that it can be handed: whether it accepts the
/// directives depends on the text alone, and it accepts the empty text.
#[verifier::external_body]
fn is_valid_filter(directives: &str) -> (r: bool)
    requires
        parseable(directives@),
    ensures
        r == valid_filter(directives@),
        directives@.len() == 0 ==> r,
{
    EnvFilter::try_new(directives).is_ok()
}

/// Returns how many bytes a character takes in UTF-8.
fn width_of(c: char) -> (r: u128)
    ensures
        r == width(c),
{
    if c <= '\u{7f}' {
        1
    } else if c <= '\u{7ff}' {
        2
    } else if c <= '\u{ffff}' {
        3
    } else {
        4
    }
}

/// No character takes more than four bytes.
proof fn lemma_offset_bound(text: Seq<char>, count: int)
    requires
        0 <= count <= text.len(),
    ensures
        count <= offset(text, count) <= 4 * count,
    decreases count,
{
    if count > 0 {
        lemma_offset_bound(text, count - 1);
    }
}

/// More characters take more bytes.
proof fn lemma_offset_grows(text: Seq<char>, few: int, many: int)
    requires
        0 <= few <= many,
    ensures
        offset(text, few) <= offset(text, many),
    decreases many - few,
{
    if few < many {
        lemma_offset_grows(text, few, many - 1);
    }
}

/// Returns how many bytes the first so many characters of a text take.
fn offset_of(text: &Vec<char>, count: usize) -> (r: u128)
    requires
        count <= text@.len(),
    ensures
        r == offset(text@, count as int),
{
    let mut r: u128 = 0;
    let mut i: usize = 0;
    while i < count
        invariant
            i <= count <= text@.len(),
            r == offset(text@, i as int),
        decreases count - i,
    {
        proof {
            lemma_offset_bound(text@, i as int);
        }
        r = r + width_of(text[i]);
        i += 1;
    }
    r
}

/// Returns whether so many bytes of a text end with a whole character.
fn does_end_whole(text: &Vec<char>, bytes: u128) -> (r: bool)
    ensures
        r == ends_whole(text@, bytes as int),
{
    let mut reached: u128 = 0;
    let mut i: usize = 0;
    assert(offset(text@, 0) == 0);
    while i < text.len()
        invariant
            i <= text@.len(),
            reached == offset(text@, i as int),
            forall|j: int| 0 <= j < i ==> #[trigger] offset(text@, j) != bytes,
        decreases text.len() - i,
    {
        if reached == bytes {
            return true;
        }
        proof {
            lemma_offset_bound(text@, i as int);
        }
        reached = reached + width_of(text[i]);
        i += 1;
    }
    reached == bytes
}

/// Returns the first place from the given one on that holds one of two
/// characters, or the end of the text.
fn find_first(text: &Vec<char>, from: usize, a: char, b: char) -> (r: usize)
    requires
        from <= text@.len(),
    ensures
        r == first_of(text@, from as int, a, b),
        from <= r <= text@.len(),
{
    let mut i: usize = from;
    while i < text.len() && text[i] != a && text[i] != b
        invariant
            from <= i <= text@.len(),
            first_of(text@, i as int, a, b) == first_of(text@, from as int, a, b),
        decreases text.len() - i,
    {
        i += 1;
    }
    i
}

/// Returns the first place that holds no white space, or the end of the text.
fn find_visible(text: &Vec<char>) -> (r: usize)
    ensures
        r == first_visible(text@, 0),
        r <= text@.len(),
{
    let mut i: usize = 0;
    while i < text.len() && is_white_space(text[i])
        invariant
            i <= text@.len(),
            first_visible(text@, i as int) == first_visible(text@, 0),
        decreases text.len() - i,
    {
        i += 1;
    }
    i
}

/// Returns whether a directive can be cut for a place in it.
fn check_cut(directive: &Vec<char>, start: usize, place: usize) -> (r: bool)
    requires
        start == first_visible(directive@, 0),
        start <= place <= directive@.len(),
    ensures
        r == can_cut(directive@, place as int),
{
    proof {
        lemma_offset_grows(directive@, start as int, place as int);
    }
    let bytes: u128 = offset_of(directive, place) - offset_of(directive, start);
    does_end_whole(directive, bytes)
}

/// Returns whether a directive has no `=` in a place.
fn check_no_level(directive: &Vec<char>, place: usize) -> (r: bool)
    ensures
        r == no_level_at(directive@, place as int),
{
    place >= directive.len() || directive[place] != '='
}

/// Returns whether a directive that begins with white space can be cut wherever
/// it has to be.
fn check_cuts(directive: &Vec<char>) -> (r: bool)
    ensures
        r == can_cut_throughout(directive@),
{
    let start = find_visible(directive);
    let open = find_first(directive, start, '[', '=');
    if open == directive.len() {
        return true;
    }
    if directive[open] != '[' || !(open == start || check_cut(directive, start, open))
        || !check_cut(directive, start, open + 1) {
        return false;
    }
    let close = find_first(directive, open + 1, ']', '{');
    if close == directive.len() || !check_cut(directive, start, close) {
        return false;
    }
    if directive[close] == ']' {
        return check_no_level(directive, close + 1);
    }
    if !check_cut(directive, start, close + 1) {
        return false;
    }
    let end = find_first(directive, close + 1, '}', '}');
    if end == directive.len() || !check_cut(directive, start, end) {
        return false;
    }
    end + 1 == directive.len() || check_no_level(directive, end + 2)
}

/// Returns whether all characters of a text are ASCII characters.
fn is_all_ascii(text: &Vec<char>) -> (r: bool)
    ensures
        r == all_ascii(text@),
{
    let mut i: usize = 0;
    while i < text.len()
        invariant
            i <= text@.len(),
            forall|j: int| 0 <= j < i ==> #[trigger] text@[j] <= '\u{7f}',
        decreases text.len() - i,
    {
        if text[i] > '\u{7f}' {
            return false;
        }
        i += 1;
    }
    true
}

/// Returns whether `EnvFilter` can be handed a text with filter directives.
fn is_parseable(directives: &str) -> (r: bool)
    ensures
        r == parseable(directives@),
{
    let parts = split_at(directives, ',');
    let mut i: usize = 0;
    while i < parts.len()
        invariant
            i <= parts@.len(),
            parts@.len() == fields_at(directives@, ',').len(),
            forall|j: int|
                0 <= j < parts@.len() ==> (#[trigger] parts@[j])@ == fields_at(directives@, ',')[j],
            forall|j: int|
                0 <= j < i ==> parseable_directive(#[trigger] fields_at(directives@, ',')[j]),
        decreases parts.len() - i,
    {
        let part = &parts[i];
        assert(part@ == fields_at(directives@, ',')[i as int]);
        if !(part.len() == 0 || !is_white_space(part[0]) || is_all_ascii(part) || check_cuts(
            part,
        )) {
            return false;
        }
        i += 1;
    }
    true
}

/// Returns whether filter directives can be used.
pub fn can_use(directives: &str) -> (r: bool)
    ensures
        r == usable_directives(directives@),
        r <==> parseable(directives@) && valid_filter(directives@),
        directives@.len() == 0 ==> r,
{
    proof {
        if directives@.len() == 0 {
            assert(fields_at(directives@, ',') =~= seq![Seq::<char>::empty()]);
        }
    }
    is_parseable(directives) && is_valid_filter(directives)
}

/// Where a field of a text begins: at the start of the text or behind a
/// separator.
proof fn lemma_field_begins(value: Seq<char>, separator: char, i: int) -> (p: int)
    requires
        0 <= i < fields_at(value, separator).len(),
        fields_at(value, separator)[i].len() > 0,
    ensures
        0 <= p < value.len(),
        value[p] == fields_at(value, separator)[i][0],
        p == 0 || value[p - 1] == separator,
    decreases value.len(),
{
    let fields = fields_at(value, separator);
    if value.len() == 0 {
        assert(fields[i].len() == 0);
        0
    } else {
        let shorter = value.drop_last();
        let earlier = fields_at(shorter, separator);
        lemma_last_field_open(shorter, separator);
        if value.last() == separator {
            assert(i < earlier.len());
            lemma_field_begins(shorter, separator, i)
        } else if i < earlier.len() - 1 || earlier[i].len() > 0 {
            let p = lemma_field_begins(shorter, separator, i);
            assert(fields[i][0] == earlier[i][0]);
            p
        } else {
            assert(fields[i] =~= seq![value.last()]);
            value.len() - 1
        }
    }
}

/// The last field of a text is empty only where the text ends with a separator
/// or is empty itself.
proof fn lemma_last_field_open(value: Seq<char>, separator: char)
    ensures
        fields_at(value, separator).len() >= 1,
        fields_at(value, separator).last().len() == 0 ==> value.len() == 0 || value.last()
            == separator,
    decreases value.len(),
{
    if value.len() > 0 {
        lemma_last_field_open(value.drop_last(), separator);
    }
}

/// Every character of a field is one of the text.
proof fn lemma_field_character(value: Seq<char>, separator: char, i: int, j: int) -> (p: int)
    requires
        0 <= i < fields_at(value, separator).len(),
        0 <= j < fields_at(value, separator)[i].len(),
    ensures
        0 <= p < value.len(),
        value[p] == fields_at(value, separator)[i][j],
    decreases value.len(),
{
    if value.len() == 0 {
        assert(fields_at(value, separator)[i].len() == 0);
        0
    } else {
        let shorter = value.drop_last();
        let earlier = fields_at(shorter, separator);
        lemma_last_field_open(shorter, separator);
        if i < earlier.len() && j < earlier[i].len() {
            lemma_field_character(shorter, separator, i, j)
        } else {
            value.len() - 1
        }
    }
}

/// A text in ASCII can be handed to `EnvFilter`.
pub proof fn law_ascii_directives_are_parseable(directives: Seq<char>)
    requires
        forall|i: int| 0 <= i < directives.len() ==> #[trigger] directives[i] <= '\u{7f}',
    ensures
        parseable(directives),
{
    assert forall|i: int| 0 <= i < fields_at(directives, ',').len() implies parseable_directive(
        #[trigger] fields_at(directives, ',')[i],
    ) by {
        let directive = fields_at(directives, ',')[i];
        assert forall|j: int| 0 <= j < directive.len() implies #[trigger] directive[j]
            <= '\u{7f}' by {
            let p = lemma_field_character(directives, ',', i, j);
        }
    }
}

/// A text in any script can be handed to `EnvFilter` if no directive begins with
/// white space: none stands at the start of the text or behind a comma.
pub proof fn law_directives_without_leading_blanks_are_parseable(directives: Seq<char>)
    requires
        forall|i: int|
            0 <= i < directives.len() && white_space(#[trigger] directives[i]) ==> i > 0
                && directives[i - 1] != ',',
    ensures
        parseable(directives),
{
    assert forall|i: int| 0 <= i < fields_at(directives, ',').len() implies parseable_directive(
        #[trigger] fields_at(directives, ',')[i],
    ) by {
        let directive = fields_at(directives, ',')[i];
        if directive.len() > 0 {
            let p = lemma_field_begins(directives, ',', i);
            assert(!white_space(directives[p]));
        }
    }
}

/// Where a text holds neither of two characters, looking for one ends at the end
/// of the text.
proof fn lemma_none_found(text: Seq<char>, from: int, a: char, b: char)
    requires
        0 <= from,
        forall|i: int| from <= i < text.len() ==> #[trigger] text[i] != a && text[i] != b,
    ensures
        first_of(text, from, a, b) == text.len(),
    decreases text.len() - from,
{
    if from < text.len() {
        lemma_none_found(text, from + 1, a, b);
    }
}

/// Looking for a character ends at the first place that holds it.
proof fn lemma_found(text: Seq<char>, from: int, a: char, b: char, place: int)
    requires
        0 <= from <= place < text.len(),
        forall|i: int| from <= i < place ==> #[trigger] text[i] != a && text[i] != b,
        text[place] == a || text[place] == b,
    ensures
        first_of(text, from, a, b) == place,
    decreases place - from,
{
    if from < place {
        lemma_found(text, from + 1, a, b, place);
    }
}

/// White space ends before the end of the text, or there.
proof fn lemma_visible_place(text: Seq<char>, from: int)
    requires
        0 <= from <= text.len(),
    ensures
        from <= first_visible(text, from) <= text.len(),
    decreases text.len() - from,
{
    if from < text.len() && white_space(text[from]) {
        lemma_visible_place(text, from + 1);
    }
}

/// A text without `=` and `[` can be handed to `EnvFilter`, whatever white space
/// and other characters there are in it.
pub proof fn law_plain_names_are_parseable(directives: Seq<char>)
    requires
        forall|i: int|
            0 <= i < directives.len() ==> #[trigger] directives[i] != '=' && directives[i] != '[',
    ensures
        parseable(directives),
{
    assert forall|i: int| 0 <= i < fields_at(directives, ',').len() implies parseable_directive(
        #[trigger] fields_at(directives, ',')[i],
    ) by {
        let directive = fields_at(directives, ',')[i];
        let start = first_visible(directive, 0);
        lemma_visible_place(directive, 0);
        assert forall|j: int| start <= j < directive.len() implies #[trigger] directive[j] != '['
            && directive[j] != '=' by {
            let p = lemma_field_character(directives, ',', i, j);
        }
        lemma_none_found(directive, start, '[', '=');
    }
}

/// Offsets of different places differ.
proof fn lemma_offset_strict(text: Seq<char>, few: int, many: int)
    requires
        0 <= few < many,
    ensures
        offset(text, few) < offset(text, many),
    decreases many - few,
{
    if few < many - 1 {
        lemma_offset_strict(text, few, many - 1);
    }
}

/// One byte before a place, a character ends exactly if the character before the
/// place takes one byte.
proof fn lemma_byte_before(text: Seq<char>, place: int)
    requires
        0 < place <= text.len(),
    ensures
        ends_whole(text, offset(text, place) - 1) <==> text[place - 1] <= '\u{7f}',
{
    let bytes = offset(text, place) - 1;
    if text[place - 1] <= '\u{7f}' {
        assert(offset(text, place - 1) == bytes);
    } else if ends_whole(text, bytes) {
        let i = choose|i: int| 0 <= i <= text.len() && #[trigger] offset(text, i) == bytes;
        if i < place - 1 {
            lemma_offset_strict(text, i, place - 1);
        } else if i >= place {
            lemma_offset_grows(text, place, i);
        }
    }
}

/// A directive for the spans of a target, with a space before it, can be handed
/// to `EnvFilter` exactly if the target and the span's name end with characters
/// of ASCII: the cuts are one byte off.
pub proof fn law_blank_before_span_directive(target: Seq<char>, span: Seq<char>)
    requires
        target.len() > 0,
        !white_space(target[0]),
        forall|i: int| 0 <= i < target.len() ==> #[trigger] target[i] != '[' && target[i] != '=',
        forall|i: int| 0 <= i < span.len() ==> #[trigger] span[i] != ']' && span[i] != '{',
        exists|i: int| 0 <= i < target.len() && #[trigger] target[i] > '\u{7f}',
    ensures
        parseable_directive(seq![' '] + target + seq!['['] + span + seq![']']) <==> {
            &&& target[target.len() - 1] <= '\u{7f}'
            &&& span.len() > 0 ==> span[span.len() - 1] <= '\u{7f}'
        },
{
    let directive = seq![' '] + target + seq!['['] + span + seq![']'];
    let open = 1 + target.len() as int;
    let close = open + 1 + span.len();
    assert(directive[0] == ' ');
    assert(directive[1] == target[0]);
    assert(directive[open] == '[');
    assert(directive[close] == ']');
    let odd = choose|i: int| 0 <= i < target.len() && #[trigger] target[i] > '\u{7f}';
    assert(directive[1 + odd] == target[odd]);
    assert(!all_ascii(directive));
    assert(white_space(directive[0]));
    assert(first_visible(directive, 1) == 1);
    assert(first_visible(directive, 0) == 1);
    assert(offset(directive, 0) == 0);
    assert(offset(directive, 1) == 1);
    assert forall|i: int| 1 <= i < open implies #[trigger] directive[i] != '[' && directive[i]
        != '=' by {
        assert(directive[i] == target[i - 1]);
    }
    lemma_found(directive, 1, '[', '=', open);
    assert forall|i: int| open + 1 <= i < close implies #[trigger] directive[i] != ']'
        && directive[i] != '{' by {
        assert(directive[i] == span[i - open - 1]);
    }
    lemma_found(directive, open + 1, ']', '{', close);
    lemma_byte_before(directive, open);
    lemma_byte_before(directive, open + 1);
    lemma_byte_before(directive, close);
    assert(directive[open - 1] == target[target.len() - 1]);
    if span.len() > 0 {
        assert(directive[close - 1] == span[span.len() - 1]);
    } else {
        assert(directive[close - 1] == '[');
    }
    assert(directive.len() == close + 1);
}

/// A directive that sets a level cannot be handed to `EnvFilter` with a space
/// before it, unless it is in ASCII.
pub proof fn law_blank_before_level_directive(target: Seq<char>, level: Seq<char>)
    requires
        target.len() > 0,
        !white_space(target[0]),
        forall|i: int| 0 <= i < target.len() ==> #[trigger] target[i] != '[' && target[i] != '=',
        exists|i: int| 0 <= i < target.len() && #[trigger] target[i] > '\u{7f}',
    ensures
        !parseable_directive(seq![' '] + target + seq!['='] + level),
{
    let directive = seq![' '] + target + seq!['='] + level;
    let place = 1 + target.len() as int;
    assert(directive[0] == ' ');
    assert(directive[1] == target[0]);
    assert(directive[place] == '=');
    let odd = choose|i: int| 0 <= i < target.len() && #[trigger] target[i] > '\u{7f}';
    assert(directive[1 + odd] == target[odd]);
    assert(white_space(directive[0]));
    assert(first_visible(directive, 1) == 1);
    assert(first_visible(directive, 0) == 1);
    assert forall|i: int| 1 <= i < place implies #[trigger] directive[i] != '[' && directive[i]
        != '=' by {
        assert(directive[i] == target[i - 1]);
    }
    lemma_found(directive, 1, '[', '=', place);
}

/// A directive for the spans of a target with a field, with a space before it,
/// can be handed to `EnvFilter` exactly if the target, the span's name and the
/// field end with characters of ASCII.
pub proof fn law_blank_before_field_directive(
    target: Seq<char>,
    span: Seq<char>,
    field: Seq<char>,
)
    requires
        target.len() > 0,
        !white_space(target[0]),
        forall|i: int| 0 <= i < target.len() ==> #[trigger] target[i] != '[' && target[i] != '=',
        forall|i: int| 0 <= i < span.len() ==> #[trigger] span[i] != ']' && span[i] != '{',
        forall|i: int| 0 <= i < field.len() ==> #[trigger] field[i] != '}',
        exists|i: int| 0 <= i < target.len() && #[trigger] target[i] > '\u{7f}',
    ensures
        parseable_directive(
            seq![' '] + target + seq!['['] + span + seq!['{'] + field + seq!['}', ']'],
        ) <==> {
            &&& target[target.len() - 1] <= '\u{7f}'
            &&& span.len() > 0 ==> span[span.len() - 1] <= '\u{7f}'
            &&& field.len() > 0 ==> field[field.len() - 1] <= '\u{7f}'
        },
{
    let directive = seq![' '] + target + seq!['['] + span + seq!['{'] + field + seq!['}', ']'];
    let open = 1 + target.len() as int;
    let close = open + 1 + span.len();
    let end = close + 1 + field.len();
    assert(directive[0] == ' ');
    assert(directive[1] == target[0]);
    assert(directive[open] == '[');
    assert(directive[close] == '{');
    assert(directive[end] == '}');
    let odd = choose|i: int| 0 <= i < target.len() && #[trigger] target[i] > '\u{7f}';
    assert(directive[1 + odd] == target[odd]);
    assert(white_space(directive[0]));
    assert(first_visible(directive, 1) == 1);
    assert(first_visible(directive, 0) == 1);
    assert(offset(directive, 0) == 0);
    assert(offset(directive, 1) == 1);
    assert forall|i: int| 1 <= i < open implies #[trigger] directive[i] != '[' && directive[i]
        != '=' by {
        assert(directive[i] == target[i - 1]);
    }
    lemma_found(directive, 1, '[', '=', open);
    assert forall|i: int| open + 1 <= i < close implies #[trigger] directive[i] != ']'
        && directive[i] != '{' by {
        assert(directive[i] == span[i - open - 1]);
    }
    lemma_found(directive, open + 1, ']', '{', close);
    assert forall|i: int| close + 1 <= i < end implies #[trigger] directive[i] != '}' by {
        assert(directive[i] == field[i - close - 1]);
    }
    lemma_found(directive, close + 1, '}', '}', end);
    lemma_byte_before(directive, open);
    lemma_byte_before(directive, open + 1);
    lemma_byte_before(directive, close);
    lemma_byte_before(directive, close + 1);
    lemma_byte_before(directive, end);
    assert(directive[open - 1] == target[target.len() - 1]);
    if span.len() > 0 {
        assert(directive[close - 1] == span[span.len() - 1]);
    } else {
        assert(directive[close - 1] == '[');
    }
    if field.len() > 0 {
        assert(directive[end - 1] == field[field.len() - 1]);
    } else {
        assert(directive[end - 1] == '{');
    }
    assert(directive.len() == end + 2);
}

} // verus!
