use vstd::prelude::*;

verus! {

/// The character that stands for a digit, `0` to `9`.
pub open spec fn digit(d: nat) -> char {
    if d == 0 {
        '0'
    } else if d == 1 {
        '1'
    } else if d == 2 {
        '2'
    } else if d == 3 {
        '3'
    } else if d == 4 {
        '4'
    } else if d == 5 {
        '5'
    } else if d == 6 {
        '6'
    } else if d == 7 {
        '7'
    } else if d == 8 {
        '8'
    } else {
        '9'
    }
}

/// A number written in decimal digits, without sign or leading zeros.
pub open spec fn decimal(n: nat) -> Seq<char>
    decreases n,
{
    if n < 10 {
        seq![digit(n)]
    } else {
        decimal(n / 10).push(digit(n % 10))
    }
}

/// A run of `n` blanks.
pub open spec fn blanks(n: nat) -> Seq<char> {
    Seq::new(n, |i: int| ' ')
}

/// `String::push` of the standard library: the text afterwards is the text
/// before with the one character added at its end.
pub assume_specification[ String::push ](text: &mut String, c: char)
    ensures
        final(text)@ == old(text)@.push(c),
;

fn digit_of(d: u32) -> (c: char)
    requires
        d < 10,
    ensures
        c == digit(d as nat),
{
    match d {
        0 => '0',
        1 => '1',
        2 => '2',
        3 => '3',
        4 => '4',
        5 => '5',
        6 => '6',
        7 => '7',
        8 => '8',
        _ => '9',
    }
}

/// Writes `n` in decimal digits.
pub fn to_decimal(n: u32) -> (text: String)
    ensures
        text@ == decimal(n as nat),
    decreases n,
{
    let mut text = if n < 10 {
        String::new()
    } else {
        to_decimal(n / 10)
    };
    text.push(digit_of(n % 10));
    assert(n < 10 ==> text@ =~= seq![digit(n as nat)]);
    text
}

/// Makes a run of `n` blanks.
pub fn spaces(n: usize) -> (text: String)
    ensures
        text@ == blanks(n as nat),
{
    let mut text = String::new();
    let mut i: usize = 0;
    assert(text@ =~= blanks(0));
    while i < n
        invariant
            i <= n,
            text@ == blanks(i as nat),
        decreases n - i,
    {
        text.push(' ');
        i += 1;
        assert(text@ =~= blanks(i as nat));
    }
    text
}

/// The characters of a text, one by one.
pub fn chars_of(text: &str) -> (chars: Vec<char>)
    ensures
        chars@ == text@,
{
    let mut chars: Vec<char> = Vec::new();
    for c in it: text.chars()
        invariant
            it.seq() == text@,
            chars@ == it.seq().take(it.index() as int),
    {
        chars.push(c);
        assert(it.seq().take(it.index() + 1) =~= it.seq().take(it.index() as int).push(c));
    }
    assert(chars@ =~= text@);
    chars
}

/// The text made of the characters `from` up to, not including, `to`.
pub fn text_of(chars: &Vec<char>, from: usize, to: usize) -> (text: String)
    requires
        from <= to <= chars@.len(),
    ensures
        text@ == chars@.subrange(from as int, to as int),
{
    let mut text = String::new();
    let mut i: usize = from;
    while i < to
        invariant
            from <= i <= to <= chars@.len(),
            text@ == chars@.subrange(from as int, i as int),
        decreases to - i,
    {
        text.push(chars[i]);
        i += 1;
        assert(text@ =~= chars@.subrange(from as int, i as int));
    }
    text
}

/// The place of a character in the code charts.
pub open spec fn code(c: char) -> nat {
    c as u32 as nat
}

/// White space in the sense of Unicode (the property `White_Space`), line
/// feed and carriage return included.
pub open spec fn is_whitespace(c: char) -> bool {
    ||| 0x09 <= code(c) <= 0x0D
    ||| code(c) == 0x20
    ||| code(c) == 0x85
    ||| code(c) == 0xA0
    ||| code(c) == 0x1680
    ||| 0x2000 <= code(c) <= 0x200A
    ||| code(c) == 0x2028
    ||| code(c) == 0x2029
    ||| code(c) == 0x202F
    ||| code(c) == 0x205F
    ||| code(c) == 0x3000
}

/// A text without the white space at its start and at its end.
pub open spec fn trimmed(text: Seq<char>) -> Seq<char>
    decreases text.len(),
{
    if text.len() == 0 {
        text
    } else if is_whitespace(text.first()) {
        trimmed(text.drop_first())
    } else if is_whitespace(text.last()) {
        trimmed(text.drop_last())
    } else {
        text
    }
}

/// Where the line that starts at `from` ends: the place of the next line
/// feed, or the end of the text where none follows.
pub open spec fn line_end(text: Seq<char>, from: int) -> int
    decreases text.len() - from,
{
    if from >= text.len() {
        text.len() as int
    } else if text[from] == '\n' {
        from
    } else {
        line_end(text, from + 1)
    }
}

/// The lines of the text from `from` on, each without its line feed. A line
/// feed ends a line; it does not start an empty last one.
pub open spec fn lines_from(text: Seq<char>, from: int) -> Seq<Seq<char>>
    decreases text.len() - from,
{
    if from < 0 || from >= text.len() {
        Seq::empty()
    } else {
        let end = line_end(text, from);
        if from <= end < text.len() {
            seq![text.subrange(from, end)] + lines_from(text, end + 1)
        } else {
            seq![text.subrange(from, text.len() as int)]
        }
    }
}

/// The lines of a text.
pub open spec fn lines(text: Seq<char>) -> Seq<Seq<char>> {
    lines_from(text, 0)
}

/// `needle` stands somewhere in `text`.
pub open spec fn occurs_in(needle: Seq<char>, text: Seq<char>) -> bool {
    exists|at: int|
        0 <= at && at + needle.len() <= text.len() && #[trigger] text.subrange(
            at,
            at + needle.len(),
        ) == needle
}

/// `a` comes before `b` in the order of a dictionary whose alphabet is the
/// code charts: at the first place where they differ `a` has the smaller
/// character, or `a` ends there and `b` goes on.
pub open spec fn precedes(a: Seq<char>, b: Seq<char>) -> bool
    decreases a.len(),
{
    if b.len() == 0 {
        false
    } else if a.len() == 0 {
        true
    } else if a.first() != b.first() {
        code(a.first()) < code(b.first())
    } else {
        precedes(a.drop_first(), b.drop_first())
    }
}

/// Whether a character is white space.
pub fn whitespace(c: char) -> (white: bool)
    ensures
        white == is_whitespace(c),
{
    let n: u32 = c as u32;
    (0x09 <= n && n <= 0x0D) || n == 0x20 || n == 0x85 || n == 0xA0 || n == 0x1680 || (0x2000 <= n
        && n <= 0x200A) || n == 0x2028 || n == 0x2029 || n == 0x202F || n == 0x205F || n == 0x3000
}

/// Trimming keeps what lies between the first and the last character that
/// is no white space.
proof fn lemma_trimmed(text: Seq<char>, from: int, to: int)
    requires
        0 <= from <= to <= text.len(),
        forall|i: int| 0 <= i < from ==> is_whitespace(#[trigger] text[i]),
        forall|i: int| to <= i < text.len() ==> is_whitespace(#[trigger] text[i]),
        from < to ==> !is_whitespace(text[from]) && !is_whitespace(text[to - 1]),
    ensures
        trimmed(text) == text.subrange(from, to),
    decreases text.len(),
{
    if text.len() == 0 {
        assert(text.subrange(from, to) =~= text);
    } else if is_whitespace(text.first()) {
        let rest = text.drop_first();
        if from == 0 {
            assert(from == to);
            lemma_trimmed(rest, 0, 0);
            assert(rest.subrange(0, 0) =~= text.subrange(from, to));
        } else {
            assert forall|i: int| 0 <= i < from - 1 implies is_whitespace(#[trigger] rest[i]) by {
                assert(rest[i] == text[i + 1]);
            }
            assert forall|i: int| to - 1 <= i < rest.len() implies is_whitespace(
                #[trigger] rest[i],
            ) by {
                assert(rest[i] == text[i + 1]);
            }
            lemma_trimmed(rest, from - 1, to - 1);
            assert(rest.subrange(from - 1, to - 1) =~= text.subrange(from, to));
        }
    } else if is_whitespace(text.last()) {
        let rest = text.drop_last();
        assert(from == 0);
        assert(to < text.len());
        lemma_trimmed(rest, from, to);
        assert(rest.subrange(from, to) =~= text.subrange(from, to));
    } else {
        assert(from == 0);
        assert(to == text.len());
        assert(text.subrange(from, to) =~= text);
    }
}

/// Takes the white space off both ends of the characters `from` up to `to`.
pub fn trim(chars: &Vec<char>, from: usize, to: usize) -> (text: String)
    requires
        from <= to <= chars@.len(),
    ensures
        text@ == trimmed(chars@.subrange(from as int, to as int)),
{
    let ghost piece = chars@.subrange(from as int, to as int);
    let mut start: usize = from;
    while start < to && whitespace(chars[start])
        invariant
            from <= start <= to <= chars@.len(),
            forall|i: int| from <= i < start ==> is_whitespace(#[trigger] chars@[i]),
        decreases to - start,
    {
        start += 1;
    }
    let mut end: usize = to;
    while start < end && whitespace(chars[end - 1])
        invariant
            from <= start <= end <= to <= chars@.len(),
            forall|i: int| end <= i < to ==> is_whitespace(#[trigger] chars@[i]),
        decreases end - start,
    {
        end -= 1;
    }
    proof {
        assert forall|i: int| 0 <= i < start - from implies is_whitespace(#[trigger] piece[i]) by {
            assert(piece[i] == chars@[from + i]);
        }
        assert forall|i: int| end - from <= i < piece.len() implies is_whitespace(
            #[trigger] piece[i],
        ) by {
            assert(piece[i] == chars@[from + i]);
        }
        lemma_trimmed(piece, start - from, end - from);
        assert(piece.subrange(start - from, end - from) =~= chars@.subrange(
            start as int,
            end as int,
        ));
    }
    text_of(chars, start, end)
}

/// Whether `needle` stands somewhere in `text`.
pub fn contains(text: &str, needle: &str) -> (found: bool)
    ensures
        found == occurs_in(needle@, text@),
{
    let hay = chars_of(text);
    let pin = chars_of(needle);
    if pin.len() > hay.len() {
        return false;
    }
    let last: usize = hay.len() - pin.len();
    let mut at: usize = 0;
    loop
        invariant
            at <= last,
            last == hay@.len() - pin@.len(),
            hay@.len() <= usize::MAX,
            hay@ == text@,
            pin@ == needle@,
            forall|before: int|
                0 <= before < at ==> #[trigger] hay@.subrange(before, before + pin@.len()) != pin@,
        decreases last - at,
    {
        let mut k: usize = 0;
        while k < pin.len() && hay[at + k] == pin[k]
            invariant
                k <= pin@.len(),
                at + pin@.len() <= hay@.len() <= usize::MAX,
                forall|j: int| 0 <= j < k ==> hay@[at + j] == pin@[j],
            decreases pin@.len() - k,
        {
            k += 1;
        }
        if k == pin.len() {
            assert(hay@.subrange(at as int, at + pin@.len()) =~= pin@);
            return true;
        }
        assert(hay@.subrange(at as int, at + pin@.len())[k as int] != pin@[k as int]);
        if at == last {
            return false;
        }
        at += 1;
    }
}

/// Different characters have different places in the code charts.
proof fn lemma_code_tells_apart(c: char, d: char)
    requires
        c != d,
    ensures
        code(c) != code(d),
{
}

/// No text comes before itself.
pub proof fn precedes_is_irreflexive(a: Seq<char>)
    ensures
        !precedes(a, a),
    decreases a.len(),
{
    if a.len() > 0 {
        precedes_is_irreflexive(a.drop_first());
    }
}

/// What comes before a text also comes before all that the text comes before.
pub proof fn precedes_is_transitive(a: Seq<char>, b: Seq<char>, c: Seq<char>)
    requires
        precedes(a, b),
        precedes(b, c),
    ensures
        precedes(a, c),
    decreases a.len(),
{
    if a.len() > 0 && a.first() == b.first() && b.first() == c.first() {
        precedes_is_transitive(a.drop_first(), b.drop_first(), c.drop_first());
    }
}

/// Of two different texts one comes before the other.
pub proof fn precedes_is_total(a: Seq<char>, b: Seq<char>)
    requires
        a != b,
    ensures
        precedes(a, b) || precedes(b, a),
    decreases a.len(),
{
    if a.len() > 0 && b.len() > 0 && a.first() == b.first() {
        if a.drop_first() == b.drop_first() {
            assert(a =~= seq![a.first()] + a.drop_first());
            assert(b =~= seq![b.first()] + b.drop_first());
        }
        precedes_is_total(a.drop_first(), b.drop_first());
    } else if a.len() == 0 && b.len() == 0 {
        assert(a =~= b);
    } else if a.len() > 0 && b.len() > 0 {
        lemma_code_tells_apart(a.first(), b.first());
    }
}

/// Whether the characters `a` come before the characters `b`.
pub fn chars_come_before(a: &Vec<char>, b: &Vec<char>) -> (before: bool)
    ensures
        before == precedes(a@, b@),
{
    let mut i: usize = 0;
    assert(a@.skip(0) =~= a@);
    assert(b@.skip(0) =~= b@);
    while i < a.len() && i < b.len() && a[i] == b[i]
        invariant
            i <= a@.len(),
            i <= b@.len(),
            precedes(a@, b@) == precedes(a@.skip(i as int), b@.skip(i as int)),
        decreases a@.len() - i,
    {
        proof {
            assert(a@.skip(i as int).drop_first() =~= a@.skip(i + 1));
            assert(b@.skip(i as int).drop_first() =~= b@.skip(i + 1));
        }
        i += 1;
    }
    if i == b.len() {
        false
    } else if i == a.len() {
        true
    } else {
        let first: u32 = a[i] as u32;
        let second: u32 = b[i] as u32;
        first < second
    }
}

/// Whether the characters `a` are the characters `b`.
pub fn same_chars(a: &Vec<char>, b: &Vec<char>) -> (same: bool)
    ensures
        same == (a@ == b@),
{
    if a.len() != b.len() {
        return false;
    }
    let mut i: usize = 0;
    while i < a.len()
        invariant
            i <= a@.len(),
            a@.len() == b@.len(),
            forall|j: int| 0 <= j < i ==> a@[j] == b@[j],
        decreases a@.len() - i,
    {
        if a[i] != b[i] {
            return false;
        }
        i += 1;
    }
    assert(a@ =~= b@);
    true
}

} // verus!
