//! Text as JSON strings.

use vstd::prelude::*;

verus! {

/// The lower-case hexadecimal digit for a number below sixteen.
pub open spec fn hex_digit(n: int) -> char {
    if n < 10 {
        ('0' as int + n) as char
    } else {
        ('a' as int + n - 10) as char
    }
}

/// How a character is written between the quotes of a JSON string: the quote, the backslash and
/// the control characters below the space are escaped, every other character stands for itself.
pub open spec fn json_escaped(c: char) -> Seq<char> {
    let code = c as int;
    if c == '"' || c == '\\' {
        seq!['\\', c]
    } else if code == 8 {
        seq!['\\', 'b']
    } else if code == 9 {
        seq!['\\', 't']
    } else if code == 10 {
        seq!['\\', 'n']
    } else if code == 12 {
        seq!['\\', 'f']
    } else if code == 13 {
        seq!['\\', 'r']
    } else if code < 32 {
        seq!['\\', 'u', '0', '0', hex_digit(code / 16), hex_digit(code % 16)]
    } else {
        seq![c]
    }
}

/// The characters of `text`, each as a JSON string writes it.
pub open spec fn json_contents(text: Seq<char>) -> Seq<char>
    decreases text.len(),
{
    if text.len() == 0 {
        seq![]
    } else {
        json_escaped(text[0]) + json_contents(text.drop_first())
    }
}

/// `text` as a JSON string.
pub open spec fn json_string(text: Seq<char>) -> Seq<char> {
    seq!['"'] + json_contents(text) + seq!['"']
}

/// What stands at the beginning of a text of escaped characters tells the first of them.
proof fn lemma_escapes_are_told_apart(a: char, b: char, after_a: Seq<char>, after_b: Seq<char>)
    requires
        json_escaped(a) + after_a == json_escaped(b) + after_b,
    ensures
        a == b,
        after_a == after_b,
{
    let whole_a = json_escaped(a) + after_a;
    let whole_b = json_escaped(b) + after_b;
    assert(whole_a[0] == json_escaped(a)[0]);
    assert(whole_b[0] == json_escaped(b)[0]);
    if json_escaped(a).len() > 1 {
        assert(whole_a[1] == json_escaped(a)[1]);
    }
    if json_escaped(b).len() > 1 {
        assert(whole_b[1] == json_escaped(b)[1]);
    }
    if json_escaped(a).len() > 2 {
        assert(whole_a[4] == json_escaped(a)[4]);
        assert(whole_a[5] == json_escaped(a)[5]);
    }
    if json_escaped(b).len() > 2 {
        assert(whole_b[4] == json_escaped(b)[4]);
        assert(whole_b[5] == json_escaped(b)[5]);
    }
    assert(a == b);
    assert(whole_a.skip(json_escaped(a).len() as int) =~= after_a);
    assert(whole_b.skip(json_escaped(b).len() as int) =~= after_b);
}

/// Different texts have different contents.
proof fn lemma_contents_keep_the_text(a: Seq<char>, b: Seq<char>)
    requires
        json_contents(a) == json_contents(b),
    ensures
        a == b,
    decreases a.len(),
{
    if a.len() > 0 && b.len() > 0 {
        lemma_escapes_are_told_apart(
            a[0],
            b[0],
            json_contents(a.drop_first()),
            json_contents(b.drop_first()),
        );
        lemma_contents_keep_the_text(a.drop_first(), b.drop_first());
        assert(a =~= seq![a[0]] + a.drop_first());
        assert(b =~= seq![b[0]] + b.drop_first());
    } else if a.len() > 0 {
        assert(json_contents(a).len() > 0);
    } else if b.len() > 0 {
        assert(json_contents(b).len() > 0);
    }
}

/// A JSON string loses nothing: different texts have different JSON strings.
pub proof fn law_json_string_keeps_the_text(a: Seq<char>, b: Seq<char>)
    requires
        json_string(a) == json_string(b),
    ensures
        a == b,
{
    assert(json_string(a).subrange(1, json_string(a).len() - 1) =~= json_contents(a));
    assert(json_string(b).subrange(1, json_string(b).len() - 1) =~= json_contents(b));
    lemma_contents_keep_the_text(a, b);
}

/// The number of a hexadecimal digit.
pub open spec fn hex_value(c: char) -> Option<int> {
    if '0' <= c <= '9' {
        Some(c as int - '0' as int)
    } else if 'a' <= c <= 'f' {
        Some(c as int - 'a' as int + 10)
    } else if 'A' <= c <= 'F' {
        Some(c as int - 'A' as int + 10)
    } else {
        None
    }
}

/// The character that four hexadecimal digits from the position `i` on stand for, unless they
/// stand for half of one.
pub open spec fn hex_at(text: Seq<char>, i: int) -> Option<char> {
    if 0 <= i <= text.len() - 4 && hex_value(text[i]) is Some && hex_value(text[i + 1]) is Some
        && hex_value(text[i + 2]) is Some && hex_value(text[i + 3]) is Some {
        let code = ((hex_value(text[i])->0 * 16 + hex_value(text[i + 1])->0) * 16 + hex_value(
            text[i + 2],
        )->0) * 16 + hex_value(text[i + 3])->0;
        if 0xd800 <= code < 0xe000 {
            None
        } else {
            Some(code as char)
        }
    } else {
        None
    }
}

/// The character that stands at the position `i` of a JSON string, written out or escaped, and the
/// position after it.
pub open spec fn character_at(text: Seq<char>, i: int) -> Option<(char, int)> {
    if !(0 <= i < text.len()) || text[i] == '"' || (text[i] as int) < 32 {
        None
    } else if text[i] != '\\' {
        Some((text[i], i + 1))
    } else if i + 1 >= text.len() {
        None
    } else {
        match text[i + 1] {
            '"' => Some(('"', i + 2)),
            '\\' => Some(('\\', i + 2)),
            '/' => Some(('/', i + 2)),
            'b' => Some((8u8 as char, i + 2)),
            'f' => Some((12u8 as char, i + 2)),
            'n' => Some(('\n', i + 2)),
            'r' => Some(('\r', i + 2)),
            't' => Some(('\t', i + 2)),
            'u' => match hex_at(text, i + 2) {
                Some(c) => Some((c, i + 6)),
                None => None,
            },
            _ => None,
        }
    }
}

/// The text of a JSON string whose contents begin at the position `i`, and the position after its
/// closing quote.
pub open spec fn string_at(text: Seq<char>, i: int) -> Option<(Seq<char>, int)>
    decreases text.len() - i,
{
    if 0 <= i < text.len() && text[i] == '"' {
        Some((seq![], i + 1))
    } else {
        match character_at(text, i) {
            Some((c, next)) if i < next <= text.len() => match string_at(text, next) {
                Some((rest, end)) => Some((seq![c] + rest, end)),
                None => None,
            },
            _ => None,
        }
    }
}

/// The fields of a JSON object from the position `i` on, to the end of the text: their names and
/// values.
pub open spec fn fields_at(text: Seq<char>, i: int) -> Option<Seq<(Seq<char>, Seq<char>)>>
    decreases text.len() - i,
{
    if !(0 <= i < text.len()) || text[i] != '"' {
        None
    } else {
        match string_at(text, i + 1) {
            Some((name, colon)) if 0 <= colon < text.len() - 1 && text[colon] == ':' && text[colon
                + 1] == '"' => match string_at(text, colon + 2) {
                Some((value, end)) if i < end < text.len() => if text[end] == ',' {
                    match fields_at(text, end + 1) {
                        Some(rest) => Some(seq![(name, value)] + rest),
                        None => None,
                    }
                } else if text[end] == '}' && end == text.len() - 1 {
                    Some(seq![(name, value)])
                } else {
                    None
                },
                _ => None,
            },
            _ => None,
        }
    }
}

/// The fields of a JSON object with string values, if `text` is one, written without spaces.
pub open spec fn fields_in(text: Seq<char>) -> Option<Seq<(Seq<char>, Seq<char>)>> {
    if text.len() == 2 && text[0] == '{' && text[1] == '}' {
        Some(seq![])
    } else if text.len() > 2 && text[0] == '{' {
        fields_at(text, 1)
    } else {
        None
    }
}

/// A character is read as it was written.
proof fn lemma_character_reads_back(before: Seq<char>, c: char, behind: Seq<char>)
    ensures
        character_at(before + json_escaped(c) + behind, before.len() as int) == Some(
            (c, (before.len() + json_escaped(c).len()) as int),
        ),
        json_escaped(c)[0] != '"',
        json_escaped(c).len() > 0,
{
    let text = before + json_escaped(c) + behind;
    let at = before.len() as int;
    assert forall|i: int| 0 <= i < json_escaped(c).len() implies text[at + i]
        == #[trigger] json_escaped(c)[i] by {}
    assert(text[at] == json_escaped(c)[0]);
    if json_escaped(c).len() > 1 {
        assert(text[at + 1] == json_escaped(c)[1]);
    }
    if json_escaped(c).len() > 2 {
        assert(text[at + 2] == json_escaped(c)[2]);
        assert(text[at + 3] == json_escaped(c)[3]);
        assert(text[at + 4] == json_escaped(c)[4]);
        assert(text[at + 5] == json_escaped(c)[5]);
        assert(hex_at(text, at + 2) == Some(c));
    }
}

/// The contents of a JSON string are read as they were written.
proof fn lemma_contents_read_back(before: Seq<char>, text: Seq<char>, behind: Seq<char>)
    ensures
        string_at(before + json_contents(text) + seq!['"'] + behind, before.len() as int) == Some(
            (text, (before.len() + json_contents(text).len() + 1) as int),
        ),
    decreases text.len(),
{
    let whole = before + json_contents(text) + seq!['"'] + behind;
    if text.len() == 0 {
        assert(whole[before.len() as int] == '"');
        assert(text =~= seq![]);
    } else {
        let first = json_escaped(text[0]);
        let rest = json_contents(text.drop_first());
        lemma_character_reads_back(before, text[0], rest + seq!['"'] + behind);
        assert(before + first + (rest + seq!['"'] + behind) =~= whole);
        assert(whole[before.len() as int] == first[0]);
        lemma_contents_read_back(before + first, text.drop_first(), behind);
        assert((before + first) + rest + seq!['"'] + behind =~= whole);
        assert(text =~= seq![text[0]] + text.drop_first());
    }
}

/// A JSON string is read back: wherever it stands in a text, reading from behind its opening quote
/// gives the text that was written and ends behind its closing quote.
pub proof fn law_json_string_reads_back(before: Seq<char>, text: Seq<char>, behind: Seq<char>)
    ensures
        string_at(before + json_string(text) + behind, (before.len() + 1) as int) == Some(
            (text, (before.len() + json_string(text).len()) as int),
        ),
{
    let quote = seq!['"'];
    lemma_contents_read_back(before + quote, text, behind);
    assert((before + quote) + json_contents(text) + quote + behind =~= before + json_string(text)
        + behind);
}

/// `serde_json::to_string` of a string. Claimed: it succeeds, and gives the text between quotes,
/// with the quote, the backslash and the control characters below the space escaped and nothing
/// else changed.
#[verifier::external_body]
pub(crate) fn to_json_string(text: &str) -> (json: Option<String>)
    ensures
        json is Some,
        json->0@ == json_string(text@),
{
    serde_json::to_string(text).ok()
}

} // verus!
