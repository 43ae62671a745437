//! Text helpers shared by the other modules.

use vstd::prelude::*;
use vstd::string::*;
use vstd::utf8::{decode_utf8, valid_utf8};

verus! {

/// The text that `String::from_utf8_lossy` reads out of `bytes`.
pub uninterp spec fn lossy_text(bytes: Seq<u8>) -> Seq<char>;

/// Calls `String::from_utf8_lossy`, which decodes `bytes` as UTF-8 and puts
/// U+FFFD in the place of what is not.
///
/// The contract names the result, a function of the bytes alone, and states
/// the one case that the documentation spells out: bytes that are valid UTF-8
/// are decoded as they stand.
#[verifier::external_body]
pub(crate) fn decode_lossy(bytes: &Vec<u8>) -> (text: String)
    ensures
        text@ == lossy_text(bytes@),
        valid_utf8(bytes@) ==> text@ == decode_utf8(bytes@),
{
    String::from_utf8_lossy(bytes).into_owned()
}

/// Of `core::str::from_utf8`: it accepts exactly the bytes that are valid
/// UTF-8, and reads them as the text that they encode.
pub assume_specification<'a>[ core::str::from_utf8 ](bytes: &'a [u8]) -> (text: Result<
    &'a str,
    core::str::Utf8Error,
>)
    ensures
        text is Ok <==> valid_utf8(bytes@),
        text matches Ok(s) ==> s@ == decode_utf8(bytes@),
;

/// The error of `core::str::from_utf8`.
#[verifier::external_type_specification]
#[verifier::external_body]
pub struct ExUtf8Error(core::str::Utf8Error);

/// The path `rel` resolved against the directory `base`, as Unix paths are
/// joined: an absolute `rel` stands for itself, otherwise it is appended to
/// `base`, with one `/` in between unless `base` is empty or already ends in
/// one.
pub open spec fn resolved(base: Seq<char>, rel: Seq<char>) -> Seq<char> {
    if rel.len() > 0 && rel[0] == '/' {
        rel
    } else if base.len() == 0 || base.last() == '/' {
        base + rel
    } else {
        base + seq!['/'] + rel
    }
}

/// Resolves `rel` against the directory `base`.
pub fn resolve(base: &str, rel: &str) -> (path: String)
    ensures
        path@ == resolved(base@, rel@),
{
    let rel_len = rel.unicode_len();
    let base_len = base.unicode_len();
    if rel_len > 0 && rel.get_char(0) == '/' {
        rel.to_owned()
    } else if base_len == 0 || base.get_char(base_len - 1) == '/' {
        let mut path = base.to_owned();
        path.append(rel);
        path
    } else {
        let mut path = base.to_owned();
        proof {
            reveal_strlit("/");
        }
        path.append("/");
        path.append(rel);
        assert("/"@ =~= seq!['/']);
        path
    }
}

/// A line without the carriage return that ends it, if one does.
pub open spec fn without_return(line: Seq<char>) -> Seq<char> {
    if line.len() > 0 && line.last() == '\r' {
        line.drop_last()
    } else {
        line
    }
}

/// What follows the last newline of `text`: the line that no newline has
/// ended yet.
pub open spec fn open_line(text: Seq<char>) -> Seq<char>
    decreases text.len(),
{
    if text.len() == 0 {
        Seq::empty()
    } else if text.last() == '\n' {
        Seq::empty()
    } else {
        open_line(text.drop_last()).push(text.last())
    }
}

/// The lines of `text` that a newline ends, each without that newline and
/// without a carriage return before it.
pub open spec fn ended_lines(text: Seq<char>) -> Seq<Seq<char>>
    decreases text.len(),
{
    if text.len() == 0 {
        Seq::empty()
    } else if text.last() == '\n' {
        ended_lines(text.drop_last()).push(without_return(open_line(text.drop_last())))
    } else {
        ended_lines(text.drop_last())
    }
}

/// The lines of `text`. A line ends at a newline or at the end of the text;
/// the newline, and a carriage return just before it, belong to no line.
/// Nothing follows the last newline unless text does.
pub open spec fn lines_of(text: Seq<char>) -> Seq<Seq<char>> {
    if open_line(text).len() == 0 {
        ended_lines(text)
    } else {
        ended_lines(text).push(open_line(text))
    }
}

/// Splits `text` into its lines.
pub fn lines(text: &str) -> (list: Vec<String>)
    ensures
        list.deep_view() == lines_of(text@),
{
    let total = text.unicode_len();
    let mut list: Vec<String> = Vec::new();
    let mut start: usize = 0;
    let mut i: usize = 0;
    let mut after_return = false;
    assert(text@.take(0) =~= Seq::<char>::empty());
    assert(list.deep_view() =~= ended_lines(text@.take(0)));
    for c in it: text.chars()
        invariant
            it.seq() == text@,
            total == text@.len(),
            i == it.index(),
            start <= i <= total,
            list.deep_view() == ended_lines(text@.take(i as int)),
            text@.subrange(start as int, i as int) == open_line(text@.take(i as int)),
            after_return <==> (start < i && text@[i - 1] == '\r'),
    {
        let ghost before = text@.take(i as int);
        let ghost now = text@.take(i + 1);
        assert(now.drop_last() =~= before);
        assert(now.last() == c);
        if c == '\n' {
            let end = if after_return {
                i - 1
            } else {
                i
            };
            let line = text.substring_char(start, end).to_owned();
            assert(line@ =~= without_return(open_line(before)));
            let ghost old_list = list.deep_view();
            list.push(line);
            assert(list.deep_view() =~= old_list.push(line@));
            start = i + 1;
            after_return = false;
            assert(text@.subrange(start as int, i + 1) =~= open_line(now));
        } else {
            after_return = c == '\r';
            assert(text@.subrange(start as int, i + 1) =~= open_line(before).push(c));
        }
        i = i + 1;
    }
    assert(text@.take(i as int) =~= text@);
    if start < total {
        let line = text.substring_char(start, total).to_owned();
        let ghost old_list = list.deep_view();
        list.push(line);
        assert(list.deep_view() =~= old_list.push(line@));
    }
    list
}

/// Whether `name` is among `names`.
pub fn contains(names: &Vec<String>, name: &String) -> (found: bool)
    ensures
        found == names.deep_view().contains(name@),
{
    let mut i: usize = 0;
    while i < names.len()
        invariant
            i <= names.len(),
            forall|j: int| 0 <= j < i ==> names.deep_view()[j] != name@,
        decreases names.len() - i,
    {
        if names[i] == *name {
            assert(names.deep_view()[i as int] == name@);
            return true;
        }
        i = i + 1;
    }
    false
}

/// One decimal digit.
pub open spec fn digit(d: nat) -> Seq<char> {
    if d == 0 {
        "0"@
    } else if d == 1 {
        "1"@
    } else if d == 2 {
        "2"@
    } else if d == 3 {
        "3"@
    } else if d == 4 {
        "4"@
    } else if d == 5 {
        "5"@
    } else if d == 6 {
        "6"@
    } else if d == 7 {
        "7"@
    } else if d == 8 {
        "8"@
    } else {
        "9"@
    }
}

/// The number in decimal digits, without leading zeros.
pub open spec fn decimal(n: nat) -> Seq<char>
    decreases n,
{
    if n < 10 {
        digit(n)
    } else {
        decimal(n / 10) + digit(n % 10)
    }
}

/// Writes the number in decimal digits.
pub fn to_decimal(n: usize) -> (text: String)
    ensures
        text@ == decimal(n as nat),
    decreases n,
{
    let last = n % 10;
    let word = if last == 0 {
        "0"
    } else if last == 1 {
        "1"
    } else if last == 2 {
        "2"
    } else if last == 3 {
        "3"
    } else if last == 4 {
        "4"
    } else if last == 5 {
        "5"
    } else if last == 6 {
        "6"
    } else if last == 7 {
        "7"
    } else if last == 8 {
        "8"
    } else {
        "9"
    };
    if n < 10 {
        word.to_owned()
    } else {
        let mut text = to_decimal(n / 10);
        text.append(word);
        text
    }
}

/// No line holds a newline.
pub proof fn lemma_lines_hold_no_newline(text: Seq<char>, i: int)
    requires
        0 <= i < lines_of(text).len(),
    ensures
        !lines_of(text)[i].contains('\n'),
{
    lemma_open_line_holds_no_newline(text);
    if i < ended_lines(text).len() {
        lemma_ended_lines_hold_no_newline(text, i);
    }
}

/// The line that is still open holds no newline.
proof fn lemma_open_line_holds_no_newline(text: Seq<char>)
    ensures
        !open_line(text).contains('\n'),
    decreases text.len(),
{
    if text.len() > 0 && text.last() != '\n' {
        lemma_open_line_holds_no_newline(text.drop_last());
        let before = open_line(text.drop_last());
        let line = open_line(text);
        if line.contains('\n') {
            let k = choose|k: int| 0 <= k < line.len() && line[k] == '\n';
            assert(before[k] == '\n');
            assert(before.contains('\n'));
        }
    }
}

/// No line that a newline has ended holds one.
proof fn lemma_ended_lines_hold_no_newline(text: Seq<char>, i: int)
    requires
        0 <= i < ended_lines(text).len(),
    ensures
        !ended_lines(text)[i].contains('\n'),
    decreases text.len(),
{
    if text.len() > 0 {
        let before = text.drop_last();
        if text.last() == '\n' && i == ended_lines(before).len() {
            lemma_open_line_holds_no_newline(before);
            let open = open_line(before);
            let line = without_return(open);
            if line.contains('\n') {
                let k = choose|k: int| 0 <= k < line.len() && line[k] == '\n';
                assert(open[k] == '\n');
                assert(open.contains('\n'));
            }
        } else {
            lemma_ended_lines_hold_no_newline(before, i);
        }
    }
}

/// Text without a newline is one line, or none if it is empty.
pub proof fn lemma_one_line(text: Seq<char>)
    requires
        !text.contains('\n'),
    ensures
        open_line(text) == text,
        ended_lines(text).len() == 0,
        lines_of(text) == if text.len() == 0 {
            Seq::<Seq<char>>::empty()
        } else {
            seq![text]
        },
    decreases text.len(),
{
    if text.len() > 0 {
        let before = text.drop_last();
        assert(text[text.len() - 1] != '\n');
        assert forall|k: int| 0 <= k < before.len() implies before[k] != '\n' by {
            assert(text[k] == before[k]);
        }
        lemma_one_line(before);
        assert(open_line(text) =~= text);
        assert(lines_of(text) =~= seq![text]);
    } else {
        assert(open_line(text) =~= text);
    }
}

} // verus!
