//! The program text format: one instruction word per line, written as one
//! to four hexadecimal digits. A line that is only whitespace, or whose first
//! character after leading whitespace is `#`, is ignored. In any other line
//! spaces are dropped wherever they stand, and a `#` starts a comment that
//! runs to the end of the line.

use vstd::prelude::*;
use vstd::string::StringSliceAdditionalSpecFns;

verus! {

/// ASCII whitespace: tab, line feed, vertical tab, form feed, carriage
/// return and space.
pub open spec fn is_whitespace(b: u8) -> bool {
    b == SPACE || (0x09 <= b <= 0x0D)
}

/// The space, the one byte dropped wherever it stands in an instruction line.
pub const SPACE: u8 = 0x20;

/// The byte that starts a comment.
pub const COMMENT: u8 = 0x23;

/// The byte that ends a line.
pub const NEWLINE: u8 = 0x0A;

/// The bytes of `line` that make up its token: those that are not spaces
/// and stand before the first `#`.
pub open spec fn kept(line: Seq<u8>) -> Seq<u8>
    decreases line.len(),
{
    if line.len() == 0 {
        seq![]
    } else {
        let head = kept(line.drop_last());
        let c = line.last();
        if line.drop_last().contains(COMMENT) || c == COMMENT || c == SPACE {
            head
        } else {
            head.push(c)
        }
    }
}

/// `0`-`9`, `a`-`f` or `A`-`F`.
pub open spec fn is_hex_digit(b: u8) -> bool {
    (0x30 <= b <= 0x39) || (0x61 <= b <= 0x66) || (0x41 <= b <= 0x46)
}

/// The value of a hexadecimal digit.
pub open spec fn hex_digit_value(b: u8) -> int {
    if 0x30 <= b <= 0x39 {
        b - 0x30
    } else if 0x61 <= b <= 0x66 {
        b - 0x61 + 10
    } else {
        b - 0x41 + 10
    }
}

/// The number that a string of hexadecimal digits writes, most significant first.
pub open spec fn hex_value(digits: Seq<u8>) -> int
    decreases digits.len(),
{
    if digits.len() == 0 {
        0
    } else {
        hex_value(digits.drop_last()) * 16 + hex_digit_value(digits.last())
    }
}

/// What a line of program text holds.
#[derive(Clone, Copy, PartialEq, Eq, Structural, Debug)]
pub enum LineContent {
    /// Only whitespace, or a comment after leading whitespace.
    Blank,
    /// One instruction word.
    Word(u16),
    /// A token that is not one to four hexadecimal digits.
    Malformed,
}

/// `line` is skipped: it is all whitespace, or its first byte that is not
/// whitespace is `#`.
pub open spec fn is_ignored(line: Seq<u8>) -> bool {
    (forall|i: int| 0 <= i < line.len() ==> is_whitespace(#[trigger] line[i]))
        || exists|j: int|
        0 <= j < line.len() && line[j] == COMMENT && (forall|i: int|
            0 <= i < j ==> is_whitespace(#[trigger] line[i]))
}

/// The content of `line`: blank when it is ignored, else a word when its
/// token is one to four hexadecimal digits, else malformed.
pub open spec fn line_content(line: Seq<u8>) -> LineContent {
    let k = kept(line);
    if is_ignored(line) {
        LineContent::Blank
    } else if 0 < k.len() <= 4 && (forall|i: int| 0 <= i < k.len() ==> is_hex_digit(#[trigger] k[i])) {
        LineContent::Word(hex_value(k) as u16)
    } else {
        LineContent::Malformed
    }
}

proof fn lemma_hex_value_bound(digits: Seq<u8>)
    requires
        forall|i: int| 0 <= i < digits.len() ==> is_hex_digit(#[trigger] digits[i]),
    ensures
        0 <= hex_value(digits) < pow16(digits.len()),
    decreases digits.len(),
{
    if digits.len() > 0 {
        let d = digits.drop_last();
        assert forall|i: int| 0 <= i < d.len() implies is_hex_digit(#[trigger] d[i]) by {
            assert(d[i] == digits[i]);
        }
        lemma_hex_value_bound(d);
        assert(is_hex_digit(digits[digits.len() - 1]));
    }
}

/// 16 to the power `n`.
pub open spec fn pow16(n: nat) -> int
    decreases n,
{
    if n == 0 {
        1
    } else {
        16 * pow16((n - 1) as nat)
    }
}

fn hex_digit_of(b: u8) -> (r: Option<u32>)
    ensures
        r == if is_hex_digit(b) {
            Some(hex_digit_value(b) as u32)
        } else {
            None::<u32>
        },
{
    if 0x30 <= b && b <= 0x39 {
        Some((b - 0x30) as u32)
    } else if 0x61 <= b && b <= 0x66 {
        Some((b - 0x61 + 10) as u32)
    } else if 0x41 <= b && b <= 0x46 {
        Some((b - 0x41 + 10) as u32)
    } else {
        None
    }
}

fn is_whitespace_byte(b: u8) -> (r: bool)
    ensures
        r == is_whitespace(b),
{
    b == SPACE || (0x09 <= b && b <= 0x0D)
}

/// Classify the line `text[start..end]`.
pub fn parse_line(text: &[u8], start: usize, end: usize) -> (r: LineContent)
    requires
        start <= end <= text@.len(),
    ensures
        r == line_content(text@.subrange(start as int, end as int)),
{
    let ghost line = text@.subrange(start as int, end as int);
    let mut p: usize = start;
    while p < end && is_whitespace_byte(text[p])
        invariant
            start <= p <= end <= text@.len(),
            line == text@.subrange(start as int, end as int),
            forall|i: int| 0 <= i < p - start ==> is_whitespace(#[trigger] line[i]),
        decreases end - p,
    {
        p = p + 1;
    }
    if p == end || text[p] == COMMENT {
        if p < end {
            assert(line[p - start] == COMMENT);
        }
        return LineContent::Blank;
    }
    assert(!is_whitespace(line[p - start]));
    assert(line[p - start] != COMMENT);
    assert(!is_ignored(line));
    let mut token: Vec<u8> = Vec::new();
    let mut in_comment: bool = false;
    let mut i: usize = start;
    while i < end
        invariant
            start <= i <= end <= text@.len(),
            line == text@.subrange(start as int, end as int),
            token@ == kept(line.take(i - start)),
            in_comment == line.take(i - start).contains(COMMENT),
        decreases end - i,
    {
        let c = text[i];
        let ghost before = line.take(i - start);
        let ghost after = line.take(i + 1 - start);
        assert(after.drop_last() =~= before);
        assert(after.last() == c);
        if !in_comment && c != COMMENT && c != SPACE {
            token.push(c);
        }
        if c == COMMENT {
            in_comment = true;
            assert(after[i - start] == c);
        } else if in_comment {
            let ghost j = choose|j: int| 0 <= j < before.len() && before[j] == COMMENT;
            assert(after[j] == COMMENT);
        } else {
            assert forall|j: int| 0 <= j < after.len() implies after[j] != COMMENT by {
                if j < before.len() {
                    assert(after[j] == before[j]);
                }
            }
        }
        i = i + 1;
    }
    assert(line.take(end - start) =~= line);
    if token.len() == 0 || token.len() > 4 {
        return LineContent::Malformed;
    }
    let mut value: u32 = 0;
    let mut k: usize = 0;
    while k < token.len()
        invariant
            0 < token@.len() <= 4,
            k <= token@.len(),
            line == text@.subrange(start as int, end as int),
            !is_ignored(line),
            token@ == kept(line),
            forall|m: int| 0 <= m < k ==> is_hex_digit(#[trigger] token@[m]),
            value == hex_value(token@.take(k as int)),
        decreases token@.len() - k,
    {
        match hex_digit_of(token[k]) {
            Some(d) => {
                let ghost t = token@.take(k as int);
                proof {
                    lemma_hex_value_bound(t);
                    assert(pow16(t.len()) <= 0x1000) by {
                        reveal_with_fuel(pow16, 4);
                    }
                    assert(token@.take(k + 1).drop_last() =~= t);
                }
                value = value * 16 + d;
                k = k + 1;
            },
            None => {
                assert(!is_hex_digit(kept(line)[k as int]));
                assert(line_content(line) == LineContent::Malformed);
                return LineContent::Malformed;
            },
        }
    }
    assert(token@.take(k as int) =~= token@);
    proof {
        lemma_hex_value_bound(token@);
        assert(pow16(token@.len()) <= 0x10000) by {
            reveal_with_fuel(pow16, 5);
        }
    }
    LineContent::Word(value as u16)
}

/// Parse one line of program text into an instruction word; `None` for a
/// line that is ignored (only whitespace, or a comment after leading whitespace).
pub fn parse_instruction(instruction: &str) -> (r: Option<u16>)
    requires
        line_content(instruction.spec_bytes()) != LineContent::Malformed,
    ensures
        r == match line_content(instruction.spec_bytes()) {
            LineContent::Word(w) => Some(w),
            _ => None::<u16>,
        },
{
    let bytes = instruction.as_bytes();
    assert(bytes@.subrange(0, bytes@.len() as int) =~= bytes@);
    match parse_line(bytes, 0, bytes.len()) {
        LineContent::Word(w) => Some(w),
        _ => None,
    }
}

/// The lines of a text: the pieces between newline bytes. A text with `n`
/// newlines has `n + 1` lines; the last may be empty.
pub open spec fn lines(text: Seq<u8>) -> Seq<Seq<u8>>
    decreases text.len(),
{
    if text.len() == 0 {
        seq![seq![]]
    } else {
        let ls = lines(text.drop_last());
        if text.last() == NEWLINE {
            ls.push(seq![])
        } else {
            ls.update(ls.len() - 1, ls.last().push(text.last()))
        }
    }
}

/// The words that `ls` lists, in order, skipping blank lines; or the index
/// of the first malformed line.
pub open spec fn program_of(ls: Seq<Seq<u8>>) -> Result<Seq<u16>, int>
    decreases ls.len(),
{
    if ls.len() == 0 {
        Ok(seq![])
    } else {
        match program_of(ls.drop_last()) {
            Err(i) => Err(i),
            Ok(words) => match line_content(ls.last()) {
                LineContent::Blank => Ok(words),
                LineContent::Word(w) => Ok(words.push(w)),
                LineContent::Malformed => Err(ls.len() - 1),
            },
        }
    }
}

proof fn lemma_lines_nonempty(text: Seq<u8>)
    ensures
        lines(text).len() >= 1,
    decreases text.len(),
{
    if text.len() > 0 {
        lemma_lines_nonempty(text.drop_last());
    }
}

proof fn lemma_program_prefix(ls: Seq<Seq<u8>>, line: Seq<u8>)
    ensures
        program_of(ls.push(line)) == match program_of(ls) {
            Err(i) => Err(i),
            Ok(words) => match line_content(line) {
                LineContent::Blank => Ok(words),
                LineContent::Word(w) => Ok(words.push(w)),
                LineContent::Malformed => Err(ls.len() as int),
            },
        },
{
    assert(ls.push(line).drop_last() =~= ls);
}

proof fn lemma_lines_prefix(t: Seq<u8>, j: int)
    requires
        0 <= j <= t.len(),
    ensures
        lines(t.take(j)).len() <= lines(t).len(),
        lines(t).take(lines(t.take(j)).len() - 1) == lines(t.take(j)).drop_last(),
    decreases t.len(),
{
    lemma_lines_nonempty(t.take(j));
    lemma_lines_nonempty(t);
    if j == t.len() {
        assert(t.take(j) =~= t);
        assert(lines(t).take(lines(t).len() - 1) =~= lines(t).drop_last());
    } else {
        let d = t.drop_last();
        assert(d.take(j) =~= t.take(j));
        lemma_lines_prefix(d, j);
        lemma_lines_nonempty(d);
        let p = lines(t.take(j)).drop_last();
        assert(lines(t).take(p.len() as int) =~= lines(d).take(p.len() as int));
    }
}

proof fn lemma_program_err_extends(ls: Seq<Seq<u8>>, k: int)
    requires
        0 <= k <= ls.len(),
        program_of(ls.take(k)) is Err,
    ensures
        program_of(ls) == program_of(ls.take(k)),
    decreases ls.len() - k,
{
    if k < ls.len() {
        assert(ls.take(k + 1).drop_last() =~= ls.take(k));
        lemma_program_err_extends(ls, k + 1);
    } else {
        assert(ls.take(k) =~= ls);
    }
}

proof fn lemma_program_prefix_err(p: Seq<Seq<u8>>, t: Seq<u8>, j: int)
    requires
        0 <= j <= t.len(),
        p == lines(t.take(j)).drop_last(),
        program_of(p) is Err,
    ensures
        program_of(lines(t)) == program_of(p),
{
    lemma_lines_nonempty(t.take(j));
    lemma_lines_prefix(t, j);
    lemma_program_err_extends(lines(t), p.len() as int);
}

/// Why a program text cannot be loaded.
#[derive(Clone, Copy, PartialEq, Eq, Structural, Debug)]
pub enum LoadError {
    /// The line with this number (counting from 1) is not ignored and not one
    /// to four hexadecimal digits.
    MalformedLine(usize),
    /// The program has more words than memory.
    TooLarge,
}

/// Parse a whole program text into its instruction words, in order.
pub fn parse_program(text: &str) -> (r: Result<Vec<u16>, LoadError>)
    ensures
        match program_of(lines(text.spec_bytes())) {
            Ok(words) => r matches Ok(v) && v@ == words,
            Err(i) => r == Err::<Vec<u16>, LoadError>(LoadError::MalformedLine((i + 1) as usize)),
        },
{
    let bytes = text.as_bytes();
    let ghost t = bytes@;
    let mut words: Vec<u16> = Vec::new();
    let ghost mut done: Seq<Seq<u8>> = seq![];
    let mut line_start: usize = 0;
    let mut line_count: usize = 0;
    let mut i: usize = 0;
    assert(t.take(0) =~= seq![]);
    while i < bytes.len()
        invariant
            t == bytes@,
            t == text.spec_bytes(),
            line_start <= i <= t.len(),
            line_count == done.len(),
            line_count <= line_start,
            lines(t.take(i as int)) =~= done.push(t.subrange(line_start as int, i as int)),
            program_of(done) == Ok::<Seq<u16>, int>(words@),
        decreases t.len() - i,
    {
        let ghost before = t.take(i as int);
        assert(t.take(i + 1).drop_last() =~= before);
        proof {
            lemma_lines_nonempty(before);
        }
        if bytes[i] == NEWLINE {
            let ghost line = t.subrange(line_start as int, i as int);
            assert(lines(t.take(i + 1)) == lines(before).push(seq![]));
            assert(lines(t.take(i + 1)).drop_last() =~= done.push(line));
            assert(t.subrange(i + 1, i + 1) =~= seq![]);
            let content = parse_line(bytes, line_start, i);
            proof {
                lemma_program_prefix(done, t.subrange(line_start as int, i as int));
            }
            match content {
                LineContent::Blank => {},
                LineContent::Word(w) => {
                    words.push(w);
                },
                LineContent::Malformed => {
                    proof {
                        lemma_program_prefix_err(done.push(line), t, (i + 1) as int);
                    }
                    return Err(LoadError::MalformedLine(line_count + 1));
                },
            }
            proof {
                done = done.push(t.subrange(line_start as int, i as int));
            }
            line_count = line_count + 1;
            line_start = i + 1;
        } else {
            assert(t.subrange(line_start as int, i + 1) =~= t.subrange(line_start as int, i as int).push(bytes[i as int]));
        }
        i = i + 1;
    }
    assert(t.take(t.len() as int) =~= t);
    let content = parse_line(bytes, line_start, bytes.len());
    proof {
        lemma_program_prefix(done, t.subrange(line_start as int, t.len() as int));
    }
    match content {
        LineContent::Blank => {},
        LineContent::Word(w) => {
            words.push(w);
        },
        LineContent::Malformed => {
            return Err(LoadError::MalformedLine(line_count + 1));
        },
    }
    Ok(words)
}

} // verus!
