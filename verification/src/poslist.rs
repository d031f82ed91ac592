//! Position lists: whitespace-separated decimal numbers, three to a point.

use crate::decimal::{decimal_of_text, read_decimal, Coordinate};
use crate::error::ParseError;
use crate::vertex::Vertex;
use vstd::prelude::*;

verus! {

/// Whether `c` is white space as Unicode defines it.
pub open spec fn is_space(c: char) -> bool {
    let n = c as u32;
    ||| 0x09 <= n <= 0x0d
    ||| n == 0x20
    ||| n == 0x85
    ||| n == 0xa0
    ||| n == 0x1680
    ||| 0x2000 <= n <= 0x200a
    ||| n == 0x2028
    ||| n == 0x2029
    ||| n == 0x202f
    ||| n == 0x205f
    ||| n == 0x3000
}

/// Tells white space from other characters.
pub fn is_whitespace(c: char) -> (b: bool)
    ensures
        b == is_space(c),
{
    let n: u32 = c as u32;
    (0x09 <= n && n <= 0x0d) || n == 0x20 || n == 0x85 || n == 0xa0 || n == 0x1680 || (0x2000 <= n
        && n <= 0x200a) || n == 0x2028 || n == 0x2029 || n == 0x202f || n == 0x205f || n == 0x3000
}

/// The tokens of `text`: its longest runs of characters that are not white
/// space, from left to right.
pub open spec fn tokens(text: Seq<char>) -> Seq<Seq<char>>
    decreases text.len(),
{
    if text.len() == 0 {
        Seq::empty()
    } else {
        let before = tokens(text.drop_last());
        let c = text.last();
        if is_space(c) {
            before
        } else if text.len() >= 2 && !is_space(text[text.len() - 2]) {
            before.drop_last().push(before.last().push(c))
        } else {
            before.push(seq![c])
        }
    }
}

/// Every token holds a character, and none that is white space.
pub proof fn lemma_tokens_are_words(text: Seq<char>)
    ensures
        forall|i: int, j: int|
            0 <= i < tokens(text).len() && 0 <= j < tokens(text)[i].len() ==> !is_space(
                #[trigger] tokens(text)[i][j],
            ),
        forall|i: int| 0 <= i < tokens(text).len() ==> (#[trigger] tokens(text)[i]).len() > 0,
        text.len() > 0 && !is_space(text.last()) ==> tokens(text).len() > 0,
    decreases text.len(),
{
    if text.len() > 0 {
        let front = text.drop_last();
        lemma_tokens_are_words(front);
        let before = tokens(front);
        let c = text.last();
        if !is_space(c) && text.len() >= 2 && !is_space(text[text.len() - 2]) {
            assert(front.last() == text[text.len() - 2]);
            let word = before.last().push(c);
            assert forall|i: int, j: int|
                0 <= i < tokens(text).len() && 0 <= j < tokens(text)[i].len() implies !is_space(
                #[trigger] tokens(text)[i][j],
            ) by {
                if i < before.len() - 1 {
                    assert(tokens(text)[i] == before[i]);
                } else if j < before.last().len() {
                    assert(tokens(text)[i][j] == before[before.len() - 1][j]);
                }
            }
        } else if !is_space(c) {
            assert forall|i: int, j: int|
                0 <= i < tokens(text).len() && 0 <= j < tokens(text)[i].len() implies !is_space(
                #[trigger] tokens(text)[i][j],
            ) by {
                if i < before.len() {
                    assert(tokens(text)[i] == before[i]);
                }
            }
        }
    }
}

/// A text without white space is one token, where it holds a character.
pub proof fn lemma_word_is_one_token(text: Seq<char>)
    requires
        text.len() > 0,
        forall|i: int| 0 <= i < text.len() ==> !is_space(#[trigger] text[i]),
    ensures
        tokens(text) == seq![text],
    decreases text.len(),
{
    let front = text.drop_last();
    if text.len() >= 2 {
        lemma_word_is_one_token(front);
        assert(seq![front].drop_last().push(front.push(text.last())) =~= seq![text]) by {
            assert(front.push(text.last()) =~= text);
        }
    } else {
        assert(tokens(front) =~= Seq::empty());
        assert(seq![text.last()] =~= text);
    }
}

/// The characters of each word.
pub open spec fn spellings(words: Seq<Vec<char>>) -> Seq<Seq<char>> {
    Seq::new(words.len(), |i: int| words[i]@)
}

/// Splits `text` at white space.
pub fn split_tokens(text: &str) -> (words: Vec<Vec<char>>)
    ensures
        spellings(words@) == tokens(text@),
{
    let mut words: Vec<Vec<char>> = Vec::new();
    let mut word: Vec<char> = Vec::new();
    for c in it: text.chars()
        invariant
            it.seq() == text@,
            word@.len() > 0 <==> it.index() > 0 && !is_space(text@[it.index() - 1]),
            tokens(text@.take(it.index() as int)) == if word@.len() > 0 {
                spellings(words@).push(word@)
            } else {
                spellings(words@)
            },
    {
        let ghost i = it.index() as int;
        let ghost done = spellings(words@);
        proof {
            assert(text@.take(i + 1).drop_last() =~= text@.take(i));
            assert(text@.take(i + 1).last() == c);
            if i > 0 {
                assert(text@.take(i + 1)[i - 1] == text@[i - 1]);
            }
        }
        if is_whitespace(c) {
            if word.len() > 0 {
                let ghost w = word@;
                words.push(word);
                word = Vec::new();
                assert(spellings(words@) =~= done.push(w));
            }
        } else {
            let ghost w = word@;
            word.push(c);
            proof {
                if w.len() > 0 {
                    assert(done.push(w).drop_last() =~= done);
                } else {
                    assert(word@ =~= seq![c]);
                }
            }
        }
    }
    assert(text@.take(text@.len() as int) =~= text@);
    if word.len() > 0 {
        let ghost done = spellings(words@);
        let ghost w = word@;
        words.push(word);
        assert(spellings(words@) =~= done.push(w));
    }
    words
}

/// Whether each of `words` reads as a decimal number.
pub open spec fn all_numbers(words: Seq<Seq<char>>) -> bool {
    forall|i: int| 0 <= i < words.len() ==> decimal_of_text(#[trigger] words[i]) is Some
}

/// The numbers that `words` read as, one by one.
pub open spec fn numbers(words: Seq<Seq<char>>) -> Seq<Coordinate> {
    Seq::new(words.len(), |i: int| decimal_of_text(words[i])->0)
}

/// The points that `coordinates` give when taken in threes.
pub open spec fn points(coordinates: Seq<Coordinate>) -> Seq<Vertex> {
    Seq::new(
        (coordinates.len() / 3) as nat,
        |i: int|
            Vertex {
                x: coordinates[3 * i],
                y: coordinates[3 * i + 1],
                z: coordinates[3 * i + 2],
            },
    )
}

/// The points of `coordinates`, three coordinates to a point, or the
/// refusal of coordinates that do not come in threes.
pub open spec fn group_spec(coordinates: Seq<Coordinate>) -> Result<Seq<Vertex>, ParseError> {
    if coordinates.len() % 3 != 0 {
        Err(ParseError::IncompletePoint)
    } else {
        Ok(points(coordinates))
    }
}

/// The points that the text of a position list spells.
pub open spec fn parse_spec(text: Seq<char>) -> Result<Seq<Vertex>, ParseError> {
    let words = tokens(text);
    if !all_numbers(words) {
        Err(ParseError::Number)
    } else {
        group_spec(numbers(words))
    }
}

/// Takes coordinates in threes: the points, or the refusal of coordinates
/// that do not come in threes.
pub fn group(coordinates: &Vec<Coordinate>) -> (r: Result<Vec<Vertex>, ParseError>)
    ensures
        match r {
            Ok(v) => group_spec(coordinates@) == Ok::<Seq<Vertex>, ParseError>(v@),
            Err(e) => group_spec(coordinates@) == Err::<Seq<Vertex>, ParseError>(e),
        },
{
    if coordinates.len() % 3 != 0 {
        return Err(ParseError::IncompletePoint);
    }
    let count: usize = coordinates.len() / 3;
    let mut found: Vec<Vertex> = Vec::new();
    let mut k: usize = 0;
    while k < count
        invariant
            k <= count,
            count == coordinates@.len() / 3,
            coordinates@.len() % 3 == 0,
            coordinates@.len() <= usize::MAX,
            found@ == points(coordinates@).take(k as int),
        decreases count - k,
    {
        assert(3 * k + 2 < coordinates@.len()) by (nonlinear_arith)
            requires
                k < count,
                count == coordinates@.len() / 3,
        ;
        let v = Vertex {
            x: coordinates[3 * k],
            y: coordinates[3 * k + 1],
            z: coordinates[3 * k + 2],
        };
        found.push(v);
        k = k + 1;
        assert(found@ =~= points(coordinates@).take(k as int));
    }
    assert(found@ =~= points(coordinates@));
    Ok(found)
}

/// Reads the points of a position list. Every token must read as a decimal
/// number, and the numbers must come in threes.
pub fn parse(text: &str) -> (r: Result<Vec<Vertex>, ParseError>)
    ensures
        match r {
            Ok(v) => parse_spec(text@) == Ok::<Seq<Vertex>, ParseError>(v@),
            Err(e) => parse_spec(text@) == Err::<Seq<Vertex>, ParseError>(e),
        },
{
    let words = split_tokens(text);
    let ghost spelt = tokens(text@);
    let mut coordinates: Vec<Coordinate> = Vec::new();
    let mut i: usize = 0;
    while i < words.len()
        invariant
            i <= words.len(),
            spellings(words@) == spelt,
            spelt == tokens(text@),
            coordinates@.len() == i,
            forall|j: int|
                0 <= j < i ==> decimal_of_text(#[trigger] spelt[j]) == Some(coordinates@[j]),
        decreases words.len() - i,
    {
        assert(spelt[i as int] == words@[i as int]@);
        match read_decimal(&words[i]) {
            Some(c) => coordinates.push(c),
            None => {
                assert(decimal_of_text(spelt[i as int]) is None);
                return Err(ParseError::Number);
            },
        }
        i = i + 1;
    }
    assert(coordinates@ =~= numbers(spelt));
    group(&coordinates)
}

} // verus!
