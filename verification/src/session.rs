//! What a console session decides: who plays first, which move a line of
//! input names, and how a turn ends.

use vstd::prelude::*;
use vstd::string::StrSliceExecFns;
use crate::board::{opponent, Cell};
use crate::game::Gomoku;
use crate::rules::{is_full, winner};

verus! {

/// White space, as Unicode defines it.
pub open spec fn is_space(c: char) -> bool {
    let u = c as u32;
    ||| 0x09 <= u <= 0x0d
    ||| u == 0x20
    ||| u == 0x85
    ||| u == 0xa0
    ||| u == 0x1680
    ||| 0x2000 <= u <= 0x200a
    ||| u == 0x2028
    ||| u == 0x2029
    ||| u == 0x202f
    ||| u == 0x205f
    ||| u == 0x3000
}

/// One of the ten decimal digits of ASCII.
pub open spec fn is_digit(c: char) -> bool {
    0x30 <= c as u32 <= 0x39
}

/// The value of a decimal digit; 0 for any other character.
pub open spec fn digit_value(c: char) -> nat {
    if is_digit(c) {
        (c as u32 - 0x30) as nat
    } else {
        0
    }
}

/// The number that a sequence of decimal digits writes.
pub open spec fn decimal(s: Seq<char>) -> nat
    decreases s.len(),
{
    if s.len() == 0 {
        0
    } else {
        decimal(s.drop_last()) * 10 + digit_value(s.last())
    }
}

/// Every character of `s` is a decimal digit.
pub open spec fn all_digits(s: Seq<char>) -> bool {
    forall|i: int| 0 <= i < s.len() ==> is_digit(#[trigger] s[i])
}

/// The number that a word stands for: an optional `+`, then one decimal
/// digit or more, with a value that fits a `usize`. Any other word stands
/// for no number.
pub open spec fn number_of(word: Seq<char>) -> Option<nat> {
    let digits = if word.len() > 0 && word[0] == '+' {
        word.drop_first()
    } else {
        word
    };
    if digits.len() > 0 && all_digits(digits) && decimal(digits) <= usize::MAX {
        Some(decimal(digits))
    } else {
        None
    }
}

/// Where the word ends that holds the character at `i`: the index of the
/// next space at or after `i`, or the length of `s`.
pub open spec fn word_end(s: Seq<char>, i: int) -> int
    decreases s.len() - i,
{
    if i < 0 || i >= s.len() || is_space(s[i]) {
        i
    } else {
        word_end(s, i + 1)
    }
}

/// A word ends at or after any of its characters, and within the text.
pub proof fn lemma_word_end_bounds(s: Seq<char>, i: int)
    requires
        0 <= i <= s.len(),
    ensures
        i <= word_end(s, i) <= s.len(),
        i < s.len() && !is_space(s[i]) ==> i < word_end(s, i),
    decreases s.len() - i,
{
    if i < s.len() && !is_space(s[i]) {
        lemma_word_end_bounds(s, i + 1);
    }
}

/// The numbers that the words of `s` from the index `i` on stand for, in
/// their order. Words are what white space separates; a word that stands for
/// no number is passed over.
pub open spec fn numbers_from(s: Seq<char>, i: int) -> Seq<nat>
    decreases s.len() - i,
{
    if i < 0 || i >= s.len() {
        Seq::empty()
    } else if is_space(s[i]) {
        numbers_from(s, i + 1)
    } else {
        let j = word_end(s, i + 1);
        proof {
            lemma_word_end_bounds(s, i + 1);
        }
        match number_of(s.subrange(i, j)) {
            Some(n) => seq![n] + numbers_from(s, j),
            None => numbers_from(s, j),
        }
    }
}

/// The move that a line of input names: its two numbers, row first, where
/// it holds exactly two.
pub open spec fn move_in(s: Seq<char>) -> Option<(nat, nat)> {
    let numbers = numbers_from(s, 0);
    if numbers.len() == 2 {
        Some((numbers[0], numbers[1]))
    } else {
        None
    }
}

/// The test that a character is no white space.
pub open spec fn is_ink() -> spec_fn(char) -> bool {
    |c: char| !is_space(c)
}

/// The answer is a single `y` or `Y`, with or without white space around it.
pub open spec fn says_yes(s: Seq<char>) -> bool {
    let ink = s.filter(is_ink());
    ink == seq!['y'] || ink == seq!['Y']
}

/// The digits written so far are worth no more than the whole number.
pub proof fn lemma_decimal_prefix(s: Seq<char>, k: int)
    requires
        0 <= k <= s.len(),
    ensures
        decimal(s.subrange(0, k)) <= decimal(s),
    decreases s.len() - k,
{
    if k < s.len() {
        lemma_decimal_prefix(s, k + 1);
        assert(s.subrange(0, k + 1).drop_last() =~= s.subrange(0, k));
    } else {
        assert(s.subrange(0, k) =~= s);
    }
}

/// Whether a character is white space.
pub fn is_whitespace(c: char) -> (space: bool)
    ensures
        space == is_space(c),
{
    let u: u32 = c as u32;
    (0x09 <= u && u <= 0x0d) || u == 0x20 || u == 0x85 || u == 0xa0 || u == 0x1680 || (0x2000 <= u
        && u <= 0x200a) || u == 0x2028 || u == 0x2029 || u == 0x202f || u == 0x205f || u == 0x3000
}

/// The number that the characters of `line` from `from` up to `to` stand
/// for, if they stand for one.
fn parse_number(line: &str, from: usize, to: usize) -> (number: Option<usize>)
    requires
        from <= to <= line@.len(),
    ensures
        match number_of(line@.subrange(from as int, to as int)) {
            Some(n) => number == Some(n as usize),
            None => number is None,
        },
{
    let ghost word = line@.subrange(from as int, to as int);
    let mut start = from;
    if from < to && line.get_char(from) == '+' {
        start = from + 1;
    }
    let ghost digits = line@.subrange(start as int, to as int);
    assert(digits =~= if word.len() > 0 && word[0] == '+' {
        word.drop_first()
    } else {
        word
    });
    if start == to {
        return None;
    }
    let mut value: usize = 0;
    let mut k = start;
    while k < to
        invariant
            start <= k <= to <= line@.len(),
            digits == line@.subrange(start as int, to as int),
            number_of(line@.subrange(from as int, to as int)) == (if all_digits(digits) && decimal(
                digits,
            ) <= usize::MAX {
                Some(decimal(digits))
            } else {
                None
            }),
            all_digits(digits.subrange(0, k - start)),
            value == decimal(digits.subrange(0, k - start)),
        decreases to - k,
    {
        let c = line.get_char(k);
        let u: u32 = c as u32;
        if u < 0x30 || u > 0x39 {
            assert(!is_digit(digits[k - start]));
            return None;
        }
        let d: usize = (u - 0x30) as usize;
        let ghost longer = digits.subrange(0, k + 1 - start);
        proof {
            assert(longer.drop_last() =~= digits.subrange(0, k - start));
            assert(longer.last() == c);
            lemma_decimal_prefix(digits, k + 1 - start);
        }
        let next = match value.checked_mul(10) {
            Some(tens) => tens.checked_add(d),
            None => None,
        };
        match next {
            Some(v) => {
                value = v;
            },
            None => {
                return None;
            },
        }
        k += 1;
    }
    assert(digits.subrange(0, k - start) =~= digits);
    Some(value)
}

/// The move that a line of input names: `(row, col)` where the line holds
/// exactly two numbers, `None` otherwise.
pub fn parse_move(line: &str) -> (mv: Option<(usize, usize)>)
    ensures
        match move_in(line@) {
            Some((r, c)) => mv == Some((r as usize, c as usize)),
            None => mv is None,
        },
{
    let ghost s = line@;
    let n = line.unicode_len();
    let mut count: usize = 0;
    let mut first: usize = 0;
    let mut second: usize = 0;
    let ghost mut found: Seq<nat> = Seq::empty();
    let mut i: usize = 0;
    while i < n
        invariant
            s == line@,
            n == s.len(),
            i <= n,
            count == found.len(),
            count <= i,
            numbers_from(s, 0) == found + numbers_from(s, i as int),
            count >= 1 ==> first == found[0],
            count >= 2 ==> second == found[1],
        decreases n - i,
    {
        let c = line.get_char(i);
        if is_whitespace(c) {
            i += 1;
        } else {
            let mut j = i + 1;
            while j < n && !is_whitespace(line.get_char(j))
                invariant
                    s == line@,
                    n == s.len(),
                    i < j <= n,
                    word_end(s, i + 1) == word_end(s, j as int),
                decreases n - j,
            {
                j += 1;
            }
            assert(j == word_end(s, i + 1));
            let ghost rest = numbers_from(s, j as int);
            match parse_number(line, i, j) {
                Some(v) => {
                    proof {
                        assert(found + (seq![v as nat] + rest) =~= found.push(v as nat) + rest);
                        found = found.push(v as nat);
                    }
                    if count == 0 {
                        first = v;
                    } else if count == 1 {
                        second = v;
                    }
                    count += 1;
                },
                None => {},
            }
            i = j;
        }
    }
    assert(numbers_from(s, 0) =~= found);
    if count == 2 {
        Some((first, second))
    } else {
        None
    }
}

/// Whether the answer to "do you want to move first?" is yes: a single `y`
/// or `Y`, with or without white space around it.
pub fn wants_first(answer: &str) -> (yes: bool)
    ensures
        yes == says_yes(answer@),
{
    let ghost s = answer@;
    let n = answer.unicode_len();
    let mut marks: usize = 0;
    let mut yes = false;
    assert(s.take(0).filter(is_ink()) =~= Seq::<char>::empty()) by {
        reveal(Seq::filter);
    }
    for i in 0..n
        invariant
            s == answer@,
            n == s.len(),
            marks <= i,
            marks == s.take(i as int).filter(is_ink()).len(),
            yes == says_yes(s.take(i as int)),
    {
        let c = answer.get_char(i);
        proof {
            let ink = s.take(i as int).filter(is_ink());
            assert(s.take(i + 1) =~= s.take(i as int).push(c));
            s.take(i as int).lemma_filter_push(c, is_ink());
            if !is_space(c) {
                if marks == 0 {
                    assert(ink.push(c) =~= seq![c]);
                    assert(seq!['y'][0] == 'y' && seq!['Y'][0] == 'Y');
                } else {
                    assert(ink.push(c).len() >= 2);
                    assert(seq!['y'].len() == 1 && seq!['Y'].len() == 1);
                }
            }
        }
        if !is_whitespace(c) {
            yes = marks == 0 && (c == 'y' || c == 'Y');
            marks += 1;
        }
    }
    assert(s.take(n as int) =~= s);
    yes
}

/// How a turn ends.
#[derive(Clone, Copy, PartialEq, Eq, Debug, Structural)]
pub enum TurnResult {
    /// A line of five stands: the game is won by this colour.
    Won(Cell),
    /// The board is full and nobody has won.
    Draw,
    /// The game goes on, and the turn has passed to the other colour.
    Continue,
}

impl Gomoku {
    /// Ends the turn after a stone was placed: the game is won where a line
    /// of five stands, drawn where the board is full, and goes on otherwise,
    /// with the other colour to move.
    pub fn finish_turn(&mut self) -> (result: TurnResult)
        ensures
            final(self)@.board == old(self)@.board,
            match winner(old(self)@.board) {
                Some(side) => result == TurnResult::Won(side) && final(self)@ == old(self)@,
                None => if is_full(old(self)@.board) {
                    result == TurnResult::Draw && final(self)@ == old(self)@
                } else {
                    result == TurnResult::Continue && final(self)@.current_player == opponent(
                        old(self)@.current_player,
                    )
                },
            },
    {
        match self.check_winner() {
            Some(side) => TurnResult::Won(side),
            None => {
                if self.is_board_full() {
                    TurnResult::Draw
                } else {
                    self.switch_player();
                    TurnResult::Continue
                }
            },
        }
    }
}

} // verus!
