//! Recording a game's turns tick by tick, and playing a recording back.
//!
//! A recording is a text of one line per tick. The line holds `N`, `S`,
//! `E` or `W` for a turn in that direction and `.` for a tick without one.
//! Read back, a line counts as a turn if it holds the one letter and, apart
//! from it, white space only; every other line is a tick without a turn.

use crate::config::Direction;
use crate::text::{is_space, is_whitespace};
use vstd::prelude::*;

verus! {

/// The direction a letter stands for.
pub open spec fn letter(c: char) -> Option<Direction> {
    if c == 'N' {
        Some(Direction::North)
    } else if c == 'S' {
        Some(Direction::South)
    } else if c == 'E' {
        Some(Direction::East)
    } else if c == 'W' {
        Some(Direction::West)
    } else {
        None
    }
}

/// The character a tick is recorded as.
pub open spec fn symbol(frame: Option<Direction>) -> u8 {
    match frame {
        Some(Direction::North) => 'N' as u8,
        Some(Direction::South) => 'S' as u8,
        Some(Direction::East) => 'E' as u8,
        Some(Direction::West) => 'W' as u8,
        None => '.' as u8,
    }
}

/// A recording as text: for every tick its symbol and a line feed.
pub open spec fn encoded(frames: Seq<Option<Direction>>) -> Seq<u8> {
    Seq::new(
        2 * frames.len(),
        |i: int|
            if i % 2 == 0 {
                symbol(frames[i / 2])
            } else {
                '\n' as u8
            },
    )
}

/// What has been read of a line: white space only, one letter among white
/// space, or anything else.
#[derive(Debug, Clone, Copy, PartialEq, Eq, Structural)]
pub enum LineState {
    Blank,
    Turn(Direction),
    Spoiled,
}

/// What has been read of a line once `c` follows.
pub open spec fn line_step(state: LineState, c: char) -> LineState {
    if is_space(c) {
        state
    } else {
        match state {
            LineState::Blank => match letter(c) {
                Some(dir) => LineState::Turn(dir),
                None => LineState::Spoiled,
            },
            _ => LineState::Spoiled,
        }
    }
}

/// What a whole line reads as.
pub open spec fn line_state(line: Seq<char>) -> LineState
    decreases line.len(),
{
    if line.len() == 0 {
        LineState::Blank
    } else {
        line_step(line_state(line.drop_last()), line.last())
    }
}

/// The turn a line stands for, if any.
pub open spec fn decode_line(line: Seq<char>) -> Option<Direction> {
    match line_state(line) {
        LineState::Turn(dir) => Some(dir),
        _ => None,
    }
}

/// Whether `line` holds the letter of `dir` and, apart from it, white space
/// only.
pub open spec fn spells(line: Seq<char>, dir: Direction) -> bool {
    exists|i: int|
        0 <= i < line.len() && letter(#[trigger] line[i]) == Some(dir) && forall|j: int|
            0 <= j < line.len() && j != i ==> is_space(#[trigger] line[j])
}

/// A line is blank exactly if it holds white space only, and stands for a
/// turn exactly if it spells it.
pub proof fn lemma_line_meaning(line: Seq<char>)
    ensures
        line_state(line) == LineState::Blank <==> forall|j: int|
            0 <= j < line.len() ==> is_space(#[trigger] line[j]),
        forall|dir: Direction| decode_line(line) == Some(dir) <==> #[trigger] spells(line, dir),
    decreases line.len(),
{
    if line.len() > 0 {
        let front = line.drop_last();
        let c = line.last();
        lemma_line_meaning(front);
        assert(forall|j: int| 0 <= j < front.len() ==> front[j] == line[j]);
        if is_space(c) {
            assert forall|dir: Direction| decode_line(line) == Some(dir) implies #[trigger] spells(
                line,
                dir,
            ) by {
                assert(spells(front, dir));
                let i = choose|i: int|
                    0 <= i < front.len() && letter(#[trigger] front[i]) == Some(dir)
                        && forall|j: int|
                        0 <= j < front.len() && j != i ==> is_space(#[trigger] front[j]);
                assert(letter(line[i]) == Some(dir));
            }
            assert forall|dir: Direction| #[trigger] spells(line, dir) implies decode_line(line)
                == Some(dir) by {
                let i = choose|i: int|
                    0 <= i < line.len() && letter(#[trigger] line[i]) == Some(dir) && forall|j: int|
                        0 <= j < line.len() && j != i ==> is_space(#[trigger] line[j]);
                assert(i < front.len());
                assert(letter(front[i]) == Some(dir));
                assert(spells(front, dir));
            }
        } else {
            assert(!is_space(line[line.len() - 1]));
            assert forall|dir: Direction| decode_line(line) == Some(dir) implies #[trigger] spells(
                line,
                dir,
            ) by {
                assert(line_state(front) == LineState::Blank);
                assert(letter(line[line.len() - 1]) == Some(dir));
            }
            assert forall|dir: Direction| #[trigger] spells(line, dir) implies decode_line(line)
                == Some(dir) by {
                let i = choose|i: int|
                    0 <= i < line.len() && letter(#[trigger] line[i]) == Some(dir) && forall|j: int|
                        0 <= j < line.len() && j != i ==> is_space(#[trigger] line[j]);
                assert(i == line.len() - 1);
                assert forall|j: int| 0 <= j < front.len() implies is_space(
                    #[trigger] front[j],
                ) by {
                    assert(is_space(line[j]));
                }
            }
        }
    }
}

/// The characters of `text` after its last line feed: the line that is
/// still open.
pub open spec fn open_line(text: Seq<char>) -> Seq<char>
    decreases text.len(),
{
    if text.len() == 0 || text.last() == '\n' {
        Seq::empty()
    } else {
        open_line(text.drop_last()).push(text.last())
    }
}

/// The ticks of the lines of `text` that a line feed ends.
pub open spec fn closed_frames(text: Seq<char>) -> Seq<Option<Direction>>
    decreases text.len(),
{
    if text.len() == 0 {
        Seq::empty()
    } else if text.last() == '\n' {
        closed_frames(text.drop_last()).push(decode_line(open_line(text.drop_last())))
    } else {
        closed_frames(text.drop_last())
    }
}

/// The ticks a recording holds: one for each line that a line feed ends,
/// and one for what follows the last line feed unless nothing does.
pub open spec fn decoded(text: Seq<char>) -> Seq<Option<Direction>> {
    if open_line(text).len() > 0 {
        closed_frames(text).push(decode_line(open_line(text)))
    } else {
        closed_frames(text)
    }
}

/// Collects a game's turns, one entry per tick.
pub struct Recorder {
    frames: Vec<Option<Direction>>,
}

impl View for Recorder {
    type V = Seq<Option<Direction>>;

    closed spec fn view(&self) -> Seq<Option<Direction>> {
        self.frames@
    }
}

impl Recorder {
    /// A recorder that holds no tick yet.
    pub fn new() -> (recorder: Recorder)
        ensures
            recorder@ == Seq::<Option<Direction>>::empty(),
    {
        Recorder { frames: Vec::new() }
    }

    /// Records one tick: the turn asked for on it, if any.
    pub fn record_frame(&mut self, dir: Option<Direction>)
        ensures
            final(self)@ == old(self)@.push(dir),
    {
        self.frames.push(dir);
    }

    /// The recording as the bytes of its text.
    pub fn encode(&self) -> (bytes: Vec<u8>)
        ensures
            bytes@ == encoded(self@),
    {
        let mut bytes: Vec<u8> = Vec::new();
        let mut i: usize = 0;
        while i < self.frames.len()
            invariant
                i <= self.frames@.len(),
                bytes@ == encoded(self.frames@.take(i as int)),
            decreases self.frames@.len() - i,
        {
            let byte: u8 = match self.frames[i] {
                Some(Direction::North) => 78,
                Some(Direction::South) => 83,
                Some(Direction::East) => 69,
                Some(Direction::West) => 87,
                None => 46,
            };
            bytes.push(byte);
            bytes.push(10);
            proof {
                assert(bytes@ =~= encoded(self.frames@.take(i + 1)));
            }
            i += 1;
        }
        proof {
            assert(self.frames@.take(i as int) =~= self.frames@);
        }
        bytes
    }
}

/// Hands out a recording's turns, one tick at a time.
pub struct Player {
    frames: Vec<Option<Direction>>,
    index: usize,
}

impl Player {
    #[verifier::type_invariant]
    spec fn in_range(&self) -> bool {
        self.index <= self.frames@.len()
    }

    /// The ticks that are still to come.
    pub closed spec fn remaining(&self) -> Seq<Option<Direction>> {
        self.frames@.skip(self.index as int)
    }

    /// A player for the given ticks.
    pub fn new(frames: Vec<Option<Direction>>) -> (player: Player)
        ensures
            player.remaining() == frames@,
    {
        let player = Player { frames, index: 0 };
        proof {
            assert(player.frames@.skip(0) =~= player.frames@);
        }
        player
    }

    /// Reads a recording. A line that holds one of the letters `N`, `S`,
    /// `E`, `W` and otherwise white space only is a tick with that turn;
    /// any other line is a tick without a turn.
    pub fn parse(text: &str) -> (player: Player)
        ensures
            player.remaining() == decoded(text@),
    {
        let mut frames: Vec<Option<Direction>> = Vec::new();
        let mut state: LineState = LineState::Blank;
        let mut open: bool = false;
        let ghost mut seen: Seq<char> = Seq::empty();
        for c in it: text.chars()
            invariant
                it.seq() == text@,
                seen == text@.take(it.index() as int),
                frames@ == closed_frames(seen),
                state == line_state(open_line(seen)),
                open == (open_line(seen).len() > 0),
        {
            proof {
                let next = seen.push(c);
                assert(next.drop_last() =~= seen);
                assert(open_line(seen).push(c).drop_last() =~= open_line(seen));
                assert(next =~= text@.take(it.index() + 1));
                seen = next;
            }
            if c == '\n' {
                let frame: Option<Direction> = match state {
                    LineState::Turn(dir) => Some(dir),
                    _ => None,
                };
                frames.push(frame);
                state = LineState::Blank;
                open = false;
            } else {
                state = step_line(state, c);
                open = true;
            }
        }
        proof {
            assert(seen =~= text@);
        }
        if open {
            let frame: Option<Direction> = match state {
                LineState::Turn(dir) => Some(dir),
                _ => None,
            };
            frames.push(frame);
        }
        Player::new(frames)
    }

    /// The next tick of the recording: `Some` with the turn recorded for
    /// it, if any, or `None` once the recording is over.
    pub fn next_frame(&mut self) -> (frame: Option<Option<Direction>>)
        ensures
            old(self).remaining().len() > 0 ==> frame == Some(old(self).remaining()[0])
                && final(self).remaining() == old(self).remaining().drop_first(),
            old(self).remaining().len() == 0 ==> frame is None && final(self).remaining() == old(
                self,
            ).remaining(),
    {
        proof {
            use_type_invariant(&*self);
        }
        if self.index < self.frames.len() {
            let val: Option<Direction> = self.frames[self.index];
            self.index += 1;
            proof {
                assert(self.frames@.skip(self.index as int) =~= old(self).frames@.skip(
                    old(self).index as int,
                ).drop_first());
            }
            Some(val)
        } else {
            None
        }
    }
}

/// What has been read of a line once `c` follows.
fn step_line(state: LineState, c: char) -> (next: LineState)
    ensures
        next == line_step(state, c),
{
    if is_whitespace(c) {
        state
    } else {
        match state {
            LineState::Blank => {
                if c == 'N' {
                    LineState::Turn(Direction::North)
                } else if c == 'S' {
                    LineState::Turn(Direction::South)
                } else if c == 'E' {
                    LineState::Turn(Direction::East)
                } else if c == 'W' {
                    LineState::Turn(Direction::West)
                } else {
                    LineState::Spoiled
                }
            },
            _ => LineState::Spoiled,
        }
    }
}

} // verus!
