//! The command-loop state machine.
//!
//! The loop owns one line of input and a bounded history of submitted
//! lines. Each key event is one step: printable characters grow the buffer,
//! backspace shrinks it, escape — or `q` on an empty buffer — terminates,
//! and enter either terminates (on the commands `quit` and `cd ..`) or
//! submits the buffer into the history, evicting the oldest entry when the
//! history is full. The caller performs the screen work between steps.

use vstd::prelude::*;
use crate::text::push_char;

verus! {

/// One key event delivered by the terminal layer.
#[derive(Clone, Copy, PartialEq, Eq, Structural, Debug)]
pub enum Key {
    Char(char),
    Enter,
    Backspace,
    Escape,
}

/// What one step of the loop asks the caller to do next.
#[derive(Clone, Copy, PartialEq, Eq, Structural, Debug)]
pub enum Outcome {
    /// Keep reading; only the input row may have changed.
    Continue,
    /// A line entered the history: echo it, then keep reading.
    Submitted,
    /// The loop is over.
    Terminated,
}

/// Characters the buffer accepts: no control characters.
pub open spec fn is_printable(c: char) -> bool {
    32 <= (c as u32) && !(127 <= (c as u32) && (c as u32) < 160)
}

/// Blanks that may separate command words.
pub open spec fn is_blank(c: char) -> bool {
    c == ' ' || c == '\t'
}

/// The literal command that terminates the loop.
pub open spec fn quit_word() -> Seq<char> {
    seq!['q', 'u', 'i', 't']
}

/// Whether the buffer is exactly the `quit` command.
pub open spec fn is_quit(s: Seq<char>) -> bool {
    s == quit_word()
}

/// Whether the buffer is `cd`, one or more blanks, then `..`.
pub open spec fn is_cd_up(s: Seq<char>) -> bool {
    &&& s.len() >= 5
    &&& s[0] == 'c'
    &&& s[1] == 'd'
    &&& s[s.len() - 2] == '.'
    &&& s[s.len() - 1] == '.'
    &&& forall|k: int| 2 <= k < s.len() - 2 ==> is_blank(#[trigger] s[k])
}

/// The mathematical state of the loop: the line being typed, the submitted
/// lines from oldest to newest, and the history's capacity.
pub ghost struct InputModel {
    pub buffer: Seq<char>,
    pub history: Seq<Seq<char>>,
    pub capacity: nat,
}

/// The state after one key event.
pub open spec fn step_model(m: InputModel, key: Key) -> InputModel {
    match key {
        Key::Escape => m,
        Key::Char(c) => if m.buffer.len() == 0 && c == 'q' {
            m
        } else {
            InputModel { buffer: m.buffer.push(c), history: m.history, capacity: m.capacity }
        },
        Key::Backspace => InputModel {
            buffer: if m.buffer.len() > 0 {
                m.buffer.drop_last()
            } else {
                m.buffer
            },
            history: m.history,
            capacity: m.capacity,
        },
        Key::Enter => if is_quit(m.buffer) || is_cd_up(m.buffer) {
            m
        } else {
            InputModel {
                buffer: Seq::empty(),
                history: (if m.history.len() >= m.capacity {
                    m.history.drop_first()
                } else {
                    m.history
                }).push(m.buffer),
                capacity: m.capacity,
            }
        },
    }
}

/// What one key event asks the caller to do.
pub open spec fn step_outcome(m: InputModel, key: Key) -> Outcome {
    match key {
        Key::Escape => Outcome::Terminated,
        Key::Char(c) => if m.buffer.len() == 0 && c == 'q' {
            Outcome::Terminated
        } else {
            Outcome::Continue
        },
        Key::Backspace => Outcome::Continue,
        Key::Enter => if is_quit(m.buffer) || is_cd_up(m.buffer) {
            Outcome::Terminated
        } else {
            Outcome::Submitted
        },
    }
}

/// The live state of the command loop.
pub struct InputState {
    pub buffer: Vec<char>,
    pub history: Vec<Vec<char>>,
    pub capacity: usize,
    pub input_row: u16,
    pub output_row: u16,
}

impl InputState {
    /// The state as the step function sees it.
    pub open spec fn model(&self) -> InputModel {
        InputModel {
            buffer: self.buffer@,
            history: self.history@.map_values(|v: Vec<char>| v@),
            capacity: self.capacity as nat,
        }
    }

    /// Well-formed: the history never exceeds its capacity and the buffer
    /// holds printable characters only.
    pub open spec fn wf(&self) -> bool {
        &&& self.capacity >= 1
        &&& self.history@.len() <= self.capacity
        &&& forall|i: int| 0 <= i < self.buffer@.len() ==> is_printable(#[trigger] self.buffer@[i])
    }

    /// A fresh loop state for a terminal of `rows` rows: empty buffer and
    /// history, the input row at the bottom and the echo row just above it.
    pub fn new(capacity: usize, rows: u16) -> (r: InputState)
        requires
            capacity >= 1,
        ensures
            r.wf(),
            r.model().buffer =~= Seq::<char>::empty(),
            r.model().history =~= Seq::<Seq<char>>::empty(),
            r.capacity == capacity,
            r.input_row == if rows >= 1 {
                rows - 1
            } else {
                0
            },
            r.output_row == if rows >= 2 {
                rows - 2
            } else {
                0
            },
    {
        InputState {
            buffer: Vec::new(),
            history: Vec::new(),
            capacity,
            input_row: if rows >= 1 {
                rows - 1
            } else {
                0
            },
            output_row: if rows >= 2 {
                rows - 2
            } else {
                0
            },
        }
    }

    fn buffer_is_quit(&self) -> (r: bool)
        ensures
            r == is_quit(self.buffer@),
    {
        if self.buffer.len() != 4 {
            return false;
        }
        let r = self.buffer[0] == 'q' && self.buffer[1] == 'u' && self.buffer[2] == 'i'
            && self.buffer[3] == 't';
        proof {
            if r {
                assert(self.buffer@ =~= quit_word());
            } else {
                assert(self.buffer@ != quit_word());
            }
        }
        r
    }

    fn buffer_is_cd_up(&self) -> (r: bool)
        ensures
            r == is_cd_up(self.buffer@),
    {
        let n = self.buffer.len();
        if n < 5 {
            return false;
        }
        if !(self.buffer[0] == 'c' && self.buffer[1] == 'd') {
            return false;
        }
        if !(self.buffer[n - 2] == '.' && self.buffer[n - 1] == '.') {
            return false;
        }
        let mut k: usize = 2;
        while k < n - 2
            invariant
                2 <= k <= n - 2,
                n == self.buffer@.len(),
                5 <= n,
                forall|j: int| 2 <= j < k ==> is_blank(#[trigger] self.buffer@[j]),
            decreases n - k,
        {
            let c = self.buffer[k];
            if !(c == ' ' || c == '\t') {
                return false;
            }
            k = k + 1;
        }
        true
    }

    /// Feeds one key event to the loop. A terminating event leaves the
    /// state unchanged; in particular the commands `quit` and `cd ..` are
    /// only recognized, never recorded in the history.
    pub fn step(&mut self, key: Key) -> (r: Outcome)
        requires
            old(self).wf(),
            key matches Key::Char(c) ==> is_printable(c),
        ensures
            final(self).wf(),
            final(self).model() == step_model(old(self).model(), key),
            r == step_outcome(old(self).model(), key),
            final(self).capacity == old(self).capacity,
            final(self).input_row == old(self).input_row,
            final(self).output_row == old(self).output_row,
    {
        match key {
            Key::Escape => Outcome::Terminated,
            Key::Char(c) => {
                if self.buffer.len() == 0 && c == 'q' {
                    Outcome::Terminated
                } else {
                    self.buffer.push(c);
                    Outcome::Continue
                }
            },
            Key::Backspace => {
                if self.buffer.len() > 0 {
                    self.buffer.pop();
                    proof {
                        assert(self.buffer@ =~= old(self).buffer@.drop_last());
                    }
                }
                Outcome::Continue
            },
            Key::Enter => {
                if self.buffer_is_quit() || self.buffer_is_cd_up() {
                    Outcome::Terminated
                } else {
                    if self.history.len() >= self.capacity {
                        self.history.remove(0);
                        proof {
                            assert(self.history@ =~= old(self).history@.drop_first());
                        }
                    }
                    let line = clone_chars(&self.buffer);
                    self.history.push(line);
                    self.buffer.clear();
                    proof {
                        let m = old(self).model();
                        let pushed_on = if m.history.len() >= m.capacity {
                            m.history.drop_first()
                        } else {
                            m.history
                        };
                        assert(self.history@.map_values(|v: Vec<char>| v@) =~= pushed_on.push(
                            m.buffer,
                        ));
                        assert(self.model() == step_model(old(self).model(), key));
                    }
                    Outcome::Submitted
                }
            },
        }
    }

    /// The input row's content: a `:` prompt followed by the buffer.
    pub fn input_line(&self) -> (r: String)
        ensures
            r@ == seq![':'] + self.buffer@,
    {
        let mut line = String::new();
        push_char(&mut line, ':');
        append_chars(&mut line, &self.buffer);
        proof {
            assert(line@ =~= seq![':'] + self.buffer@);
        }
        line
    }

    /// The echo row's content: the most recently submitted line, empty
    /// while nothing was submitted.
    pub fn echo_line(&self) -> (r: String)
        ensures
            self.history@.len() > 0 ==> r@ == self.model().history.last(),
            self.history@.len() == 0 ==> r@ =~= Seq::<char>::empty(),
    {
        let mut line = String::new();
        if self.history.len() > 0 {
            append_chars(&mut line, &self.history[self.history.len() - 1]);
        }
        line
    }
}

/// A fresh copy of a character vector.
fn clone_chars(v: &Vec<char>) -> (r: Vec<char>)
    ensures
        r@ == v@,
{
    let mut r: Vec<char> = Vec::new();
    let n = v.len();
    let mut i: usize = 0;
    while i < n
        invariant
            i <= n,
            n == v@.len(),
            r@ == v@.take(i as int),
        decreases n - i,
    {
        r.push(v[i]);
        proof {
            assert(r@ =~= v@.take(i + 1));
        }
        i = i + 1;
    }
    proof {
        assert(v@.take(n as int) =~= v@);
    }
    r
}

/// Appends every character of `v` to `s`.
fn append_chars(s: &mut String, v: &Vec<char>)
    ensures
        final(s)@ == old(s)@ + v@,
{
    let n = v.len();
    let mut i: usize = 0;
    while i < n
        invariant
            i <= n,
            n == v@.len(),
            s@ == old(s)@ + v@.take(i as int),
        decreases n - i,
    {
        push_char(s, v[i]);
        proof {
            assert(old(s)@ + v@.take(i + 1) =~= (old(s)@ + v@.take(i as int)).push(v@[i as int]));
        }
        i = i + 1;
    }
    proof {
        assert(old(s)@ + v@.take(n as int) =~= old(s)@ + v@);
    }
}

/// History never exceeds its configured capacity: however full it is, one
/// more step leaves at most `capacity` entries, the oldest evicted first.
pub proof fn lemma_history_bounded(m: InputModel, key: Key)
    requires
        m.capacity >= 1,
        m.history.len() <= m.capacity,
    ensures
        step_model(m, key).history.len() <= m.capacity,
{
}

/// `q` terminates only on an empty buffer: as the very first character it
/// ends the loop and changes nothing, while after any other character it is
/// appended to the buffer like any printable character.
pub proof fn lemma_q_quits_only_on_empty(m: InputModel)
    ensures
        m.buffer.len() == 0 ==> step_outcome(m, Key::Char('q')) == Outcome::Terminated
            && step_model(m, Key::Char('q')) == m,
        m.buffer.len() > 0 ==> step_outcome(m, Key::Char('q')) == Outcome::Continue && step_model(
            m,
            Key::Char('q'),
        ).buffer == m.buffer.push('q') && step_model(m, Key::Char('q')).history == m.history,
{
}

} // verus!
