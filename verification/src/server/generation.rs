//! The loop that writes a completion, one token after the other.
//!
//! Each turn of the loop samples a token, which is not done here. The token ends the completion,
//! or it is written out and evaluated at the next position; what it is written as, and the
//! evaluation, are not done here either. What is decided from turn to turn is.
use vstd::prelude::*;

use crate::server::settings::is_empty;

verus! {

/// Why a completion ended.
#[derive(Clone, Copy, Debug, PartialEq, Eq, Structural)]
pub enum Finish {
    /// It has as many tokens as were asked for.
    Length,
    /// A stop token came.
    Stop,
}

impl Finish {
    /// The reason as replies give it.
    pub open spec fn text(self) -> Seq<char> {
        match self {
            Finish::Length => "length"@,
            Finish::Stop => "stop"@,
        }
    }

    /// The reason as replies give it.
    pub fn reason(self) -> (text: String)
        ensures
            text@ == self.text(),
    {
        match self {
            Finish::Length => "length".to_owned(),
            Finish::Stop => "stop".to_owned(),
        }
    }
}

/// How many of the latest tokens count against repetition.
pub const REP_WINDOW: usize = 64;

/// The latest tokens, as many as count against repetition.
pub open spec fn window(tokens: Seq<u32>) -> Seq<u32> {
    if tokens.len() <= REP_WINDOW {
        tokens
    } else {
        tokens.skip(tokens.len() - REP_WINDOW)
    }
}

/// A completion that is being written.
pub struct Generation {
    pub max_tokens: usize,
    pub stops: Vec<u32>,
    /// The position at which the next token is evaluated.
    pub pos: usize,
    /// The latest tokens, for the repetition penalty.
    pub recent: Vec<u32>,
    /// What is written so far.
    pub out: String,
    /// How many tokens that is.
    pub count: usize,
    pub finish: Finish,
}

/// What becomes of a sampled token.
#[derive(Clone, Copy, Debug, PartialEq, Eq, Structural)]
pub enum Turn {
    /// It ends the completion.
    Stop,
    /// It is written out as the tokenizer's `token`, and evaluated at this position.
    Evaluate { next: usize, token: u32, pos: usize },
}

/// The result of a completion.
pub struct GenResult {
    pub text: String,
    pub tokens_gen: usize,
    pub finish_reason: Finish,
}

impl Generation {
    /// The completion may go on: no stop token came, and it is not as long as was asked for.
    pub open spec fn goes_on(self) -> bool {
        self.finish == Finish::Length && self.count < self.max_tokens
    }

    /// What `before` becomes with this token and its text.
    pub open spec fn grew(self, before: Generation, token: u32, word: Seq<char>) -> bool {
        &&& self.max_tokens == before.max_tokens
        &&& self.stops == before.stops
        &&& self.pos == before.pos + 1
        &&& self.recent@ == window(before.recent@.push(token))
        &&& self.out@ == before.out@ + word
        &&& self.count == before.count + 1
        &&& self.finish == before.finish
    }

    /// What `before` becomes with a stop token.
    pub open spec fn ended(self, before: Generation) -> bool {
        &&& self.max_tokens == before.max_tokens
        &&& self.stops == before.stops
        &&& self.pos == before.pos
        &&& self.recent@ == before.recent@
        &&& self.out@ == before.out@
        &&& self.count == before.count
        &&& self.finish == Finish::Stop
    }

    /// A completion of a prompt with `prompt_len` tokens.
    pub fn new(prompt_len: usize, max_tokens: usize, stops: Vec<u32>) -> (g: Self)
        ensures
            g.max_tokens == max_tokens,
            g.stops == stops,
            g.pos == prompt_len,
            g.recent@ == Seq::<u32>::empty(),
            g.out@ == Seq::<char>::empty(),
            g.count == 0,
            g.finish == Finish::Length,
    {
        Generation {
            max_tokens,
            stops,
            pos: prompt_len,
            recent: Vec::new(),
            out: String::new(),
            count: 0,
            finish: Finish::Length,
        }
    }

    /// Whether another token is to be sampled.
    pub fn wants_token(&self) -> (wants: bool)
        ensures
            wants == self.goes_on(),
    {
        self.finish == Finish::Length && self.count < self.max_tokens
    }

    /// Takes a sampled token: a stop token ends the completion.
    pub fn take(&mut self, next: usize) -> (turn: Turn)
        requires
            old(self).goes_on(),
        ensures
            if old(self).stops@.contains(next as u32) {
                turn == Turn::Stop && final(self).ended(*old(self))
            } else {
                turn == (Turn::Evaluate { next, token: next as u32, pos: old(self).pos })
                    && *final(self) == *old(self)
            },
    {
        let token: u32 = next as u32;
        if holds(&self.stops, token) {
            self.finish = Finish::Stop;
            Turn::Stop
        } else {
            Turn::Evaluate { next, token, pos: self.pos }
        }
    }

    /// Takes the text of a token that was evaluated, and says whether there is any text.
    pub fn write(&mut self, token: u32, word: &str) -> (shows: bool)
        requires
            old(self).goes_on(),
            old(self).recent@.len() <= REP_WINDOW,
            old(self).pos < usize::MAX,
        ensures
            final(self).grew(*old(self), token, word@),
            final(self).recent@.len() <= REP_WINDOW,
            shows == (word@.len() > 0),
    {
        let ghost before = self.recent@;
        if self.recent.len() == REP_WINDOW {
            self.recent.remove(0);
        }
        self.recent.push(token);
        assert(self.recent@ =~= window(before.push(token)));
        self.pos += 1;
        self.count += 1;
        let shows = !is_empty(word);
        if shows {
            self.out.append(word);
        }
        assert(self.out@ =~= old(self).out@ + word@);
        shows
    }

    /// What came of the completion.
    pub fn result(self) -> (result: GenResult)
        ensures
            result.text == self.out,
            result.tokens_gen == self.count,
            result.finish_reason == self.finish,
    {
        GenResult { text: self.out, tokens_gen: self.count, finish_reason: self.finish }
    }
}

fn holds(tokens: &Vec<u32>, token: u32) -> (found: bool)
    ensures
        found == tokens@.contains(token),
{
    let mut i: usize = 0;
    while i < tokens.len()
        invariant
            i <= tokens@.len(),
            forall|j: int| 0 <= j < i ==> tokens@[j] != token,
        decreases tokens@.len() - i,
    {
        if tokens[i] == token {
            return true;
        }
        i += 1;
    }
    false
}

/// Dropping the oldest token whenever the window is full keeps the latest tokens of all.
pub proof fn law_window_slides(tokens: Seq<u32>, token: u32)
    ensures
        window(window(tokens).push(token)) == window(tokens.push(token)),
{
    assert(window(window(tokens).push(token)) =~= window(tokens.push(token)));
}

/// A completion that nothing was written of yet.
pub open spec fn is_fresh(g: Generation, prompt_len: int) -> bool {
    &&& g.pos == prompt_len
    &&& g.recent@.len() == 0
    &&& g.out@.len() == 0
    &&& g.count == 0
    &&& g.finish == Finish::Length
}

/// `states` are those of a completion that took these tokens, with these texts, one after the
/// other.
pub open spec fn is_run(
    states: Seq<Generation>,
    tokens: Seq<u32>,
    words: Seq<Seq<char>>,
) -> bool {
    &&& states.len() == tokens.len() + 1
    &&& words.len() == tokens.len()
    &&& forall|i: int|
        0 <= i < tokens.len() ==> #[trigger] takes(states[i], states[i + 1], tokens[i], words[i])
}

/// One turn in which a token is written.
pub open spec fn takes(
    before: Generation,
    after: Generation,
    token: u32,
    word: Seq<char>,
) -> bool {
    &&& before.goes_on()
    &&& !before.stops@.contains(token)
    &&& after.grew(before, token, word)
}

/// What a completion holds after any number of turns: the texts of its tokens one after the
/// other, one token for each turn and never more than were asked for, each evaluated at the
/// position after the one before, and the latest of them in the repetition window.
pub proof fn law_run(
    states: Seq<Generation>,
    tokens: Seq<u32>,
    words: Seq<Seq<char>>,
    prompt_len: int,
)
    requires
        is_run(states, tokens, words),
        is_fresh(states[0], prompt_len),
    ensures
        states.last().out@ == crate::text::concatenated(words),
        states.last().count == tokens.len(),
        states.last().count <= states[0].max_tokens,
        states.last().pos == prompt_len + tokens.len(),
        states.last().recent@ == window(tokens),
        states.last().finish == Finish::Length,
        states.last().max_tokens == states[0].max_tokens,
        states.last().stops == states[0].stops,
    decreases tokens.len(),
{
    let n = tokens.len();
    if n == 0 {
        assert(states.last() == states[0]);
        assert(states.last().out@ =~= crate::text::concatenated(words));
        assert(states.last().recent@ =~= window(tokens));
    } else {
        let s = states.drop_last();
        let t = tokens.drop_last();
        let w = words.drop_last();
        assert forall|i: int| 0 <= i < t.len() implies #[trigger] takes(
            s[i],
            s[i + 1],
            t[i],
            w[i],
        ) by {
            assert(takes(states[i], states[i + 1], tokens[i], words[i]));
        }
        law_run(s, t, w, prompt_len);
        assert(takes(states[n - 1], states[n - 1 + 1], tokens[n - 1], words[n - 1]));
        law_window_slides(t, tokens.last());
        assert(t.push(tokens.last()) =~= tokens);
    }
}

/// The completion ends with the first stop token, or when it has as many tokens as were asked
/// for; the reason says which.
pub proof fn law_finish(
    states: Seq<Generation>,
    tokens: Seq<u32>,
    words: Seq<Seq<char>>,
    prompt_len: int,
    next: usize,
    end: Generation,
)
    requires
        is_run(states, tokens, words),
        is_fresh(states[0], prompt_len),
        if states.last().goes_on() {
            states.last().stops@.contains(next as u32) && end.ended(states.last())
        } else {
            end == states.last()
        },
    ensures
        end.out@ == crate::text::concatenated(words),
        end.count == tokens.len(),
        end.finish == Finish::Length <==> tokens.len() == states[0].max_tokens,
        end.finish == Finish::Stop ==> states[0].stops@.contains(next as u32),
        !end.goes_on(),
{
    law_run(states, tokens, words, prompt_len);
}

/// The repetition window holds the latest 64 tokens, or all of them where there are fewer.
pub proof fn law_window_holds_the_latest(tokens: Seq<u32>, i: int)
    ensures
        window(tokens).len() == if tokens.len() < 64 {
            tokens.len()
        } else {
            64
        },
        0 <= i < window(tokens).len() ==> window(tokens)[window(tokens).len() - 1 - i]
            == tokens[tokens.len() - 1 - i],
{
}

} // verus!
