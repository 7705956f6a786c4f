//! A completion that is sent piece by piece.
use vstd::prelude::*;

use crate::server::chat::{
    closing_chunk, content_chunk, end_of_stream, opening_chunk, ChatCompletionChunk,
};
use crate::server::generation::Finish;
use crate::server::settings::is_empty;

verus! {

/// How far the pieces have come.
#[derive(Clone, Copy, Debug, PartialEq, Eq, Structural)]
pub enum StreamStage {
    /// Nothing was sent.
    Unopened,
    /// The first piece was sent, and text may follow.
    Open,
    /// The last piece was sent.
    Closed,
    /// The end was marked.
    Ended,
}

/// The pieces of one completion. All of them carry the same id and the same model.
pub struct ReplyStream {
    pub id: String,
    pub model: String,
    pub stage: StreamStage,
}

impl ReplyStream {
    /// The same stream at another stage.
    pub open spec fn moved(self, before: ReplyStream, stage: StreamStage) -> bool {
        self.id == before.id && self.model == before.model && self.stage == stage
    }

    /// A stream of which nothing was sent.
    pub fn new(id: String, model: String) -> (stream: Self)
        ensures
            stream.id == id,
            stream.model == model,
            stream.stage == StreamStage::Unopened,
    {
        ReplyStream { id, model, stage: StreamStage::Unopened }
    }

    /// The first piece, which says whose message it is.
    pub fn open(&mut self, created: u64) -> (piece: ChatCompletionChunk)
        requires
            old(self).stage == StreamStage::Unopened,
        ensures
            final(self).moved(*old(self), StreamStage::Open),
            piece.carries(
                old(self).id@,
                created,
                old(self).model@,
                Some("assistant"@),
                None,
                None,
            ),
    {
        self.stage = StreamStage::Open;
        opening_chunk(self.id.as_str(), created, self.model.as_str())
    }

    /// The piece for the text of a token: none where the token has no text.
    pub fn word(&self, created: u64, word: &str) -> (piece: Option<ChatCompletionChunk>)
        requires
            self.stage == StreamStage::Open,
        ensures
            sends(piece, self.id@, created, self.model@, word@),
    {
        if is_empty(word) {
            None
        } else {
            Some(
                content_chunk(self.id.as_str(), created, self.model.as_str(), word.to_owned()),
            )
        }
    }

    /// The last piece, which says why the completion ended.
    pub fn close(&mut self, created: u64, finish: Finish) -> (piece: ChatCompletionChunk)
        requires
            old(self).stage == StreamStage::Open,
        ensures
            final(self).moved(*old(self), StreamStage::Closed),
            piece.carries(
                old(self).id@,
                created,
                old(self).model@,
                None,
                None,
                Some(finish.text()),
            ),
    {
        self.stage = StreamStage::Closed;
        closing_chunk(self.id.as_str(), created, self.model.as_str(), finish.reason())
    }

    /// What marks the end.
    pub fn end(&mut self) -> (text: String)
        requires
            old(self).stage == StreamStage::Closed,
        ensures
            final(self).moved(*old(self), StreamStage::Ended),
            text@ == "[DONE]"@,
    {
        self.stage = StreamStage::Ended;
        end_of_stream()
    }
}

/// `piece` is what is sent for the text of a token.
pub open spec fn sends(
    piece: Option<ChatCompletionChunk>,
    id: Seq<char>,
    created: u64,
    model: Seq<char>,
    word: Seq<char>,
) -> bool {
    match piece {
        Some(p) => word.len() > 0 && p.carries(id, created, model, None, Some(word), None),
        None => word.len() == 0,
    }
}

/// The text that a piece carries.
pub open spec fn piece_text(piece: Option<ChatCompletionChunk>) -> Seq<char> {
    match piece {
        Some(p) => match p.choices@[0].delta.content {
            Some(content) => content@,
            None => Seq::empty(),
        },
        None => Seq::empty(),
    }
}

/// The texts that the pieces carry, one after the other.
pub open spec fn sent_text(pieces: Seq<Option<ChatCompletionChunk>>) -> Seq<char>
    decreases pieces.len(),
{
    if pieces.len() == 0 {
        Seq::empty()
    } else {
        sent_text(pieces.drop_last()) + piece_text(pieces.last())
    }
}

/// A client that puts the pieces together has the text of the completion, the same that a reply
/// in one piece holds.
pub proof fn law_pieces_make_the_completion(
    pieces: Seq<Option<ChatCompletionChunk>>,
    words: Seq<Seq<char>>,
    id: Seq<char>,
    created: Seq<u64>,
    model: Seq<char>,
)
    requires
        pieces.len() == words.len(),
        created.len() == words.len(),
        forall|i: int|
            0 <= i < words.len() ==> sends(
                #[trigger] pieces[i],
                id,
                created[i],
                model,
                words[i],
            ),
    ensures
        sent_text(pieces) == crate::text::concatenated(words),
    decreases words.len(),
{
    if words.len() > 0 {
        let n = words.len() - 1;
        assert forall|i: int| 0 <= i < n implies sends(
            #[trigger] pieces.drop_last()[i],
            id,
            created.drop_last()[i],
            model,
            words.drop_last()[i],
        ) by {
            assert(sends(pieces[i], id, created[i], model, words[i]));
        }
        law_pieces_make_the_completion(
            pieces.drop_last(),
            words.drop_last(),
            id,
            created.drop_last(),
            model,
        );
        assert(sends(pieces[n], id, created[n], model, words[n]));
        if words[n].len() == 0 {
            assert(words[n] =~= Seq::empty());
        }
    }
}

/// A client that puts the pieces of a stream together has the message of a reply in one piece:
/// its id, its model, its role, its text and the reason why it ended. The role comes with the
/// first piece alone, the reason with the last alone, and a token without text sends nothing.
pub proof fn law_stream_agrees_with_reply(
    first: ChatCompletionChunk,
    pieces: Seq<Option<ChatCompletionChunk>>,
    last: ChatCompletionChunk,
    reply: crate::server::chat::ChatCompletion,
    words: Seq<Seq<char>>,
    id: Seq<char>,
    created: Seq<u64>,
    model: Seq<char>,
    result: crate::server::generation::GenResult,
    prompt_tokens: usize,
)
    requires
        created.len() == words.len() + 3,
        first.carries(id, created[0], model, Some("assistant"@), None, None),
        pieces.len() == words.len(),
        forall|i: int|
            0 <= i < words.len() ==> sends(
                #[trigger] pieces[i],
                id,
                created[i + 1],
                model,
                words[i],
            ),
        last.carries(
            id,
            created[words.len() as int + 1],
            model,
            None,
            None,
            Some(result.finish_reason.text()),
        ),
        reply.carries(id, created[words.len() as int + 2], model, result, prompt_tokens),
        result.text@ == crate::text::concatenated(words),
    ensures
        first.id@ == reply.id@,
        first.model@ == reply.model@,
        first.choices@[0].delta.role matches Some(role) && role@
            == reply.choices@[0].message.role@,
        first.choices@[0].delta.content is None,
        first.choices@[0].finish_reason is None,
        forall|i: int|
            0 <= i < pieces.len() ==> match #[trigger] pieces[i] {
                Some(p) => {
                    &&& words[i].len() > 0
                    &&& p.id@ == reply.id@
                    &&& p.model@ == reply.model@
                    &&& p.choices@[0].delta.role is None
                    &&& p.choices@[0].delta.content matches Some(text) && text@ == words[i]
                    &&& p.choices@[0].finish_reason is None
                },
                None => words[i].len() == 0,
            },
        sent_text(pieces) == reply.choices@[0].message.content@,
        last.id@ == reply.id@,
        last.model@ == reply.model@,
        last.choices@[0].delta.role is None,
        last.choices@[0].delta.content is None,
        last.choices@[0].finish_reason matches Some(reason) && reason@
            == reply.choices@[0].finish_reason@,
{
    let times = created.subrange(1, words.len() as int + 1);
    assert forall|i: int| 0 <= i < words.len() implies sends(
        #[trigger] pieces[i],
        id,
        times[i],
        model,
        words[i],
    ) by {
        assert(times[i] == created[i + 1]);
    }
    law_pieces_make_the_completion(pieces, words, id, times, model);
}

/// A stream keeps its id and its model from the first piece to the last.
pub proof fn law_stream_keeps_its_name(before: ReplyStream, after: ReplyStream, stage: StreamStage)
    requires
        after.moved(before, stage),
    ensures
        after.id@ == before.id@,
        after.model@ == before.model@,
        after.stage == stage,
{
}

} // verus!
