//! The conversation history: an ordered log of role-tagged turns, and the
//! streaming aggregation that folds worker content events into it.

use vstd::prelude::*;

verus! {

/// Who produced a turn of the conversation.
#[derive(Clone, Copy, PartialEq, Eq, Structural, Debug)]
pub enum Role {
    User,
    Assistant,
}

/// One entry of the conversation history. Assistant turns grow in place
/// while a reply streams in.
#[derive(Debug, PartialEq)]
pub struct Turn {
    pub role: Role,
    pub content: String,
    pub has_image: bool,
}

/// Mathematical image of a `Turn`.
pub struct TurnView {
    pub role: Role,
    pub content: Seq<char>,
    pub has_image: bool,
}

impl View for Turn {
    type V = TurnView;

    open spec fn view(&self) -> TurnView {
        TurnView { role: self.role, content: self.content@, has_image: self.has_image }
    }
}

/// The history as a sequence of turn views.
pub open spec fn turns_view(h: Seq<Turn>) -> Seq<TurnView> {
    h.map_values(|t: Turn| t@)
}

/// One content event applied to the history: append to a trailing assistant
/// turn, otherwise open a new assistant turn holding the chunk.
pub open spec fn spec_apply_content(h: Seq<TurnView>, chunk: Seq<char>) -> Seq<TurnView> {
    if h.len() > 0 && h.last().role == Role::Assistant {
        h.update(
            h.len() - 1,
            TurnView {
                role: Role::Assistant,
                content: h.last().content + chunk,
                has_image: h.last().has_image,
            },
        )
    } else {
        h.push(TurnView { role: Role::Assistant, content: chunk, has_image: false })
    }
}

/// Exec mirror of `spec_apply_content`.
pub fn apply_content(messages: &mut Vec<Turn>, chunk: &str)
    ensures
        turns_view(final(messages)@) == spec_apply_content(turns_view(old(messages)@), chunk@),
{
    let n = messages.len();
    if n > 0 && messages[n - 1].role == Role::Assistant {
        let mut last = messages.pop().unwrap();
        last.content.append(chunk);
        messages.push(last);
        proof {
            assert(turns_view(messages@) =~= spec_apply_content(
                turns_view(old(messages)@),
                chunk@,
            ));
        }
    } else {
        messages.push(
            Turn { role: Role::Assistant, content: String::from_str(chunk), has_image: false },
        );
        proof {
            assert(turns_view(messages@) =~= spec_apply_content(
                turns_view(old(messages)@),
                chunk@,
            ));
        }
    }
}

/// Concatenation, in order, of a sequence of content chunks.
pub open spec fn concat_chunks(chunks: Seq<Seq<char>>) -> Seq<char>
    decreases chunks.len(),
{
    if chunks.len() == 0 {
        Seq::<char>::empty()
    } else {
        chunks[0] + concat_chunks(chunks.drop_first())
    }
}

/// A sequence of content events applied in order.
pub open spec fn apply_contents(h: Seq<TurnView>, chunks: Seq<Seq<char>>) -> Seq<TurnView>
    decreases chunks.len(),
{
    if chunks.len() == 0 {
        h
    } else {
        apply_contents(spec_apply_content(h, chunks[0]), chunks.drop_first())
    }
}

/// Content events arriving while the history ends in an assistant turn only
/// ever grow that turn, by the concatenation of their chunks in order.
pub proof fn lemma_streaming_grows_last(h: Seq<TurnView>, chunks: Seq<Seq<char>>)
    requires
        h.len() > 0,
        h.last().role == Role::Assistant,
    ensures
        apply_contents(h, chunks) == h.update(
            h.len() - 1,
            TurnView {
                role: Role::Assistant,
                content: h.last().content + concat_chunks(chunks),
                has_image: h.last().has_image,
            },
        ),
    decreases chunks.len(),
{
    if chunks.len() == 0 {
        assert(h.last().content + concat_chunks(chunks) =~= h.last().content);
        assert(h.update(
            h.len() - 1,
            TurnView {
                role: Role::Assistant,
                content: h.last().content,
                has_image: h.last().has_image,
            },
        ) =~= h);
    } else {
        let h1 = spec_apply_content(h, chunks[0]);
        assert(h1.last().role == Role::Assistant);
        lemma_streaming_grows_last(h1, chunks.drop_first());
        assert(h1.last().content + concat_chunks(chunks.drop_first()) =~= h.last().content
            + concat_chunks(chunks));
        assert(apply_contents(h, chunks) =~= h.update(
            h.len() - 1,
            TurnView {
                role: Role::Assistant,
                content: h.last().content + concat_chunks(chunks),
                has_image: h.last().has_image,
            },
        ));
    }
}

/// Streaming aggregation: any number of consecutive content events, with no
/// terminal event in between and starting from a history that does not end in
/// an assistant turn, add exactly one assistant turn whose text is the
/// ordered concatenation of the chunks.
pub proof fn lemma_streaming_aggregation(h: Seq<TurnView>, chunks: Seq<Seq<char>>)
    requires
        chunks.len() >= 1,
        h.len() == 0 || h.last().role != Role::Assistant,
    ensures
        apply_contents(h, chunks) == h.push(
            TurnView { role: Role::Assistant, content: concat_chunks(chunks), has_image: false },
        ),
{
    let h1 = spec_apply_content(h, chunks[0]);
    assert(h1 =~= h.push(
        TurnView { role: Role::Assistant, content: chunks[0], has_image: false },
    ));
    lemma_streaming_grows_last(h1, chunks.drop_first());
    assert(chunks[0] + concat_chunks(chunks.drop_first()) =~= concat_chunks(chunks));
    assert(apply_contents(h, chunks) =~= h.push(
        TurnView { role: Role::Assistant, content: concat_chunks(chunks), has_image: false },
    ));
}

} // verus!
