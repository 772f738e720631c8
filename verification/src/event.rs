//! The string-tagged wire protocol between worker tasks and the
//! orchestrator: one string per message, classified by its leading tag, with
//! any untagged string passing through as literal assistant content.

use vstd::prelude::*;

verus! {

/// Events carried over the worker channel, as mathematical values.
pub enum SpecEvent {
    /// Informational progress note; never changes state.
    Status(Seq<char>),
    /// Retrieval finished and found evidence (the payload).
    ResearchData(Seq<char>),
    /// Retrieval finished and found nothing.
    ResearchEmpty,
    /// Terminal signal: the inference task finished.
    Done,
    /// A chunk of streamed assistant reply.
    Content(Seq<char>),
}

/// Events carried over the worker channel.
#[derive(Debug, PartialEq)]
pub enum ChannelEvent {
    /// Informational progress note; never changes state.
    Status(String),
    /// Retrieval finished and found evidence (the payload).
    ResearchData(String),
    /// Retrieval finished and found nothing.
    ResearchEmpty,
    /// Terminal signal: the inference task finished.
    Done,
    /// A chunk of streamed assistant reply.
    Content(String),
}

impl View for ChannelEvent {
    type V = SpecEvent;

    open spec fn view(&self) -> SpecEvent {
        match self {
            ChannelEvent::Status(t) => SpecEvent::Status(t@),
            ChannelEvent::ResearchData(d) => SpecEvent::ResearchData(d@),
            ChannelEvent::ResearchEmpty => SpecEvent::ResearchEmpty,
            ChannelEvent::Done => SpecEvent::Done,
            ChannelEvent::Content(c) => SpecEvent::Content(c@),
        }
    }
}

/// `p` is a prefix of `s`.
pub open spec fn is_prefixed(s: Seq<char>, p: Seq<char>) -> bool {
    p.len() <= s.len() && s.subrange(0, p.len() as int) == p
}

/// The wire form of each event: a tag, then the payload where the event
/// carries one. Content chunks travel untagged.
pub open spec fn spec_encode(e: SpecEvent) -> Seq<char> {
    match e {
        SpecEvent::Status(t) => "__STATUS__:"@ + t,
        SpecEvent::ResearchData(d) => "__RESEARCH_DATA__:"@ + d,
        SpecEvent::ResearchEmpty => "__RESEARCH_EMPTY__"@,
        SpecEvent::Done => "__DONE__"@,
        SpecEvent::Content(c) => c,
    }
}

/// Classification of one wire message. A message matching no tag is read
/// permissively as a literal content chunk, so no message is ever an error.
pub open spec fn spec_parse(s: Seq<char>) -> SpecEvent {
    if s == "__DONE__"@ {
        SpecEvent::Done
    } else if s == "__RESEARCH_EMPTY__"@ {
        SpecEvent::ResearchEmpty
    } else if is_prefixed(s, "__RESEARCH_DATA__:"@) {
        SpecEvent::ResearchData(s.skip("__RESEARCH_DATA__:"@.len() as int))
    } else if is_prefixed(s, "__STATUS__:"@) {
        SpecEvent::Status(s.skip("__STATUS__:"@.len() as int))
    } else {
        SpecEvent::Content(s)
    }
}

/// Character-for-character string equality.
pub fn str_eq(a: &str, b: &str) -> (r: bool)
    ensures
        r == (a@ == b@),
{
    let na = a.unicode_len();
    let nb = b.unicode_len();
    if na != nb {
        return false;
    }
    let mut i: usize = 0;
    while i < na
        invariant
            na == a@.len(),
            na == b@.len(),
            i <= na,
            forall|k: int| 0 <= k < i ==> a@[k] == b@[k],
        decreases na - i,
    {
        if a.get_char(i) != b.get_char(i) {
            return false;
        }
        i += 1;
    }
    proof {
        assert(a@ =~= b@);
    }
    true
}

/// Does `s` start with `p`, character for character?
pub fn str_starts_with(s: &str, p: &str) -> (r: bool)
    ensures
        r == is_prefixed(s@, p@),
{
    let ns = s.unicode_len();
    let np = p.unicode_len();
    if np > ns {
        return false;
    }
    let mut i: usize = 0;
    while i < np
        invariant
            ns == s@.len(),
            np == p@.len(),
            np <= ns,
            i <= np,
            forall|k: int| 0 <= k < i ==> s@[k] == p@[k],
        decreases np - i,
    {
        if s.get_char(i) != p.get_char(i) {
            proof {
                if is_prefixed(s@, p@) {
                    assert(s@.subrange(0, p@.len() as int)[i as int] == s@[i as int]);
                }
            }
            return false;
        }
        i += 1;
    }
    proof {
        assert(s@.subrange(0, p@.len() as int) =~= p@);
    }
    true
}

/// Exec mirror of `spec_parse`: classify one message drained from the
/// channel.
pub fn parse_event(msg: &str) -> (e: ChannelEvent)
    ensures
        e@ == spec_parse(msg@),
{
    if str_eq(msg, "__DONE__") {
        ChannelEvent::Done
    } else if str_eq(msg, "__RESEARCH_EMPTY__") {
        ChannelEvent::ResearchEmpty
    } else if str_starts_with(msg, "__RESEARCH_DATA__:") {
        let tag_len = "__RESEARCH_DATA__:".unicode_len();
        let n = msg.unicode_len();
        ChannelEvent::ResearchData(String::from_str(msg.substring_char(tag_len, n)))
    } else if str_starts_with(msg, "__STATUS__:") {
        let tag_len = "__STATUS__:".unicode_len();
        let n = msg.unicode_len();
        ChannelEvent::Status(String::from_str(msg.substring_char(tag_len, n)))
    } else {
        ChannelEvent::Content(String::from_str(msg))
    }
}

/// Exec mirror of `spec_encode`: the wire form a worker sends.
pub fn encode_event(e: &ChannelEvent) -> (s: String)
    ensures
        s@ == spec_encode(e@),
{
    match e {
        ChannelEvent::Status(t) => {
            let mut s = String::from_str("__STATUS__:");
            s.append(t.as_str());
            s
        },
        ChannelEvent::ResearchData(d) => {
            let mut s = String::from_str("__RESEARCH_DATA__:");
            s.append(d.as_str());
            s
        },
        ChannelEvent::ResearchEmpty => String::from_str("__RESEARCH_EMPTY__"),
        ChannelEvent::Done => String::from_str("__DONE__"),
        ChannelEvent::Content(c) => String::from_str(c.as_str()),
    }
}

/// The protocol round-trips: a message encoded from an event parses back to
/// that event. For a content chunk this holds exactly when the chunk itself
/// is not shaped like one of the tags — the permissive "anything else is
/// content" rule makes tag-shaped chunks indistinguishable on the wire.
pub proof fn lemma_parse_encode(e: SpecEvent)
    requires
        e matches SpecEvent::Content(c) ==> spec_parse(c) is Content,
    ensures
        spec_parse(spec_encode(e)) == e,
{
    reveal_strlit("__STATUS__:");
    reveal_strlit("__RESEARCH_DATA__:");
    reveal_strlit("__RESEARCH_EMPTY__");
    reveal_strlit("__DONE__");
    match e {
        SpecEvent::Status(t) => {
            let s = "__STATUS__:"@ + t;
            assert(s[2] == 'S');
            assert(s != "__DONE__"@);
            assert(s != "__RESEARCH_EMPTY__"@);
            assert(!is_prefixed(s, "__RESEARCH_DATA__:"@)) by {
                if is_prefixed(s, "__RESEARCH_DATA__:"@) {
                    assert(s.subrange(0, "__RESEARCH_DATA__:"@.len() as int)[2] == s[2]);
                }
            }
            assert(is_prefixed(s, "__STATUS__:"@)) by {
                assert(s.subrange(0, "__STATUS__:"@.len() as int) =~= "__STATUS__:"@);
            }
            assert(s.skip("__STATUS__:"@.len() as int) =~= t);
        },
        SpecEvent::ResearchData(d) => {
            let s = "__RESEARCH_DATA__:"@ + d;
            assert(s[11] == 'D');
            assert(s.len() != "__DONE__"@.len());
            assert(s != "__DONE__"@);
            assert(s != "__RESEARCH_EMPTY__"@);
            assert(is_prefixed(s, "__RESEARCH_DATA__:"@)) by {
                assert(s.subrange(0, "__RESEARCH_DATA__:"@.len() as int) =~= "__RESEARCH_DATA__:"@);
            }
            assert(s.skip("__RESEARCH_DATA__:"@.len() as int) =~= d);
        },
        SpecEvent::ResearchEmpty => {
            let s = "__RESEARCH_EMPTY__"@;
            assert(s.len() != "__DONE__"@.len());
            assert(s != "__DONE__"@);
        },
        SpecEvent::Done => {
        },
        SpecEvent::Content(_) => {
        },
    }
}

} // verus!
