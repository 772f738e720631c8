//! Case-insensitive keyword matching over document text, and extraction of a
//! fixed-size context window (snippet) around the first match.

use vstd::prelude::*;

use crate::event::{ChannelEvent, SpecEvent};
use crate::orchestrator::ShipApp;

verus! {

/// Characters of context kept before the start of a keyword match.
pub const SNIPPET_BEFORE: usize = 200;

/// Characters of context kept from the start of a keyword match onward.
pub const SNIPPET_AFTER: usize = 500;

/// ASCII case folding of one character: uppercase letters map to lowercase,
/// everything else is unchanged.
pub open spec fn lower_char(c: char) -> char {
    if 'A' <= c && c <= 'Z' {
        ((c as u8) + 32) as char
    } else {
        c
    }
}

/// A whole text, case-folded character by character.
pub open spec fn fold_text(s: Seq<char>) -> Seq<char> {
    s.map_values(|c: char| lower_char(c))
}

/// The keyword occurs in the content at position `i`, comparing case-folded
/// characters.
pub open spec fn matches_at(content: Seq<char>, keyword: Seq<char>, i: int) -> bool {
    &&& 0 <= i
    &&& i + keyword.len() <= content.len()
    &&& forall|j: int|
        0 <= j < keyword.len() ==> lower_char(content[i + j]) == lower_char(#[trigger] keyword[j])
}

/// The keyword occurs somewhere in the content (case-insensitively).
pub open spec fn occurs(content: Seq<char>, keyword: Seq<char>) -> bool {
    exists|i: int| matches_at(content, keyword, i)
}

/// `i` is the first position at which the keyword occurs.
pub open spec fn is_first_match(content: Seq<char>, keyword: Seq<char>, i: int) -> bool {
    &&& matches_at(content, keyword, i)
    &&& forall|j: int| 0 <= j < i ==> !matches_at(content, keyword, j)
}

/// Start of the context window around a match at `i`: 200 characters before
/// the match, clamped to the start of the document.
pub open spec fn window_start(i: int) -> int {
    if i >= SNIPPET_BEFORE { i - SNIPPET_BEFORE } else { 0 }
}

/// End of the context window around a match at `i`: 500 characters from the
/// match start, clamped to the end of the document.
pub open spec fn window_end(i: int, len: int) -> int {
    if i + SNIPPET_AFTER <= len { i + SNIPPET_AFTER } else { len }
}

/// The snippet for a document: the context window around the first
/// (case-insensitive) occurrence of the keyword, or empty if it never occurs.
pub open spec fn spec_snippet(content: Seq<char>, keyword: Seq<char>) -> Seq<char> {
    if occurs(content, keyword) {
        let i = choose|i: int| is_first_match(content, keyword, i);
        content.subrange(window_start(i), window_end(i, content.len() as int))
    } else {
        Seq::<char>::empty()
    }
}

/// Two first-match positions are the same position.
pub proof fn lemma_first_match_unique(content: Seq<char>, keyword: Seq<char>, i: int, j: int)
    requires
        is_first_match(content, keyword, i),
        is_first_match(content, keyword, j),
    ensures
        i == j,
{
}

/// Exec mirror of `lower_char`.
pub fn to_lower_char(c: char) -> (r: char)
    ensures
        r == lower_char(c),
{
    if 'A' <= c && c <= 'Z' {
        ((c as u8) + 32) as char
    } else {
        c
    }
}

/// Position of the first case-insensitive occurrence of `keyword` in
/// `content`, if any.
pub fn find_first_match(content: &str, keyword: &str) -> (r: Option<usize>)
    ensures
        match r {
            Some(i) => is_first_match(content@, keyword@, i as int),
            None => !occurs(content@, keyword@),
        },
{
    let n = content.unicode_len();
    let m = keyword.unicode_len();
    if m > n {
        assert(forall|i: int| !matches_at(content@, keyword@, i));
        return None;
    }
    let mut i: usize = 0;
    while i <= n - m
        invariant
            n == content@.len(),
            m == keyword@.len(),
            m <= n,
            i <= n - m + 1,
            forall|j: int| 0 <= j < i ==> !matches_at(content@, keyword@, j),
        decreases n - i,
    {
        let mut j: usize = 0;
        let mut ok = true;
        while ok && j < m
            invariant
                n == content@.len(),
                m == keyword@.len(),
                i <= n - m,
                j <= m,
                ok ==> forall|k: int|
                    0 <= k < j ==> lower_char(content@[i + k]) == lower_char(
                        #[trigger] keyword@[k],
                    ),
                !ok ==> !matches_at(content@, keyword@, i as int),
            decreases m - j + (if ok { 1int } else { 0int }),
        {
            if to_lower_char(content.get_char(i + j)) != to_lower_char(keyword.get_char(j)) {
                ok = false;
            } else {
                j += 1;
            }
        }
        if ok {
            assert(matches_at(content@, keyword@, i as int));
            return Some(i);
        }
        i += 1;
    }
    assert forall|k: int| !matches_at(content@, keyword@, k) by {
        if matches_at(content@, keyword@, k) {
            assert(0 <= k < i);
        }
    }
    None
}

impl ShipApp {
    /// The context window around the first case-insensitive occurrence of
    /// the keyword: 200 characters of leading context and 500 characters
    /// from the match start, clamped to the document; empty when the
    /// keyword does not occur.
    pub fn get_relevant_snippet(content: &str, keyword: &str) -> (r: String)
        ensures
            r@ == spec_snippet(content@, keyword@),
            !occurs(content@, keyword@) ==> r@ == Seq::<char>::empty(),
            forall|i: int|
                is_first_match(content@, keyword@, i) ==> r@ == content@.subrange(
                    window_start(i),
                    window_end(i, content@.len() as int),
                ),
    {
        match find_first_match(content, keyword) {
            Some(index) => {
                let n = content.unicode_len();
                let start = if index >= SNIPPET_BEFORE {
                    index - SNIPPET_BEFORE
                } else {
                    0
                };
                let end = if n - index > SNIPPET_AFTER {
                    index + SNIPPET_AFTER
                } else {
                    n
                };
                proof {
                    assert(exists|k: int| is_first_match(content@, keyword@, k));
                    let k = choose|k: int| is_first_match(content@, keyword@, k);
                    lemma_first_match_unique(content@, keyword@, index as int, k);
                }
                String::from_str(content.substring_char(start, end))
            },
            None => String::new(),
        }
    }
}

/// The evidence entry appended for one matching document: the snippet,
/// tagged with the source filename.
pub open spec fn spec_source_entry(name: Seq<char>, snippet: Seq<char>) -> Seq<char> {
    "\n[SOURCE: "@ + name + "]\n"@ + snippet + "\n"@
}

/// The status note a retrieval worker announces itself with.
pub open spec fn spec_scan_status(keyword: Seq<char>) -> Seq<char> {
    " Scanning for signal '"@ + keyword + "'..."@
}

/// Exec mirror of `spec_scan_status`, as a ready-to-send event.
pub fn scan_status(keyword: &str) -> (e: ChannelEvent)
    ensures
        e@ == SpecEvent::Status(spec_scan_status(keyword@)),
{
    let mut t = String::from_str(" Scanning for signal '");
    t.append(keyword);
    t.append("'...");
    ChannelEvent::Status(t)
}

/// Evidence aggregated over one corpus scan. Aggregation is batch: each
/// matching document appends one tagged entry, misses change nothing, and
/// only the single terminal event reports the whole buffer.
pub struct ResearchScan {
    buffer: String,
}

impl View for ResearchScan {
    type V = Seq<char>;

    closed spec fn view(&self) -> Seq<char> {
        self.buffer@
    }
}

impl ResearchScan {
    /// An empty evidence buffer.
    pub fn new() -> (r: ResearchScan)
        ensures
            r@ == Seq::<char>::empty(),
    {
        ResearchScan { buffer: String::new() }
    }

    /// Fold one document into the scan: when the keyword occurs, append its
    /// snippet tagged with the document's name; otherwise leave the buffer
    /// untouched.
    pub fn add_document(&mut self, filename: &str, content: &str, keyword: &str)
        ensures
            occurs(content@, keyword@) ==> final(self)@ == old(self)@ + spec_source_entry(
                filename@,
                spec_snippet(content@, keyword@),
            ),
            !occurs(content@, keyword@) ==> final(self)@ == old(self)@,
    {
        match find_first_match(content, keyword) {
            Some(_) => {
                let snippet = ShipApp::get_relevant_snippet(content, keyword);
                self.buffer.append("\n[SOURCE: ");
                self.buffer.append(filename);
                self.buffer.append("]\n");
                self.buffer.append(snippet.as_str());
                self.buffer.append("\n");
            },
            None => {},
        }
    }

    /// The single terminal event of the scan: "no data" for an empty
    /// buffer, otherwise the whole buffer as evidence.
    pub fn finish(self) -> (e: ChannelEvent)
        ensures
            self@.len() == 0 ==> e@ == SpecEvent::ResearchEmpty,
            self@.len() > 0 ==> e@ == SpecEvent::ResearchData(self@),
    {
        if self.buffer.as_str().unicode_len() == 0 {
            ChannelEvent::ResearchEmpty
        } else {
            ChannelEvent::ResearchData(self.buffer)
        }
    }
}

/// Case folding is idempotent.
pub proof fn lemma_lower_idempotent(c: char)
    ensures
        lower_char(lower_char(c)) == lower_char(c),
{
}

/// Matching is insensitive to case: folding the whole content, or the whole
/// keyword, changes no occurrence.
pub proof fn lemma_case_insensitive(content: Seq<char>, keyword: Seq<char>)
    ensures
        occurs(content, keyword) == occurs(fold_text(content), keyword),
        occurs(content, keyword) == occurs(content, fold_text(keyword)),
{
    assert forall|i: int| matches_at(content, keyword, i) == matches_at(
        fold_text(content),
        keyword,
        i,
    ) by {
        if matches_at(content, keyword, i) {
            assert forall|j: int| 0 <= j < keyword.len() implies lower_char(
                fold_text(content)[i + j],
            ) == lower_char(#[trigger] keyword[j]) by {
                lemma_lower_idempotent(content[i + j]);
            }
        }
        if matches_at(fold_text(content), keyword, i) {
            assert forall|j: int| 0 <= j < keyword.len() implies lower_char(content[i + j])
                == lower_char(#[trigger] keyword[j]) by {
                lemma_lower_idempotent(content[i + j]);
            }
        }
    }
    assert forall|i: int| matches_at(content, keyword, i) == matches_at(
        content,
        fold_text(keyword),
        i,
    ) by {
        if matches_at(content, keyword, i) {
            assert forall|j: int| 0 <= j < fold_text(keyword).len() implies lower_char(
                content[i + j],
            ) == lower_char(#[trigger] fold_text(keyword)[j]) by {
                lemma_lower_idempotent(keyword[j]);
            }
        }
        if matches_at(content, fold_text(keyword), i) {
            assert forall|j: int| 0 <= j < keyword.len() implies lower_char(content[i + j])
                == lower_char(#[trigger] keyword[j]) by {
                assert(fold_text(keyword)[j] == lower_char(keyword[j]));
                lemma_lower_idempotent(keyword[j]);
            }
        }
    }
    if occurs(content, keyword) {
        let i = choose|i: int| matches_at(content, keyword, i);
        assert(matches_at(fold_text(content), keyword, i));
        assert(matches_at(content, fold_text(keyword), i));
    }
    if occurs(fold_text(content), keyword) {
        let i = choose|i: int| matches_at(fold_text(content), keyword, i);
        assert(matches_at(content, keyword, i));
    }
    if occurs(content, fold_text(keyword)) {
        let i = choose|i: int| matches_at(content, fold_text(keyword), i);
        assert(matches_at(content, keyword, i));
    }
}

} // verus!
