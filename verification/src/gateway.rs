//! Shaping of provider requests: the first-turn document attachment rule,
//! the system instruction block, reply-text extraction, and the cleanup of
//! fenced model output.
use vstd::prelude::*;

use crate::chat_types::{
    CacheControl, ChatRequest, ContentBlock, DocumentSource, Message, ResponseContent, SystemBlock,
};
use crate::models::ChatMessage;
use crate::text::{matches_at, str_to_chars};
use vstd::string::StringExecFns;

verus! {

/// The system instruction sent with every chat call.
pub const SYSTEM_PROMPT: &'static str = "You are an AI assistant helping users understand research papers.\n\nGuidelines:\n- CRITICAL: Always format page references using EXACTLY this format: (page X) for single pages or (page X, page Y) for multiple pages\n- ONLY state information you can actually find in the PDF content\n- NEVER make assumptions or educated guesses\n- If you cannot find specific information, clearly state \"I cannot find this information in the paper\"\n- Use markdown formatting for better readability\n- Be concise and clear in your explanations";

/// The fixed prompt of the structured metadata-extraction call.
pub const EXTRACTION_PROMPT: &'static str = "Extract keywords and topics from this PDF document. Analyze the content and return ONLY a valid JSON object with this exact format: {\"keywords\": [\"keyword1\", \"keyword2\", ...], \"topics\": [\"topic1\", \"topic2\", ...]}. Provide 5-10 relevant keywords and 3-5 main topics. No additional text, just the JSON.";

/// A message that attaches the document: a base64 PDF block (optionally with
/// the caching hint) followed by the user's text.
pub open spec fn is_pdf_message(m: Message, pdf: Seq<char>, text: Seq<char>, cached: bool) -> bool {
    &&& m.role@ == "user"@
    &&& m.content@.len() == 2
    &&& (m.content@[0] matches ContentBlock::Document { source, cache_control } && {
        &&& source.source_type@ == "base64"@
        &&& source.media_type@ == "application/pdf"@
        &&& source.data@ == pdf
        &&& (cached ==> (cache_control matches Some(c) && c.cache_type@ == "ephemeral"@))
        &&& (!cached ==> cache_control is None)
    })
    &&& (m.content@[1] matches ContentBlock::Text { text: t, cache_control } && t@ == text
        && cache_control is None)
}

/// A text-only message: one text block without a caching hint.
pub open spec fn is_text_message(m: Message, role: Seq<char>, text: Seq<char>) -> bool {
    &&& m.role@ == role
    &&& m.content@.len() == 1
    &&& (m.content@[0] matches ContentBlock::Text { text: t, cache_control } && t@ == text
        && cache_control is None)
}

/// The gateway client: its credential and the model it calls. The model
/// identifier is deployment configuration, fixed when the client is built
/// and carried unchanged into every request.
pub struct ClaudeClient {
    pub api_key: String,
    pub model: String,
}

impl ClaudeClient {
    /// Builds a client for the given model.
    pub fn new(api_key: String, model: String) -> (r: ClaudeClient)
        ensures
            r.api_key@ == api_key@,
            r.model@ == model@,
    {
        ClaudeClient { api_key, model }
    }

    /// Renders a document-attached message: the PDF block (with the caching
    /// hint when asked for) and then the text.
    pub fn create_pdf_message(&self, pdf_base64: String, text: String, enable_cache: bool) -> (m:
        Message)
        ensures
            is_pdf_message(m, pdf_base64@, text@, enable_cache),
            m.has_document(),
    {
        let cache_control = if enable_cache {
            Some(CacheControl { cache_type: "ephemeral".to_owned() })
        } else {
            None
        };
        let mut content: Vec<ContentBlock> = Vec::new();
        content.push(
            ContentBlock::Document {
                source: DocumentSource {
                    source_type: "base64".to_owned(),
                    media_type: "application/pdf".to_owned(),
                    data: pdf_base64,
                },
                cache_control,
            },
        );
        content.push(ContentBlock::Text { text, cache_control: None });
        let m = Message { role: "user".to_owned(), content };
        proof {
            assert(m.content@[0].is_document());
        }
        m
    }

    /// Renders a text-only message.
    pub fn create_text_message(&self, role: &String, text: String) -> (m: Message)
        ensures
            is_text_message(m, role@, text@),
            !m.has_document(),
    {
        let mut content: Vec<ContentBlock> = Vec::new();
        content.push(ContentBlock::Text { text, cache_control: None });
        let m = Message { role: role.clone(), content };
        proof {
            assert forall|i: int| 0 <= i < m.content@.len() implies !m.content@[i].is_document() by {
                assert(m.content@[i] is Text);
            }
        }
        m
    }
}

/// The first-turn attachment rule: the message at index 0, if and only if its
/// role is "user", carries the document (with the caching hint); every other
/// message is text-only.
pub open spec fn provider_messages_ok(
    turns: Seq<ChatMessage>,
    pdf: Seq<char>,
    out: Seq<Message>,
) -> bool {
    &&& out.len() == turns.len()
    &&& (forall|i: int|
        0 <= i < out.len() ==> {
            if i == 0 && turns[0].role@ == "user"@ {
                is_pdf_message(#[trigger] out[i], pdf, turns[i].content@, true)
            } else {
                is_text_message(out[i], turns[i].role@, turns[i].content@)
            }
        })
}

/// Renders the caller's turn list into provider messages under the
/// first-turn attachment rule. If the first turn is from the user, exactly
/// that rendered message carries a document block; otherwise no rendered
/// message carries one.
pub fn build_provider_messages(
    client: &ClaudeClient,
    pdf_base64: &String,
    turns: &Vec<ChatMessage>,
) -> (out: Vec<Message>)
    ensures
        provider_messages_ok(turns@, pdf_base64@, out@),
        turns@.len() > 0 && turns@[0].role@ == "user"@ ==> out@[0].has_document(),
        forall|i: int|
            0 <= i < out@.len() && !(i == 0 && turns@[0].role@ == "user"@) ==> !(
            #[trigger] out@[i]).has_document(),
{
    let mut out: Vec<Message> = Vec::new();
    let mut idx: usize = 0;
    while idx < turns.len()
        invariant
            idx <= turns@.len(),
            out@.len() == idx,
            forall|i: int|
                0 <= i < idx ==> {
                    if i == 0 && turns@[0].role@ == "user"@ {
                        is_pdf_message(#[trigger] out@[i], pdf_base64@, turns@[i].content@, true)
                    } else {
                        is_text_message(out@[i], turns@[i].role@, turns@[i].content@)
                    }
                },
            forall|i: int|
                0 <= i < idx && !(i == 0 && turns@[0].role@ == "user"@) ==> !(
                #[trigger] out@[i]).has_document(),
        decreases turns@.len() - idx,
    {
        let msg = &turns[idx];
        if idx == 0 && crate::text::string_eq_str(&msg.role, "user") {
            let m = client.create_pdf_message(pdf_base64.clone(), msg.content.clone(), true);
            out.push(m);
        } else {
            let m = client.create_text_message(&msg.role, msg.content.clone());
            out.push(m);
        }
        idx += 1;
    }
    out
}

/// The rendered system block: the fixed instruction text with the caching hint.
pub open spec fn system_blocks_ok(blocks: Seq<SystemBlock>) -> bool {
    &&& blocks.len() == 1
    &&& blocks[0].block_type@ == "text"@
    &&& blocks[0].text@ == SYSTEM_PROMPT@
    &&& (blocks[0].cache_control matches Some(c) && c.cache_type@ == "ephemeral"@)
}

/// Builds the full chat completion request for a turn list: the client's
/// model, the token budget, the rendered messages, and the system block.
pub fn build_chat_request(
    client: &ClaudeClient,
    pdf_base64: &String,
    turns: &Vec<ChatMessage>,
) -> (r: ChatRequest)
    ensures
        r.model@ == client.model@,
        r.max_tokens == 4096,
        provider_messages_ok(turns@, pdf_base64@, r.messages@),
        turns@.len() > 0 && turns@[0].role@ == "user"@ ==> r.messages@[0].has_document(),
        forall|i: int|
            0 <= i < r.messages@.len() && !(i == 0 && turns@[0].role@ == "user"@) ==> !(
            #[trigger] r.messages@[i]).has_document(),
        r.system matches Some(blocks) && system_blocks_ok(blocks@),
{
    let messages = build_provider_messages(client, pdf_base64, turns);
    let mut blocks: Vec<SystemBlock> = Vec::new();
    blocks.push(
        SystemBlock {
            block_type: "text".to_owned(),
            text: SYSTEM_PROMPT.to_owned(),
            cache_control: Some(CacheControl { cache_type: "ephemeral".to_owned() }),
        },
    );
    ChatRequest { model: client.model.clone(), max_tokens: 4096, messages, system: Some(blocks) }
}

/// Builds the structured metadata-extraction request: one document-attached
/// message with the fixed extraction prompt, no caching hint, no system block.
pub fn build_extraction_request(client: &ClaudeClient, pdf_base64: String) -> (r: ChatRequest)
    ensures
        r.model@ == client.model@,
        r.max_tokens == 1024,
        r.messages@.len() == 1,
        is_pdf_message(r.messages@[0], pdf_base64@, EXTRACTION_PROMPT@, false),
        r.system is None,
{
    let message = client.create_pdf_message(pdf_base64, EXTRACTION_PROMPT.to_owned(), false);
    let mut messages: Vec<Message> = Vec::new();
    messages.push(message);
    ChatRequest { model: client.model.clone(), max_tokens: 1024, messages, system: None }
}

/// The text of a response segment.
pub open spec fn segment_text(c: ResponseContent) -> Seq<char> {
    match c {
        ResponseContent::Text { text } => text@,
    }
}

/// All text segments of a response joined with a newline separator.
pub open spec fn spec_joined_text(s: Seq<ResponseContent>) -> Seq<char>
    decreases s.len(),
{
    if s.len() == 0 {
        Seq::empty()
    } else if s.len() == 1 {
        segment_text(s[0])
    } else {
        spec_joined_text(s.drop_last()) + seq!['\n'] + segment_text(s.last())
    }
}

/// Extracts the reply text of a response: its text segments joined with a
/// newline separator.
pub fn extract_reply_text(content: &Vec<ResponseContent>) -> (r: String)
    ensures
        r@ == spec_joined_text(content@),
{
    let mut r = String::new();
    let mut i: usize = 0;
    while i < content.len()
        invariant
            i <= content@.len(),
            r@ == spec_joined_text(content@.subrange(0, i as int)),
        decreases content@.len() - i,
    {
        if i > 0 {
            crate::text::push_char(&mut r, '\n');
        }
        match &content[i] {
            ResponseContent::Text { text } => {
                r.append(text.as_str());
            },
        }
        proof {
            let pre = content@.subrange(0, i as int);
            let cur = content@.subrange(0, i + 1);
            assert(cur.drop_last() =~= pre);
            assert(cur.last() == content@[i as int]);
            if i == 0 {
                assert(Seq::<char>::empty() + segment_text(content@[0]) =~= segment_text(
                    content@[0],
                ));
            }
        }
        i += 1;
    }
    proof {
        assert(content@.subrange(0, content@.len() as int) =~= content@);
    }
    r
}


/// The first position at or after `lo` (up to `hi`) without whitespace.
pub open spec fn skip_ws_fwd(s: Seq<char>, lo: int, hi: int) -> int
    decreases hi - lo,
    when 0 <= lo
{
    if lo < hi && lo < s.len() && crate::codec::is_ws(s[lo]) {
        skip_ws_fwd(s, lo + 1, hi)
    } else {
        lo
    }
}

/// The last position at or before `hi` (down to `lo`) so that everything
/// after it up to `hi` is whitespace.
pub open spec fn skip_ws_back(s: Seq<char>, lo: int, hi: int) -> int
    decreases hi - lo,
    when hi <= s.len()
{
    if lo < hi && 0 <= hi - 1 && crate::codec::is_ws(s[hi - 1]) {
        skip_ws_back(s, lo, hi - 1)
    } else {
        hi
    }
}

/// The position after every repetition of `p` at the front of the window.
pub open spec fn skip_prefix_reps(s: Seq<char>, p: Seq<char>, lo: int, hi: int) -> int
    decreases hi - lo,
    when 0 <= lo && 1 <= p.len()
{
    if lo + p.len() <= hi && hi <= s.len() && crate::text::occurs_at(s, p, lo) {
        skip_prefix_reps(s, p, lo + p.len(), hi)
    } else {
        lo
    }
}

/// The position before every repetition of `p` at the back of the window.
pub open spec fn skip_suffix_reps(s: Seq<char>, p: Seq<char>, lo: int, hi: int) -> int
    decreases hi - lo,
    when hi <= s.len() && 1 <= p.len()
{
    if lo <= hi - p.len() && 0 <= lo && crate::text::occurs_at(s, p, hi - p.len()) {
        skip_suffix_reps(s, p, lo, hi - p.len())
    } else {
        hi
    }
}

/// How a fenced model reply is cleaned before parsing: trim whitespace,
/// strip every leading ```json and ``` marker, strip every trailing ```
/// marker, and trim again.
pub open spec fn spec_strip_fences(s: Seq<char>) -> Seq<char> {
    let l1 = skip_ws_fwd(s, 0, s.len() as int);
    let h1 = skip_ws_back(s, l1, s.len() as int);
    let l2 = skip_prefix_reps(s, "```json"@, l1, h1);
    let l3 = skip_prefix_reps(s, "```"@, l2, h1);
    let h2 = skip_suffix_reps(s, "```"@, l3, h1);
    let l4 = skip_ws_fwd(s, l3, h2);
    let h3 = skip_ws_back(s, l4, h2);
    if 0 <= l4 <= h3 <= s.len() {
        s.subrange(l4, h3)
    } else {
        Seq::empty()
    }
}

/// Bounds of forward whitespace skipping.
proof fn lemma_skip_ws_fwd_bounds(s: Seq<char>, lo: int, hi: int)
    requires
        0 <= lo <= hi <= s.len(),
    ensures
        lo <= skip_ws_fwd(s, lo, hi) <= hi,
    decreases hi - lo,
{
    if lo < hi && crate::codec::is_ws(s[lo]) {
        lemma_skip_ws_fwd_bounds(s, lo + 1, hi);
    }
}

/// Bounds of backward whitespace skipping.
proof fn lemma_skip_ws_back_bounds(s: Seq<char>, lo: int, hi: int)
    requires
        0 <= lo <= hi <= s.len(),
    ensures
        lo <= skip_ws_back(s, lo, hi) <= hi,
    decreases hi - lo,
{
    if lo < hi && crate::codec::is_ws(s[hi - 1]) {
        lemma_skip_ws_back_bounds(s, lo, hi - 1);
    }
}

/// Bounds of prefix stripping.
proof fn lemma_skip_prefix_bounds(s: Seq<char>, p: Seq<char>, lo: int, hi: int)
    requires
        0 <= lo <= hi <= s.len(),
        1 <= p.len(),
    ensures
        lo <= skip_prefix_reps(s, p, lo, hi) <= hi,
    decreases hi - lo,
{
    if lo + p.len() <= hi && crate::text::occurs_at(s, p, lo) {
        lemma_skip_prefix_bounds(s, p, lo + p.len(), hi);
    }
}

/// Bounds of suffix stripping.
proof fn lemma_skip_suffix_bounds(s: Seq<char>, p: Seq<char>, lo: int, hi: int)
    requires
        0 <= lo <= hi <= s.len(),
        1 <= p.len(),
    ensures
        lo <= skip_suffix_reps(s, p, lo, hi) <= hi,
    decreases hi - lo,
{
    if lo <= hi - p.len() && crate::text::occurs_at(s, p, hi - p.len()) {
        lemma_skip_suffix_bounds(s, p, lo, hi - p.len());
    }
}

/// The first position at or after `lo` (up to `hi`) without whitespace.
fn skip_ws_fwd_exec(s: &Vec<char>, lo: usize, hi: usize) -> (r: usize)
    requires
        lo <= hi <= s@.len(),
    ensures
        r as int == skip_ws_fwd(s@, lo as int, hi as int),
        lo <= r <= hi,
{
    let mut cur = lo;
    while cur < hi && crate::codec::is_ws_char(s[cur])
        invariant
            lo <= cur <= hi <= s@.len(),
            skip_ws_fwd(s@, lo as int, hi as int) == skip_ws_fwd(s@, cur as int, hi as int),
        decreases hi - cur,
    {
        cur += 1;
    }
    cur
}

/// The last position at or before `hi` so that everything after it is
/// whitespace.
fn skip_ws_back_exec(s: &Vec<char>, lo: usize, hi: usize) -> (r: usize)
    requires
        lo <= hi <= s@.len(),
    ensures
        r as int == skip_ws_back(s@, lo as int, hi as int),
        lo <= r <= hi,
{
    let mut cur = hi;
    while cur > lo && crate::codec::is_ws_char(s[cur - 1])
        invariant
            lo <= cur <= hi <= s@.len(),
            skip_ws_back(s@, lo as int, hi as int) == skip_ws_back(s@, lo as int, cur as int),
        decreases cur,
    {
        cur -= 1;
    }
    cur
}

/// The position after every repetition of `p` at the front of the window.
fn skip_prefix_reps_exec(s: &Vec<char>, p: &Vec<char>, lo: usize, hi: usize) -> (r: usize)
    requires
        lo <= hi <= s@.len(),
        1 <= p@.len(),
    ensures
        r as int == skip_prefix_reps(s@, p@, lo as int, hi as int),
        lo <= r <= hi,
{
    let mut cur = lo;
    loop
        invariant
            lo <= cur <= hi <= s@.len(),
            1 <= p@.len(),
            skip_prefix_reps(s@, p@, lo as int, hi as int) == skip_prefix_reps(
                s@,
                p@,
                cur as int,
                hi as int,
            ),
        decreases hi - cur,
    {
        if hi - cur >= p.len() && matches_at(s, p, cur) {
            cur += p.len();
        } else {
            return cur;
        }
    }
}

/// The position before every repetition of `p` at the back of the window.
fn skip_suffix_reps_exec(s: &Vec<char>, p: &Vec<char>, lo: usize, hi: usize) -> (r: usize)
    requires
        lo <= hi <= s@.len(),
        1 <= p@.len(),
    ensures
        r as int == skip_suffix_reps(s@, p@, lo as int, hi as int),
        lo <= r <= hi,
{
    let mut cur = hi;
    loop
        invariant
            lo <= cur <= hi <= s@.len(),
            1 <= p@.len(),
            skip_suffix_reps(s@, p@, lo as int, hi as int) == skip_suffix_reps(
                s@,
                p@,
                lo as int,
                cur as int,
            ),
        decreases cur,
    {
        if cur - lo >= p.len() && matches_at(s, p, cur - p.len()) {
            cur -= p.len();
        } else {
            return cur;
        }
    }
}

/// Cleans a fenced model reply: trims whitespace and strips the code-fence
/// markers the model may wrap its JSON in.
pub fn strip_code_fences(s: &Vec<char>) -> (r: Vec<char>)
    ensures
        r@ == spec_strip_fences(s@),
{
    let n = s.len();
    let fence_json = str_to_chars("```json");
    let fence = str_to_chars("```");
    proof {
        reveal_strlit("```json");
        reveal_strlit("```");
    }
    let l1 = skip_ws_fwd_exec(s, 0, n);
    let h1 = skip_ws_back_exec(s, l1, n);
    let l2 = skip_prefix_reps_exec(s, &fence_json, l1, h1);
    let l3 = skip_prefix_reps_exec(s, &fence, l2, h1);
    let h2 = skip_suffix_reps_exec(s, &fence, l3, h1);
    let l4 = skip_ws_fwd_exec(s, l3, h2);
    let h3 = skip_ws_back_exec(s, l4, h2);
    let (lo, hi): (usize, usize) = if l4 <= h3 {
        (l4, h3)
    } else {
        (0, 0)
    };
    proof {
        lemma_skip_ws_fwd_bounds(s@, l3 as int, h2 as int);
        lemma_skip_ws_back_bounds(s@, l4 as int, h2 as int);
        assert(l4 <= h3);
    }
    let mut out: Vec<char> = Vec::new();
    let mut k = lo;
    while k < hi
        invariant
            lo <= k <= hi <= s@.len(),
            out@ == s@.subrange(lo as int, k as int),
        decreases hi - k,
    {
        out.push(s[k]);
        proof {
            assert(out@ =~= s@.subrange(lo as int, k + 1));
        }
        k += 1;
    }
    proof {
        assert(out@ =~= s@.subrange(lo as int, hi as int));
    }
    out
}

/// Parses the text of a structured extraction reply: the fence markers are
/// stripped, and the rest must be the expected JSON object. A reply of any
/// other shape is an upstream decode failure carrying the raw text.
pub fn parse_metadata_response(text: &String) -> (r: Result<
    crate::chat_types::MetadataExtractionResponse,
    crate::error::ApiError,
>)
    ensures
        r matches Ok(m) ==> crate::codec::parse_metadata_object(spec_strip_fences(text@)) == Some(
            (m.keywords.deep_view(), m.topics.deep_view()),
        ),
        r matches Err(e) ==> e is ExternalApiError && crate::codec::parse_metadata_object(
            spec_strip_fences(text@),
        ) is None && crate::text::contains_seq(e.spec_message(), text@),
{
    let chars = str_to_chars(text.as_str());
    let stripped = strip_code_fences(&chars);
    match crate::codec::decode_metadata_object_chars(&stripped) {
        Some((keywords, topics)) => Ok(
            crate::chat_types::MetadataExtractionResponse { keywords, topics },
        ),
        None => {
            let mut msg: String = "Failed to parse metadata JSON. Response was: ".to_owned();
            let ghost prefix = msg@;
            msg.append(text.as_str());
            proof {
                assert(msg@.subrange(prefix.len() as int, msg@.len() as int) =~= text@);
                assert(crate::text::occurs_at(msg@, text@, prefix.len() as int));
            }
            Err(crate::error::ApiError::ExternalApiError(msg))
        },
    }
}

} // verus!
