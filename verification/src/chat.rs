//! The chat turn pipeline: resolve the conversation and the PDF text, build
//! the provider request, and — once the gateway has answered — extract the
//! reply and persist the turn.
use vstd::prelude::*;

use crate::cache::{b64_of, MaterializationCache};
use crate::chat_types::{ChatRequest, ChatResponse};
use crate::error::ApiError;
use crate::gateway::{build_chat_request, spec_joined_text, ClaudeClient};
use crate::models::{ChatApiResponse, ChatMessage};
use crate::storage::{has_blob, valid_pdf_header, MemoryBlobStore};
use crate::store::{
    conv_of_doc, fresh_msg_row, get_or_create_post, has_msg_id, history_of, lemma_history_push,
    ConversationStore, StoredMessage,
};

verus! {

/// The last caller-supplied turn is a user turn, so it is persisted with the
/// reply.
pub open spec fn last_is_user(turns: Seq<ChatMessage>) -> bool {
    turns.len() > 0 && turns.last().role@ == "user"@
}

/// What one persisted chat turn appends to a history: the user's message
/// (when the last caller turn was a user turn) and then the assistant reply.
pub open spec fn turn_appended(
    h0: Seq<StoredMessage>,
    h1: Seq<StoredMessage>,
    turns: Seq<ChatMessage>,
    reply: Seq<char>,
) -> bool {
    if last_is_user(turns) {
        &&& h1.len() == h0.len() + 2
        &&& h1.subrange(0, h0.len() as int) == h0
        &&& h1[h0.len() as int].role@ == "user"@
        &&& h1[h0.len() as int].content@ == turns.last().content@
        &&& h1.last().role@ == "assistant"@
        &&& h1.last().content@ == reply
    } else {
        &&& h1.len() == h0.len() + 1
        &&& h1.subrange(0, h0.len() as int) == h0
        &&& h1.last().role@ == "assistant"@
        &&& h1.last().content@ == reply
    }
}

/// One persisted user turn: the history grows by the user's message and the
/// assistant reply, in that order, keeping everything before it.
pub open spec fn user_turn_appended(
    h0: Seq<StoredMessage>,
    h1: Seq<StoredMessage>,
    user_content: Seq<char>,
    reply: Seq<char>,
) -> bool {
    &&& h1.len() == h0.len() + 2
    &&& h1.subrange(0, h0.len() as int) == h0
    &&& h1[h0.len() as int].role@ == "user"@
    &&& h1[h0.len() as int].content@ == user_content
    &&& h1.last().role@ == "assistant"@
    &&& h1.last().content@ == reply
}

/// A persisted turn whose last caller message is a user turn is exactly one
/// user-and-reply step of the history.
pub proof fn lemma_turn_appended_user_step(
    h0: Seq<StoredMessage>,
    h1: Seq<StoredMessage>,
    turns: Seq<ChatMessage>,
    reply: Seq<char>,
)
    requires
        last_is_user(turns),
        turn_appended(h0, h1, turns, reply),
    ensures
        user_turn_appended(h0, h1, turns.last().content@, reply),
{
}

/// After N chat turns against one document, each ending with a user message,
/// the history read returns exactly 2N messages in creation order,
/// alternating user and assistant and carrying the turns' texts in order.
/// `h` is the chain of histories, starting empty; `turns` pairs each user
/// message with its reply.
pub proof fn lemma_chat_history_shape(
    h: Seq<Seq<StoredMessage>>,
    turns: Seq<(Seq<char>, Seq<char>)>,
)
    requires
        h.len() == turns.len() + 1,
        h[0].len() == 0,
        forall|t: int|
            0 <= t < turns.len() ==> user_turn_appended(
                h[t],
                #[trigger] h[t + 1],
                turns[t].0,
                turns[t].1,
            ),
    ensures
        h.last().len() == 2 * turns.len(),
        forall|i: int|
            0 <= i < 2 * turns.len() ==> (#[trigger] h.last()[i].role@ == if i % 2 == 0 {
                "user"@
            } else {
                "assistant"@
            }),
        forall|t: int|
            0 <= t < turns.len() ==> h.last()[2 * t].content@ == (#[trigger] turns[t]).0
                && h.last()[2 * t + 1].content@ == turns[t].1,
    decreases turns.len(),
{
    if turns.len() == 0 {
    } else {
        let hp = h.drop_last();
        let tp = turns.drop_last();
        assert forall|t: int|
            0 <= t < tp.len() implies user_turn_appended(
            hp[t],
            #[trigger] hp[t + 1],
            tp[t].0,
            tp[t].1,
        ) by {
            assert(hp[t] == h[t] && hp[t + 1] == h[t + 1]);
            assert(user_turn_appended(h[t], h[t + 1], turns[t].0, turns[t].1));
        }
        lemma_chat_history_shape(hp, tp);
        let prev = hp.last();
        let cur = h.last();
        let n = tp.len();
        assert(prev == h[h.len() - 2]);
        assert(user_turn_appended(h[h.len() - 2], h[h.len() - 1], turns[n as int].0, turns[
            n as int].1));
        assert(cur.len() == 2 * turns.len());
        assert forall|i: int|
            0 <= i < 2 * turns.len() implies (#[trigger] cur[i].role@ == if i % 2 == 0 {
            "user"@
        } else {
            "assistant"@
        }) by {
            if i < prev.len() {
                assert(cur.subrange(0, prev.len() as int)[i] == cur[i]);
                assert(cur[i] == prev[i]);
            } else if i == prev.len() {
                assert(cur[i].role@ == "user"@);
            } else {
                assert(i == cur.len() - 1);
                assert(cur[i] == cur.last());
            }
        }
        assert forall|t: int|
            0 <= t < turns.len() implies cur[2 * t].content@ == (#[trigger] turns[t]).0 && cur[2
            * t + 1].content@ == turns[t].1 by {
            if t < n {
                assert(cur.subrange(0, prev.len() as int)[2 * t] == cur[2 * t]);
                assert(cur.subrange(0, prev.len() as int)[2 * t + 1] == cur[2 * t + 1]);
                assert(cur[2 * t] == prev[2 * t] && cur[2 * t + 1] == prev[2 * t + 1]);
                assert(tp[t] == turns[t]);
            } else {
                assert(cur[2 * t] == cur[prev.len() as int]);
                assert(cur[2 * t + 1] == cur.last());
            }
        }
    }
}

/// The first phase of a chat turn: the conversation is resolved (created if
/// need be), the PDF is materialized from the blob store through the cache,
/// and the provider request is built. For a document id whose bytes were
/// never stored, the result is the not-found failure and no request exists
/// to send, so no gateway call can follow.
pub fn prepare_chat_turn(
    store: &mut ConversationStore,
    cache: &mut MaterializationCache,
    blob: &MemoryBlobStore,
    client: &ClaudeClient,
    document_id: &String,
    turns: &Vec<ChatMessage>,
) -> (r: Result<(String, ChatRequest), ApiError>)
    requires
        old(store).wf(),
        old(cache).wf(),
        blob.wf(),
        forall|k: Seq<char>|
            old(cache).sources().dom().contains(k) ==> has_blob(blob.blobs(), k)
                && crate::storage::blob_bytes(blob.blobs(), k) == old(cache).sources()[k],
    ensures
        final(store).wf(),
        final(cache).wf(),
        !has_blob(blob.blobs(), document_id@) ==> (r matches Err(e) && (e is NotFound
            || e is DatabaseError)) && final(store).msgs() == old(store).msgs(),
        !has_blob(blob.blobs(), document_id@) && final(store).convs().len() > old(
            store,
        ).convs().len() ==> (r matches Err(e) && e is NotFound),
        !has_blob(blob.blobs(), document_id@) && crate::store::latest_conv_idx(
            old(store).convs(),
            document_id@,
        ) >= 0 ==> (r matches Err(e) && e is NotFound),
        r matches Ok((conv_id, req)) ==> {
            &&& exists|i: int|
                0 <= i < blob.blobs().len() && blob.blobs()[i].id@ == document_id@
                    && crate::gateway::provider_messages_ok(
                    turns@,
                    b64_of((#[trigger] blob.blobs()[i]).data@),
                    req.messages@,
                )
            &&& turns@.len() > 0 && turns@[0].role@ == "user"@ ==> req.messages@[0].has_document()
            &&& (forall|i: int|
                0 <= i < req.messages@.len() && !(i == 0 && turns@[0].role@ == "user"@) ==> !(
                #[trigger] req.messages@[i]).has_document())
            &&& req.model@ == client.model@
            &&& req.max_tokens == 4096
            &&& (req.system matches Some(blocks) && crate::gateway::system_blocks_ok(blocks@))
            &&& conv_of_doc(final(store).convs(), conv_id@, document_id@)
            &&& final(store).msgs() == old(store).msgs()
        },
        r is Err ==> final(store).msgs() == old(store).msgs(),
        has_blob(blob.blobs(), document_id@) && crate::store::latest_conv_idx(
            old(store).convs(),
            document_id@,
        ) >= 0 ==> r is Ok,
        has_blob(blob.blobs(), document_id@) && old(store).convs().len() == 0 ==> r is Ok,
        has_blob(blob.blobs(), document_id@) ==> (r matches Err(e) ==> e is DatabaseError),
{
    let conv_id = match store.get_or_create_conversation(document_id) {
        Ok(id) => id,
        Err(e) => {
            proof {
                let (fresh, now) = choose|fresh: Seq<char>, now: Seq<char>|
                    #[trigger] get_or_create_post(
                        *old(store),
                        *store,
                        document_id@,
                        fresh,
                        now,
                        Err::<String, ApiError>(e),
                    );
                crate::store::lemma_latest_conv_idx_bounds(old(store).convs(), document_id@);
                assert(crate::store::latest_conv_idx(old(store).convs(), document_id@) < 0);
                assert(e is DatabaseError);
                assert(old(store).convs().len() > 0);
            }
            return Err(e);
        },
    };
    proof {
        let (fresh, now) = choose|fresh: Seq<char>, now: Seq<char>|
            #[trigger] get_or_create_post(
                *old(store),
                *store,
                document_id@,
                fresh,
                now,
                Ok::<String, ApiError>(conv_id),
            );
        crate::store::lemma_latest_conv_idx_bounds(old(store).convs(), document_id@);
        let j = crate::store::latest_conv_idx(old(store).convs(), document_id@);
        if j >= 0 {
            assert(store.convs()[j].id@ == conv_id@ && store.convs()[j].document_id@
                == document_id@);
        } else {
            assert(store.convs().last().id@ == conv_id@ && store.convs().last().document_id@
                == document_id@);
        }
        assert(conv_of_doc(store.convs(), conv_id@, document_id@));
    }
    let pdf_base64 = match resolve_pdf_text(cache, blob, document_id) {
        Ok(t) => t,
        Err(e) => {
            return Err(e);
        },
    };
    let req = build_chat_request(client, &pdf_base64, turns);
    Ok((conv_id, req))
}

/// Resolves the document's base64 text: a cache hit is used as is, a miss
/// recomputes from the blob store's bytes; either way the text is the
/// encoding of the stored bytes. A missing blob is the not-found failure.
fn resolve_pdf_text(
    cache: &mut MaterializationCache,
    blob: &MemoryBlobStore,
    document_id: &String,
) -> (r: Result<String, ApiError>)
    requires
        old(cache).wf(),
        blob.wf(),
        forall|k: Seq<char>|
            old(cache).sources().dom().contains(k) ==> has_blob(blob.blobs(), k)
                && crate::storage::blob_bytes(blob.blobs(), k) == old(cache).sources()[k],
    ensures
        final(cache).wf(),
        (r is Ok) == has_blob(blob.blobs(), document_id@),
        r matches Err(e) ==> e is NotFound,
        r matches Ok(t) ==> exists|i: int|
            0 <= i < blob.blobs().len() && blob.blobs()[i].id@ == document_id@ && t@ == b64_of(
            (#[trigger] blob.blobs()[i]).data@,
        ),
{
    match cache.lookup(document_id) {
        Some(t) => {
            proof {
                let k = document_id@;
                assert(has_blob(blob.blobs(), k));
                let i = choose|i: int|
                    0 <= i < blob.blobs().len() && blob.blobs()[i].id@ == k;
                assert(crate::storage::blob_bytes(blob.blobs(), k) == blob.blobs()[choose|j: int|
                    0 <= j < blob.blobs().len() && blob.blobs()[j].id@ == k].data@);
            }
            Ok(t)
        },
        None => {
            match blob.get_pdf(document_id) {
                Ok(bytes) => {
                    proof {
                        let i = choose|i: int|
                            0 <= i < blob.blobs().len() && blob.blobs()[i].id@ == document_id@
                                && bytes@ == blob.blobs()[i].data@;
                        assert(valid_pdf_header(blob.blobs()[i].data@) && blob.blobs()[i].data@.len()
                            * 4 <= usize::MAX) by {
                            assert(blob.wf());
                        }
                    }
                    let t = cache.materialize(document_id, &bytes);
                    Ok(t)
                },
                Err(_) => Err(
                    ApiError::NotFound("Document not found".to_owned()),
                ),
            }
        },
    }
}

/// A message id occurs in an extended table exactly when it occurs in the
/// table or is the appended row's id.
proof fn lemma_has_msg_id_push(msgs: Seq<crate::store::MessageRow>, mr: crate::store::MessageRow)
    ensures
        forall|x: Seq<char>|
            #[trigger] has_msg_id(msgs.push(mr), x) <==> (has_msg_id(msgs, x) || x
                == mr.message.id@),
{
    let post = msgs.push(mr);
    assert forall|x: Seq<char>| #[trigger] has_msg_id(post, x) implies (has_msg_id(msgs, x) || x
        == mr.message.id@) by {
        let i = choose|i: int| 0 <= i < post.len() && post[i].message.id@ == x;
        if i < msgs.len() {
            assert(post[i] == msgs[i]);
        }
    }
    assert forall|x: Seq<char>| has_msg_id(msgs, x) || x == mr.message.id@ implies #[trigger] has_msg_id(
        post,
        x,
    ) by {
        if has_msg_id(msgs, x) {
            let i = choose|i: int| 0 <= i < msgs.len() && msgs[i].message.id@ == x;
            assert(post[i] == msgs[i]);
        } else {
            assert(post.last().message.id@ == x);
        }
    }
}

/// The second phase of a chat turn: extract the reply text from the
/// response, persist the user's last turn (when it is a user turn) and the
/// assistant reply, and shape the response body. The document's history
/// grows by exactly the persisted turn, in that order, and no other
/// history changes.
pub fn complete_chat_turn(
    store: &mut ConversationStore,
    conversation_id: &String,
    turns: &Vec<ChatMessage>,
    response: ChatResponse,
    user_msg_id: &String,
    assistant_msg_id: &String,
    now: &String,
) -> (r: Result<ChatApiResponse, ApiError>)
    requires
        old(store).wf(),
    ensures
        final(store).wf(),
        final(store).convs() == old(store).convs(),
        final(store).docs() == old(store).docs(),
        r matches Ok(body) ==> {
            &&& body.response@ == spec_joined_text(response.content@)
            &&& (body.usage matches Some(u) && u == response.usage)
            &&& (forall|doc: Seq<char>|
                conv_of_doc(old(store).convs(), conversation_id@, doc)
                    ==> turn_appended(
                    history_of(old(store).msgs(), old(store).convs(), doc),
                    #[trigger] history_of(final(store).msgs(), final(store).convs(), doc),
                    turns@,
                    spec_joined_text(response.content@),
                ))
            &&& (forall|doc: Seq<char>|
                !conv_of_doc(old(store).convs(), conversation_id@, doc)
                    ==> #[trigger] history_of(final(store).msgs(), final(store).convs(), doc)
                    == history_of(old(store).msgs(), old(store).convs(), doc))
        },
        r matches Err(e) ==> e is DatabaseError,
        r is Ok <==> (!has_msg_id(old(store).msgs(), assistant_msg_id@) && (last_is_user(turns@)
            ==> (!has_msg_id(old(store).msgs(), user_msg_id@) && user_msg_id@
            != assistant_msg_id@))),
        r is Err ==> (final(store).msgs() == old(store).msgs() || (last_is_user(turns@)
            && final(store).msgs().len() == old(store).msgs().len() + 1
            && final(store).msgs().subrange(
            0,
            old(store).msgs().len() as int,
        ) == old(store).msgs() && fresh_msg_row(
            final(store).msgs().last(),
            conversation_id@,
            "user"@,
            turns@.last().content@,
            user_msg_id@,
            now@,
        ))),
{
    let reply = crate::gateway::extract_reply_text(&response.content);
    let user_role: String = "user".to_owned();
    let assistant_role: String = "assistant".to_owned();
    let persist_user = turns.len() > 0 && crate::text::string_eq_str(
        &turns[turns.len() - 1].role,
        "user",
    );
    if persist_user {
        let last = &turns[turns.len() - 1];
        match store.save_message_at(conversation_id, &user_role, &last.content, user_msg_id, now) {
            Ok(_) => (),
            Err(e) => {
                return Err(e);
            },
        }
    }
    let ghost h_mid = store.msgs();
    proof {
        if persist_user {
            assert(h_mid =~= old(store).msgs().push(h_mid.last()));
            lemma_has_msg_id_push(old(store).msgs(), h_mid.last());
        }
    }
    match store.save_message_at(conversation_id, &assistant_role, &reply, assistant_msg_id, now) {
        Ok(_) => (),
        Err(e) => {
            return Err(e);
        },
    }
    proof {
        let pre = old(store).msgs();
        let post = store.msgs();
        let convs = store.convs();
        assert forall|doc: Seq<char>|
            conv_of_doc(convs, conversation_id@, doc) implies turn_appended(
            history_of(pre, convs, doc),
            #[trigger] history_of(post, convs, doc),
            turns@,
            reply@,
        ) by {
            let h0 = history_of(pre, convs, doc);
            let h1 = history_of(post, convs, doc);
            if persist_user {
                assert(h_mid =~= pre.push(h_mid.last()));
                lemma_history_push(pre, convs, doc, h_mid.last());
                assert(post =~= h_mid.push(post.last()));
                lemma_history_push(h_mid, convs, doc, post.last());
                assert(h1 == h0.push(h_mid.last().message).push(post.last().message));
                assert(h1.subrange(0, h0.len() as int) =~= h0);
            } else {
                assert(post =~= pre.push(post.last()));
                lemma_history_push(pre, convs, doc, post.last());
                assert(h1 == h0.push(post.last().message));
                assert(h1.subrange(0, h0.len() as int) =~= h0);
            }
        }
        assert forall|doc: Seq<char>|
            !conv_of_doc(convs, conversation_id@, doc) implies #[trigger] history_of(
            post,
            convs,
            doc,
        ) == history_of(pre, convs, doc) by {
            if persist_user {
                assert(h_mid =~= pre.push(h_mid.last()));
                lemma_history_push(pre, convs, doc, h_mid.last());
                assert(post =~= h_mid.push(post.last()));
                lemma_history_push(h_mid, convs, doc, post.last());
            } else {
                assert(post =~= pre.push(post.last()));
                lemma_history_push(pre, convs, doc, post.last());
            }
        }
    }
    Ok(ChatApiResponse { response: reply, usage: Some(response.usage) })
}

} // verus!
