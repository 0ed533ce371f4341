//! The conversation store: documents, conversations and messages, with
//! idempotent conversation resolution, append-only messages and ordered
//! history reads. Creation order is the recency order: a row appended later
//! was created later.
use vstd::prelude::*;

use crate::error::ApiError;
use crate::text::lex_le;

verus! {

/// One stored chat message, as the history read returns it.
pub struct StoredMessage {
    pub id: String,
    pub role: String,
    pub content: String,
    pub created_at: String,
}

/// One conversation row; its document never changes after creation.
pub struct Conversation {
    pub id: String,
    pub document_id: String,
    pub title: Option<String>,
    pub created_at: String,
    pub updated_at: String,
}

/// One document row. `keywords` and `topics` hold the serialized string
/// lists once the document is enriched; unset means "not yet enriched".
pub struct Document {
    pub id: String,
    pub filename: String,
    pub keywords: Option<String>,
    pub topics: Option<String>,
    pub uploaded_at: String,
    pub created_at: String,
    pub updated_at: String,
}

/// One message row: the message and the conversation it belongs to.
pub struct MessageRow {
    pub conversation_id: String,
    pub message: StoredMessage,
}

/// The store: three append-ordered tables.
pub struct ConversationStore {
    documents: Vec<Document>,
    conversations: Vec<Conversation>,
    messages: Vec<MessageRow>,
}

/// Some document has this id.
pub open spec fn has_doc(docs: Seq<Document>, id: Seq<char>) -> bool {
    exists|i: int| 0 <= i < docs.len() && docs[i].id@ == id
}

/// Some conversation has this id.
pub open spec fn has_conv_id(convs: Seq<Conversation>, id: Seq<char>) -> bool {
    exists|i: int| 0 <= i < convs.len() && convs[i].id@ == id
}

/// Some message has this id.
pub open spec fn has_msg_id(msgs: Seq<MessageRow>, id: Seq<char>) -> bool {
    exists|i: int| 0 <= i < msgs.len() && msgs[i].message.id@ == id
}

/// The most recently created conversation of the document, or -1.
pub open spec fn latest_conv_idx(convs: Seq<Conversation>, doc: Seq<char>) -> int
    decreases convs.len(),
{
    if convs.len() == 0 {
        -1
    } else if convs.last().document_id@ == doc {
        convs.len() - 1
    } else {
        latest_conv_idx(convs.drop_last(), doc)
    }
}

/// The latest-conversation index is in range and points at a conversation of
/// the document; when it is -1 the document has none.
pub proof fn lemma_latest_conv_idx_bounds(convs: Seq<Conversation>, doc: Seq<char>)
    ensures
        -1 <= latest_conv_idx(convs, doc) < convs.len(),
        latest_conv_idx(convs, doc) >= 0 ==> convs[latest_conv_idx(convs, doc)].document_id@
            == doc,
        latest_conv_idx(convs, doc) == -1 ==> forall|i: int|
            0 <= i < convs.len() ==> convs[i].document_id@ != doc,
    decreases convs.len(),
{
    if convs.len() > 0 && convs.last().document_id@ != doc {
        lemma_latest_conv_idx_bounds(convs.drop_last(), doc);
        if latest_conv_idx(convs, doc) == -1 {
            assert forall|i: int| 0 <= i < convs.len() implies convs[i].document_id@ != doc by {
                if i < convs.len() - 1 {
                    assert(convs.drop_last()[i] == convs[i]);
                }
            }
        }
    }
}

/// The latest-conversation index depends only on the document ids of the
/// rows.
pub proof fn lemma_latest_conv_idx_same_docs(
    a: Seq<Conversation>,
    b: Seq<Conversation>,
    doc: Seq<char>,
)
    requires
        a.len() == b.len(),
        forall|i: int| 0 <= i < a.len() ==> a[i].document_id@ == b[i].document_id@,
    ensures
        latest_conv_idx(a, doc) == latest_conv_idx(b, doc),
    decreases a.len(),
{
    if a.len() > 0 {
        assert(a.last().document_id@ == b.last().document_id@);
        if a.last().document_id@ != doc {
            lemma_latest_conv_idx_same_docs(a.drop_last(), b.drop_last(), doc);
        }
    }
}

/// Document ids are pairwise distinct.
pub open spec fn unique_doc_ids(docs: Seq<Document>) -> bool {
    forall|i: int, j: int| 0 <= i < j < docs.len() ==> docs[i].id@ != docs[j].id@
}

/// Conversation ids are pairwise distinct.
pub open spec fn unique_conv_ids(convs: Seq<Conversation>) -> bool {
    forall|i: int, j: int| 0 <= i < j < convs.len() ==> convs[i].id@ != convs[j].id@
}

/// Message ids are pairwise distinct.
pub open spec fn unique_msg_ids(msgs: Seq<MessageRow>) -> bool {
    forall|i: int, j: int| 0 <= i < j < msgs.len() ==> msgs[i].message.id@ != msgs[j].message.id@
}

impl ConversationStore {
    /// The document rows, in upload order.
    pub closed spec fn docs(self) -> Seq<Document> {
        self.documents@
    }

    /// The conversation rows, in creation order.
    pub closed spec fn convs(self) -> Seq<Conversation> {
        self.conversations@
    }

    /// The message rows, in creation order.
    pub closed spec fn msgs(self) -> Seq<MessageRow> {
        self.messages@
    }

    /// All ids are primary keys: pairwise distinct per table.
    pub open spec fn wf(self) -> bool {
        unique_doc_ids(self.docs()) && unique_conv_ids(self.convs()) && unique_msg_ids(
            self.msgs(),
        )
    }

    /// An empty store.
    pub fn new() -> (r: ConversationStore)
        ensures
            r.wf(),
            r.docs().len() == 0,
            r.convs().len() == 0,
            r.msgs().len() == 0,
    {
        ConversationStore { documents: Vec::new(), conversations: Vec::new(), messages: Vec::new() }
    }

    /// The index of the document with this id, if any.
    fn find_doc(&self, id: &String) -> (r: Option<usize>)
        ensures
            r matches Some(i) ==> i < self.docs().len() && self.docs()[i as int].id@ == id@,
            r is None ==> !has_doc(self.docs(), id@),
    {
        let mut i: usize = 0;
        while i < self.documents.len()
            invariant
                i <= self.docs().len(),
                forall|k: int| 0 <= k < i ==> self.docs()[k].id@ != id@,
            decreases self.docs().len() - i,
        {
            if crate::text::string_eq_str(&self.documents[i].id, id.as_str()) {
                return Some(i);
            }
            i += 1;
        }
        None
    }

    /// Whether some conversation has this id.
    fn conv_id_taken(&self, id: &String) -> (r: bool)
        ensures
            r == has_conv_id(self.convs(), id@),
    {
        let mut i: usize = 0;
        while i < self.conversations.len()
            invariant
                i <= self.convs().len(),
                forall|k: int| 0 <= k < i ==> self.convs()[k].id@ != id@,
            decreases self.convs().len() - i,
        {
            if crate::text::string_eq_str(&self.conversations[i].id, id.as_str()) {
                return true;
            }
            i += 1;
        }
        false
    }

    /// The index of the conversation with this id, if any.
    fn find_conv(&self, id: &String) -> (r: Option<usize>)
        ensures
            r matches Some(i) ==> i < self.convs().len() && self.convs()[i as int].id@ == id@,
            r is None ==> !has_conv_id(self.convs(), id@),
    {
        let mut i: usize = 0;
        while i < self.conversations.len()
            invariant
                i <= self.convs().len(),
                forall|k: int| 0 <= k < i ==> self.convs()[k].id@ != id@,
            decreases self.convs().len() - i,
        {
            if crate::text::string_eq_str(&self.conversations[i].id, id.as_str()) {
                return Some(i);
            }
            i += 1;
        }
        None
    }

    /// Whether some message has this id.
    fn msg_id_taken(&self, id: &String) -> (r: bool)
        ensures
            r == has_msg_id(self.msgs(), id@),
    {
        let mut i: usize = 0;
        while i < self.messages.len()
            invariant
                i <= self.msgs().len(),
                forall|k: int| 0 <= k < i ==> self.msgs()[k].message.id@ != id@,
            decreases self.msgs().len() - i,
        {
            if crate::text::string_eq_str(&self.messages[i].message.id, id.as_str()) {
                return true;
            }
            i += 1;
        }
        false
    }

    /// The most recently created conversation of the document, if any.
    fn find_latest_conv(&self, doc: &String) -> (r: Option<usize>)
        ensures
            r matches Some(i) ==> latest_conv_idx(self.convs(), doc@) == i as int,
            r is None ==> latest_conv_idx(self.convs(), doc@) == -1,
    {
        let mut i: usize = self.conversations.len();
        proof {
            assert(self.convs().subrange(0, self.convs().len() as int) =~= self.convs());
        }
        while i > 0
            invariant
                i <= self.convs().len(),
                latest_conv_idx(self.convs(), doc@) == latest_conv_idx(
                    self.convs().subrange(0, i as int),
                    doc@,
                ),
            decreases i,
        {
            if crate::text::string_eq_str(&self.conversations[i - 1].document_id, doc.as_str()) {
                proof {
                    let sub = self.convs().subrange(0, i as int);
                    assert(sub.last() == self.convs()[i - 1]);
                }
                return Some(i - 1);
            }
            proof {
                let sub = self.convs().subrange(0, i as int);
                assert(sub.last() == self.convs()[i - 1]);
                assert(sub.drop_last() =~= self.convs().subrange(0, i - 1));
            }
            i -= 1;
        }
        proof {
            assert(self.convs().subrange(0, 0) =~= Seq::<Conversation>::empty());
        }
        None
    }
}

/// A copy of a document row.
pub fn clone_document(d: &Document) -> (r: Document)
    ensures
        r == *d,
{
    Document {
        id: d.id.clone(),
        filename: d.filename.clone(),
        keywords: match &d.keywords {
            Some(s) => Some(s.clone()),
            None => None,
        },
        topics: match &d.topics {
            Some(s) => Some(s.clone()),
            None => None,
        },
        uploaded_at: d.uploaded_at.clone(),
        created_at: d.created_at.clone(),
        updated_at: d.updated_at.clone(),
    }
}

/// A copy of a conversation row.
pub fn clone_conversation(c: &Conversation) -> (r: Conversation)
    ensures
        r == *c,
{
    Conversation {
        id: c.id.clone(),
        document_id: c.document_id.clone(),
        title: match &c.title {
            Some(s) => Some(s.clone()),
            None => None,
        },
        created_at: c.created_at.clone(),
        updated_at: c.updated_at.clone(),
    }
}

/// A copy of a stored message.
pub fn clone_message(m: &StoredMessage) -> (r: StoredMessage)
    ensures
        r == *m,
{
    StoredMessage {
        id: m.id.clone(),
        role: m.role.clone(),
        content: m.content.clone(),
        created_at: m.created_at.clone(),
    }
}

/// A freshly created document row: not yet enriched, all timestamps `now`.
pub open spec fn fresh_doc(d: Document, id: Seq<char>, filename: Seq<char>, now: Seq<char>) -> bool {
    &&& d.id@ == id
    &&& d.filename@ == filename
    &&& d.keywords is None
    &&& d.topics is None
    &&& d.uploaded_at@ == now
    &&& d.created_at@ == now
    &&& d.updated_at@ == now
}

/// What creating a document does: appends one fresh row, or fails without a
/// change when the id is already taken.
pub open spec fn create_document_post(
    pre: ConversationStore,
    post: ConversationStore,
    id: Seq<char>,
    filename: Seq<char>,
    now: Seq<char>,
    r: Result<(), ApiError>,
) -> bool {
    &&& post.convs() == pre.convs()
    &&& post.msgs() == pre.msgs()
    &&& if has_doc(pre.docs(), id) {
        &&& post.docs() == pre.docs()
        &&& (r matches Err(e) && e is DatabaseError)
    } else {
        &&& post.docs().len() == pre.docs().len() + 1
        &&& post.docs().subrange(0, pre.docs().len() as int) == pre.docs()
        &&& fresh_doc(post.docs().last(), id, filename, now)
        &&& r is Ok
    }
}

impl ConversationStore {
    /// Creates a document row with unset keywords and topics, at `now`.
    pub fn create_document_at(
        &mut self,
        document_id: &String,
        filename: &String,
        now: &String,
    ) -> (r: Result<(), ApiError>)
        requires
            old(self).wf(),
        ensures
            final(self).wf(),
            create_document_post(*old(self), *final(self), document_id@, filename@, now@, r),
    {
        if self.find_doc(document_id).is_some() {
            return Err(ApiError::DatabaseError("document id already exists".to_owned()));
        }
        let d = Document {
            id: document_id.clone(),
            filename: filename.clone(),
            keywords: None,
            topics: None,
            uploaded_at: now.clone(),
            created_at: now.clone(),
            updated_at: now.clone(),
        };
        self.documents.push(d);
        proof {
            assert(self.documents@.subrange(0, old(self).documents@.len() as int) =~= old(
                self,
            ).documents@);
        }
        Ok(())
    }

    /// Creates a document row stamped with the current time.
    pub fn create_document(&mut self, document_id: &String, filename: &String) -> (r: Result<
        (),
        ApiError,
    >)
        requires
            old(self).wf(),
        ensures
            final(self).wf(),
            exists|now: Seq<char>|
                create_document_post(*old(self), *final(self), document_id@, filename@, now, r),
    {
        let now = crate::host::now_rfc3339();
        let r = self.create_document_at(document_id, filename, &now);
        proof {
            assert(create_document_post(
                *old(self),
                *self,
                document_id@,
                filename@,
                now@,
                r,
            ));
        }
        r
    }

    /// The document with this id, if it exists.
    pub fn get_document(&self, document_id: &String) -> (r: Option<Document>)
        ensures
            (r is Some) == has_doc(self.docs(), document_id@),
            r matches Some(d) ==> d.id@ == document_id@ && exists|i: int|
                0 <= i < self.docs().len() && self.docs()[i] == d,
    {
        match self.find_doc(document_id) {
            Some(i) => Some(clone_document(&self.documents[i])),
            None => None,
        }
    }

    /// How a metadata update changes a row: keywords, topics and the update
    /// time are replaced together; everything else is kept.
    pub open spec fn metadata_updated(
        d0: Document,
        d1: Document,
        keywords: Option<String>,
        topics: Option<String>,
        now: Seq<char>,
    ) -> bool {
        &&& d1.id@ == d0.id@
        &&& d1.filename@ == d0.filename@
        &&& d1.uploaded_at@ == d0.uploaded_at@
        &&& d1.created_at@ == d0.created_at@
        &&& d1.updated_at@ == now
        &&& ((d1.keywords is None && keywords is None) || (d1.keywords matches Some(a)
            && keywords matches Some(b) && a@ == b@))
        &&& ((d1.topics is None && topics is None) || (d1.topics matches Some(a)
            && topics matches Some(b) && a@ == b@))
    }

    /// Sets the document's keywords and topics together, at `now`. A missing
    /// document is not an error: nothing changes then.
    pub fn update_document_metadata_at(
        &mut self,
        document_id: &String,
        keywords: Option<String>,
        topics: Option<String>,
        now: &String,
    ) -> (r: Result<(), ApiError>)
        requires
            old(self).wf(),
        ensures
            final(self).wf(),
            r is Ok,
            final(self).convs() == old(self).convs(),
            final(self).msgs() == old(self).msgs(),
            !has_doc(old(self).docs(), document_id@) ==> final(self).docs() == old(self).docs(),
            has_doc(old(self).docs(), document_id@) ==> exists|i: int|
                {
                    &&& 0 <= i < old(self).docs().len()
                    &&& old(self).docs()[i].id@ == document_id@
                    &&& final(self).docs().len() == old(self).docs().len()
                    &&& Self::metadata_updated(
                        old(self).docs()[i],
                        #[trigger] final(self).docs()[i],
                        keywords,
                        topics,
                        now@,
                    )
                    &&& (forall|k: int|
                        0 <= k < old(self).docs().len() && k != i ==> final(self).docs()[k] == old(
                            self,
                        ).docs()[k])
                },
    {
        match self.find_doc(document_id) {
            Some(i) => {
                let e = &mut self.documents[i];
                e.keywords = keywords;
                e.topics = topics;
                e.updated_at = now.clone();
                proof {
                    assert forall|a: int, b: int|
                        0 <= a < b < self.docs().len() implies self.docs()[a].id@
                        != self.docs()[b].id@ by {
                        assert(self.docs()[a].id@ == old(self).docs()[a].id@);
                        assert(self.docs()[b].id@ == old(self).docs()[b].id@);
                    }
                }
                Ok(())
            },
            None => Ok(()),
        }
    }

    /// Sets the document's keywords and topics together, stamped with the
    /// current time.
    pub fn update_document_metadata(
        &mut self,
        document_id: &String,
        keywords: Option<String>,
        topics: Option<String>,
    ) -> (r: Result<(), ApiError>)
        requires
            old(self).wf(),
        ensures
            final(self).wf(),
            r is Ok,
            final(self).convs() == old(self).convs(),
            final(self).msgs() == old(self).msgs(),
            !has_doc(old(self).docs(), document_id@) ==> final(self).docs() == old(self).docs(),
            has_doc(old(self).docs(), document_id@) ==> exists|i: int, now: Seq<char>|
                {
                    &&& 0 <= i < old(self).docs().len()
                    &&& old(self).docs()[i].id@ == document_id@
                    &&& final(self).docs().len() == old(self).docs().len()
                    &&& #[trigger] Self::metadata_updated(
                        old(self).docs()[i],
                        final(self).docs()[i],
                        keywords,
                        topics,
                        now,
                    )
                    &&& (forall|k: int|
                        0 <= k < old(self).docs().len() && k != i ==> final(self).docs()[k] == old(
                            self,
                        ).docs()[k])
                },
    {
        let now = crate::host::now_rfc3339();
        self.update_document_metadata_at(document_id, keywords, topics, &now)
    }

    /// The `limit` most recently uploaded documents, most recent first; a
    /// negative limit means all of them.
    pub fn list_recent_documents(&self, limit: i32) -> (r: Vec<Document>)
        ensures
            r@.len() == if limit < 0 {
                self.docs().len() as int
            } else if (limit as int) < self.docs().len() {
                limit as int
            } else {
                self.docs().len() as int
            },
            forall|k: int|
                0 <= k < r@.len() ==> r@[k] == self.docs()[self.docs().len() - 1 - k],
    {
        let n = self.documents.len();
        let take: usize = if limit < 0 {
            n
        } else if (limit as usize) < n {
            limit as usize
        } else {
            n
        };
        let mut r: Vec<Document> = Vec::new();
        let mut k: usize = 0;
        while k < take
            invariant
                take <= n,
                n == self.docs().len(),
                k <= take,
                r@.len() == k,
                forall|j: int| 0 <= j < k ==> r@[j] == self.docs()[self.docs().len() - 1 - j],
            decreases take - k,
        {
            r.push(clone_document(&self.documents[n - 1 - k]));
            k += 1;
        }
        r
    }
}

/// A freshly created conversation row.
pub open spec fn fresh_conv(
    c: Conversation,
    id: Seq<char>,
    doc: Seq<char>,
    title: Option<String>,
    now: Seq<char>,
) -> bool {
    &&& c.id@ == id
    &&& c.document_id@ == doc
    &&& ((c.title is None && title is None) || (c.title matches Some(a) && title matches Some(b)
        && a@ == b@))
    &&& c.created_at@ == now
    &&& c.updated_at@ == now
}

/// A conversation whose update time was touched; everything else is kept.
pub open spec fn conv_touched(c0: Conversation, c1: Conversation, now: Seq<char>) -> bool {
    &&& c1.id@ == c0.id@
    &&& c1.document_id@ == c0.document_id@
    &&& c1.title == c0.title
    &&& c1.created_at@ == c0.created_at@
    &&& c1.updated_at@ == now
}

/// What get-or-create does. The document row is synthesized with a
/// placeholder filename when it is missing. If the document already has a
/// conversation, the most recently created one is touched and returned and
/// no row is added; otherwise one fresh row is appended, unless the fresh id
/// is already taken, which fails without adding a row.
pub open spec fn get_or_create_post(
    pre: ConversationStore,
    post: ConversationStore,
    doc: Seq<char>,
    fresh: Seq<char>,
    now: Seq<char>,
    r: Result<String, ApiError>,
) -> bool {
    &&& post.msgs() == pre.msgs()
    &&& if has_doc(pre.docs(), doc) {
        post.docs() == pre.docs()
    } else {
        &&& post.docs().len() == pre.docs().len() + 1
        &&& post.docs().subrange(0, pre.docs().len() as int) == pre.docs()
        &&& fresh_doc(post.docs().last(), doc, "unknown.pdf"@, now)
    }
    &&& {
        let j = latest_conv_idx(pre.convs(), doc);
        if j >= 0 {
            &&& post.convs().len() == pre.convs().len()
            &&& (forall|i: int|
                0 <= i < pre.convs().len() && i != j ==> post.convs()[i] == pre.convs()[i])
            &&& conv_touched(pre.convs()[j], post.convs()[j], now)
            &&& (r matches Ok(id) && id@ == pre.convs()[j].id@)
        } else if has_conv_id(pre.convs(), fresh) {
            &&& post.convs() == pre.convs()
            &&& (r matches Err(e) && e is DatabaseError)
        } else {
            &&& post.convs().len() == pre.convs().len() + 1
            &&& post.convs().subrange(0, pre.convs().len() as int) == pre.convs()
            &&& fresh_conv(post.convs().last(), fresh, doc, None, now)
            &&& (r matches Ok(id) && id@ == fresh)
        }
    }
}

/// Get-or-create is idempotent: when one call for a document succeeded, a
/// second sequential call for the same document returns the same
/// conversation id and creates no further conversation row, whatever fresh
/// id and times the two calls used.
pub proof fn lemma_get_or_create_idempotent(
    s0: ConversationStore,
    s1: ConversationStore,
    s2: ConversationStore,
    doc: Seq<char>,
    fresh1: Seq<char>,
    now1: Seq<char>,
    fresh2: Seq<char>,
    now2: Seq<char>,
    r1: Result<String, ApiError>,
    r2: Result<String, ApiError>,
)
    requires
        get_or_create_post(s0, s1, doc, fresh1, now1, r1),
        get_or_create_post(s1, s2, doc, fresh2, now2, r2),
        r1 is Ok,
    ensures
        r2 is Ok,
        r1 matches Ok(a) ==> (r2 matches Ok(b) && a@ == b@),
        s2.convs().len() == s1.convs().len(),
{
    let j0 = latest_conv_idx(s0.convs(), doc);
    lemma_latest_conv_idx_bounds(s0.convs(), doc);
    if j0 >= 0 {
        assert forall|i: int|
            0 <= i < s1.convs().len() implies s1.convs()[i].document_id@ == s0.convs()[i].document_id@ by {
            if i != j0 {
                assert(s1.convs()[i] == s0.convs()[i]);
            }
        }
        lemma_latest_conv_idx_same_docs(s1.convs(), s0.convs(), doc);
        assert(latest_conv_idx(s1.convs(), doc) == j0);
        assert(s1.convs()[j0].id@ == s0.convs()[j0].id@);
    } else {
        assert(s1.convs().last().document_id@ == doc);
        assert(latest_conv_idx(s1.convs(), doc) == s1.convs().len() - 1);
        assert(s1.convs()[s1.convs().len() - 1].id@ == fresh1);
    }
}

impl ConversationStore {
    /// Resolves the document's conversation: returns the most recently
    /// created one, or creates exactly one (with the given fresh id) if none
    /// exists; a missing document row is synthesized first.
    pub fn get_or_create_conversation_at(
        &mut self,
        document_id: &String,
        fresh_id: &String,
        now: &String,
    ) -> (r: Result<String, ApiError>)
        requires
            old(self).wf(),
        ensures
            final(self).wf(),
            get_or_create_post(*old(self), *final(self), document_id@, fresh_id@, now@, r),
    {
        if self.find_doc(document_id).is_none() {
            let d = Document {
                id: document_id.clone(),
                filename: "unknown.pdf".to_owned(),
                keywords: None,
                topics: None,
                uploaded_at: now.clone(),
                created_at: now.clone(),
                updated_at: now.clone(),
            };
            self.documents.push(d);
            proof {
                assert(self.documents@.subrange(0, old(self).documents@.len() as int) =~= old(
                    self,
                ).documents@);
            }
        }
        match self.find_latest_conv(document_id) {
            Some(j) => {
                proof {
                    lemma_latest_conv_idx_bounds(self.conversations@, document_id@);
                }
                let id = self.conversations[j].id.clone();
                let e = &mut self.conversations[j];
                e.updated_at = now.clone();
                proof {
                    assert forall|a: int, b: int|
                        0 <= a < b < self.convs().len() implies self.convs()[a].id@
                        != self.convs()[b].id@ by {
                        assert(self.convs()[a].id@ == old(self).convs()[a].id@);
                        assert(self.convs()[b].id@ == old(self).convs()[b].id@);
                    }
                }
                Ok(id)
            },
            None => {
                if self.conv_id_taken(fresh_id) {
                    return Err(ApiError::DatabaseError("conversation id already exists".to_owned()));
                }
                let c = Conversation {
                    id: fresh_id.clone(),
                    document_id: document_id.clone(),
                    title: None,
                    created_at: now.clone(),
                    updated_at: now.clone(),
                };
                self.conversations.push(c);
                proof {
                    assert(self.conversations@.subrange(0, old(self).conversations@.len() as int)
                        =~= old(self).conversations@);
                }
                Ok(fresh_id.clone())
            },
        }
    }

    /// Resolves the document's conversation with a drawn id and the current
    /// time. Whatever id was drawn: an existing conversation is returned
    /// untouched but for its update time, and at most one row is created.
    pub fn get_or_create_conversation(&mut self, document_id: &String) -> (r: Result<
        String,
        ApiError,
    >)
        requires
            old(self).wf(),
        ensures
            final(self).wf(),
            exists|fresh: Seq<char>, now: Seq<char>|
                #[trigger] get_or_create_post(
                    *old(self),
                    *final(self),
                    document_id@,
                    fresh,
                    now,
                    r,
                ),
    {
        let fresh = crate::host::fresh_uuid();
        let now = crate::host::now_rfc3339();
        let r = self.get_or_create_conversation_at(document_id, &fresh, &now);
        proof {
            assert(get_or_create_post(*old(self), *self, document_id@, fresh@, now@, r));
        }
        r
    }

    /// What creating a conversation does: one fresh row is appended, unless
    /// the fresh id is already taken, which fails without a change. Documents
    /// and messages never change.
    pub open spec fn create_conversation_post(
        pre: ConversationStore,
        post: ConversationStore,
        doc: Seq<char>,
        title: Option<String>,
        fresh: Seq<char>,
        now: Seq<char>,
        r: Result<String, ApiError>,
    ) -> bool {
        &&& post.docs() == pre.docs()
        &&& post.msgs() == pre.msgs()
        &&& if has_conv_id(pre.convs(), fresh) {
            &&& post.convs() == pre.convs()
            &&& (r matches Err(e) && e is DatabaseError)
        } else {
            &&& post.convs().len() == pre.convs().len() + 1
            &&& post.convs().subrange(0, pre.convs().len() as int) == pre.convs()
            &&& fresh_conv(post.convs().last(), fresh, doc, title, now)
            &&& (r matches Ok(id) && id@ == fresh)
        }
    }

    /// What a title update does: the conversation's title is replaced and
    /// its update time touched; everything else is kept, and a missing
    /// conversation is not an error.
    pub open spec fn update_title_post(
        pre: ConversationStore,
        post: ConversationStore,
        conv_id: Seq<char>,
        title: Seq<char>,
        now: Seq<char>,
        r: Result<(), ApiError>,
    ) -> bool {
        &&& r is Ok
        &&& post.docs() == pre.docs()
        &&& post.msgs() == pre.msgs()
        &&& (!has_conv_id(pre.convs(), conv_id) ==> post.convs() == pre.convs())
        &&& (has_conv_id(pre.convs(), conv_id) ==> exists|i: int|
            {
                &&& 0 <= i < pre.convs().len()
                &&& pre.convs()[i].id@ == conv_id
                &&& post.convs().len() == pre.convs().len()
                &&& #[trigger] retitled(pre.convs()[i], post.convs()[i], title, now)
                &&& (forall|k: int|
                    0 <= k < pre.convs().len() && k != i ==> post.convs()[k] == pre.convs()[k])
            })
    }

    /// Creates a conversation row for the document at `now`, without
    /// touching existing ones.
    pub fn create_conversation_at(
        &mut self,
        document_id: &String,
        title: Option<String>,
        fresh_id: &String,
        now: &String,
    ) -> (r: Result<String, ApiError>)
        requires
            old(self).wf(),
        ensures
            final(self).wf(),
            Self::create_conversation_post(
                *old(self),
                *final(self),
                document_id@,
                title,
                fresh_id@,
                now@,
                r,
            ),
    {
        if self.conv_id_taken(fresh_id) {
            return Err(ApiError::DatabaseError("conversation id already exists".to_owned()));
        }
        let c = Conversation {
            id: fresh_id.clone(),
            document_id: document_id.clone(),
            title,
            created_at: now.clone(),
            updated_at: now.clone(),
        };
        self.conversations.push(c);
        proof {
            assert(self.conversations@.subrange(0, old(self).conversations@.len() as int) =~= old(
                self,
            ).conversations@);
        }
        Ok(fresh_id.clone())
    }

    /// Creates a conversation row with a drawn id and the current time.
    /// Whatever id was drawn: either one fresh row with the returned id was
    /// appended, or the drawn id collided with a held one and nothing
    /// changed.
    pub fn create_conversation(&mut self, document_id: &String, title: Option<String>) -> (r:
        Result<String, ApiError>)
        requires
            old(self).wf(),
        ensures
            final(self).wf(),
            exists|fresh: Seq<char>, now: Seq<char>|
                #[trigger] Self::create_conversation_post(
                    *old(self),
                    *final(self),
                    document_id@,
                    title,
                    fresh,
                    now,
                    r,
                ),
            r matches Ok(id) ==> exists|now: Seq<char>|
                #[trigger] Self::create_conversation_post(
                    *old(self),
                    *final(self),
                    document_id@,
                    title,
                    id@,
                    now,
                    r,
                ),
    {
        let fresh = crate::host::fresh_uuid();
        let now = crate::host::now_rfc3339();
        let ghost title_ghost = title;
        let r = self.create_conversation_at(document_id, title, &fresh, &now);
        proof {
            assert(Self::create_conversation_post(
                *old(self),
                *self,
                document_id@,
                title_ghost,
                fresh@,
                now@,
                r,
            ));
        }
        r
    }

    /// The conversation with this id, if it exists.
    pub fn get_conversation(&self, conversation_id: &String) -> (r: Option<Conversation>)
        ensures
            (r is Some) == has_conv_id(self.convs(), conversation_id@),
            r matches Some(c) ==> c.id@ == conversation_id@ && exists|i: int|
                0 <= i < self.convs().len() && self.convs()[i] == c,
    {
        let mut i: usize = 0;
        while i < self.conversations.len()
            invariant
                i <= self.convs().len(),
                forall|k: int| 0 <= k < i ==> self.convs()[k].id@ != conversation_id@,
            decreases self.convs().len() - i,
        {
            if crate::text::string_eq_str(&self.conversations[i].id, conversation_id.as_str()) {
                return Some(clone_conversation(&self.conversations[i]));
            }
            i += 1;
        }
        None
    }

    /// Inserts the row before the first one whose update time is strictly
    /// earlier, keeping the list sorted most-recently-updated first.
    fn insert_by_updated_at(r: &mut Vec<Conversation>, item: Conversation)
        requires
            forall|a: int, b: int|
                0 <= a < b < old(r)@.len() ==> lex_le(
                    (#[trigger] old(r)@[b]).updated_at@,
                    (#[trigger] old(r)@[a]).updated_at@,
                ),
        ensures
            exists|p: int| 0 <= p <= old(r)@.len() && final(r)@ == old(r)@.insert(p, item),
            forall|a: int, b: int|
                0 <= a < b < final(r)@.len() ==> lex_le(
                    (#[trigger] final(r)@[b]).updated_at@,
                    (#[trigger] final(r)@[a]).updated_at@,
                ),
    {
        let mut pos: usize = 0;
        while pos < r.len() && crate::text::string_lex_le(&item.updated_at, &r[pos].updated_at)
            invariant
                pos <= r@.len(),
                r@ == old(r)@,
                forall|a: int|
                    0 <= a < pos ==> lex_le(item.updated_at@, (#[trigger] r@[a]).updated_at@),
            decreases r@.len() - pos,
        {
            pos += 1;
        }
        proof {
            if pos < r@.len() {
                crate::text::lemma_lex_le_total(item.updated_at@, r@[pos as int].updated_at@);
            }
        }
        let ghost old_r = r@;
        r.insert(pos, item);
        proof {
            assert(r@ == old_r.insert(pos as int, item));
            let p = pos as int;
            assert forall|a: int, b: int|
                0 <= a < b < r@.len() implies lex_le(
                (#[trigger] r@[b]).updated_at@,
                (#[trigger] r@[a]).updated_at@,
            ) by {
                if a < p && b < p {
                    assert(r@[a] == old_r[a] && r@[b] == old_r[b]);
                } else if a < p && b == p {
                    assert(r@[a] == old_r[a] && r@[b] == item);
                } else if a < p && b > p {
                    assert(r@[a] == old_r[a] && r@[b] == old_r[b - 1]);
                } else if a == p && b > p {
                    assert(r@[a] == item && r@[b] == old_r[b - 1]);
                    if b - 1 > p {
                        crate::text::lemma_lex_le_trans(
                            old_r[b - 1].updated_at@,
                            old_r[p].updated_at@,
                            item.updated_at@,
                        );
                    }
                } else {
                    assert(r@[a] == old_r[a - 1] && r@[b] == old_r[b - 1]);
                }
            }
        }
    }

    /// The document's conversations, most recently updated first (by the
    /// timestamp text, compared lexicographically, as the relational read
    /// orders it); rows updated at the same instant keep creation order.
    #[verifier::rlimit(80)]
    pub fn list_conversations(&self, document_id: &String) -> (r: Vec<Conversation>)
        ensures
            r@.len() == conv_count(self.convs(), document_id@),
            forall|a: int, b: int|
                0 <= a < b < r@.len() ==> lex_le(
                    (#[trigger] r@[b]).updated_at@,
                    (#[trigger] r@[a]).updated_at@,
                ),
            forall|i: int|
                0 <= i < r@.len() ==> (#[trigger] r@[i]).document_id@ == document_id@ && exists|t: int|
                    0 <= t < self.convs().len() && self.convs()[t] == r@[i],
            forall|t: int|
                0 <= t < self.convs().len() && (#[trigger] self.convs()[t]).document_id@
                    == document_id@ ==> exists|i: int| 0 <= i < r@.len() && r@[i] == self.convs()[t],
    {
        let mut r: Vec<Conversation> = Vec::new();
        let mut k: usize = 0;
        proof {
            assert(self.convs().subrange(0, 0) =~= Seq::<Conversation>::empty());
        }
        while k < self.conversations.len()
            invariant
                k <= self.convs().len(),
                r@.len() == conv_count(self.convs().subrange(0, k as int), document_id@),
                forall|a: int, b: int|
                    0 <= a < b < r@.len() ==> lex_le(
                        (#[trigger] r@[b]).updated_at@,
                        (#[trigger] r@[a]).updated_at@,
                    ),
                forall|i: int|
                    0 <= i < r@.len() ==> (#[trigger] r@[i]).document_id@ == document_id@
                        && exists|t: int| 0 <= t < k && self.convs()[t] == r@[i],
                forall|t: int|
                    0 <= t < k && (#[trigger] self.convs()[t]).document_id@ == document_id@
                        ==> exists|i: int| 0 <= i < r@.len() && r@[i] == self.convs()[t],
            decreases self.convs().len() - k,
        {
            proof {
                let sub = self.convs().subrange(0, k + 1);
                assert(sub.drop_last() =~= self.convs().subrange(0, k as int));
                assert(sub.last() == self.convs()[k as int]);
            }
            if crate::text::string_eq_str(&self.conversations[k].document_id, document_id.as_str()) {
                let item = clone_conversation(&self.conversations[k]);
                let ghost old_r = r@;
                Self::insert_by_updated_at(&mut r, item);
                proof {
                    assert(item == self.convs()[k as int]);
                    let p = choose|p: int| 0 <= p <= old_r.len() && r@ == old_r.insert(p, item);
                    assert forall|i: int|
                        0 <= i < r@.len() implies (#[trigger] r@[i]).document_id@ == document_id@
                        && exists|t: int| 0 <= t < k + 1 && self.convs()[t] == r@[i] by {
                        if i == p {
                            assert(r@[i] == item);
                            assert(self.convs()[k as int] == r@[i]);
                        } else {
                            let v = if i < p {
                                old_r[i]
                            } else {
                                old_r[i - 1]
                            };
                            assert(r@[i] == v);
                            let t = choose|t: int| 0 <= t < k && self.convs()[t] == v;
                            assert(self.convs()[t] == r@[i]);
                        }
                    }
                    assert forall|t: int|
                        0 <= t < k + 1 && (#[trigger] self.convs()[t]).document_id@ == document_id@
                        implies exists|i: int| 0 <= i < r@.len() && r@[i] == self.convs()[t] by {
                        if t == k {
                            assert(r@[p] == self.convs()[t]);
                        } else {
                            let i = choose|i: int| 0 <= i < old_r.len() && old_r[i] == self.convs()[t];
                            if i < p {
                                assert(r@[i] == self.convs()[t]);
                            } else {
                                assert(r@[i + 1] == self.convs()[t]);
                            }
                        }
                    }
                }
            } else {
                proof {
                    assert forall|t: int|
                        0 <= t < k + 1 && (#[trigger] self.convs()[t]).document_id@ == document_id@
                        implies exists|i: int| 0 <= i < r@.len() && r@[i] == self.convs()[t] by {
                        if t < k {
                            let i = choose|i: int| 0 <= i < r@.len() && r@[i] == self.convs()[t];
                        }
                    }
                }
            }
            k += 1;
        }
        proof {
            assert(self.convs().subrange(0, self.convs().len() as int) =~= self.convs());
        }
        r
    }

    /// Sets the conversation's title and touches its update time.    /// Sets the conversation's title and touches its update time. A missing
    /// conversation is not an error: nothing changes then.
    pub fn update_conversation_title_at(
        &mut self,
        conversation_id: &String,
        title: &String,
        now: &String,
    ) -> (r: Result<(), ApiError>)
        requires
            old(self).wf(),
        ensures
            final(self).wf(),
            Self::update_title_post(
                *old(self),
                *final(self),
                conversation_id@,
                title@,
                now@,
                r,
            ),
    {
        match self.find_conv(conversation_id) {
            Some(i) => {
                let e = &mut self.conversations[i];
                e.title = Some(title.clone());
                e.updated_at = now.clone();
                proof {
                    assert forall|a: int, b: int|
                        0 <= a < b < self.convs().len() implies self.convs()[a].id@
                        != self.convs()[b].id@ by {
                        assert(self.convs()[a].id@ == old(self).convs()[a].id@);
                        assert(self.convs()[b].id@ == old(self).convs()[b].id@);
                    }
                    assert(retitled(
                        old(self).convs()[i as int],
                        self.convs()[i as int],
                        title@,
                        now@,
                    ));
                }
                Ok(())
            },
            None => Ok(()),
        }
    }

    /// Sets the conversation's title, stamped with the current time: the
    /// title is replaced and only the update time changes beside it.
    pub fn update_conversation_title(&mut self, conversation_id: &String, title: &String) -> (r:
        Result<(), ApiError>)
        requires
            old(self).wf(),
        ensures
            final(self).wf(),
            exists|now: Seq<char>|
                #[trigger] Self::update_title_post(
                    *old(self),
                    *final(self),
                    conversation_id@,
                    title@,
                    now,
                    r,
                ),
    {
        let now = crate::host::now_rfc3339();
        let r = self.update_conversation_title_at(conversation_id, title, &now);
        proof {
            assert(Self::update_title_post(
                *old(self),
                *self,
                conversation_id@,
                title@,
                now@,
                r,
            ));
        }
        r
    }
}

/// How many conversations belong to the document.
pub open spec fn conv_count(convs: Seq<Conversation>, doc: Seq<char>) -> nat
    decreases convs.len(),
{
    if convs.len() == 0 {
        0
    } else {
        conv_count(convs.drop_last(), doc) + if convs.last().document_id@ == doc {
            1nat
        } else {
            0nat
        }
    }
}

/// A conversation whose title was replaced and update time touched./// A conversation whose title was replaced and update time touched.
pub open spec fn retitled(c0: Conversation, c1: Conversation, title: Seq<char>, now: Seq<char>) -> bool {
    &&& c1.id@ == c0.id@
    &&& c1.document_id@ == c0.document_id@
    &&& (c1.title matches Some(t) && t@ == title)
    &&& c1.created_at@ == c0.created_at@
    &&& c1.updated_at@ == now
}

/// This conversation id belongs to the document.
pub open spec fn conv_of_doc(convs: Seq<Conversation>, conv_id: Seq<char>, doc: Seq<char>) -> bool {
    exists|i: int|
        0 <= i < convs.len() && convs[i].id@ == conv_id && convs[i].document_id@ == doc
}

/// The document's chat history: every message of any of its conversations,
/// in creation order.
pub open spec fn history_of(msgs: Seq<MessageRow>, convs: Seq<Conversation>, doc: Seq<char>) -> Seq<
    StoredMessage,
>
    decreases msgs.len(),
{
    if msgs.len() == 0 {
        Seq::empty()
    } else {
        let rest = history_of(msgs.drop_last(), convs, doc);
        if conv_of_doc(convs, msgs.last().conversation_id@, doc) {
            rest.push(msgs.last().message)
        } else {
            rest
        }
    }
}

/// The messages of one conversation, in creation order.
pub open spec fn history_by_conv(msgs: Seq<MessageRow>, conv_id: Seq<char>) -> Seq<StoredMessage>
    decreases msgs.len(),
{
    if msgs.len() == 0 {
        Seq::empty()
    } else {
        let rest = history_by_conv(msgs.drop_last(), conv_id);
        if msgs.last().conversation_id@ == conv_id {
            rest.push(msgs.last().message)
        } else {
            rest
        }
    }
}

/// The message rows that do not belong to the conversation, in order.
pub open spec fn without_conv(msgs: Seq<MessageRow>, conv_id: Seq<char>) -> Seq<MessageRow>
    decreases msgs.len(),
{
    if msgs.len() == 0 {
        Seq::empty()
    } else {
        let rest = without_conv(msgs.drop_last(), conv_id);
        if msgs.last().conversation_id@ == conv_id {
            rest
        } else {
            rest.push(msgs.last())
        }
    }
}

/// The conversation rows without the given id, in order.
pub open spec fn convs_without(convs: Seq<Conversation>, conv_id: Seq<char>) -> Seq<Conversation>
    decreases convs.len(),
{
    if convs.len() == 0 {
        Seq::empty()
    } else {
        let rest = convs_without(convs.drop_last(), conv_id);
        if convs.last().id@ == conv_id {
            rest
        } else {
            rest.push(convs.last())
        }
    }
}

/// Appending one message row extends a document's history by exactly that
/// message when the row's conversation belongs to the document, and leaves
/// it unchanged otherwise.
pub proof fn lemma_history_push(
    msgs: Seq<MessageRow>,
    convs: Seq<Conversation>,
    doc: Seq<char>,
    mr: MessageRow,
)
    ensures
        conv_of_doc(convs, mr.conversation_id@, doc) ==> history_of(msgs.push(mr), convs, doc)
            == history_of(msgs, convs, doc).push(mr.message),
        !conv_of_doc(convs, mr.conversation_id@, doc) ==> history_of(msgs.push(mr), convs, doc)
            == history_of(msgs, convs, doc),
{
    assert(msgs.push(mr).drop_last() =~= msgs);
    assert(msgs.push(mr).last() == mr);
}

/// A freshly saved message row.
pub open spec fn fresh_msg_row(
    mr: MessageRow,
    conv: Seq<char>,
    role: Seq<char>,
    content: Seq<char>,
    id: Seq<char>,
    now: Seq<char>,
) -> bool {
    &&& mr.conversation_id@ == conv
    &&& mr.message.id@ == id
    &&& mr.message.role@ == role
    &&& mr.message.content@ == content
    &&& mr.message.created_at@ == now
}

/// What saving a message does: appends one row to the message table, or
/// fails without a change when the message id is already taken.
pub open spec fn save_message_post(
    pre: ConversationStore,
    post: ConversationStore,
    conv: Seq<char>,
    role: Seq<char>,
    content: Seq<char>,
    id: Seq<char>,
    now: Seq<char>,
    r: Result<String, ApiError>,
) -> bool {
    &&& post.docs() == pre.docs()
    &&& post.convs() == pre.convs()
    &&& if has_msg_id(pre.msgs(), id) {
        &&& post.msgs() == pre.msgs()
        &&& (r matches Err(e) && e is DatabaseError)
    } else {
        &&& post.msgs().len() == pre.msgs().len() + 1
        &&& post.msgs().subrange(0, pre.msgs().len() as int) == pre.msgs()
        &&& fresh_msg_row(post.msgs().last(), conv, role, content, id, now)
        &&& (r matches Ok(rid) && rid@ == id)
    }
}

impl ConversationStore {
    /// Appends a message to the conversation at `now`.
    pub fn save_message_at(
        &mut self,
        conversation_id: &String,
        role: &String,
        content: &String,
        message_id: &String,
        now: &String,
    ) -> (r: Result<String, ApiError>)
        requires
            old(self).wf(),
        ensures
            final(self).wf(),
            save_message_post(
                *old(self),
                *final(self),
                conversation_id@,
                role@,
                content@,
                message_id@,
                now@,
                r,
            ),
    {
        if self.msg_id_taken(message_id) {
            return Err(ApiError::DatabaseError("message id already exists".to_owned()));
        }
        let mr = MessageRow {
            conversation_id: conversation_id.clone(),
            message: StoredMessage {
                id: message_id.clone(),
                role: role.clone(),
                content: content.clone(),
                created_at: now.clone(),
            },
        };
        self.messages.push(mr);
        proof {
            assert(self.messages@.subrange(0, old(self).messages@.len() as int) =~= old(
                self,
            ).messages@);
        }
        Ok(message_id.clone())
    }

    /// Appends a message with a drawn id, stamped with the current time.
    pub fn save_message(&mut self, conversation_id: &String, role: &String, content: &String) -> (r:
        Result<String, ApiError>)
        requires
            old(self).wf(),
        ensures
            final(self).wf(),
            exists|id: Seq<char>, now: Seq<char>|
                #[trigger] save_message_post(
                    *old(self),
                    *final(self),
                    conversation_id@,
                    role@,
                    content@,
                    id,
                    now,
                    r,
                ),
    {
        let id = crate::host::fresh_uuid();
        let now = crate::host::now_rfc3339();
        let r = self.save_message_at(conversation_id, role, content, &id, &now);
        proof {
            assert(save_message_post(
                *old(self),
                *self,
                conversation_id@,
                role@,
                content@,
                id@,
                now@,
                r,
            ));
        }
        r
    }

    /// The document's chat history, in creation order.
    pub fn get_conversation_messages(&self, document_id: &String) -> (r: Vec<StoredMessage>)
        ensures
            r@ == history_of(self.msgs(), self.convs(), document_id@),
    {
        let mut r: Vec<StoredMessage> = Vec::new();
        let mut i: usize = 0;
        proof {
            assert(self.msgs().subrange(0, 0) =~= Seq::<MessageRow>::empty());
        }
        while i < self.messages.len()
            invariant
                i <= self.msgs().len(),
                r@ == history_of(self.msgs().subrange(0, i as int), self.convs(), document_id@),
            decreases self.msgs().len() - i,
        {
            proof {
                let sub = self.msgs().subrange(0, i + 1);
                assert(sub.drop_last() =~= self.msgs().subrange(0, i as int));
                assert(sub.last() == self.msgs()[i as int]);
            }
            if self.conv_belongs(&self.messages[i].conversation_id, document_id) {
                r.push(clone_message(&self.messages[i].message));
            }
            i += 1;
        }
        proof {
            assert(self.msgs().subrange(0, self.msgs().len() as int) =~= self.msgs());
        }
        r
    }

    /// Whether the conversation id belongs to the document.
    fn conv_belongs(&self, conv_id: &String, doc: &String) -> (r: bool)
        ensures
            r == conv_of_doc(self.convs(), conv_id@, doc@),
    {
        let mut i: usize = 0;
        while i < self.conversations.len()
            invariant
                i <= self.convs().len(),
                forall|k: int|
                    0 <= k < i ==> !(self.convs()[k].id@ == conv_id@ && self.convs()[k].document_id@
                        == doc@),
            decreases self.convs().len() - i,
        {
            if crate::text::string_eq_str(&self.conversations[i].id, conv_id.as_str())
                && crate::text::string_eq_str(&self.conversations[i].document_id, doc.as_str()) {
                return true;
            }
            i += 1;
        }
        false
    }

    /// The messages of one conversation, in creation order.
    pub fn get_conversation_messages_by_id(&self, conversation_id: &String) -> (r: Vec<
        StoredMessage,
    >)
        ensures
            r@ == history_by_conv(self.msgs(), conversation_id@),
    {
        let mut r: Vec<StoredMessage> = Vec::new();
        let mut i: usize = 0;
        proof {
            assert(self.msgs().subrange(0, 0) =~= Seq::<MessageRow>::empty());
        }
        while i < self.messages.len()
            invariant
                i <= self.msgs().len(),
                r@ == history_by_conv(self.msgs().subrange(0, i as int), conversation_id@),
            decreases self.msgs().len() - i,
        {
            proof {
                let sub = self.msgs().subrange(0, i + 1);
                assert(sub.drop_last() =~= self.msgs().subrange(0, i as int));
                assert(sub.last() == self.msgs()[i as int]);
            }
            if crate::text::string_eq_str(&self.messages[i].conversation_id, conversation_id.as_str()) {
                r.push(clone_message(&self.messages[i].message));
            }
            i += 1;
        }
        proof {
            assert(self.msgs().subrange(0, self.msgs().len() as int) =~= self.msgs());
        }
        r
    }

    /// Deletes a conversation and all its messages.
    pub fn delete_conversation(&mut self, conversation_id: &String) -> (r: Result<(), ApiError>)
        requires
            old(self).wf(),
        ensures
            final(self).wf(),
            r is Ok,
            final(self).docs() == old(self).docs(),
            final(self).msgs() == without_conv(old(self).msgs(), conversation_id@),
            final(self).convs() == convs_without(old(self).convs(), conversation_id@),
    {
        let mut kept_msgs: Vec<MessageRow> = Vec::new();
        let mut i: usize = 0;
        proof {
            assert(self.msgs().subrange(0, 0) =~= Seq::<MessageRow>::empty());
        }
        while i < self.messages.len()
            invariant
                i <= self.msgs().len(),
                self == old(self),
                old(self).wf(),
                kept_msgs@ == without_conv(self.msgs().subrange(0, i as int), conversation_id@),
                unique_msg_ids(kept_msgs@),
                forall|k: int|
                    0 <= k < kept_msgs@.len() ==> has_msg_id(
                        self.msgs().subrange(0, i as int),
                        #[trigger] kept_msgs@[k].message.id@,
                    ),
            decreases self.msgs().len() - i,
        {
            proof {
                let sub = self.msgs().subrange(0, i + 1);
                assert(sub.drop_last() =~= self.msgs().subrange(0, i as int));
                assert(sub.last() == self.msgs()[i as int]);
            }
            if !crate::text::string_eq_str(&self.messages[i].conversation_id, conversation_id.as_str()) {
                let row = MessageRow {
                    conversation_id: self.messages[i].conversation_id.clone(),
                    message: clone_message(&self.messages[i].message),
                };
                proof {
                    assert(row == self.msgs()[i as int]);
                    assert forall|k: int| 0 <= k < kept_msgs@.len() implies kept_msgs@[k].message.id@
                        != row.message.id@ by {
                        let pre = self.msgs().subrange(0, i as int);
                        if kept_msgs@[k].message.id@ == row.message.id@ {
                            let j = choose|j: int|
                                0 <= j < pre.len() && pre[j].message.id@
                                    == kept_msgs@[k].message.id@;
                            assert(self.msgs()[j].message.id@ == self.msgs()[i as int].message.id@);
                        }
                    }
                }
                kept_msgs.push(row);
            }
            proof {
                assert forall|k: int| 0 <= k < kept_msgs@.len() implies has_msg_id(
                    self.msgs().subrange(0, i + 1),
                    #[trigger] kept_msgs@[k].message.id@,
                ) by {
                    let sub0 = self.msgs().subrange(0, i as int);
                    let sub1 = self.msgs().subrange(0, i + 1);
                    if has_msg_id(sub0, kept_msgs@[k].message.id@) {
                        let j = choose|j: int|
                            0 <= j < sub0.len() && sub0[j].message.id@ == kept_msgs@[k].message.id@;
                        assert(sub1[j].message.id@ == kept_msgs@[k].message.id@);
                    } else {
                        assert(sub1[i as int].message.id@ == kept_msgs@[k].message.id@);
                    }
                }
            }
            i += 1;
        }
        proof {
            assert(self.msgs().subrange(0, self.msgs().len() as int) =~= self.msgs());
        }
        self.messages = kept_msgs;

        let mut kept_convs: Vec<Conversation> = Vec::new();
        let mut i: usize = 0;
        proof {
            assert(self.convs().subrange(0, 0) =~= Seq::<Conversation>::empty());
        }
        while i < self.conversations.len()
            invariant
                i <= self.convs().len(),
                self.convs() == old(self).convs(),
                self.docs() == old(self).docs(),
                self.msgs() == without_conv(old(self).msgs(), conversation_id@),
                unique_msg_ids(self.msgs()),
                old(self).wf(),
                kept_convs@ == convs_without(self.convs().subrange(0, i as int), conversation_id@),
                unique_conv_ids(kept_convs@),
                forall|k: int|
                    0 <= k < kept_convs@.len() ==> has_conv_id(
                        self.convs().subrange(0, i as int),
                        #[trigger] kept_convs@[k].id@,
                    ),
            decreases self.convs().len() - i,
        {
            proof {
                let sub = self.convs().subrange(0, i + 1);
                assert(sub.drop_last() =~= self.convs().subrange(0, i as int));
                assert(sub.last() == self.convs()[i as int]);
            }
            if !crate::text::string_eq_str(&self.conversations[i].id, conversation_id.as_str()) {
                let row = clone_conversation(&self.conversations[i]);
                proof {
                    assert(row == self.convs()[i as int]);
                    assert forall|k: int| 0 <= k < kept_convs@.len() implies kept_convs@[k].id@
                        != row.id@ by {
                        let pre = self.convs().subrange(0, i as int);
                        if kept_convs@[k].id@ == row.id@ {
                            let j = choose|j: int|
                                0 <= j < pre.len() && pre[j].id@ == kept_convs@[k].id@;
                            assert(self.convs()[j].id@ == self.convs()[i as int].id@);
                        }
                    }
                }
                kept_convs.push(row);
            }
            proof {
                assert forall|k: int| 0 <= k < kept_convs@.len() implies has_conv_id(
                    self.convs().subrange(0, i + 1),
                    #[trigger] kept_convs@[k].id@,
                ) by {
                    let sub0 = self.convs().subrange(0, i as int);
                    let sub1 = self.convs().subrange(0, i + 1);
                    if has_conv_id(sub0, kept_convs@[k].id@) {
                        let j = choose|j: int|
                            0 <= j < sub0.len() && sub0[j].id@ == kept_convs@[k].id@;
                        assert(sub1[j].id@ == kept_convs@[k].id@);
                    } else {
                        assert(sub1[i as int].id@ == kept_convs@[k].id@);
                    }
                }
            }
            i += 1;
        }
        proof {
            assert(self.convs().subrange(0, self.convs().len() as int) =~= self.convs());
        }
        self.conversations = kept_convs;
        Ok(())
    }
}

} // verus!
