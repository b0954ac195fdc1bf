//! The Nexus plane: how the engine answers a client request with the help
//! of the storage plane, and how it assembles a projected Rust module.
//!
//! The plane runs in three steps. [`NexusPlane::dispatch`] counts the request
//! and says what to fetch from storage; [`decide`] reads what storage
//! answered and either answers the client or asks for a projection;
//! [`finish_projection`] assembles the projected module and the event that
//! is published for it.

use vstd::prelude::*;
use crate::error::Error;
use crate::protocol::{
    ContentHash, FixtureScope, Dispatch, DocumentKind, DocumentPayload, Fetch, LogosItem, NameTableBytes,
    ProjectionEvent, Rejection, Reply, Request, SemaReply, SemaRequest, SlotSummary,
    SubscriptionIdentifier,
};

verus! {

/// The state of the Nexus plane: how many projections it has admitted.
pub struct NexusPlane {
    pub projected: u64,
}

/// What a dispatched request waits for from storage.
#[derive(Debug, Clone, Copy)]
pub enum Pending {
    Projection { logos: ContentHash },
    Listing,
    Subscription,
}

/// The storage fetch that a request needs, and what then waits for it.
#[derive(Debug, Clone, Copy)]
pub struct FetchPlan {
    pub pending: Pending,
    pub fetch: Fetch,
}

/// A Logos document that is to be projected to Rust.
#[derive(Debug, Clone)]
pub struct ProjectionJob {
    pub logos: ContentHash,
    pub source: SlotSummary,
    pub items: Vec<LogosItem>,
    pub names: NameTableBytes,
}

/// What follows an answer of storage.
#[derive(Debug, Clone)]
pub enum Decision {
    /// Answer the client with this reply.
    Answer(Reply),
    /// Project this document, then answer.
    Project(ProjectionJob),
}

/// A finished projection: the reply to the client and the published event.
#[derive(Debug, Clone)]
pub struct Projected {
    pub reply: Reply,
    pub event: ProjectionEvent,
}

/// The fetch that a request needs: a document by hash for a projection,
/// the scope's Logos documents for a listing or a subscription.
pub open spec fn fetch_plan(request: Request) -> FetchPlan {
    match request {
        Request::ProjectRust { scope: _, logos } => FetchPlan {
            pending: Pending::Projection { logos },
            fetch: Fetch(SemaRequest::HashFetch { hash: logos }),
        },
        Request::List { scope } => FetchPlan {
            pending: Pending::Listing,
            fetch: Fetch(SemaRequest::List { scope, kind: Some(DocumentKind::Logos) }),
        },
        Request::Subscribe { scope } => FetchPlan {
            pending: Pending::Subscription,
            fetch: Fetch(SemaRequest::List { scope, kind: Some(DocumentKind::Logos) }),
        },
    }
}

/// What the engine does with storage's answer.
pub open spec fn fetched_decision(pending: Pending, reply: SemaReply) -> Decision {
    match pending {
        Pending::Projection { logos } => match reply {
            SemaReply::Document(Some(document)) => match document.payload {
                DocumentPayload::Logos { items, names } => Decision::Project(
                    ProjectionJob {
                        logos,
                        source: SlotSummary {
                            key: document.key,
                            version: document.version,
                            hash: document.hash,
                        },
                        items,
                        names,
                    },
                ),
                DocumentPayload::Other => Decision::Answer(
                    Reply::Rejected(Rejection::WrongDocumentKind),
                ),
            },
            _ => Decision::Answer(Reply::Rejected(Rejection::LogosNotFound)),
        },
        Pending::Listing => match reply {
            SemaReply::Listed(values) => Decision::Answer(Reply::Listed(values)),
            _ => Decision::Answer(Reply::Rejected(Rejection::StorageFailed)),
        },
        Pending::Subscription => match reply {
            SemaReply::Listed(initial) => Decision::Answer(
                Reply::Subscribed { identifier: SubscriptionIdentifier(0), initial },
            ),
            _ => Decision::Answer(Reply::Rejected(Rejection::StorageFailed)),
        },
    }
}

/// The text of a projected module: the module head, then each projected
/// item followed by a newline.
pub open spec fn module_text(head: Seq<char>, items: Seq<Seq<char>>) -> Seq<char>
    decreases items.len(),
{
    if items.len() == 0 {
        head
    } else {
        module_text(head, items.drop_last()) + items.last() + seq!['\n']
    }
}

/// The texts of the projected items, or the message of the first item whose
/// projection failed.
pub open spec fn projected_items(items: Seq<Result<String, String>>) -> Result<
    Seq<Seq<char>>,
    Seq<char>,
>
    decreases items.len(),
{
    if items.len() == 0 {
        Ok(Seq::empty())
    } else {
        match projected_items(items.drop_last()) {
            Err(e) => Err(e),
            Ok(texts) => match items.last() {
                Ok(t) => Ok(texts.push(t@)),
                Err(e) => Err(e@),
            },
        }
    }
}

/// The projected module, or the message of the first failure: the head's
/// rendering comes first, then the items in order.
pub open spec fn projection_text(
    head: Result<String, String>,
    items: Seq<Result<String, String>>,
) -> Result<Seq<char>, Seq<char>> {
    match head {
        Err(e) => Err(e@),
        Ok(h) => match projected_items(items) {
            Err(e) => Err(e),
            Ok(texts) => Ok(module_text(h@, texts)),
        },
    }
}

impl NexusPlane {
    /// A plane that has admitted no projection.
    pub fn new() -> (plane: Self)
        ensures
            plane.projected == 0,
    {
        NexusPlane { projected: 0 }
    }

    /// Admits a client request: counts it when it asks for a projection,
    /// and says what to fetch from storage for it.
    pub fn dispatch(&mut self, message: Dispatch) -> (plan: FetchPlan)
        requires
            message.0 is ProjectRust ==> old(self).projected < u64::MAX,
        ensures
            plan == fetch_plan(message.0),
            final(self).projected == old(self).projected + if message.0 is ProjectRust {
                1int
            } else {
                0int
            },
            match message.0 {
                Request::ProjectRust { scope: _, logos } => {
                    &&& plan.pending == (Pending::Projection { logos })
                    &&& plan.fetch == Fetch(SemaRequest::HashFetch { hash: logos })
                },
                Request::List { scope } => {
                    &&& plan.pending == Pending::Listing
                    &&& plan.fetch == Fetch(
                        SemaRequest::List { scope, kind: Some(DocumentKind::Logos) },
                    )
                },
                Request::Subscribe { scope } => {
                    &&& plan.pending == Pending::Subscription
                    &&& plan.fetch == Fetch(
                        SemaRequest::List { scope, kind: Some(DocumentKind::Logos) },
                    )
                },
            },
    {
        proof {
            lemma_fetch_plans(message.0);
        }
        match message.0 {
            Request::ProjectRust { scope: _, logos } => {
                self.projected = self.projected + 1;
                FetchPlan {
                    pending: Pending::Projection { logos },
                    fetch: Fetch(SemaRequest::HashFetch { hash: logos }),
                }
            },
            Request::List { scope } => FetchPlan {
                pending: Pending::Listing,
                fetch: Fetch(SemaRequest::List { scope, kind: Some(DocumentKind::Logos) }),
            },
            Request::Subscribe { scope } => FetchPlan {
                pending: Pending::Subscription,
                fetch: Fetch(SemaRequest::List { scope, kind: Some(DocumentKind::Logos) }),
            },
        }
    }
}

/// Reads storage's answer to a dispatched request: a found Logos document
/// is to be projected; a missing document, a document of another kind or a
/// listing that is not a list is refused; a list is passed on.
pub fn decide(pending: Pending, reply: SemaReply) -> (decision: Decision)
    ensures
        decision == fetched_decision(pending, reply),
{
    match pending {
        Pending::Projection { logos } => match reply {
            SemaReply::Document(Some(document)) => match document.payload {
                DocumentPayload::Logos { items, names } => Decision::Project(
                    ProjectionJob {
                        logos,
                        source: SlotSummary {
                            key: document.key,
                            version: document.version,
                            hash: document.hash,
                        },
                        items,
                        names,
                    },
                ),
                DocumentPayload::Other => Decision::Answer(
                    Reply::Rejected(Rejection::WrongDocumentKind),
                ),
            },
            _ => Decision::Answer(Reply::Rejected(Rejection::LogosNotFound)),
        },
        Pending::Listing => match reply {
            SemaReply::Listed(values) => Decision::Answer(Reply::Listed(values)),
            _ => Decision::Answer(Reply::Rejected(Rejection::StorageFailed)),
        },
        Pending::Subscription => match reply {
            SemaReply::Listed(initial) => Decision::Answer(
                Reply::Subscribed { identifier: SubscriptionIdentifier(0), initial },
            ),
            _ => Decision::Answer(Reply::Rejected(Rejection::StorageFailed)),
        },
    }
}

proof fn lemma_items_err_stays(items: Seq<Result<String, String>>, j: int, k: int, e: Seq<char>)
    requires
        0 <= j <= k <= items.len(),
        projected_items(items.take(j)) == Err::<Seq<Seq<char>>, Seq<char>>(e),
    ensures
        projected_items(items.take(k)) == Err::<Seq<Seq<char>>, Seq<char>>(e),
    decreases k - j,
{
    if j < k {
        lemma_items_err_stays(items, j, k - 1, e);
        assert(items.take(k).drop_last() == items.take(k - 1));
    }
}

/// Assembles a projected module from the rendered head and the projected
/// items, or reports the first failure as a projection error. The reply and
/// the published event carry the same module text and source.
pub fn finish_projection(
    logos: ContentHash,
    source: SlotSummary,
    head: Result<String, String>,
    items: Vec<Result<String, String>>,
) -> (r: Result<Projected, Error>)
    ensures
        match projection_text(head, items@) {
            Ok(text) => r matches Ok(p) && p.event.rust@ == text && p.event.logos == logos
                && p.event.source == source && p.reply == (Reply::RustProjected {
                rust: p.event.rust,
                source,
            }),
            Err(message) => r matches Err(Error::Projection(m)) && m@ == message,
        },
        r is Err <==> (head is Err || exists|i: int|
            0 <= i < items@.len() && (#[trigger] items@[i]) is Err),
{
    proof {
        lemma_projection_fails_iff_some_failure(head, items@);
    }
    let mut rust: String = match head {
        Ok(h) => h,
        Err(e) => {
            return Err(Error::Projection(e));
        },
    };
    let ghost h0: Seq<char> = rust@;
    let mut i: usize = 0;
    assert(items@.take(0) =~= Seq::<Result<String, String>>::empty());
    while i < items.len()
        invariant
            i <= items@.len(),
            head is Ok,
            head->Ok_0@ == h0,
            projected_items(items@.take(i as int)) is Ok,
            rust@ == module_text(h0, projected_items(items@.take(i as int))->Ok_0),
        decreases items@.len() - i,
    {
        proof {
            reveal_strlit("\n");
        }
        let ghost prev: Seq<Seq<char>> = projected_items(items@.take(i as int))->Ok_0;
        assert(items@.take(i + 1).drop_last() == items@.take(i as int));
        assert(items@.take(i + 1).last() == items@[i as int]);
        match &items[i] {
            Ok(t) => {
                rust.append(t.as_str());
                rust.append("\n");
                assert(projected_items(items@.take(i + 1)) == Ok::<Seq<Seq<char>>, Seq<char>>(
                    prev.push(t@),
                ));
                assert(prev.push(t@).drop_last() == prev);
            },
            Err(e) => {
                proof {
                    assert(projected_items(items@.take(i + 1)) == Err::<Seq<Seq<char>>, Seq<char>>(
                        e@,
                    ));
                    lemma_items_err_stays(items@, i + 1, items@.len() as int, e@);
                    assert(items@.take(items@.len() as int) == items@);
                }
                return Err(Error::Projection(e.clone()));
            },
        }
        i = i + 1;
    }
    assert(items@.take(items@.len() as int) == items@);
    let event_source: SlotSummary = source.duplicate();
    let reply_rust: String = rust.clone();
    Ok(
        Projected {
            reply: Reply::RustProjected { rust: reply_rust, source },
            event: ProjectionEvent { logos, rust, source: event_source },
        },
    )
}

/// A projected module opens with the module head, whatever the items.
pub proof fn lemma_module_opens_with_head(head: Seq<char>, items: Seq<Seq<char>>)
    ensures
        module_text(head, items).len() >= head.len(),
        module_text(head, items).take(head.len() as int) == head,
    decreases items.len(),
{
    if items.len() > 0 {
        lemma_module_opens_with_head(head, items.drop_last());
        let before = module_text(head, items.drop_last());
        assert((before + items.last() + seq!['\n']).take(head.len() as int) == before.take(
            head.len() as int,
        ));
    }
}

/// A subscription fetches exactly what a listing of the same scope fetches,
/// and on the same answer of storage starts from the documents that the
/// listing answers with; both are refused alike when storage does not list.
pub proof fn lemma_subscription_starts_from_listing(scope: FixtureScope, answer: SemaReply)
    ensures
        fetch_plan(Request::Subscribe { scope }).fetch == fetch_plan(Request::List { scope }).fetch,
        match answer {
            SemaReply::Listed(values) => {
                &&& fetched_decision(fetch_plan(Request::List { scope }).pending, answer)
                    == Decision::Answer(Reply::Listed(values))
                &&& fetched_decision(fetch_plan(Request::Subscribe { scope }).pending, answer)
                    == Decision::Answer(
                    Reply::Subscribed { identifier: SubscriptionIdentifier(0), initial: values },
                )
            },
            _ => {
                &&& fetched_decision(fetch_plan(Request::List { scope }).pending, answer)
                    == Decision::Answer(Reply::Rejected(Rejection::StorageFailed))
                &&& fetched_decision(fetch_plan(Request::Subscribe { scope }).pending, answer)
                    == Decision::Answer(Reply::Rejected(Rejection::StorageFailed))
            },
        },
{
}

/// A projection request fetches the document with the requested hash, and
/// is projected exactly when storage returns a Logos document, whose slot,
/// version and hash become the projection's source; otherwise it is
/// refused.
pub proof fn lemma_projection_follows_document(
    scope: FixtureScope,
    logos: ContentHash,
    answer: SemaReply,
)
    ensures
        fetch_plan(Request::ProjectRust { scope, logos }).fetch == Fetch(
            SemaRequest::HashFetch { hash: logos },
        ),
        ({
            let decision = fetched_decision(
                fetch_plan(Request::ProjectRust { scope, logos }).pending,
                answer,
            );
            match answer {
                SemaReply::Document(Some(document)) => match document.payload {
                    DocumentPayload::Logos { items, names } => {
                        &&& decision is Project
                        &&& decision->Project_0.logos == logos
                        &&& decision->Project_0.source == (SlotSummary {
                            key: document.key,
                            version: document.version,
                            hash: document.hash,
                        })
                        &&& decision->Project_0.items == items
                        &&& decision->Project_0.names == names
                    },
                    DocumentPayload::Other => decision == Decision::Answer(
                        Reply::Rejected(Rejection::WrongDocumentKind),
                    ),
                },
                _ => decision == Decision::Answer(Reply::Rejected(Rejection::LogosNotFound)),
            }
        }),
{
}

/// A projection request fetches the document with its hash; a listing and a
/// subscription both ask storage for exactly the Logos documents of their
/// scope.
pub proof fn lemma_fetch_plans(request: Request)
    ensures
        match request {
            Request::ProjectRust { scope: _, logos } => {
                &&& fetch_plan(request).pending == (Pending::Projection { logos })
                &&& fetch_plan(request).fetch == Fetch(SemaRequest::HashFetch { hash: logos })
            },
            Request::List { scope } => {
                &&& fetch_plan(request).pending == Pending::Listing
                &&& fetch_plan(request).fetch == Fetch(
                    SemaRequest::List { scope, kind: Some(DocumentKind::Logos) },
                )
            },
            Request::Subscribe { scope } => {
                &&& fetch_plan(request).pending == Pending::Subscription
                &&& fetch_plan(request).fetch == Fetch(
                    SemaRequest::List { scope, kind: Some(DocumentKind::Logos) },
                )
            },
        },
{
}

/// A projection of no items is the head itself, and a head that failed to
/// render fails the projection with its message, whatever the items.
pub proof fn lemma_projection_of_head(
    head: String,
    failure: String,
    items: Seq<Result<String, String>>,
)
    ensures
        projection_text(Ok(head), Seq::empty()) == Ok::<Seq<char>, Seq<char>>(head@),
        projection_text(Err(failure), items) == Err::<Seq<char>, Seq<char>>(failure@),
{
}

/// One more item extends a projection: a projected item appends its text and
/// a newline to the module; a failed item fails the projection with its own
/// message, unless an earlier failure already decided it.
pub proof fn lemma_projection_extends(
    head: Result<String, String>,
    items: Seq<Result<String, String>>,
    text: String,
)
    ensures
        projection_text(head, items.push(Ok(text))) == match projection_text(head, items) {
            Ok(module) => Ok::<Seq<char>, Seq<char>>(module + text@ + seq!['\n']),
            Err(m) => Err(m),
        },
        projection_text(head, items.push(Err(text))) == match projection_text(head, items) {
            Ok(_) => Err::<Seq<char>, Seq<char>>(text@),
            Err(m) => Err(m),
        },
{
    assert(items.push(Ok(text)).drop_last() == items);
    assert(items.push(Err(text)).drop_last() == items);
    if projected_items(items) is Ok {
        let texts = projected_items(items)->Ok_0;
        assert(texts.push(text@).drop_last() == texts);
    }
}

/// A projection fails exactly when the head or some item failed.
pub proof fn lemma_projection_fails_iff_some_failure(
    head: Result<String, String>,
    items: Seq<Result<String, String>>,
)
    ensures
        projection_text(head, items) is Err <==> (head is Err || exists|i: int|
            0 <= i < items.len() && (#[trigger] items[i]) is Err),
    decreases items.len(),
{
    if items.len() > 0 {
        lemma_projection_fails_iff_some_failure(head, items.drop_last());
        let last = items.len() - 1;
        if exists|i: int| 0 <= i < items.drop_last().len() && (#[trigger] items.drop_last()[i]) is Err {
            let i = choose|i: int| 0 <= i < items.drop_last().len() && (#[trigger] items.drop_last()[i]) is Err;
            assert(items[i] is Err);
        }
        if exists|i: int| 0 <= i < items.len() && (#[trigger] items[i]) is Err {
            let i = choose|i: int| 0 <= i < items.len() && (#[trigger] items[i]) is Err;
            if i < last {
                assert(items.drop_last()[i] is Err);
            }
        }
    }
}

} // verus!
