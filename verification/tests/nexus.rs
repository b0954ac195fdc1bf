use logos_engine::error::Error;
use logos_engine::nexus::{decide, finish_projection, Decision, NexusPlane, Pending};
use logos_engine::protocol::{
    ContentHash, Dispatch, Document, DocumentKind, DocumentPayload, FixtureScope, LogosItem,
    NameTableBytes, Rejection, Reply, Request, SemaReply, SemaRequest, SlotKey, SlotSummary,
};

fn summary(name: &str, version: u64) -> SlotSummary {
    SlotSummary {
        key: SlotKey { scope: FixtureScope(1), name: name.to_string() },
        version,
        hash: ContentHash([version as u8; 32]),
    }
}

fn logos_document() -> Document {
    Document {
        key: SlotKey { scope: FixtureScope(2), name: "doc".to_string() },
        version: 7,
        hash: ContentHash([9; 32]),
        payload: DocumentPayload::Logos {
            items: vec![LogosItem(vec![1]), LogosItem(vec![2])],
            names: NameTableBytes(vec![3, 4]),
        },
    }
}

#[test]
fn dispatch_counts_only_projections() {
    let mut plane = NexusPlane::new();
    let project = Request::ProjectRust { scope: FixtureScope(1), logos: ContentHash([5; 32]) };
    let plan = plane.dispatch(Dispatch(project));
    assert_eq!(plane.projected, 1);
    assert!(matches!(plan.pending, Pending::Projection { logos } if logos.0 == [5; 32]));
    assert!(matches!(plan.fetch.0, SemaRequest::HashFetch { hash } if hash.0 == [5; 32]));
    let plan = plane.dispatch(Dispatch(Request::List { scope: FixtureScope(3) }));
    assert_eq!(plane.projected, 1);
    assert!(matches!(plan.pending, Pending::Listing));
    assert!(matches!(
        plan.fetch.0,
        SemaRequest::List { scope: FixtureScope(3), kind: Some(DocumentKind::Logos) }
    ));
    let plan = plane.dispatch(Dispatch(Request::Subscribe { scope: FixtureScope(4) }));
    assert_eq!(plane.projected, 1);
    assert!(matches!(plan.pending, Pending::Subscription));
    assert!(matches!(
        plan.fetch.0,
        SemaRequest::List { scope: FixtureScope(4), kind: Some(DocumentKind::Logos) }
    ));
}

#[test]
fn found_logos_document_is_projected_with_its_source() {
    let pending = Pending::Projection { logos: ContentHash([5; 32]) };
    match decide(pending, SemaReply::Document(Some(logos_document()))) {
        Decision::Project(job) => {
            assert_eq!(job.logos.0, [5; 32]);
            assert_eq!(job.source.key.name, "doc");
            assert_eq!(job.source.key.scope.0, 2);
            assert_eq!(job.source.version, 7);
            assert_eq!(job.source.hash.0, [9; 32]);
            assert_eq!(job.items.len(), 2);
            assert_eq!(job.names.0, vec![3, 4]);
        }
        other => panic!("unexpected {:?}", other),
    }
}

#[test]
fn missing_document_is_refused() {
    let pending = Pending::Projection { logos: ContentHash([5; 32]) };
    assert!(matches!(
        decide(pending, SemaReply::Document(None)),
        Decision::Answer(Reply::Rejected(Rejection::LogosNotFound))
    ));
    assert!(matches!(
        decide(pending, SemaReply::Listed(vec![])),
        Decision::Answer(Reply::Rejected(Rejection::LogosNotFound))
    ));
}

#[test]
fn document_of_other_kind_is_refused() {
    let mut document = logos_document();
    document.payload = DocumentPayload::Other;
    let pending = Pending::Projection { logos: ContentHash([5; 32]) };
    assert!(matches!(
        decide(pending, SemaReply::Document(Some(document))),
        Decision::Answer(Reply::Rejected(Rejection::WrongDocumentKind))
    ));
}

#[test]
fn listing_passes_documents_on() {
    match decide(Pending::Listing, SemaReply::Listed(vec![summary("a", 1), summary("b", 2)])) {
        Decision::Answer(Reply::Listed(values)) => {
            assert_eq!(values.len(), 2);
            assert_eq!(values[0].key.name, "a");
            assert_eq!(values[1].version, 2);
        }
        other => panic!("unexpected {:?}", other),
    }
    assert!(matches!(
        decide(Pending::Listing, SemaReply::Other),
        Decision::Answer(Reply::Rejected(Rejection::StorageFailed))
    ));
}

#[test]
fn subscription_starts_from_listing_with_identifier_zero() {
    match decide(Pending::Subscription, SemaReply::Listed(vec![summary("a", 1)])) {
        Decision::Answer(Reply::Subscribed { identifier, initial }) => {
            assert_eq!(identifier.0, 0);
            assert_eq!(initial.len(), 1);
            assert_eq!(initial[0].key.name, "a");
        }
        other => panic!("unexpected {:?}", other),
    }
    assert!(matches!(
        decide(Pending::Subscription, SemaReply::Document(None)),
        Decision::Answer(Reply::Rejected(Rejection::StorageFailed))
    ));
}

#[test]
fn projection_appends_each_item_with_newline_after_head() {
    let items = vec![Ok("struct A;".to_string()), Ok("struct B;".to_string())];
    let projected =
        finish_projection(ContentHash([5; 32]), summary("doc", 3), Ok("// head\n".to_string()), items)
            .unwrap();
    let expected = "// head\nstruct A;\nstruct B;\n";
    assert_eq!(projected.event.rust, expected);
    assert_eq!(projected.event.logos.0, [5; 32]);
    assert_eq!(projected.event.source.key.name, "doc");
    assert_eq!(projected.event.source.version, 3);
    match projected.reply {
        Reply::RustProjected { rust, source } => {
            assert_eq!(rust, expected);
            assert_eq!(source.key.name, "doc");
            assert_eq!(source.version, 3);
        }
        other => panic!("unexpected {:?}", other),
    }
}

#[test]
fn projection_of_no_items_is_the_head() {
    let projected =
        finish_projection(ContentHash([5; 32]), summary("doc", 3), Ok("head".to_string()), vec![])
            .unwrap();
    assert_eq!(projected.event.rust, "head");
}

#[test]
fn projection_reports_first_failed_item() {
    let items = vec![
        Ok("struct A;".to_string()),
        Err("first".to_string()),
        Err("second".to_string()),
    ];
    match finish_projection(ContentHash([5; 32]), summary("doc", 3), Ok("head".to_string()), items) {
        Err(Error::Projection(message)) => assert_eq!(message, "first"),
        other => panic!("unexpected {:?}", other),
    }
}

#[test]
fn projection_reports_head_failure_before_items() {
    let items = vec![Err("item".to_string())];
    match finish_projection(ContentHash([5; 32]), summary("doc", 3), Err("head".to_string()), items) {
        Err(Error::Projection(message)) => assert_eq!(message, "head"),
        other => panic!("unexpected {:?}", other),
    }
}
