use modsync::resolver::DependencyResolver;
use modsync::resolver::key_response_items;
use modsync::schemas::GetPublishedFileDetailsResponseItem;
use modsync::schemas::PublishedFileChild;
use modsync::schemas::PublishedFileDetails;

fn details(id: &str, children: &[&str]) -> GetPublishedFileDetailsResponseItem {
    GetPublishedFileDetailsResponseItem::FileDetails(PublishedFileDetails {
        publishedfileid: id.to_owned(),
        title: format!("title of {}", id),
        time_updated: 1000,
        children: if children.is_empty() {
            None
        } else {
            Some(
                children
                    .iter()
                    .map(|c| PublishedFileChild { publishedfileid: (*c).to_owned() })
                    .collect(),
            )
        },
    })
}

fn respond(batch: &[String], graph: &[(&str, &[&str])]) -> Vec<(String, GetPublishedFileDetailsResponseItem)> {
    batch
        .iter()
        .map(|id| {
            let children = graph
                .iter()
                .find(|(g, _)| g == id)
                .map(|(_, c)| *c)
                .unwrap_or(&[]);
            (id.clone(), details(id, children))
        })
        .collect()
}

#[test]
fn cyclic_graph_resolves_each_id_once() {
    // A and B name each other; resolution from {A} must terminate with
    // exactly {A, B}, each fetched once
    let graph: &[(&str, &[&str])] = &[("A", &["B"]), ("B", &["A"])];
    let mut resolver = DependencyResolver::new(&vec!["A".to_owned()]);
    let mut queried_log: Vec<String> = Vec::new();
    let mut rounds: usize = 0;
    while let Some(batch) = resolver.next_batch() {
        rounds += 1;
        assert!(rounds <= 10, "resolution did not reach a fixpoint");
        queried_log.extend(batch.iter().cloned());
        let responses = respond(&batch, graph);
        resolver.record_batch(responses);
    }
    assert!(resolver.done());
    let mut log_sorted = queried_log.clone();
    log_sorted.sort();
    let mut log_dedup = log_sorted.clone();
    log_dedup.dedup();
    assert_eq!(log_sorted, log_dedup, "an id was queried twice");
    assert_eq!(log_sorted, vec!["A".to_owned(), "B".to_owned()]);

    let mut result_ids: Vec<String> =
        resolver.into_results().into_iter().map(|(id, _)| id).collect();
    result_ids.sort();
    assert_eq!(result_ids, vec!["A".to_owned(), "B".to_owned()]);
}

#[test]
fn batches_hold_at_most_five_ids() {
    let roots: Vec<String> = (0..7).map(|i| format!("id{}", i)).collect();
    let mut resolver = DependencyResolver::new(&roots);
    let first = resolver.next_batch().expect("first batch");
    assert_eq!(first.len(), 5);
    let responses = respond(&first, &[]);
    resolver.record_batch(responses);
    let second = resolver.next_batch().expect("second batch");
    assert_eq!(second.len(), 2);
    let responses = respond(&second, &[]);
    resolver.record_batch(responses);
    assert!(resolver.next_batch().is_none());
}

#[test]
fn duplicate_roots_collapse() {
    let mut resolver = DependencyResolver::new(&vec!["A".to_owned(), "A".to_owned()]);
    let batch = resolver.next_batch().expect("one batch");
    assert_eq!(batch, vec!["A".to_owned()]);
    resolver.record_batch(respond(&batch, &[]));
    assert!(resolver.next_batch().is_none());
}

#[test]
fn missing_item_is_stored_not_expanded() {
    let mut resolver = DependencyResolver::new(&vec!["5".to_owned()]);
    let batch = resolver.next_batch().expect("one batch");
    let marker = GetPublishedFileDetailsResponseItem::MissingItem {
        result: 9,
        publishedfileid: "5".to_owned(),
    };
    resolver.record_batch(vec![("5".to_owned(), marker)]);
    assert!(resolver.done());
    let results = resolver.into_results();
    assert_eq!(results.len(), 1);
    assert_eq!(results[0].0, "5");
    assert!(matches!(
        results[0].1,
        GetPublishedFileDetailsResponseItem::MissingItem { result: 9, .. }
    ));
}

#[test]
fn unrequested_results_are_ignored() {
    let mut resolver = DependencyResolver::new(&vec!["A".to_owned()]);
    let batch = resolver.next_batch().expect("one batch");
    let mut responses = respond(&batch, &[]);
    responses.push(("ghost".to_owned(), details("ghost", &[])));
    resolver.record_batch(responses);
    let results = resolver.into_results();
    assert_eq!(results.len(), 1);
    assert_eq!(results[0].0, "A");
}

#[test]
fn response_items_are_keyed_by_their_ids() {
    let items = vec![
        details("10", &[]),
        GetPublishedFileDetailsResponseItem::MissingItem {
            result: 9,
            publishedfileid: "11".to_owned(),
        },
    ];
    let keyed = key_response_items(items);
    assert_eq!(keyed.len(), 2);
    assert_eq!(keyed[0].0, "10");
    assert_eq!(keyed[1].0, "11");
}
