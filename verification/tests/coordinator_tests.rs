use maxbib::app::App;
use maxbib::event::Event;
use maxbib::record::QueryData;
use maxbib::record::RawRecord;
use maxbib::search::match_categories;
use maxbib::search::run_scan;

fn plain_records(n: usize) -> Vec<QueryData> {
    (0..n).map(|id| QueryData { strings: vec![format!("record {}", id)], id }).collect()
}

fn ranked_list(ids: &[usize]) -> Vec<(QueryData, u64)> {
    ids.iter()
        .enumerate()
        .map(|(pos, id)| {
            (
                QueryData { strings: vec![format!("record {}", id)], id: *id },
                (1000 - pos) as u64,
            )
        })
        .collect()
}

fn score_map(x: f64) -> f64 {
    1.0 / (1.0 + (-x).exp())
}

#[test]
fn tick_launches_only_queued_rescans_with_fresh_generations() {
    let mut app = App::new(plain_records(2), vec![vec!["title"]]);
    assert!(app.tick().is_none());

    app.queue_rescan();
    let (generation, snapshot) = app.tick().expect("queued rescan must launch");
    assert_eq!(generation, 0);
    assert_eq!(snapshot, vec![String::new()]);
    assert!(app.tick().is_none());

    app.add_letter('q');
    app.add_letter('u');
    let (generation, snapshot) = app.tick().expect("edits queue a rescan");
    assert_eq!(generation, 1);
    assert_eq!(snapshot, vec!["qu".to_string()]);
    assert!(app.tick().is_none());
}

#[test]
fn stale_scan_cannot_overwrite_a_newer_accepted_result() {
    let mut app = App::new(plain_records(4), vec![vec!["title"]]);

    // The scan stamped 2 finishes first and is accepted.
    app.accept_result(2, ranked_list(&[3, 1]));
    assert_eq!(app.accepted_generation(), 2);
    assert_eq!(app.results().len(), 2);

    // The older scan stamped 1 arrives later: discarded silently.
    app.accept_result(1, ranked_list(&[0, 1, 2, 3]));
    assert_eq!(app.accepted_generation(), 2);
    let ids: Vec<usize> = app.results().iter().map(|(q, _)| q.id).collect();
    assert_eq!(ids, vec![3, 1]);

    // A result at least as new as the accepted one replaces it.
    app.accept_result(3, ranked_list(&[0]));
    assert_eq!(app.accepted_generation(), 3);
    assert_eq!(app.results().len(), 1);
}

#[test]
fn selection_reconciliation_follows_the_result_shape() {
    let mut app = App::new(plain_records(6), vec![vec!["title"]]);

    // Empty selection, result of length 5: the first entry is selected.
    app.accept_result(1, ranked_list(&[0, 1, 2, 3, 4]));
    assert_eq!(app.selected(), Some(0));

    // Move to Selected(3), then shrink the result to length 2: Selected(1).
    app.increment_selected();
    app.increment_selected();
    app.increment_selected();
    assert_eq!(app.selected(), Some(3));
    app.accept_result(2, ranked_list(&[7, 8]));
    assert_eq!(app.selected(), Some(1));

    // An empty result empties the selection.
    app.accept_result(3, ranked_list(&[]));
    assert_eq!(app.selected(), None);

    // A still-valid selection is kept.
    app.accept_result(4, ranked_list(&[1, 2, 3]));
    app.increment_selected();
    assert_eq!(app.selected(), Some(1));
    app.accept_result(5, ranked_list(&[4, 5, 6]));
    assert_eq!(app.selected(), Some(1));
}

#[test]
fn navigation_wraps_around_and_ignores_empty_selections() {
    let mut app = App::new(plain_records(3), vec![vec!["title"]]);

    // No-ops while nothing is selected.
    app.increment_selected();
    assert_eq!(app.selected(), None);
    app.decrement_selected();
    assert_eq!(app.selected(), None);

    app.accept_result(1, ranked_list(&[0, 1, 2]));
    assert_eq!(app.selected(), Some(0));
    app.decrement_selected();
    assert_eq!(app.selected(), Some(2));
    app.increment_selected();
    assert_eq!(app.selected(), Some(0));
    app.increment_selected();
    app.increment_selected();
    assert_eq!(app.selected(), Some(2));
    app.increment_selected();
    assert_eq!(app.selected(), Some(0));
}

#[test]
fn query_box_navigation_wraps_around() {
    let mut app = App::new(
        vec![QueryData { strings: vec!["t".into(), "y".into()], id: 0 }],
        vec![vec!["title"], vec!["year"]],
    );
    assert_eq!(app.selected_box(), 0);
    app.increment_search_category();
    assert_eq!(app.selected_box(), 1);
    app.increment_search_category();
    assert_eq!(app.selected_box(), 0);
    app.decrement_search_category();
    assert_eq!(app.selected_box(), 1);
}

#[test]
fn edits_target_the_selected_box_and_queue_a_rescan() {
    let mut app = App::new(
        vec![QueryData { strings: vec!["t".into(), "y".into()], id: 0 }],
        vec![vec!["title"], vec!["year"]],
    );
    app.add_letter('a');
    app.increment_search_category();
    app.add_letter('b');
    assert_eq!(app.queries(), &vec!["a".to_string(), "b".to_string()]);
    assert!(app.rescan_queued());

    app.remove_letter();
    assert_eq!(app.queries(), &vec!["a".to_string(), "".to_string()]);
    app.remove_letter();
    assert_eq!(app.queries(), &vec!["a".to_string(), "".to_string()]);

    app.clear_all_searches();
    assert_eq!(app.queries(), &vec!["".to_string(), "".to_string()]);
    assert!(app.rescan_queued());
}

#[test]
fn remove_word_drops_the_word_and_its_trailing_separators() {
    let mut app = App::new(plain_records(1), vec![vec!["title"]]);
    for c in "foo bar  ".chars() {
        app.add_letter(c);
    }
    app.remove_word();
    assert_eq!(app.queries(), &vec!["foo ".to_string()]);
    app.remove_word();
    assert_eq!(app.queries(), &vec!["".to_string()]);
    app.remove_word();
    assert_eq!(app.queries(), &vec!["".to_string()]);
}

#[test]
fn event_distinguishes_ticks_from_input() {
    let tick: Event<char> = Event::Tick;
    assert!(tick.is_tick());
    let input: Event<char> = Event::Input('a');
    assert!(!input.is_tick());
}

#[test]
fn commit_resolves_the_selected_record_id() {
    let mut app = App::new(plain_records(5), vec![vec!["title"]]);
    assert_eq!(app.commit(), None);
    app.accept_result(1, ranked_list(&[4, 2, 0]));
    assert_eq!(app.commit(), Some(4));
    app.increment_selected();
    assert_eq!(app.commit(), Some(2));
}

#[test]
fn end_to_end_scan_keeps_only_matching_records() {
    let raw = [
        RawRecord {
            fields: vec![("title".to_string(), "Quantum Computing".to_string())],
        },
        RawRecord {
            fields: vec![("title".to_string(), "Classical Mechanics".to_string())],
        },
    ];
    let arguments = vec![vec!["title"]];
    let data: Vec<QueryData> = raw
        .iter()
        .enumerate()
        .map(|(i, entry)| QueryData::build(i, entry, &arguments))
        .collect();

    let mut app = App::new(data, arguments);
    for c in "quant".chars() {
        app.add_letter(c);
    }
    let (generation, snapshot) = app.tick().expect("the edits queued a rescan");

    // What the scan worker does with the snapshot, away from the
    // coordinator: match every record, aggregate the raw scores of the
    // matching ones, and sort.
    let records = app.records().clone();
    let mut scores: Vec<Option<u64>> = Vec::new();
    for q in &records {
        scores.push(match_categories(q, &snapshot).map(|raws| {
            let sum: f64 = raws.iter().map(|b| score_map(f64::from_bits(*b))).sum();
            sum.to_bits()
        }));
    }
    let ranked = run_scan(&records, &scores);
    app.accept_result(generation, ranked);

    let ids: Vec<usize> = app.results().iter().map(|(q, _)| q.id).collect();
    assert_eq!(ids, vec![0]);
    assert_eq!(app.selected(), Some(0));
    assert_eq!(app.commit(), Some(0));
}
