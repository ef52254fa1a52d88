use std::collections::VecDeque;

use fits_pipeline::{
    check_target, complete_fetch, finish, queue_for, DispatchError, Dispatcher, PipelineConfig,
    PipelineError, Summary, WorkOrShutdown, Worker, WorkerAction, WorkerState, CARD_LEN,
};

/// What one sequential run of the pipeline left behind.
struct Run {
    result: Result<Summary, PipelineError>,
    attempted: Vec<Vec<String>>,
    received: Vec<Vec<Option<String>>>,
    states: Vec<WorkerState>,
}

/// A fetcher that answers at once: the listed targets fail in transport,
/// every other valid target returns a small, well-formed header.
fn fetch_now(target: &str, failing: &[&str]) -> bool {
    if check_target(target).is_err() {
        return false;
    }
    let transport = if failing.contains(&target) {
        Err("connection refused".to_string())
    } else {
        Ok(vec![b' '; CARD_LEN * 36])
    };
    complete_fetch(transport).is_ok()
}

/// Runs the pipeline with bounded queues, interleaving the dispatcher and the
/// workers one step at a time. `gone` makes a worker disappear (its queue is
/// closed) once it has taken that many messages.
fn drive(items: &[&str], pool: usize, capacity: usize, failing: &[&str], gone: Option<(usize, usize)>) -> Run {
    let config = PipelineConfig::new(pool, capacity).unwrap();
    let mut dispatcher = Dispatcher::new(items.iter().map(|s| s.to_string()).collect(), config.pool_size);
    let mut queues: Vec<VecDeque<WorkOrShutdown>> = (0..pool).map(|_| VecDeque::new()).collect();
    let mut closed = vec![false; pool];
    let mut workers: Vec<Worker> = (0..pool).map(|_| Worker::new()).collect();
    let mut taken = vec![0usize; pool];
    let mut attempted: Vec<Vec<String>> = vec![Vec::new(); pool];
    let mut received: Vec<Vec<Option<String>>> = vec![Vec::new(); pool];
    let mut dispatch: Result<(), DispatchError> = Ok(());
    loop {
        let mut progressed = false;
        if dispatch.is_ok() {
            if let Some(delivery) = dispatcher.next() {
                let q = delivery.queue;
                if closed[q] {
                    dispatch = dispatcher.advance(false);
                    progressed = true;
                } else if queues[q].len() < config.queue_capacity {
                    queues[q].push_back(delivery.message);
                    dispatcher.advance(true).unwrap();
                    progressed = true;
                }
            }
        }
        for w in 0..pool {
            if closed[w] || workers[w].state() != WorkerState::Waiting {
                continue;
            }
            if gone == Some((w, taken[w])) {
                closed[w] = true;
                queues[w].clear();
                progressed = true;
                continue;
            }
            let msg = match queues[w].pop_front() {
                Some(m) => Some(m),
                None if dispatch.is_err() => None,
                None => continue,
            };
            taken[w] += 1;
            received[w].push(match &msg {
                Some(WorkOrShutdown::Work(t)) => Some(t.clone()),
                _ => None,
            });
            match workers[w].on_receive(msg) {
                WorkerAction::Fetch(t) => {
                    attempted[w].push(t.clone());
                    let ok = fetch_now(&t, failing);
                    workers[w].on_fetched(ok);
                }
                WorkerAction::Stop => {}
            }
            progressed = true;
        }
        let workers_done = (0..pool).all(|w| closed[w] || workers[w].state() == WorkerState::Terminated);
        if workers_done && (dispatch.is_err() || dispatcher.is_done()) {
            break;
        }
        assert!(progressed, "the pipeline stalled");
    }
    let tallies: Vec<_> = (0..pool).map(|w| if closed[w] { None } else { Some(workers[w].tally()) }).collect();
    Run {
        result: finish(dispatch, &tallies),
        attempted,
        received,
        states: workers.iter().map(|w| w.state()).collect(),
    }
}

fn strings(v: &[&str]) -> Vec<String> {
    v.iter().map(|s| s.to_string()).collect()
}

#[test]
fn two_items_two_workers() {
    let run = drive(&["http://a", "http://b"], 2, 100, &[], None);
    assert_eq!(run.received[0], vec![Some("http://a".to_string()), None]);
    assert_eq!(run.received[1], vec![Some("http://b".to_string()), None]);
    assert_eq!(run.states, vec![WorkerState::Terminated, WorkerState::Terminated]);
    assert_eq!(run.result, Ok(Summary { succeeded: 2, failed: 0 }));
}

#[test]
fn no_items_only_shutdown() {
    let run = drive(&[], 10, 100, &[], None);
    for w in 0..10 {
        assert_eq!(run.received[w], vec![None]);
        assert_eq!(run.states[w], WorkerState::Terminated);
    }
    assert_eq!(run.result, Ok(Summary { succeeded: 0, failed: 0 }));
}

#[test]
fn one_failing_target_is_counted() {
    let items = ["http://a", "http://bad", "http://c", "http://d", "http://e"];
    let run = drive(&items, 3, 2, &["http://bad"], None);
    assert_eq!(run.result, Ok(Summary { succeeded: 4, failed: 1 }));
}

#[test]
fn vanished_consumer_is_a_dispatch_error() {
    let items = ["http://a", "http://b", "http://c", "http://d", "http://e", "http://f"];
    let run = drive(&items, 2, 1, &[], Some((1, 1)));
    match run.result {
        Err(PipelineError::Dispatch(e)) => assert_eq!(e.queue, 1),
        other => panic!("expected a dispatch error, got {:?}", other),
    }
    assert_eq!(run.states[0], WorkerState::Terminated);
}

#[test]
fn capacity_one_does_not_deadlock() {
    let owned: Vec<String> = (0..1000).map(|i| format!("http://host/{}", i)).collect();
    let items: Vec<&str> = owned.iter().map(|s| s.as_str()).collect();
    let run = drive(&items, 1, 1, &[], None);
    assert_eq!(run.result, Ok(Summary { succeeded: 1000, failed: 0 }));
    assert_eq!(run.attempted[0], owned);
}

#[test]
fn round_robin_by_index() {
    let items = ["u0", "u1", "u2", "u3", "u4", "u5", "u6"];
    let run = drive(&items, 3, 100, &[], None);
    assert_eq!(run.attempted[0], strings(&["u0", "u3", "u6"]));
    assert_eq!(run.attempted[1], strings(&["u1", "u4"]));
    assert_eq!(run.attempted[2], strings(&["u2", "u5"]));
}

#[test]
fn shutdown_only_after_all_items() {
    let items = ["u0", "u1", "u2", "u3", "u4"];
    let run = drive(&items, 2, 1, &[], None);
    for w in 0..2 {
        let got = &run.received[w];
        assert_eq!(got.last(), Some(&None));
        assert_eq!(got.iter().filter(|m| m.is_none()).count(), 1);
    }
    assert_eq!(run.received[0].len(), 4);
    assert_eq!(run.received[1].len(), 3);
}

#[test]
fn failures_do_not_stop_other_items() {
    let items = ["http://bad1", "http://x", "", "http://bad2", "http://y", "http://z"];
    let run = drive(&items, 2, 1, &["http://bad1", "http://bad2"], None);
    let mut all: Vec<String> = run.attempted.concat();
    all.sort();
    let mut expected = strings(&items);
    expected.sort();
    assert_eq!(all, expected);
    assert_eq!(run.result, Ok(Summary { succeeded: 3, failed: 3 }));
}

#[test]
fn every_size_terminates() {
    let names = ["http://a", "http://b", "http://c", "http://d", "http://e", "http://f", "http://g"];
    for pool in 1..6 {
        for n in 0..names.len() {
            for capacity in 1..3 {
                let run = drive(&names[..n], pool, capacity, &[], None);
                assert!(run.states.iter().all(|s| *s == WorkerState::Terminated));
                assert_eq!(run.result, Ok(Summary { succeeded: n as u64, failed: 0 }));
            }
        }
    }
}

#[test]
fn queue_for_is_index_mod_pool() {
    assert_eq!(queue_for(0, 1), 0);
    assert_eq!(queue_for(7, 3), 1);
    assert_eq!(queue_for(9, 10), 9);
    assert_eq!(queue_for(10, 10), 0);
}
