//! Tests for shared read-only access to a graph across threads.

use std::sync::Arc;

use crossbeam_utils::thread;

type Graph = search_graph::Graph<&'static str, &'static str, &'static str>;

#[test]
fn send_to_thread_safe_ok() {
    let mut g = Graph::new();
    g.add_edge("root", |_| "root_data", "0", |_| "0_data", "root_0_data");
    g.add_edge("root", |_| "root_data", "1", |_| "1_data", "root_1_data");
    let graph = Arc::new(g);
    thread::scope(move |s| {
        let g = graph.clone();
        let t1 = s.spawn(move |_| g.find_node(&"root").map(|n| n.get_id()));
        let g = graph.clone();
        let t2 = s.spawn(move |_| g.find_node(&"1").map(|n| n.get_id()));
        match t1.join() {
            Ok(Some(id)) => assert_eq!(id, 0),
            _ => panic!(),
        }
        match t2.join() {
            Ok(Some(id)) => assert_eq!(id, 2),
            _ => panic!(),
        }
    })
    .unwrap();
}

#[test]
fn sync_to_thread_ok() {
    let mut g = Graph::new();
    g.add_edge("root", |_| "root_data", "0", |_| "0_data", "root_0_data");
    g.add_edge("root", |_| "root_data", "1", |_| "1_data", "root_1_data");
    let g = &g;
    thread::scope(|s| {
        let t1 = s.spawn(move |_| g.find_node(&"root").map(|n| n.get_id()));
        let t2 = s.spawn(move |_| g.find_node(&"1").map(|n| n.get_id()));
        match t1.join() {
            Ok(Some(id)) => assert_eq!(id, 0),
            _ => panic!(),
        }
        match t2.join() {
            Ok(Some(id)) => assert_eq!(id, 2),
            _ => panic!(),
        }
    })
    .unwrap();
}
