//! Tests for graph growth, de-duplication, and reachability pruning.

use search_graph::base::{EdgeId, RawEdge, RawVertex, VertexId};
use search_graph::mark_compact::Collector;

type Graph = search_graph::Graph<&'static str, &'static str, &'static str>;

fn empty_graph() -> Graph {
    let g = Graph::new();
    assert_eq!(0, g.vertex_count());
    assert_eq!(0, g.edge_count());
    g
}

fn make_vertex(
    data: &'static str,
    parents: Vec<EdgeId>,
    children: Vec<EdgeId>,
) -> RawVertex<&'static str> {
    RawVertex { data, parents, children }
}

fn make_arc(data: &'static str, source: VertexId, target: VertexId) -> RawEdge<&'static str> {
    RawEdge { data, source, target }
}

fn assert_state_ids(g: &Graph, expected: &[(&'static str, usize)]) {
    assert_eq!(g.vertex_count(), expected.len());
    for (state, id) in expected {
        assert_eq!(g.find_node(state).unwrap().get_id(), *id);
    }
}

#[test]
fn empty_graph_ok() {
    let mut g = empty_graph();
    Collector::retain_reachable(&mut g, &[]);
    assert_eq!(0, g.vertex_count());
    assert_eq!(0, g.edge_count());
}

#[test]
fn mark_roots_ok() {
    let mut g = empty_graph();
    g.add_root("0", "");
    g.add_root("1", "");
    g.add_root("2", "");
    assert_eq!(3, g.vertex_count());
    assert_eq!(0, g.edge_count());
    let root_ids = [VertexId(0), VertexId(1), VertexId(2)];
    let mut c = Collector::new(&g);
    c.mark(&g, &root_ids);
    for (i, new_id) in c.state_id_map.iter().enumerate() {
        if new_id.is_some() {
            assert!(root_ids.contains(&VertexId(i)));
        }
    }
}

#[test]
fn reachable_loop_ok() {
    let mut g = empty_graph();
    // Original VertexIds are:
    // "0": 0, "00": 1, "01": 2, "1": 3, "10": 4, "11": 5,
    // "2": 6, "20": 7, "21": 8, "210": 9, "211": 10, "2100": 11

    // Original EdgeIds are:
    // "0" -> "00": 0, "0" -> "01": 1, "1" -> "10": 2, "1" -> "11": 3,
    // "11" -> "0": 4, "2" -> "20": 5, "2" -> "21": 6, "21" -> "210": 7,
    // "21" -> "211": 8, "210" -> "0": 9, "210" -> "2100": 10, "2100" -> "0": 11

    g.add_edge("0", |_| "0_data", "00", |_| "00_data", "0_00_data");
    g.add_edge("0", |_| "0_data", "01", |_| "01_data", "0_01_data");
    g.add_edge("1", |_| "1_data", "10", |_| "10_data", "1_10_data");
    g.add_edge("1", |_| "1_data", "11", |_| "11_data", "1_11_data");
    g.add_edge("11", |_| "11_data", "0", |_| "0_data", "11_0_data");
    g.add_edge("2", |_| "2_data", "20", |_| "20_data", "2_20_data");
    g.add_edge("2", |_| "2_data", "21", |_| "21_data", "2_21_data");
    g.add_edge("21", |_| "21_data", "210", |_| "210_data", "21_210_data");
    g.add_edge("21", |_| "21_data", "211", |_| "211_data", "21_211_data");
    g.add_edge("210", |_| "210_data", "0", |_| "0_data", "210_0_data");
    g.add_edge("210", |_| "210_data", "2100", |_| "2100_data", "210_2100_data");
    g.add_edge("2100", |_| "2100_data", "0", |_| "0_data", "2100_0_data");

    let root_ids = [VertexId(6)];
    let reachable_state_ids = [
        VertexId(6),
        VertexId(7),
        VertexId(8),
        VertexId(9),
        VertexId(10),
        VertexId(11),
        VertexId(0),
        VertexId(1),
        VertexId(2),
    ];
    let unreachable_state_ids = [VertexId(3), VertexId(4), VertexId(5)];

    // Mark.
    let mut c = Collector::new(&g);
    c.mark(&g, &root_ids);

    for (i, new_id) in c.state_id_map.iter().enumerate() {
        if new_id.is_some() {
            // Reachable IDs are remapped.
            assert!(reachable_state_ids.contains(&VertexId(i)));
        } else {
            // Unreachable IDs aren't.
            assert!(unreachable_state_ids.contains(&VertexId(i)));
        }
    }

    // New VertexIds are:
    // "2": 0, "20": 1, "21": 2, "210": 3, "211": 4, "0": 5, "2100": 6,
    // "00": 7, "01": 8
    // This is BFS order: VertexIds are remapped eagerly when first
    // encountered, not when visited, compacting memory so that child
    // vertices are adjacent to one another.
    assert_eq!(
        c.state_id_map,
        vec!(
            Some(VertexId(5)),
            Some(VertexId(7)),
            Some(VertexId(8)),
            None,
            None,
            None,
            Some(VertexId(0)),
            Some(VertexId(1)),
            Some(VertexId(2)),
            Some(VertexId(3)),
            Some(VertexId(4)),
            Some(VertexId(6)),
        )
    );

    // New EdgeIds are:
    // "2" -> "20": 0, "2" -> "21": 1, "21" -> "210": 2, "21" -> "211": 3,
    // "210" -> "0": 4, "210" -> "2100": 5, "0" -> "00": 6, "0" -> "01": 7,
    // "2100" -> "0": 8
    assert_eq!(
        c.arc_id_map,
        vec!(
            Some(EdgeId(6)),
            Some(EdgeId(7)),
            None,
            None,
            None,
            Some(EdgeId(0)),
            Some(EdgeId(1)),
            Some(EdgeId(2)),
            Some(EdgeId(3)),
            Some(EdgeId(4)),
            Some(EdgeId(5)),
            Some(EdgeId(8)),
        )
    );

    c.sweep(&mut g);
    assert_eq!(
        g.vertices,
        vec!(
            make_vertex("2_data", vec!(), vec!(EdgeId(0), EdgeId(1))),
            make_vertex("20_data", vec!(EdgeId(0)), vec!()),
            make_vertex("21_data", vec!(EdgeId(1)), vec!(EdgeId(2), EdgeId(3))),
            make_vertex("210_data", vec!(EdgeId(2)), vec!(EdgeId(4), EdgeId(5))),
            make_vertex("211_data", vec!(EdgeId(3)), vec!()),
            make_vertex("0_data", vec!(EdgeId(4), EdgeId(8)), vec!(EdgeId(6), EdgeId(7))),
            make_vertex("2100_data", vec!(EdgeId(5)), vec!(EdgeId(8))),
            make_vertex("00_data", vec!(EdgeId(6)), vec!()),
            make_vertex("01_data", vec!(EdgeId(7)), vec!()),
        )
    );

    assert_eq!(
        g.arcs,
        vec!(
            make_arc("2_20_data", VertexId(0), VertexId(1)),
            make_arc("2_21_data", VertexId(0), VertexId(2)),
            make_arc("21_210_data", VertexId(2), VertexId(3)),
            make_arc("21_211_data", VertexId(2), VertexId(4)),
            make_arc("210_0_data", VertexId(3), VertexId(5)),
            make_arc("210_2100_data", VertexId(3), VertexId(6)),
            make_arc("0_00_data", VertexId(5), VertexId(7)),
            make_arc("0_01_data", VertexId(5), VertexId(8)),
            make_arc("2100_0_data", VertexId(6), VertexId(5)),
        )
    );

    assert_state_ids(
        &g,
        &[
            ("2", 0),
            ("20", 1),
            ("21", 2),
            ("210", 3),
            ("211", 4),
            ("0", 5),
            ("2100", 6),
            ("00", 7),
            ("01", 8),
        ],
    );
}

#[test]
fn parallel_edges_ok() {
    let mut g = empty_graph();
    g.add_edge("0", |_| "0_data", "00", |_| "00_data", "0_00_data_1");
    g.add_edge("0", |_| "0_data", "00", |_| "00_data", "0_00_data_2");
    g.add_edge("0", |_| "0_data", "01", |_| "01_data", "0_01_data");
    g.add_edge("1", |_| "1_data", "10", |_| "10_data", "1_10_data");
    g.add_edge("1", |_| "1_data", "1", |_| "1_data", "1_1_data");
    assert_eq!(
        g.vertices,
        vec!(
            make_vertex("0_data", vec!(), vec!(EdgeId(0), EdgeId(1), EdgeId(2))),
            make_vertex("00_data", vec!(EdgeId(0), EdgeId(1)), vec!()),
            make_vertex("01_data", vec!(EdgeId(2)), vec!()),
            make_vertex("1_data", vec!(EdgeId(4)), vec!(EdgeId(3), EdgeId(4))),
            make_vertex("10_data", vec!(EdgeId(3)), vec!()),
        )
    );
    assert_eq!(
        g.arcs,
        vec!(
            make_arc("0_00_data_1", VertexId(0), VertexId(1)),
            make_arc("0_00_data_2", VertexId(0), VertexId(1)),
            make_arc("0_01_data", VertexId(0), VertexId(2)),
            make_arc("1_10_data", VertexId(3), VertexId(4)),
            make_arc("1_1_data", VertexId(3), VertexId(3)),
        )
    );

    Collector::retain_reachable(&mut g, &[VertexId(0)]);
    assert_eq!(
        g.vertices,
        vec!(
            make_vertex("0_data", vec!(), vec!(EdgeId(0), EdgeId(1), EdgeId(2))),
            make_vertex("00_data", vec!(EdgeId(0), EdgeId(1)), vec!()),
            make_vertex("01_data", vec!(EdgeId(2)), vec!()),
        )
    );
    assert_eq!(
        g.arcs,
        vec!(
            make_arc("0_00_data_1", VertexId(0), VertexId(1)),
            make_arc("0_00_data_2", VertexId(0), VertexId(1)),
            make_arc("0_01_data", VertexId(0), VertexId(2)),
        )
    );

    assert_state_ids(&g, &[("0", 0), ("00", 1), ("01", 2)]);
}

#[test]
fn cycles_ok() {
    let mut g = empty_graph();
    g.add_edge("0", |_| "0_data", "00", |_| "00_data", "0_00_data");
    g.add_edge("00", |_| "00_data", "00", |_| "00_data", "00_00_data");
    g.add_edge("00", |_| "00_data", "0", |_| "0_data", "00_0_data");
    g.add_edge("0", |_| "0_data", "01", |_| "01_data", "0_01_data");
    g.add_edge("01", |_| "01_data", "010", |_| "010_data", "01_010_data");
    g.add_edge("root", |_| "root_data", "0", |_| "0_data", "root_0_data");
    assert_eq!(
        g.vertices,
        vec!(
            make_vertex("0_data", vec!(EdgeId(2), EdgeId(5)), vec!(EdgeId(0), EdgeId(3))),
            make_vertex("00_data", vec!(EdgeId(0), EdgeId(1)), vec!(EdgeId(1), EdgeId(2))),
            make_vertex("01_data", vec!(EdgeId(3)), vec!(EdgeId(4))),
            make_vertex("010_data", vec!(EdgeId(4)), vec!()),
            make_vertex("root_data", vec!(), vec!(EdgeId(5))),
        )
    );
    assert_eq!(
        g.arcs,
        vec!(
            make_arc("0_00_data", VertexId(0), VertexId(1)),
            make_arc("00_00_data", VertexId(1), VertexId(1)),
            make_arc("00_0_data", VertexId(1), VertexId(0)),
            make_arc("0_01_data", VertexId(0), VertexId(2)),
            make_arc("01_010_data", VertexId(2), VertexId(3)),
            make_arc("root_0_data", VertexId(4), VertexId(0)),
        )
    );

    Collector::retain_reachable(&mut g, &[VertexId(1)]);
    assert_eq!(
        g.vertices,
        vec!(
            make_vertex("00_data", vec!(EdgeId(2), EdgeId(0)), vec!(EdgeId(0), EdgeId(1))),
            make_vertex("0_data", vec!(EdgeId(1)), vec!(EdgeId(2), EdgeId(3))),
            make_vertex("01_data", vec!(EdgeId(3)), vec!(EdgeId(4))),
            make_vertex("010_data", vec!(EdgeId(4)), vec!()),
        )
    );
    assert_eq!(
        g.arcs,
        vec!(
            make_arc("00_00_data", VertexId(0), VertexId(0)),
            make_arc("00_0_data", VertexId(0), VertexId(1)),
            make_arc("0_00_data", VertexId(1), VertexId(0)),
            make_arc("0_01_data", VertexId(1), VertexId(2)),
            make_arc("01_010_data", VertexId(2), VertexId(3)),
        )
    );

    assert_state_ids(&g, &[("00", 0), ("0", 1), ("01", 2), ("010", 3)]);
}

#[test]
fn add_node_dedup_ok() {
    let mut g = empty_graph();
    let id1 = g.add_node("s", "first_data").get_id();
    let id2 = g.add_node("s", "second_data").get_id();
    assert_eq!(id1, id2);
    assert_eq!(1, g.vertex_count());
    // the second call's data is discarded
    assert_eq!("first_data", *g.find_node(&"s").unwrap().get_data());
}

#[test]
fn add_edge_dedup_ok() {
    let mut g = empty_graph();
    g.add_edge("a", |_| "a_data", "b", |_| "b_data", "e1");
    g.add_edge("a", |_| "other_a", "b", |_| "other_b", "e2");
    assert_eq!(2, g.vertex_count());
    assert_eq!(2, g.edge_count());
    assert_eq!("a_data", *g.find_node(&"a").unwrap().get_data());
    assert_eq!("b_data", *g.find_node(&"b").unwrap().get_data());
}

#[test]
fn add_edge_arity_ok() {
    let mut g = empty_graph();
    g.add_edge("a", |_| "a_data", "b", |_| "b_data", "e1");
    let a = g.find_node(&"a").unwrap();
    assert_eq!(1, a.get_child_list().len());
    assert_eq!(0, a.get_parent_list().len());
    let b = g.find_node(&"b").unwrap();
    assert_eq!(0, b.get_child_list().len());
    assert_eq!(1, b.get_parent_list().len());
    g.add_edge("a", |_| "a_data", "b", |_| "b_data", "e2");
    let a = g.find_node(&"a").unwrap();
    assert_eq!(2, a.get_child_list().len());
    let b = g.find_node(&"b").unwrap();
    assert_eq!(2, b.get_parent_list().len());
}

#[test]
fn parallel_edges_distinct_ids_ok() {
    let mut g = empty_graph();
    let e1 = g.add_edge("a", |_| "a", "b", |_| "b", "same").get_id();
    let e2 = g.add_edge("a", |_| "a", "b", |_| "b", "same").get_id();
    assert_ne!(e1, e2);
    assert_eq!(2, g.edge_count());
}

#[test]
fn prune_idempotent_ok() {
    let mut g = empty_graph();
    g.add_edge("r", |_| "r", "x", |_| "x", "r_x");
    g.add_edge("x", |_| "x", "r", |_| "r", "x_r");
    g.add_edge("dead", |_| "dead", "deader", |_| "deader", "d_d");
    g.retain_reachable_from(&["r"]);
    assert_eq!(2, g.vertex_count());
    assert_eq!(2, g.edge_count());
    let vs1 = g.vertices.clone();
    let as1 = g.arcs.clone();
    g.retain_reachable_from(&["r"]);
    assert_eq!(2, g.vertex_count());
    assert_eq!(2, g.edge_count());
    assert_eq!(vs1, g.vertices);
    assert_eq!(as1, g.arcs);
}

#[test]
fn retain_reachable_from_ignores_unknown_ok() {
    let mut g = empty_graph();
    g.add_edge("r", |_| "r", "x", |_| "x", "r_x");
    g.retain_reachable_from(&["nowhere", "r"]);
    assert_eq!(2, g.vertex_count());
    assert_eq!(1, g.edge_count());
    assert!(g.find_node(&"r").is_some());
    assert!(g.find_node(&"x").is_some());
}

#[test]
fn mut_node_retain_reachable_ok() {
    let mut g = empty_graph();
    g.add_edge("r", |_| "r", "x", |_| "x", "r_x");
    g.add_edge("dead", |_| "dead", "r", |_| "r", "dead_r");
    let mut n = g.find_node_mut(&"r").unwrap();
    n.retain_reachable();
    assert_eq!(0, n.get_id());
    assert_eq!("r", *n.get_data());
    assert_eq!(2, g.vertex_count());
    assert_eq!(1, g.edge_count());
    assert!(g.find_node(&"dead").is_none());
}

#[test]
fn path_exists_ok() {
    let mut g = empty_graph();
    g.add_edge("a", |_| "a", "b", |_| "b", "a_b");
    g.add_edge("b", |_| "b", "c", |_| "c", "b_c");
    g.add_edge("x", |_| "x", "b", |_| "b", "x_b");
    let a = VertexId(g.find_node(&"a").unwrap().get_id());
    let b = VertexId(g.find_node(&"b").unwrap().get_id());
    let c = VertexId(g.find_node(&"c").unwrap().get_id());
    let x = VertexId(g.find_node(&"x").unwrap().get_id());
    assert!(g.path_exists(a, a));
    assert!(g.path_exists(a, c));
    assert!(g.path_exists(x, c));
    assert!(!g.path_exists(c, a));
    assert!(!g.path_exists(a, x));
    // an edge from "c" back toward "a" would close a cycle: "c" is an
    // ancestor check away
    g.add_edge("c", |_| "c", "a", |_| "a", "c_a");
    assert!(g.path_exists(c, a));
    assert!(g.path_exists(b, a));
}

#[test]
fn find_node_unknown_is_none_ok() {
    let mut g = empty_graph();
    g.add_node("known", "data");
    assert!(g.find_node(&"unknown").is_none());
    assert!(g.find_node_mut(&"unknown").is_none());
    assert!(g.get_node_mut(&"unknown").is_none());
}

#[test]
fn node_navigation_ok() {
    let mut g = empty_graph();
    g.add_edge("a", |_| "a_data", "b", |_| "b_data", "a_b");
    g.add_edge("b", |_| "b_data", "c", |_| "c_data", "b_c");
    let a = g.find_node(&"a").unwrap();
    assert!(a.is_root());
    assert!(!a.is_leaf());
    assert_eq!("a", *a.get_label());
    let edge = a.get_child_list().get_edge(0);
    assert_eq!("a_b", *edge.get_data());
    assert_eq!("a_data", *edge.get_source().get_data());
    let b = edge.get_target();
    assert_eq!("b_data", *b.get_data());
    assert!(!b.is_root());
    assert!(!b.is_leaf());
    let c = b.get_child_list().get_edge(0).get_target();
    assert!(c.is_leaf());
    assert_eq!("c", *c.get_label());
    assert_eq!(1, c.get_parent_list().len());
    assert_eq!("b_data", *c.get_parent_list().get_edge(0).get_source().get_data());
}

#[test]
fn child_list_iter_ok() {
    let mut g = empty_graph();
    g.add_edge("a", |_| "a", "b", |_| "b", "a_b");
    g.add_edge("a", |_| "a", "c", |_| "c", "a_c");
    let a = g.find_node(&"a").unwrap();
    let mut it = a.get_child_list().iter();
    assert_eq!((2, Some(2)), it.size_hint());
    assert_eq!("a_b", *it.next().unwrap().get_data());
    assert_eq!((1, Some(1)), it.size_hint());
    assert_eq!("a_c", *it.next().unwrap().get_data());
    assert!(it.next().is_none());
    let b = g.find_node(&"b").unwrap();
    let mut pit = b.get_parent_list().iter();
    assert_eq!((1, Some(1)), pit.size_hint());
    assert_eq!("a_b", *pit.next().unwrap().get_data());
    assert!(pit.next().is_none());
}

#[test]
fn get_data_mut_ok() {
    let mut g = empty_graph();
    g.add_edge("a", |_| "a_data", "b", |_| "b_data", "edge_data");
    {
        let mut n = g.find_node_mut(&"a").unwrap();
        *n.get_data_mut() = "new_a_data";
    }
    assert_eq!("new_a_data", *g.find_node(&"a").unwrap().get_data());
    {
        let mut n = g.find_node_mut(&"a").unwrap();
        let mut cl = n.get_child_list_mut();
        let mut e = cl.get_edge_mut(0);
        *e.get_data_mut() = "new_edge_data";
    }
    assert_eq!("new_edge_data", *g.find_node(&"a").unwrap().get_child_list().get_edge(0).get_data());
}

#[test]
fn add_child_and_parent_ok() {
    let mut g = empty_graph();
    g.add_node("a", "a_data");
    {
        let n = g.find_node_mut(&"a").unwrap();
        let mut cl = n.to_child_list();
        let e = cl.add_child("b", || "b_data", "a_b");
        assert_eq!(0, e.get_id());
    }
    assert_eq!(2, g.vertex_count());
    assert_eq!(1, g.edge_count());
    assert_eq!("b_data", *g.find_node(&"b").unwrap().get_data());
    {
        let n = g.find_node_mut(&"a").unwrap();
        let mut pl = n.to_parent_list();
        let e = pl.add_parent("p", || "p_data", "p_a");
        assert_eq!(1, e.get_id());
    }
    assert_eq!(3, g.vertex_count());
    assert_eq!(2, g.edge_count());
    let a = g.find_node(&"a").unwrap();
    assert_eq!(1, a.get_child_list().len());
    assert_eq!(1, a.get_parent_list().len());
    assert_eq!("p_data", *a.get_parent_list().get_edge(0).get_source().get_data());
}
