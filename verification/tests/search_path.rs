//! Tests for the traversal-history stack.

use search_graph::search::{SearchError, Stack as SearchStack, StackItem, Traversal};

type Graph = search_graph::Graph<&'static str, &'static str, ()>;
type Node<'a> = search_graph::nav::Node<'a, &'static str, &'static str, ()>;

fn add_edge(g: &mut Graph, source: &'static str, dest: &'static str) {
    g.add_edge(source, |_| source, dest, |_| dest, ());
}

#[derive(Debug)]
struct MockError(());

#[test]
fn instantiation_ok() {
    let mut g = Graph::new();
    let root = g.add_root("root", "root");

    let path = SearchStack::new(root);
    assert_eq!(1, path.len());
    assert_eq!("root", *path.head().get_data());
}

#[test]
fn push_no_children_ok() {
    let mut g = Graph::new();
    let root = g.add_root("root", "root");

    let mut path = SearchStack::new(root);
    assert_eq!(1, path.len());

    fn no_traversal<'a>(n: &Node<'a>) -> Result<Option<Traversal>, MockError> {
        assert_eq!("root", *n.get_data());
        Ok(None)
    }

    match path.push(no_traversal) {
        Ok(None) => (),
        _ => panic!(),
    }

    assert_eq!(1, path.len());
    assert_eq!("root", *path.head().get_data());
}

#[test]
fn push_no_children_err() {
    let mut g = Graph::new();
    let root = g.add_root("root", "root");

    let mut path = SearchStack::new(root);
    assert_eq!(1, path.len());

    fn traverse_first_child<'a>(n: &Node<'a>) -> Result<Option<Traversal>, MockError> {
        assert_eq!("root", *n.get_data());
        assert!(n.get_child_list().is_empty());
        Ok(Some(Traversal::Child(0)))
    }

    match path.push(traverse_first_child) {
        Err(SearchError::ChildBounds { requested_index, child_count }) => {
            assert_eq!(0, requested_index);
            assert_eq!(0, child_count);
        },
        _ => panic!(),
    }

    assert_eq!(1, path.len());
    assert_eq!("root", *path.head().get_data());
}

#[test]
fn push_to_child_ok() {
    let mut g = Graph::new();
    add_edge(&mut g, "A", "B1");
    add_edge(&mut g, "A", "B2");
    add_edge(&mut g, "B1", "C");
    add_edge(&mut g, "B2", "D");

    fn traverse_second_child<'a>(n: &Node<'a>) -> Result<Option<Traversal>, MockError> {
        assert_eq!("A", *n.get_data());
        let children = n.get_child_list();
        assert_eq!(2, children.len());
        assert_eq!("B1", *children.get_edge(0).get_target().get_data());
        assert_eq!("B2", *children.get_edge(1).get_target().get_data());
        Ok(Some(Traversal::Child(1)))
    }

    let mut path = SearchStack::new(g.get_node_mut(&"A").unwrap());
    assert_eq!(1, path.len());

    match path.push(traverse_second_child) {
        Ok(Some(e)) => {
            assert_eq!("A", *e.get_source().get_data());
            assert_eq!("B2", *e.get_target().get_data());
        },
        _ => panic!(),
    }

    assert_eq!(2, path.len());

    fn traverse_first_child<'a>(n: &Node<'a>) -> Result<Option<Traversal>, MockError> {
        assert_eq!("B2", *n.get_data());
        assert_eq!(1, n.get_child_list().len());
        Ok(Some(Traversal::Child(0)))
    }

    match path.push(traverse_first_child) {
        Ok(Some(e)) => {
            assert_eq!("B2", *e.get_source().get_data());
            assert_eq!("D", *e.get_target().get_data());
        },
        _ => panic!(),
    }

    assert_eq!(3, path.len());
    assert_eq!("D", *path.head().get_data());
}

#[test]
fn push_to_child_err_ok() {
    let mut g = Graph::new();
    add_edge(&mut g, "A", "B1");
    add_edge(&mut g, "A", "B2");
    add_edge(&mut g, "B1", "C");
    add_edge(&mut g, "B2", "D");

    fn traverse_err<'a>(n: &Node<'a>) -> Result<Option<Traversal>, MockError> {
        assert_eq!("A", *n.get_data());
        Err(MockError(()))
    }

    let mut path = SearchStack::new(g.get_node_mut(&"A").unwrap());
    assert_eq!(1, path.len());

    match path.push(traverse_err) {
        Err(SearchError::SelectionError(_)) => (),
        _ => panic!(),
    }
    assert_eq!(1, path.len());
    assert_eq!("A", *path.head().get_data())
}

#[test]
fn push_no_parents_ok() {
    let mut g = Graph::new();
    let root = g.add_root("root", "root");

    let mut path = SearchStack::new(root);
    assert_eq!(1, path.len());

    fn no_traversal<'a>(n: &Node<'a>) -> Result<Option<Traversal>, MockError> {
        assert_eq!("root", *n.get_data());
        Ok(None)
    }

    match path.push(no_traversal) {
        Ok(None) => (),
        _ => panic!(),
    }

    assert_eq!(1, path.len());
    assert_eq!("root", *path.head().get_data());
}

#[test]
fn push_no_parents_err() {
    let mut g = Graph::new();
    let root = g.add_root("root", "root");

    let mut path = SearchStack::new(root);
    assert_eq!(1, path.len());

    fn traverse_first_parent<'a>(n: &Node<'a>) -> Result<Option<Traversal>, MockError> {
        assert_eq!("root", *n.get_data());
        assert!(n.get_parent_list().is_empty());
        Ok(Some(Traversal::Parent(0)))
    }

    match path.push(traverse_first_parent) {
        Err(SearchError::ParentBounds { requested_index, parent_count }) => {
            assert_eq!(0, requested_index);
            assert_eq!(0, parent_count);
        },
        _ => panic!(),
    }

    assert_eq!(1, path.len());
    assert_eq!("root", *path.head().get_data());
}

#[test]
fn push_to_parent_ok() {
    let mut g = Graph::new();
    add_edge(&mut g, "A", "B1");
    add_edge(&mut g, "A", "B2");
    add_edge(&mut g, "B1", "C");
    add_edge(&mut g, "B2", "D");
    add_edge(&mut g, "C", "B2");

    fn traverse_second_child<'a>(n: &Node<'a>) -> Result<Option<Traversal>, MockError> {
        assert_eq!("A", *n.get_data());
        let children = n.get_child_list();
        assert_eq!(2, children.len());
        assert_eq!("B1", *children.get_edge(0).get_target().get_data());
        assert_eq!("B2", *children.get_edge(1).get_target().get_data());
        Ok(Some(Traversal::Child(1)))
    }

    let mut path = SearchStack::new(g.get_node_mut(&"A").unwrap());
    assert_eq!(1, path.len());

    match path.push(traverse_second_child) {
        Ok(Some(e)) => {
            assert_eq!("A", *e.get_source().get_data());
            assert_eq!("B2", *e.get_target().get_data());
        },
        _ => panic!(),
    }
    assert_eq!(2, path.len());
    assert_eq!("B2", *path.head().get_data());

    fn traverse_first_child<'a>(n: &Node<'a>) -> Result<Option<Traversal>, MockError> {
        assert_eq!("B2", *n.get_data());
        assert_eq!(1, n.get_child_list().len());
        Ok(Some(Traversal::Child(0)))
    }

    match path.push(traverse_first_child) {
        Ok(Some(e)) => {
            assert_eq!("B2", *e.get_source().get_data());
            assert_eq!("D", *e.get_target().get_data());
        },
        _ => panic!(),
    }
    assert_eq!(3, path.len());
    assert_eq!("D", *path.head().get_data());

    fn traverse_first_parent<'a>(n: &Node<'a>) -> Result<Option<Traversal>, MockError> {
        assert_eq!("D", *n.get_data());
        assert_eq!(1, n.get_parent_list().len());
        Ok(Some(Traversal::Parent(0)))
    }

    match path.push(traverse_first_parent) {
        Ok(Some(e)) => {
            assert_eq!("B2", *e.get_source().get_data());
            assert_eq!("D", *e.get_target().get_data());
        },
        _ => panic!(),
    }
    assert_eq!(4, path.len());
    assert_eq!("B2", *path.head().get_data());

    fn traverse_second_parent<'a>(n: &Node<'a>) -> Result<Option<Traversal>, MockError> {
        assert_eq!("B2", *n.get_data());
        assert_eq!(2, n.get_parent_list().len());
        Ok(Some(Traversal::Parent(1)))
    }

    match path.push(traverse_second_parent) {
        Ok(Some(e)) => {
            assert_eq!("C", *e.get_source().get_data());
            assert_eq!("B2", *e.get_target().get_data());
        },
        _ => panic!(),
    }
    assert_eq!(5, path.len());
    assert_eq!("C", *path.head().get_data());
}

#[test]
fn push_to_parent_err_ok() {
    let mut g = Graph::new();
    add_edge(&mut g, "A", "B1");
    add_edge(&mut g, "A", "B2");
    add_edge(&mut g, "B1", "C");
    add_edge(&mut g, "B2", "D");

    fn traverse_err<'a>(n: &Node<'a>) -> Result<Option<Traversal>, MockError> {
        assert_eq!("A", *n.get_data());
        Err(MockError(()))
    }

    let mut path = SearchStack::new(g.get_node_mut(&"A").unwrap());
    assert_eq!(1, path.len());

    match path.push(traverse_err) {
        Err(SearchError::SelectionError(_)) => (),
        _ => panic!(),
    }
    assert_eq!(1, path.len());
    assert_eq!("A", *path.head().get_data());
}

#[test]
fn search_path_iter_empty_ok() {
    let mut g = Graph::new();
    g.add_root("root", "root");

    let path = SearchStack::new(g.add_root("root", "root"));
    assert_eq!(1, path.len());
    assert_eq!("root", *path.head().get_data());

    let mut iter_items = path.iter();
    assert_eq!((1, Some(1)), iter_items.size_hint());
    match iter_items.next() {
        Some(StackItem::Head(n)) => assert_eq!("root", *n.get_data()),
        _ => panic!(),
    }
    assert!(iter_items.next().is_none());
}

#[test]
fn search_path_iter_items_ok() {
    let mut g = Graph::new();
    g.add_root("root", "root");
    add_edge(&mut g, "root", "A");
    add_edge(&mut g, "A", "B");

    fn traverse_first_child<'a>(_: &Node<'a>) -> Result<Option<Traversal>, MockError> {
        Ok(Some(Traversal::Child(0)))
    }

    let mut path = SearchStack::new(g.get_node_mut(&"root").unwrap());
    match path.push(traverse_first_child) {
        Ok(Some(e)) => assert_eq!("root", *e.get_source().get_data()),
        _ => panic!(),
    }
    match path.push(traverse_first_child) {
        Ok(Some(e)) => {
            assert_eq!("A", *e.get_source().get_data());
            assert_eq!("B", *e.get_target().get_data());
        },
        _ => panic!(),
    }
    match path.push(traverse_first_child) {
        Err(SearchError::ChildBounds { requested_index, child_count })
            if requested_index == 0 && child_count == 0 => (),
        _ => panic!(),
    }

    let mut iter_items = path.iter();
    assert_eq!((3, Some(3)), iter_items.size_hint());
    match iter_items.next() {
        Some(StackItem::Item(e)) => {
            assert_eq!("root", *e.get_source().get_data());
            assert_eq!("A", *e.get_target().get_data());
        },
        _ => panic!(),
    }
    match iter_items.next() {
        Some(StackItem::Item(e)) => {
            assert_eq!("A", *e.get_source().get_data());
            assert_eq!("B", *e.get_target().get_data());
        },
        _ => panic!(),
    }
    match iter_items.next() {
        Some(StackItem::Head(n)) => assert_eq!("B", *n.get_data()),
        _ => panic!(),
    }
    assert!(iter_items.next().is_none());
}

#[test]
fn pop_empty_is_none_ok() {
    let mut g = Graph::new();

    let mut path = SearchStack::new(g.add_root("root", "root"));
    assert_eq!(1, path.len());
    assert!(path.pop().is_none());
}

#[test]
fn pop_ok() {
    let mut g = Graph::new();
    add_edge(&mut g, "root", "A");

    let mut path = SearchStack::new(g.get_node_mut(&"root").unwrap());
    assert_eq!(1, path.len());

    fn traverse_first_child<'a>(n: &Node<'a>) -> Result<Option<Traversal>, MockError> {
        assert_eq!("root", *n.get_data());
        Ok(Some(Traversal::Child(0)))
    }

    match path.push(traverse_first_child) {
        Ok(Some(e)) => assert_eq!("root", *e.get_source().get_data()),
        _ => panic!(),
    }
    assert_eq!(2, path.len());
    assert_eq!("A", *path.head().get_data());

    match path.pop() {
        Some(e) => assert_eq!("root", *e.get_source().get_data()),
        _ => panic!(),
    }
    assert_eq!(1, path.len());
    assert_eq!("root", *path.head().get_data());

    assert!(path.pop().is_none());
}

#[test]
fn to_head_empty_ok() {
    let mut g = Graph::new();
    add_edge(&mut g, "root", "A");

    let path = SearchStack::new(g.get_node_mut(&"root").unwrap());
    assert_eq!(1, path.len());

    assert_eq!("root", *path.to_head().get_data());
}

#[test]
fn to_head_expanded_ok() {
    let mut g = Graph::new();
    add_edge(&mut g, "root", "A");

    let mut path = SearchStack::new(g.get_node_mut(&"root").unwrap());
    assert_eq!(1, path.len());

    fn traverse_first_child<'a>(n: &Node<'a>) -> Result<Option<Traversal>, MockError> {
        assert_eq!("root", *n.get_data());
        Ok(Some(Traversal::Child(0)))
    }

    match path.push(traverse_first_child) {
        Ok(Some(e)) => assert_eq!("root", *e.get_source().get_data()),
        _ => panic!(),
    }
    assert_eq!(2, path.len());

    assert_eq!("A", *path.to_head().get_data());
}

#[test]
fn pop_after_parent_restores_head_ok() {
    let mut g = Graph::new();
    add_edge(&mut g, "root", "A");

    fn traverse_first_parent<'a>(n: &Node<'a>) -> Result<Option<Traversal>, MockError> {
        assert_eq!("A", *n.get_data());
        Ok(Some(Traversal::Parent(0)))
    }

    let mut path = SearchStack::new(g.get_node_mut(&"A").unwrap());
    match path.push(traverse_first_parent) {
        Ok(Some(e)) => {
            assert_eq!("root", *e.get_source().get_data());
            assert_eq!("A", *e.get_target().get_data());
        },
        _ => panic!(),
    }
    assert_eq!(2, path.len());
    assert_eq!("root", *path.head().get_data());

    // backtracking restores the head that the traversal started from
    match path.pop() {
        Some(e) => assert_eq!("A", *e.get_target().get_data()),
        _ => panic!(),
    }
    assert_eq!(1, path.len());
    assert_eq!("A", *path.head().get_data());
}

#[test]
fn stack_item_ok() {
    let mut g = Graph::new();
    add_edge(&mut g, "root", "A");

    fn traverse_first_child<'a>(_: &Node<'a>) -> Result<Option<Traversal>, MockError> {
        Ok(Some(Traversal::Child(0)))
    }

    let mut path = SearchStack::new(g.get_node_mut(&"root").unwrap());
    match path.push(traverse_first_child) {
        Ok(Some(_)) => (),
        _ => panic!(),
    }
    match path.item(0) {
        Some(StackItem::Item(e)) => assert_eq!("root", *e.get_source().get_data()),
        _ => panic!(),
    }
    match path.item(1) {
        Some(StackItem::Head(n)) => assert_eq!("A", *n.get_data()),
        _ => panic!(),
    }
    assert!(path.item(2).is_none());
}
