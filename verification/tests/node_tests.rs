use rust_lessons::node::{linked_pair, Node};
use std::rc::Rc;

#[test]
fn new_node_has_no_downstream() {
    let n = Node::new(7);
    assert!(n.get_downstream().is_none());
    assert_eq!(format!("{:?}", n), "Node { id: 7, downstream: None }");
}

#[test]
fn update_then_get_gives_the_same_node() {
    let mut a = Node::new(1);
    let b = Rc::new(Node::new(2));
    a.update_downstream(b.clone());
    let got = a.get_downstream().unwrap();
    assert!(Rc::ptr_eq(&got, &b));
    assert_eq!(Rc::strong_count(&b), 3);
}

#[test]
fn update_replaces_the_link() {
    let mut a = Node::new(1);
    a.update_downstream(Rc::new(Node::new(2)));
    a.update_downstream(Rc::new(Node::new(3)));
    assert_eq!(
        format!("{:?}", a),
        "Node { id: 1, downstream: Some(Node { id: 3, downstream: None }) }"
    );
}

#[test]
fn linked_pair_shares_node_three() {
    let (node1, node2) = linked_pair();
    assert_eq!(
        format!("{:?}", node1),
        "Node { id: 1, downstream: Some(Node { id: 3, downstream: Some(Node { id: 4, downstream: None }) }) }"
    );
    assert_eq!(
        format!("{:?}", node2),
        "Node { id: 2, downstream: Some(Node { id: 3, downstream: Some(Node { id: 4, downstream: None }) }) }"
    );
    let d1 = node1.get_downstream().unwrap();
    let d2 = node2.get_downstream().unwrap();
    assert!(Rc::ptr_eq(&d1, &d2));
}
