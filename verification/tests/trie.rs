use deinflect::{CharSource, Node, SliceChars, Tree};

fn chars(s: &str) -> Vec<char> {
    s.chars().collect()
}

fn query(tree: &Tree<i32>, s: &str) -> Vec<i32> {
    let text = chars(s);
    tree.get_submatches(&mut SliceChars::forward(&text))
        .into_iter()
        .copied()
        .collect()
}

#[test]
fn tree() {
    let mut tree = Tree::new();
    tree.insert(&mut SliceChars::forward(&chars("hello")), 20);
    tree.insert(&mut SliceChars::forward(&chars("hel")), 10);

    tree.get_submatches(&mut SliceChars::forward(&chars("hello")))
        .iter()
        .any(|&&i| i == 20);
    tree.get_submatches(&mut SliceChars::forward(&chars("hel")))
        .iter()
        .any(|&&i| i == 10);
}

#[test]
fn tree_yields_shorter_keys_first() {
    let mut tree = Tree::new();
    tree.insert(&mut SliceChars::forward(&chars("hello")), 20);
    tree.insert(&mut SliceChars::forward(&chars("hel")), 10);
    tree.insert(&mut SliceChars::forward(&chars("")), 1);
    tree.insert(&mut SliceChars::forward(&chars("hel")), 11);
    tree.insert(&mut SliceChars::forward(&chars("help")), 30);

    assert_eq!(query(&tree, "hello"), vec![1, 10, 11, 20]);
    assert_eq!(query(&tree, "hel"), vec![1, 10, 11]);
    assert_eq!(query(&tree, "help me"), vec![1, 10, 11, 30]);
    assert_eq!(query(&tree, "he"), vec![1]);
    assert_eq!(query(&tree, "x"), vec![1]);
    assert_eq!(query(&tree, ""), vec![1]);
}

#[test]
fn empty_tree_yields_nothing() {
    let tree: Tree<i32> = Tree::new();
    assert_eq!(query(&tree, "hello"), Vec::<i32>::new());
    assert_eq!(query(&tree, ""), Vec::<i32>::new());
}

#[test]
fn walk_reads_no_further_than_it_must() {
    let mut tree = Tree::new();
    tree.insert(&mut SliceChars::forward(&chars("ab")), 1);

    let text = chars("abcd");
    let mut source = SliceChars::forward(&text);
    tree.get_submatches(&mut source);
    assert_eq!(source.next(), Some('d'));

    let text = chars("axyz");
    let mut source = SliceChars::forward(&text);
    tree.get_submatches(&mut source);
    assert_eq!(source.next(), Some('y'));

    let text = chars("ab");
    let mut source = SliceChars::forward(&text);
    tree.get_submatches(&mut source);
    assert_eq!(source.next(), None);
}

#[test]
fn children_are_found_by_their_character() {
    let mut node = Node::new('r');
    for (key, value) in [("m", 1), ("c", 2), ("x", 3), ("a", 4), ("mz", 5)] {
        node.insert(&mut SliceChars::forward(&chars(key)), value);
    }
    assert_eq!(node.get_child_index('a'), Ok(0));
    assert_eq!(node.get_child_index('c'), Ok(1));
    assert_eq!(node.get_child_index('m'), Ok(2));
    assert_eq!(node.get_child_index('x'), Ok(3));
    assert_eq!(node.get_child_index('b'), Err(1));
    assert_eq!(node.get_child_index('z'), Err(4));
    assert_eq!(node.get_child_index('\0'), Err(0));
    let text = chars("mz");
    let found: Vec<i32> = node
        .get_submatches(&mut SliceChars::forward(&text))
        .into_iter()
        .copied()
        .collect();
    assert_eq!(found, vec![1, 5]);
}

#[test]
fn slice_chars_reads_both_ways() {
    let text = chars("abc");
    let mut forward = SliceChars::forward(&text);
    assert_eq!(forward.next(), Some('a'));
    assert_eq!(forward.next(), Some('b'));
    assert_eq!(forward.next(), Some('c'));
    assert_eq!(forward.next(), None);
    assert_eq!(forward.next(), None);
    let mut backward = SliceChars::backward(&text);
    assert_eq!(backward.next(), Some('c'));
    assert_eq!(backward.next(), Some('b'));
    assert_eq!(backward.next(), Some('a'));
    assert_eq!(backward.next(), None);
}

#[test]
fn fresh_tree_has_no_child() {
    let tree: Tree<i32> = Tree::new();
    let text = chars("ab");
    let mut source = SliceChars::forward(&text);
    assert!(tree.get_submatches(&mut source).is_empty());
    assert_eq!(source.next(), Some('b'));

    let node: Node<i32> = Node::new('x');
    for c in ['\0', 'a', 'x', '\u{10FFFF}'] {
        assert_eq!(node.get_child_index(c), Err(0));
    }
}

#[test]
fn insert_adds_at_most_one_child() {
    let mut root: Node<i32> = Node::new('\0');
    root.insert(&mut SliceChars::forward(&chars("b")), 1);
    assert_eq!(root.get_child_index('b'), Ok(0));
    assert_eq!(root.get_child_index('a'), Err(0));
    root.insert(&mut SliceChars::forward(&chars("a")), 2);
    root.insert(&mut SliceChars::forward(&chars("a")), 3);
    assert_eq!(root.get_child_index('a'), Ok(0));
    assert_eq!(root.get_child_index('b'), Ok(1));
    assert_eq!(root.get_child_index('c'), Err(2));
    root.insert(&mut SliceChars::forward(&chars("")), 4);
    root.insert(&mut SliceChars::forward(&chars("bz")), 5);
    assert_eq!(root.get_child_index('a'), Ok(0));
    assert_eq!(root.get_child_index('b'), Ok(1));
    assert_eq!(root.get_child_index('z'), Err(2));

    let found = |s: &str| -> Vec<i32> {
        let text = chars(s);
        root.get_submatches(&mut SliceChars::forward(&text))
            .into_iter()
            .copied()
            .collect()
    };
    assert_eq!(found("a"), vec![4, 2, 3]);
    assert_eq!(found("b"), vec![4, 1]);
    assert_eq!(found("bz"), vec![4, 1, 5]);
}
