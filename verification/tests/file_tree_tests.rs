use coman::cscs::{PathEntry, PathType};
use coman::file_tree::{FileTree, TreeNode};

fn node(id: &str, parent: Option<&str>, name: &str, t: PathType) -> TreeNode {
    TreeNode { id: id.to_string(), parent: parent.map(|p| p.to_string()), name: name.to_string(), path_type: t }
}

fn entry(name: &str, t: PathType) -> PathEntry {
    PathEntry { name: name.to_string(), path_type: t, permissions: None, size: None }
}

fn ids(t: &FileTree) -> Vec<String> {
    t.nodes.iter().map(|n| n.id.clone()).collect()
}

fn sample() -> FileTree {
    FileTree {
        nodes: vec![
            node("/", None, "/", PathType::Directory),
            node("/scratch", Some("/"), "/scratch", PathType::Directory),
            node("/scratch/a", Some("/scratch"), "a", PathType::Directory),
            node("/scratch/a/x", Some("/scratch/a"), "x", PathType::File),
            node("/scratch/b", Some("/scratch"), "b", PathType::File),
            node("/users", Some("/"), "/users", PathType::Directory),
        ],
    }
}

#[test]
fn test_file_tree_replace_children() {
    let mut t = sample();
    t.replace_children("/scratch", &vec![entry("c", PathType::File), entry("/abs", PathType::Directory)]);
    assert_eq!(ids(&t), vec!["/", "/scratch", "/users", "/scratch/c", "/abs"]);
    assert_eq!(t.nodes[3].parent, Some("/scratch".to_string()));
    assert_eq!(t.nodes[4].name, "/abs");
}

#[test]
fn test_file_tree_remove_node() {
    let mut t = sample();
    assert_eq!(t.remove_node("/scratch/a"), "/scratch");
    assert_eq!(ids(&t), vec!["/", "/scratch", "/scratch/b", "/users"]);
    assert_eq!(t.remove_node("/"), "/");
    assert_eq!(ids(&t).len(), 4);
    assert_eq!(t.remove_node("/missing"), "/missing");
    assert_eq!(ids(&t).len(), 4);
}
