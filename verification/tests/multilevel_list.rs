use edit_distance::levenshtein::{
    levenshtein_memoization, levenshtein_naive, levenshtein_tabulation,
};
use edit_distance::multilevel_list::MultilevelListItem;
use edit_distance::multilevel_list::MultilevelListItem::{File, Folder};
use edit_distance::multilevel_list::NotAFolder;

fn verify_file_content(file: &MultilevelListItem, content: &str) {
    assert!(file.is_file());
    if let File(t_file) = file {
        assert_eq!(t_file, content);
    }
}

fn verify_folder(folder: &MultilevelListItem, name: &str) {
    assert!(folder.is_folder());
    if let Folder(f_name, _) = folder {
        assert_eq!(f_name, name);
    }
}

#[test]
fn create_new_list() {
    let new_list = MultilevelListItem::new();

    assert!(new_list.is_folder());
    if let Folder(name, t_list) = new_list {
        assert_eq!(t_list.len(), 0);
        assert_eq!(name, "root");
    }
}

#[test]
fn add_to_list() {
    let content1 = "Hello, world";
    let content2 = "Buy milk!";
    let mut list = MultilevelListItem::new();
    list.add_file(content1).unwrap();
    list.add_file(content2).unwrap();

    println!("{:?}", list);

    let items = list.items().unwrap();
    assert_eq!(items.len(), 2);

    verify_file_content(&items[0], content1);
    verify_file_content(&items[1], content2);
}

#[test]
fn add_folder() {
    let content1 = "Hello, world";
    let mut list = MultilevelListItem::new();
    list.add_file(content1).unwrap();

    // Create a new folder "bookmarks"
    list.add_folder("bookmarks").unwrap();

    // Add item to folder
    let folder = &mut list.items().unwrap()[1];

    let content2 = "Buy milk!";
    folder.add_file(content2).unwrap();

    println!("{:?}", list);

    let items = list.items().unwrap();
    assert_eq!(items.len(), 2);
    verify_file_content(&items[0], content1);

    verify_folder(&items[1], "bookmarks");
    verify_file_content(&items[1].items().unwrap()[0], content2);
}

#[test]
fn test_equivalence() {
    let content1 = "Hello";
    let content2 = "World";

    let mut list1 = MultilevelListItem::new();
    let mut list2 = MultilevelListItem::new();

    // the same item in both lists: they are equal
    list1.add_file(content1).unwrap();
    list2.add_file(content1).unwrap();

    assert_eq!(list1, list2);

    // another item in list1 only: no longer equal
    list1.add_file(content2).unwrap();

    assert_ne!(list1, list2);

    // equal again
    list2.add_file(content2).unwrap();

    assert_eq!(list1, list2);

    // a folder with content
    let folder_name = "bookmarks";
    list1.add_folder(folder_name).unwrap();

    let folder = &mut list1.items().unwrap()[2];

    let content = "Buy milk!";
    folder.add_file(content).unwrap();

    assert_ne!(list1, list2);

    // the same for list2
    list2.add_folder(folder_name).unwrap();

    let folder = &mut list2.items().unwrap()[2];

    let content = "Buy milk!";
    folder.add_file(content).unwrap();

    println!("{:?}", list1);

    assert_eq!(list1, list2);
    assert_eq!(list1 == list2, true);
}

#[test]
fn two_new_roots_are_equal() {
    assert_eq!(MultilevelListItem::new(), MultilevelListItem::new());
}

#[test]
fn a_file_and_a_folder_of_the_same_name_differ() {
    let file = File("notes".to_string());
    let folder = Folder("notes".to_string(), Vec::new());
    assert_ne!(file, folder);
    assert_ne!(folder, file);
}

#[test]
fn files_are_equal_by_content() {
    assert_eq!(File("a".to_string()), File("a".to_string()));
    assert_ne!(File("a".to_string()), File("b".to_string()));
}

#[test]
fn folders_differ_by_name() {
    assert_ne!(Folder("a".to_string(), Vec::new()), Folder("b".to_string(), Vec::new()));
}

#[test]
fn folders_differ_by_the_order_of_their_children() {
    let mut one = MultilevelListItem::new();
    one.add_file("x").unwrap();
    one.add_file("y").unwrap();
    let mut other = MultilevelListItem::new();
    other.add_file("y").unwrap();
    other.add_file("x").unwrap();
    assert_ne!(one, other);
}

#[test]
fn folders_differ_by_a_nested_child() {
    let mut one = MultilevelListItem::new();
    one.add_folder("inner").unwrap();
    one.items().unwrap()[0].add_file("x").unwrap();
    let mut other = MultilevelListItem::new();
    other.add_folder("inner").unwrap();
    other.items().unwrap()[0].add_file("y").unwrap();
    assert_ne!(one, other);
}

#[test]
fn a_file_takes_no_children() {
    let mut file = File("notes".to_string());
    assert_eq!(file.add_file("more"), Err(NotAFolder));
    assert_eq!(file.add_folder("more"), Err(NotAFolder));
    assert_eq!(file, File("notes".to_string()));
    assert!(file.items().is_none());
}

#[test]
fn a_folder_takes_children_in_order() {
    let mut list = MultilevelListItem::new();
    assert_eq!(list.add_folder("first"), Ok(()));
    assert_eq!(list.add_file("second"), Ok(()));
    assert_eq!(
        list,
        Folder(
            "root".to_string(),
            vec![Folder("first".to_string(), Vec::new()), File("second".to_string())]
        )
    );
}

#[test]
fn a_node_is_a_file_or_a_folder() {
    let file = File("notes".to_string());
    assert!(file.is_file());
    assert!(!file.is_folder());
    let folder = MultilevelListItem::new();
    assert!(folder.is_folder());
    assert!(!folder.is_file());
}

#[test]
fn children_can_be_changed_in_place() {
    let mut list = MultilevelListItem::new();
    list.add_file("a").unwrap();
    list.items().unwrap().push(File("b".to_string()));
    list.items().unwrap()[0] = File("c".to_string());
    assert_eq!(
        list,
        Folder("root".to_string(), vec![File("c".to_string()), File("b".to_string())])
    );
}

#[test]
fn children_of_equal_folders_are_at_distance_zero() {
    let mut list1 = MultilevelListItem::new();
    let mut list2 = MultilevelListItem::new();
    list1.add_file("Hello").unwrap();
    list2.add_file("Hello").unwrap();
    list1.add_folder("bookmarks").unwrap();
    list2.add_folder("bookmarks").unwrap();

    let items1 = list1.items().unwrap();
    let items2 = list2.items().unwrap();
    assert_eq!(levenshtein_naive(items1, items2), 0);
    assert_eq!(levenshtein_tabulation(items1, items2), 0);
    assert_eq!(levenshtein_memoization(items1, items2), 0);
}

#[test]
fn one_more_child_on_one_side_is_at_distance_one() {
    let mut list1 = MultilevelListItem::new();
    let mut list2 = MultilevelListItem::new();
    list1.add_file("Hello").unwrap();
    list2.add_file("Hello").unwrap();

    let dist = levenshtein_tabulation(&list1.items().unwrap(), &list2.items().unwrap());
    assert_eq!(dist, 0);

    list1.add_file("Hey").unwrap();

    let dist = levenshtein_tabulation(&list1.items().unwrap(), &list2.items().unwrap());
    assert_eq!(dist, 1);
    let items1 = list1.items().unwrap();
    let items2 = list2.items().unwrap();
    assert_eq!(levenshtein_naive(items1, items2), 1);
    assert_eq!(levenshtein_memoization(items1, items2), 1);
    assert_eq!(levenshtein_naive(items2, items1), 1);
}

#[test]
fn a_changed_child_is_one_substitution() {
    let mut list1 = MultilevelListItem::new();
    let mut list2 = MultilevelListItem::new();
    list1.add_file("a").unwrap();
    list1.add_folder("b").unwrap();
    list1.add_file("c").unwrap();
    list2.add_file("a").unwrap();
    list2.add_file("b").unwrap();
    list2.add_file("c").unwrap();
    let items1 = list1.items().unwrap();
    let items2 = list2.items().unwrap();
    assert_eq!(levenshtein_naive(items1, items2), 1);
    assert_eq!(levenshtein_tabulation(items1, items2), 1);
    assert_eq!(levenshtein_memoization(items1, items2), 1);
}
