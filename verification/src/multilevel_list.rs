//! A tree of files and folders, compared by structure.

use vstd::prelude::*;
use vstd::std_specs::cmp::PartialEqSpec;
use crate::model::{
    distance, eq_is_reflexive, eq_is_symmetric, eq_is_transitive, lemma_distance_one_extra,
    lemma_distance_pointwise_equal, pointwise_equal,
};

verus! {

broadcast use vstd::string::to_string_from_display_ensures_for_str;

/// A node of the tree: a file with its content, or a folder with its name and
/// the nodes directly inside it, in order.
#[derive(Debug)]
pub enum MultilevelListItem {
    File(String),
    Folder(String, Vec<MultilevelListItem>),
}

/// What a node is, mathematically: the same tree, with its texts as sequences
/// of characters and its children as a sequence.
pub enum ItemView {
    File(Seq<char>),
    Folder(Seq<char>, Seq<ItemView>),
}

impl ItemView {
    /// The same folder with `child` as its new last child. A file has no
    /// children and stays as it is.
    pub open spec fn with_child(self, child: ItemView) -> ItemView {
        match self {
            ItemView::File(_) => self,
            ItemView::Folder(name, children) => ItemView::Folder(name, children.push(child)),
        }
    }
}

/// The mathematical tree that `item` stands for.
pub open spec fn view_of(item: MultilevelListItem) -> ItemView
    decreases item,
{
    match item {
        MultilevelListItem::File(content) => ItemView::File(content@),
        MultilevelListItem::Folder(name, children) => ItemView::Folder(
            name@,
            Seq::new(
                children.len() as nat,
                |i: int|
                    if 0 <= i < children.len() {
                        view_of(children[i])
                    } else {
                        arbitrary()
                    },
            ),
        ),
    }
}

impl View for MultilevelListItem {
    type V = ItemView;

    open spec fn view(&self) -> ItemView {
        view_of(*self)
    }
}

/// The answer to an attempt to put a child into a node that is a file.
#[derive(Debug, Clone, Copy, PartialEq, Eq)]
pub struct NotAFolder;

impl MultilevelListItem {
    /// Appends `item` to the children of a folder. A file takes no children:
    /// it stays as it is, and the call returns an error.
    fn add_item(&mut self, item: MultilevelListItem) -> (r: Result<(), NotAFolder>)
        ensures
            r is Ok <==> *old(self) is Folder,
            final(self)@ == old(self)@.with_child(item@),
            *old(self) is File ==> *final(self) == *old(self),
    {
        match self {
            MultilevelListItem::Folder(_, me) => {
                me.push(item);
                proof {
                    let name = (*old(self))->Folder_0;
                    lemma_view_of_folder(name, (*old(self))->Folder_1);
                    lemma_view_of_folder(name, *me);
                    assert(view_of(MultilevelListItem::Folder(name, *me))->Folder_1
                        =~= old(self)@->Folder_1.push(item@));
                }
                Ok(())
            },
            MultilevelListItem::File(_) => Err(NotAFolder),
        }
    }

    /// An empty folder named `root`.
    pub fn new() -> (r: MultilevelListItem)
        ensures
            r@ == ItemView::Folder("root"@, Seq::empty()),
    {
        let root = MultilevelListItem::Folder("root".to_string(), Vec::new());
        proof {
            assert(root@->Folder_1 =~= Seq::empty());
        }
        root
    }

    /// Appends an empty folder named `name` to the children of a folder.
    pub fn add_folder(&mut self, name: &str) -> (r: Result<(), NotAFolder>)
        ensures
            r is Ok <==> *old(self) is Folder,
            final(self)@ == old(self)@.with_child(ItemView::Folder(name@, Seq::empty())),
            *old(self) is File ==> *final(self) == *old(self),
    {
        let folder = MultilevelListItem::Folder(name.to_string(), Vec::new());
        proof {
            assert(folder@->Folder_1 =~= Seq::empty());
        }
        self.add_item(folder)
    }

    /// Appends a file with the given content to the children of a folder.
    pub fn add_file(&mut self, content: &str) -> (r: Result<(), NotAFolder>)
        ensures
            r is Ok <==> *old(self) is Folder,
            final(self)@ == old(self)@.with_child(ItemView::File(content@)),
            *old(self) is File ==> *final(self) == *old(self),
    {
        self.add_item(MultilevelListItem::File(content.to_string()))
    }

    /// The children of a folder, open to change; nothing for a file.
    pub fn items(&mut self) -> (r: Option<&mut Vec<MultilevelListItem>>)
        ensures
            *old(self) is File ==> r is None && *final(self) == *old(self),
            *old(self) is Folder ==> (r matches Some(me) && *me == (*old(self))->Folder_1
                && *final(self) == MultilevelListItem::Folder((*old(self))->Folder_0, *final(me))),
    {
        if let MultilevelListItem::Folder(_, me) = self {
            Some(me)
        } else {
            None
        }
    }

    /// Whether the node is a file.
    pub fn is_file(&self) -> (r: bool)
        ensures
            r == (self is File),
    {
        matches!(*self, MultilevelListItem::File(_))
    }

    /// Whether the node is a folder.
    pub fn is_folder(&self) -> (r: bool)
        ensures
            r == (self is Folder),
    {
        !self.is_file()
    }
}

/// The view of a folder holds the folder's name and, in the same order, the
/// views of its children.
pub proof fn lemma_view_of_folder(name: String, children: Vec<MultilevelListItem>)
    ensures
        MultilevelListItem::Folder(name, children)@ is Folder,
        MultilevelListItem::Folder(name, children)@->Folder_0 == name@,
        MultilevelListItem::Folder(name, children)@->Folder_1.len() == children.len(),
        forall|i: int|
            0 <= i < children.len() ==> #[trigger] MultilevelListItem::Folder(
                name,
                children,
            )@->Folder_1[i] == children[i]@,
{
}

impl PartialEq for MultilevelListItem {
    /// Two nodes are equal when they are the same tree: two files with the
    /// same content, or two folders with the same name and, one by one, equal
    /// children. A file never equals a folder.
    fn eq(&self, other: &Self) -> (r: bool)
        decreases self,
    {
        match (self, other) {
            (MultilevelListItem::File(a), MultilevelListItem::File(b)) => *a == *b,
            (MultilevelListItem::Folder(n_a, a), MultilevelListItem::Folder(n_b, b)) => {
                proof {
                    lemma_view_of_folder(*n_a, *a);
                    lemma_view_of_folder(*n_b, *b);
                }
                if !(*n_a == *n_b) {
                    return false
                } else if a.len() != b.len() {
                    false
                } else {
                    // same number of children: compare them one by one
                    for i in 0..a.len()
                        invariant
                            *self == MultilevelListItem::Folder(*n_a, *a),
                            *other == MultilevelListItem::Folder(*n_b, *b),
                            a.len() == b.len(),
                            forall|k: int| 0 <= k < i ==> a[k]@ == b[k]@,
                    {
                        assert(decreases_to!(*a => a[i as int]));
                        if !a[i].eq(&b[i]) {
                            proof {
                                lemma_view_of_folder(*n_a, *a);
                                lemma_view_of_folder(*n_b, *b);
                                assert(self@->Folder_1[i as int] != other@->Folder_1[i as int]);
                            }
                            return false;
                        }
                    }
                    proof {
                        assert(self@->Folder_1 =~= other@->Folder_1);
                    }
                    true
                }
            },
            _ => false,
        }
    }
}

impl vstd::std_specs::cmp::PartialEqSpecImpl for MultilevelListItem {
    open spec fn obeys_eq_spec() -> bool {
        true
    }

    open spec fn eq_spec(&self, other: &Self) -> bool {
        self@ == other@
    }
}

impl Eq for MultilevelListItem {

}

/// Equality of nodes is an equivalence: every node equals itself, equality
/// does not depend on the order of the two nodes, and two nodes that equal a
/// third equal each other.
pub proof fn lemma_equality_is_equivalence()
    ensures
        eq_is_reflexive::<MultilevelListItem>(),
        eq_is_symmetric::<MultilevelListItem>(),
        eq_is_transitive::<MultilevelListItem>(),
{
}

/// A file and a folder are never equal, whatever they hold.
pub proof fn lemma_file_differs_from_folder(file: MultilevelListItem, folder: MultilevelListItem)
    requires
        file is File,
        folder is Folder,
    ensures
        !file.eq_spec(&folder),
        !folder.eq_spec(&file),
{
}

/// Two files are equal exactly when they have the same content.
pub proof fn lemma_equal_files(a: MultilevelListItem, b: MultilevelListItem)
    requires
        a is File,
        b is File,
    ensures
        a.eq_spec(&b) <==> a->File_0@ == b->File_0@,
{
}

/// Two folders are equal exactly when they have the same name and as many
/// children, each child of the one equal to the child of the other in the
/// same place.
pub proof fn lemma_equal_folders(a: MultilevelListItem, b: MultilevelListItem)
    requires
        a is Folder,
        b is Folder,
    ensures
        a.eq_spec(&b) <==> a->Folder_0@ == b->Folder_0@ && pointwise_equal(
            a->Folder_1@,
            b->Folder_1@,
        ),
{
    lemma_view_of_folder(a->Folder_0, a->Folder_1);
    lemma_view_of_folder(b->Folder_0, b->Folder_1);
    if a->Folder_0@ == b->Folder_0@ && pointwise_equal(a->Folder_1@, b->Folder_1@) {
        assert forall|i: int| 0 <= i < a->Folder_1.len() implies a@->Folder_1[i]
            == b@->Folder_1[i] by {
            assert(a->Folder_1@[i].eq_spec(&b->Folder_1@[i]));
        }
        assert(a@->Folder_1 =~= b@->Folder_1);
    }
    if a.eq_spec(&b) {
        assert forall|i: int| 0 <= i < a->Folder_1@.len() implies (#[trigger] a->Folder_1@[i]).eq_spec(
            &b->Folder_1@[i],
        ) by {
            assert(a@->Folder_1[i] == b@->Folder_1[i]);
        }
    }
}

/// Folders that are equal and take the same child are equal afterwards.
pub proof fn lemma_same_child_keeps_equality(a: ItemView, b: ItemView, child: ItemView)
    requires
        a == b,
    ensures
        a.with_child(child) == b.with_child(child),
{
}

/// Of two equal folders, the one that takes a child no longer equals the
/// other.
pub proof fn lemma_extra_child_breaks_equality(a: ItemView, b: ItemView, child: ItemView)
    requires
        a is Folder,
        a == b,
    ensures
        a.with_child(child) != b,
        a != b.with_child(child),
{
    assert(a.with_child(child)->Folder_1.len() == b->Folder_1.len() + 1);
}

/// The children of two equal folders are at edit distance zero, and at
/// distance one once either folder has one more child at its end.
pub proof fn lemma_distance_between_children(
    a: MultilevelListItem,
    b: MultilevelListItem,
    extra: MultilevelListItem,
)
    requires
        a is Folder,
        b is Folder,
        a.eq_spec(&b),
    ensures
        distance(a->Folder_1@, b->Folder_1@) == 0,
        distance(a->Folder_1@.push(extra), b->Folder_1@) == 1,
        distance(a->Folder_1@, b->Folder_1@.push(extra)) == 1,
{
    lemma_equal_folders(a, b);
    lemma_distance_pointwise_equal(a->Folder_1@, b->Folder_1@);
    lemma_distance_one_extra(a->Folder_1@, b->Folder_1@, extra);
}

} // verus!
