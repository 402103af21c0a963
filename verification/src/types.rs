use vstd::prelude::*;

verus! {

/// A symbol found in a file: its name, the grammar kind of its definition and
/// the one-based lines on which the definition starts and ends (0 where the
/// match carried no definition node).
#[derive(Debug)]
pub struct SymbolInfo {
    pub name: String,
    pub kind: String,
    pub line: usize,
    pub end_line: usize,
}

/// The mathematical value of a [`SymbolInfo`].
pub struct SymbolView {
    pub name: Seq<char>,
    pub kind: Seq<char>,
    pub line: int,
    pub end_line: int,
}

impl View for SymbolInfo {
    type V = SymbolView;

    open spec fn view(&self) -> SymbolView {
        SymbolView { name: self.name@, kind: self.kind@, line: self.line as int, end_line: self.end_line as int }
    }
}

/// One entry of a file's outline: an impl block or a class has its methods
/// as children, a module or a namespace its members.
#[derive(Debug)]
pub struct StructureItem {
    pub name: String,
    pub kind: String,
    pub line: usize,
    pub children: Vec<StructureItem>,
}

/// The mathematical value of an outline entry.
pub struct ItemView {
    pub name: Seq<char>,
    pub kind: Seq<char>,
    pub line: int,
    pub children: Seq<ItemView>,
}

/// `item` holds the entry `v`, which has no children.
pub open spec fn models_leaf(item: StructureItem, v: ItemView) -> bool {
    &&& item.name@ == v.name
    &&& item.kind@ == v.kind
    &&& item.line as int == v.line
    &&& item.children@.len() == 0
    &&& v.children.len() == 0
}

/// `item` holds the entry `v`, and its children hold the children of `v`,
/// at every depth.
pub open spec fn models_item(item: StructureItem, v: ItemView) -> bool
    decreases v,
{
    &&& item.name@ == v.name
    &&& item.kind@ == v.kind
    &&& item.line as int == v.line
    &&& item.children@.len() == v.children.len()
    &&& forall|j: int| 0 <= j < v.children.len() ==> models_item(#[trigger] item.children@[j], v.children[j])
}

/// An entry without children is held as an item without children.
pub proof fn lemma_leaves_are_items(items: Seq<StructureItem>, vs: Seq<ItemView>)
    requires
        models_leaves(items, vs),
    ensures
        models_items(items, vs),
{
    assert forall|i: int| 0 <= i < vs.len() implies models_item(#[trigger] items[i], vs[i]) by {
        assert(models_leaf(items[i], vs[i]));
    }
}

/// `items` holds the entries `vs`, one for one.
pub open spec fn models_items(items: Seq<StructureItem>, vs: Seq<ItemView>) -> bool {
    &&& items.len() == vs.len()
    &&& forall|i: int| 0 <= i < vs.len() ==> models_item(#[trigger] items[i], vs[i])
}

/// `items` holds the childless entries `vs`, one for one.
pub open spec fn models_leaves(items: Seq<StructureItem>, vs: Seq<ItemView>) -> bool {
    &&& items.len() == vs.len()
    &&& forall|i: int| 0 <= i < vs.len() ==> models_leaf(#[trigger] items[i], vs[i])
}

/// The outline of one file.
#[derive(Debug)]
pub struct FileStructure {
    pub file: String,
    pub items: Vec<StructureItem>,
}

/// The request of a tool that takes a file: its path relative to the
/// project root.
#[derive(Debug)]
pub struct FileParam {
    pub file: String,
}

/// The request of a tool that takes a file and a symbol's name.
#[derive(Debug)]
pub struct FileAndNameParam {
    pub file: String,
    pub name: String,
}

} // verus!
