//! The object that tells a user interface how to show a document.
pub mod serialization;

use vstd::prelude::*;

use crate::dsl::schema::KeysSchema;
use crate::json::opt_view;

verus! {

/// How a user interface shows a document: how it shows the root, where there is one.
#[derive(Debug)]
pub struct UiObjectRoot(pub Option<UiObjectProperty>);

/// How a user interface shows each child, by name: one pair per name, in the order
/// in which the names first occur. Where the pairs are filled otherwise and hold a
/// name twice, the later pair is the one that counts.
#[derive(Debug)]
pub struct UiObject(pub Vec<(String, UiObjectProperty)>);

/// How a user interface shows one node.
#[derive(Debug)]
pub struct UiObjectProperty {
    pub help: Option<String>,
    pub warning: Option<String>,
    pub description: Option<String>,
    pub widget: Option<String>,
    pub properties: Option<UiObject>,
    pub keys: Option<KeysSchema>,
}

/// What a user interface is told of one node: its annotations, how to show its
/// children where it has any, and the title of its keys where they are chosen by
/// the user.
pub struct UiNode {
    pub help: Option<Seq<char>>,
    pub warning: Option<Seq<char>>,
    pub description: Option<Seq<char>>,
    pub widget: Option<Seq<char>>,
    pub properties: Option<Map<Seq<char>, UiNode>>,
    pub keys: Option<Option<Seq<char>>>,
}

impl UiNode {
    /// A node that tells a user interface nothing.
    pub open spec fn is_empty(self) -> bool {
        &&& self.help is None
        &&& self.warning is None
        &&& self.description is None
        &&& self.widget is None
        &&& self.properties is None
        &&& self.keys is None
    }
}

impl UiObjectProperty {
    /// What this node tells a user interface.
    pub open spec fn node(&self) -> UiNode
        decreases self,
    {
        UiNode {
            help: opt_view(self.help),
            warning: opt_view(self.warning),
            description: opt_view(self.description),
            widget: opt_view(self.widget),
            properties: match self.properties {
                Some(object) => Some(ui_nodes(object.0@)),
                None => None,
            },
            keys: match self.keys {
                Some(keys) => Some(opt_view(keys.title)),
                None => None,
            },
        }
    }

    /// Whether this node tells a user interface nothing.
    pub fn is_empty(&self) -> (res: bool)
        ensures
            res == self@.is_empty(),
    {
        self.help.is_none() && self.warning.is_none() && self.description.is_none()
            && self.widget.is_none() && self.properties.is_none() && self.keys.is_none()
    }
}

/// The children of a user interface object, by name: the one given last wins.
pub open spec fn ui_nodes(entries: Seq<(String, UiObjectProperty)>) -> Map<Seq<char>, UiNode>
    decreases entries,
{
    if entries.len() == 0 {
        Map::empty()
    } else {
        ui_nodes(entries.drop_last()).insert(entries.last().0@, entries.last().1.node())
    }
}

/// Setting the pair at the last position of a name sets that name.
pub proof fn lemma_ui_nodes_update(
    entries: Seq<(String, UiObjectProperty)>,
    i: int,
    e: (String, UiObjectProperty),
)
    requires
        0 <= i < entries.len(),
        entries[i].0@ == e.0@,
        forall|j: int| i < j < entries.len() ==> entries[j].0@ != e.0@,
    ensures
        ui_nodes(entries.update(i, e)) == ui_nodes(entries).insert(e.0@, e.1.node()),
    decreases entries.len(),
{
    let updated = entries.update(i, e);
    if i == entries.len() - 1 {
        assert(updated.drop_last() =~= entries.drop_last());
    } else {
        assert(updated.drop_last() =~= entries.drop_last().update(i, e));
        lemma_ui_nodes_update(entries.drop_last(), i, e);
    }
    assert(ui_nodes(updated) =~= ui_nodes(entries).insert(e.0@, e.1.node()));
}

impl View for UiObjectProperty {
    type V = UiNode;

    open spec fn view(&self) -> UiNode {
        self.node()
    }
}

impl View for UiObject {
    type V = Map<Seq<char>, UiNode>;

    open spec fn view(&self) -> Map<Seq<char>, UiNode> {
        ui_nodes(self.0@)
    }
}

} // verus!
