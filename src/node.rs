use vstd::prelude::*;
use crate::text::same_text;

verus! {

/// A generic document tree: tables of named values, arrays and scalars.
#[derive(Debug)]
pub enum Node {
    Str(String),
    Integer(i64),
    /// A floating-point scalar; its value is never read, only its kind.
    Float,
    Boolean(bool),
    Datetime(String),
    Array(Vec<Node>),
    /// The entries of a table, in document order.
    Table(Vec<(String, Node)>),
}

/// The value of the first entry named `key`.
pub open spec fn find_entry(entries: Seq<(String, Node)>, key: Seq<char>) -> Option<Node>
    decreases entries.len(),
{
    if entries.len() == 0 {
        None
    } else if entries[0].0@ == key {
        Some(entries[0].1)
    } else {
        find_entry(entries.drop_first(), key)
    }
}

/// An entry that no earlier entry of the same name shadows is the one
/// that lookup finds.
pub proof fn lemma_find_entry_at(entries: Seq<(String, Node)>, key: Seq<char>, j: int)
    requires
        0 <= j < entries.len(),
        entries[j].0@ == key,
        forall|i: int| 0 <= i < j ==> entries[i].0@ != key,
    ensures
        find_entry(entries, key) == Some(entries[j].1),
    decreases j,
{
    if j > 0 {
        lemma_find_entry_at(entries.drop_first(), key, j - 1);
    }
}

/// Lookup finds nothing when no entry has the name.
pub proof fn lemma_find_entry_none(entries: Seq<(String, Node)>, key: Seq<char>)
    requires
        forall|i: int| 0 <= i < entries.len() ==> entries[i].0@ != key,
    ensures
        find_entry(entries, key) is None,
    decreases entries.len(),
{
    if entries.len() > 0 {
        lemma_find_entry_none(entries.drop_first(), key);
    }
}

impl Node {
    /// The name of the node's kind.
    pub open spec fn kind_name(self) -> &'static str {
        match self {
            Node::Str(_) => "string",
            Node::Integer(_) => "integer",
            Node::Float => "float",
            Node::Boolean(_) => "boolean",
            Node::Datetime(_) => "datetime",
            Node::Array(_) => "array",
            Node::Table(_) => "table",
        }
    }

    pub fn type_str(&self) -> (r: &'static str)
        ensures
            r == self.kind_name(),
    {
        match self {
            Node::Str(_) => "string",
            Node::Integer(_) => "integer",
            Node::Float => "float",
            Node::Boolean(_) => "boolean",
            Node::Datetime(_) => "datetime",
            Node::Array(_) => "array",
            Node::Table(_) => "table",
        }
    }

    /// The value named `key` when the node is a table.
    pub open spec fn spec_get(self, key: Seq<char>) -> Option<Node> {
        match self {
            Node::Table(entries) => find_entry(entries@, key),
            _ => None,
        }
    }

    /// The element at `ix` when the node is an array.
    pub open spec fn spec_at(self, ix: int) -> Option<Node> {
        match self {
            Node::Array(items) => if 0 <= ix < items@.len() {
                Some(items@[ix])
            } else {
                None
            },
            _ => None,
        }
    }

    /// Looks up the value named `key`; `None` when the node is no table or
    /// holds no such entry.
    pub fn get(&self, key: &str) -> (r: Option<&Node>)
        ensures
            r is Some <==> self.spec_get(key@) is Some,
            r is Some ==> *r->0 == self.spec_get(key@)->0,
    {
        match self {
            Node::Table(entries) => {
                let mut i: usize = 0;
                while i < entries.len()
                    invariant
                        i <= entries@.len(),
                        self.spec_get(key@) == find_entry(entries@, key@),
                        forall|j: int| 0 <= j < i ==> entries@[j].0@ != key@,
                    decreases entries.len() - i,
                {
                    if same_text(entries[i].0.as_str(), key) {
                        proof {
                            lemma_find_entry_at(entries@, key@, i as int);
                        }
                        return Some(&entries[i].1);
                    }
                    i = i + 1;
                }
                proof {
                    lemma_find_entry_none(entries@, key@);
                }
                None
            },
            _ => None,
        }
    }

    /// The element at `ix`; `None` when the node is no array or too short.
    pub fn get_index(&self, ix: usize) -> (r: Option<&Node>)
        ensures
            r is Some <==> self.spec_at(ix as int) is Some,
            r is Some ==> *r->0 == self.spec_at(ix as int)->0,
    {
        match self {
            Node::Array(items) => if ix < items.len() {
                Some(&items[ix])
            } else {
                None
            },
            _ => None,
        }
    }
}

} // verus!
