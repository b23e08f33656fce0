use vstd::prelude::*;
use crate::error::ParseError;
use crate::level_key::{LevelKey, key_text, parse_level_key, spec_level_key, lemma_key_text_injective};
use crate::node::{Node, find_entry, lemma_find_entry_at};

verus! {

/// The text that a key error gives as the expected pattern.
pub const KEY_PATTERN: &'static str = "level_#[_v2]";

/// The text of the error for a document that is not a table.
pub const NOT_A_TABLE: &'static str = "top-level value is not a table";

/// A validated level entry: its key and its four gag loadouts, indexed by
/// lure state and organic state.
#[derive(Debug)]
pub struct LevelEntry<'a> {
    pub key: LevelKey,
    pub nonlured_nonorg: &'a Node,
    pub nonlured_org: &'a Node,
    pub lured_nonorg: &'a Node,
    pub lured_org: &'a Node,
}

impl<'a> LevelEntry<'a> {
    /// The four loadouts: (not lured, not organic), (not lured, organic),
    /// (lured, not organic), (lured, organic).
    pub open spec fn loadouts(self) -> (Node, Node, Node, Node) {
        (*self.nonlured_nonorg, *self.nonlured_org, *self.lured_nonorg, *self.lured_org)
    }

    pub open spec fn spec_loadout(self, lured: bool, organic: bool) -> Node {
        if lured {
            if organic { *self.lured_org } else { *self.lured_nonorg }
        } else {
            if organic { *self.nonlured_org } else { *self.nonlured_nonorg }
        }
    }

    /// The loadout for a lure state and an organic state.
    pub fn loadout(&self, lured: bool, organic: bool) -> (r: &'a Node)
        ensures
            *r == self.spec_loadout(lured, organic),
    {
        if lured {
            if organic { self.lured_org } else { self.lured_nonorg }
        } else {
            if organic { self.nonlured_org } else { self.nonlured_nonorg }
        }
    }
}

/// The loadouts of a level entry's value, or the first missing key: the
/// entry's `nonlured` and `lured`, then `nonorg` under each of them, then
/// `org` under each of them.
pub open spec fn entry_loadouts(n: Node) -> Result<(Node, Node, Node, Node), ParseError> {
    match n.spec_get("nonlured"@) {
        None => Err(ParseError::MissingKey { key: "nonlured" }),
        Some(nl) => match n.spec_get("lured"@) {
            None => Err(ParseError::MissingKey { key: "lured" }),
            Some(l) => match nl.spec_get("nonorg"@) {
                None => Err(ParseError::MissingKey { key: "nonorg" }),
                Some(nl_no) => match l.spec_get("nonorg"@) {
                    None => Err(ParseError::MissingKey { key: "nonorg" }),
                    Some(l_no) => match nl.spec_get("org"@) {
                        None => Err(ParseError::MissingKey { key: "org" }),
                        Some(nl_o) => match l.spec_get("org"@) {
                            None => Err(ParseError::MissingKey { key: "org" }),
                            Some(l_o) => Ok((nl_no, nl_o, l_no, l_o)),
                        },
                    },
                },
            },
        },
    }
}

/// The error for the first entry, in document order, whose key names no
/// level entry.
pub open spec fn first_key_error(es: Seq<(String, Node)>) -> Option<ParseError>
    decreases es.len(),
{
    if es.len() == 0 {
        None
    } else if spec_level_key(es[0].0@) is None {
        Some(ParseError::KeyError { key: es[0].0, expected: KEY_PATTERN })
    } else {
        first_key_error(es.drop_first())
    }
}

/// The error for the first entry, in document order, that lacks a
/// required key.
pub open spec fn first_field_error(es: Seq<(String, Node)>) -> Option<ParseError>
    decreases es.len(),
{
    if es.len() == 0 {
        None
    } else if entry_loadouts(es[0].1) is Err {
        Some(entry_loadouts(es[0].1)->Err_0)
    } else {
        first_field_error(es.drop_first())
    }
}

/// Why a document is refused before any gag list is read: it is not a
/// table, a key names no level entry, or an entry lacks a required key.
pub open spec fn document_error(doc: Node) -> Option<ParseError> {
    match doc {
        Node::Table(es) => if first_key_error(es@) is Some {
            first_key_error(es@)
        } else {
            first_field_error(es@)
        },
        _ => Some(ParseError::TomlError { toml_err: NOT_A_TABLE }),
    }
}

/// `out` lists the level entries of the table entries `es`: one for each
/// distinct key, ordered by `(v2, level)`, each with the loadouts of the
/// value that lookup by its key finds.
pub open spec fn is_listing(es: Seq<(String, Node)>, out: Seq<LevelEntry>) -> bool {
    &&& forall|i: int, j: int| 0 <= i < j < out.len() ==> (#[trigger] out[i]).key.before(
        #[trigger] out[j].key,
    )
    &&& forall|i: int|
        0 <= i < out.len() ==> {
            &&& (#[trigger] out[i]).key.wf()
            &&& find_entry(es, key_text(out[i].key)) is Some
            &&& entry_loadouts(find_entry(es, key_text(out[i].key))->0) == Ok::<
                (Node, Node, Node, Node),
                ParseError,
            >(out[i].loadouts())
        }
    &&& forall|j: int|
        0 <= j < es.len() ==> exists|i: int|
            0 <= i < out.len() && Some(out[i].key) == spec_level_key(#[trigger] es[j].0@)
}

/// The order of level keys is strict and total.
pub proof fn lemma_before_total(a: LevelKey, b: LevelKey)
    ensures
        !a.before(a),
        a != b ==> a.before(b) || b.before(a),
        !(a.before(b) && b.before(a)),
{
}

fn check_entry<'a>(n: &'a Node) -> (r: Result<(&'a Node, &'a Node, &'a Node, &'a Node), ParseError>)
    ensures
        r is Err <==> entry_loadouts(*n) is Err,
        r is Err ==> r->Err_0 == entry_loadouts(*n)->Err_0,
        r is Ok ==> entry_loadouts(*n) == Ok::<(Node, Node, Node, Node), ParseError>(
            (*r->Ok_0.0, *r->Ok_0.1, *r->Ok_0.2, *r->Ok_0.3),
        ),
{
    let nl = match n.get("nonlured") {
        Some(x) => x,
        None => return Err(ParseError::MissingKey { key: "nonlured" }),
    };
    let l = match n.get("lured") {
        Some(x) => x,
        None => return Err(ParseError::MissingKey { key: "lured" }),
    };
    let nl_no = match nl.get("nonorg") {
        Some(x) => x,
        None => return Err(ParseError::MissingKey { key: "nonorg" }),
    };
    let l_no = match l.get("nonorg") {
        Some(x) => x,
        None => return Err(ParseError::MissingKey { key: "nonorg" }),
    };
    let nl_o = match nl.get("org") {
        Some(x) => x,
        None => return Err(ParseError::MissingKey { key: "org" }),
    };
    let l_o = match l.get("org") {
        Some(x) => x,
        None => return Err(ParseError::MissingKey { key: "org" }),
    };
    Ok((nl_no, nl_o, l_no, l_o))
}

/// Validates a configuration document and lists its level entries in
/// column order: all non-v2 entries by ascending level, then all v2
/// entries by ascending level.
pub fn validate(doc: &Node) -> (r: Result<Vec<LevelEntry<'_>>, ParseError>)
    ensures
        document_error(*doc) is Some ==> r == Err::<Vec<LevelEntry>, ParseError>(
            document_error(*doc)->0,
        ),
        document_error(*doc) is None ==> r is Ok && is_listing(doc->Table_0@, r->Ok_0@),
{
    let entries = match doc {
        Node::Table(es) => es,
        _ => return Err(ParseError::TomlError { toml_err: NOT_A_TABLE }),
    };
    let n = entries.len();
    let mut keys: Vec<LevelKey> = Vec::new();
    let mut i: usize = 0;
    assert(entries@.skip(0) =~= entries@);
    while i < n
        invariant
            n == entries@.len(),
            i <= n,
            *doc == Node::Table(*entries),
            keys@.len() == i,
            forall|j: int| 0 <= j < i ==> keys@[j].wf() && spec_level_key(#[trigger] entries@[j].0@)
                == Some(keys@[j]),
            first_key_error(entries@) == first_key_error(entries@.skip(i as int)),
        decreases n - i,
    {
        assert(entries@.skip(i as int).drop_first() =~= entries@.skip(i + 1));
        match parse_level_key(entries[i].0.as_str()) {
            Some(k) => keys.push(k),
            None => {
                return Err(ParseError::KeyError { key: entries[i].0.clone(), expected: KEY_PATTERN });
            },
        }
        i = i + 1;
    }
    assert(first_key_error(entries@.skip(n as int)) is None);
    let mut out: Vec<LevelEntry> = Vec::new();
    i = 0;
    assert(entries@.skip(0) =~= entries@);
    while i < n
        invariant
            n == entries@.len(),
            i <= n,
            *doc == Node::Table(*entries),
            first_key_error(entries@) is None,
            keys@.len() == n,
            forall|j: int| 0 <= j < n ==> keys@[j].wf() && spec_level_key(#[trigger] entries@[j].0@)
                == Some(keys@[j]),
            first_field_error(entries@) == first_field_error(entries@.skip(i as int)),
            forall|a: int, b: int| 0 <= a < b < out@.len() ==> (#[trigger] out@[a]).key.before(
                #[trigger] out@[b].key,
            ),
            forall|a: int|
                0 <= a < out@.len() ==> {
                    &&& (#[trigger] out@[a]).key.wf()
                    &&& find_entry(entries@, key_text(out@[a].key)) is Some
                    &&& entry_loadouts(find_entry(entries@, key_text(out@[a].key))->0) == Ok::<
                        (Node, Node, Node, Node),
                        ParseError,
                    >(out@[a].loadouts())
                },
            forall|j: int|
                0 <= j < i ==> exists|a: int| 0 <= a < out@.len() && out@[a].key == #[trigger] keys@[j],
        decreases n - i,
    {
        assert(entries@.skip(i as int).drop_first() =~= entries@.skip(i + 1));
        let k = keys[i];
        assert(spec_level_key(entries@[i as int].0@) == Some(k));
        let (nl_no, nl_o, l_no, l_o) = match check_entry(&entries[i].1) {
            Ok(t) => t,
            Err(e) => return Err(e),
        };
        let mut p: usize = 0;
        while p < out.len() && out[p].key.before_exec(&k)
            invariant
                p <= out@.len(),
                forall|q: int| 0 <= q < p ==> (#[trigger] out@[q]).key.before(k),
            decreases out@.len() - p,
        {
            p = p + 1;
        }
        proof {
            assert forall|q: int| p <= q < out@.len() implies !(#[trigger] out@[q]).key.before(k) by {
                if q > p {
                    lemma_before_total(out@[p as int].key, k);
                    lemma_before_total(out@[q].key, k);
                }
            }
            assert forall|q: int| 0 <= q < out@.len() && out@[q].key == k implies q == p by {
                lemma_before_total(k, k);
            }
        }
        if p < out.len() && out[p].key == k {
            // An entry with the same key came earlier in the document and
            // is the one that lookup by key finds.
        } else {
            proof {
                assert forall|j: int| 0 <= j < i implies entries@[j].0@ != key_text(k) by {
                    if entries@[j].0@ == key_text(k) {
                        lemma_key_text_injective(keys@[j], k);
                    }
                }
                lemma_find_entry_at(entries@, key_text(k), i as int);
            }
            let ghost old_out = out@;
            out.insert(p, LevelEntry { key: k, nonlured_nonorg: nl_no, nonlured_org: nl_o, lured_nonorg: l_no, lured_org: l_o });
            proof {
                old_out.insert_ensures(p as int, out@[p as int]);
                assert forall|a: int, b: int| 0 <= a < b < out@.len() implies (#[trigger] out@[a]).key.before(
                    #[trigger] out@[b].key) by {
                    if b == p {
                    } else if a == p {
                        lemma_before_total(old_out[b - 1].key, k);
                        if old_out[b - 1].key == k {
                        }
                    } else if a < p && b > p {
                        lemma_before_total(old_out[b - 1].key, k);
                    }
                }
                assert forall|j: int| 0 <= j < i + 1 implies exists|a: int| 0 <= a < out@.len() && out@[a].key == #[trigger] keys@[j] by {
                    if j < i {
                        let a = choose|a: int| 0 <= a < old_out.len() && old_out[a].key == keys@[j];
                        if a < p {
                            assert(out@[a].key == keys@[j]);
                        } else {
                            assert(out@[a + 1].key == keys@[j]);
                        }
                    } else {
                        assert(out@[p as int].key == keys@[j]);
                    }
                }
            }
        }
        i = i + 1;
    }
    proof {
        assert(first_field_error(entries@.skip(n as int)) is None);
        assert forall|j: int| 0 <= j < entries@.len() implies exists|a: int|
            0 <= a < out@.len() && Some(out@[a].key) == spec_level_key(#[trigger] entries@[j].0@) by {
            assert(spec_level_key(entries@[j].0@) == Some(keys@[j]));
            let a = choose|a: int| 0 <= a < out@.len() && out@[a].key == #[trigger] keys@[j];
        }
    }
    Ok(out)
}

/// Keys in strictly ascending order.
pub open spec fn keys_ordered(a: Seq<LevelKey>) -> bool {
    forall|i: int, j: int| 0 <= i < j < a.len() ==> (#[trigger] a[i]).before(#[trigger] a[j])
}

/// The first of strictly ordered keys is below all the others, and the
/// rest are strictly ordered too.
proof fn lemma_ordered_tail(a: Seq<LevelKey>)
    requires
        keys_ordered(a),
        a.len() > 0,
    ensures
        keys_ordered(a.drop_first()),
        !a.drop_first().contains(a[0]),
        forall|x: LevelKey| a.contains(x) && x != a[0] ==> #[trigger] a.drop_first().contains(x),
        forall|x: LevelKey| #[trigger] a.contains(x) && x != a[0] ==> a[0].before(x),
{
    let t = a.drop_first();
    assert forall|i: int, j: int| 0 <= i < j < t.len() implies (#[trigger] t[i]).before(#[trigger] t[j]) by {
        assert(a[i + 1].before(a[j + 1]));
    }
    if t.contains(a[0]) {
        let i = choose|i: int| 0 <= i < t.len() && t[i] == a[0];
        assert(a[0].before(a[i + 1]));
    }
    assert forall|x: LevelKey| a.contains(x) && x != a[0] implies #[trigger] t.contains(x) by {
        let i = choose|i: int| 0 <= i < a.len() && a[i] == x;
        assert(t[i - 1] == x);
    }
    assert forall|x: LevelKey| #[trigger] a.contains(x) && x != a[0] implies a[0].before(x) by {
        let i = choose|i: int| 0 <= i < a.len() && a[i] == x;
        assert(a[0].before(a[i]));
    }
}

/// Two strictly ordered key sequences with the same members are equal.
proof fn lemma_sorted_keys_equal(a: Seq<LevelKey>, b: Seq<LevelKey>)
    requires
        keys_ordered(a),
        keys_ordered(b),
        forall|x: LevelKey| #[trigger] a.contains(x) <==> b.contains(x),
    ensures
        a == b,
    decreases a.len() + b.len(),
{
    if a.len() == 0 {
        if b.len() > 0 {
            assert(b.contains(b[0]));
            assert(a.contains(b[0]));
        }
        assert(a =~= b);
    } else if b.len() == 0 {
        assert(a.contains(a[0]));
    } else {
        assert(a.contains(a[0]));
        assert(b.contains(b[0]));
        lemma_ordered_tail(a);
        lemma_ordered_tail(b);
        assert(b.contains(a[0]));
        assert(a.contains(b[0]));
        lemma_before_total(a[0], b[0]);
        assert(a[0] == b[0]);
        let a1 = a.drop_first();
        let b1 = b.drop_first();
        assert forall|x: LevelKey| #[trigger] a1.contains(x) <==> b1.contains(x) by {
            if a1.contains(x) {
                let i = choose|i: int| 0 <= i < a1.len() && a1[i] == x;
                assert(a.contains(a[i + 1]));
            }
            if b1.contains(x) {
                let i = choose|i: int| 0 <= i < b1.len() && b1[i] == x;
                assert(b.contains(b[i + 1]));
            }
        }
        lemma_sorted_keys_equal(a1, b1);
        assert forall|i: int| 0 <= i < a.len() implies a[i] == b[i] by {
            if i > 0 {
                assert(a[i] == a1[i - 1]);
                assert(b[i] == b1[i - 1]);
            }
        }
        assert(a =~= b);
    }
}

/// An entry that lookup finds is one of the table's entries.
proof fn lemma_find_entry_some(es: Seq<(String, Node)>, key: Seq<char>) -> (j: int)
    requires
        find_entry(es, key) is Some,
    ensures
        0 <= j < es.len(),
        es[j].0@ == key,
    decreases es.len(),
{
    if es[0].0@ == key {
        0
    } else {
        let j = lemma_find_entry_some(es.drop_first(), key);
        j + 1
    }
}

/// A keyed entry of a listing names one of the table's entries.
proof fn lemma_listed_key_in_table(es: Seq<(String, Node)>, out: Seq<LevelEntry>, i: int) -> (j: int)
    requires
        is_listing(es, out),
        0 <= i < out.len(),
    ensures
        0 <= j < es.len(),
        spec_level_key(es[j].0@) == Some(out[i].key),
{
    let k = out[i].key;
    assert(k.wf());
    let j = lemma_find_entry_some(es, key_text(k));
    let c = choose|c: LevelKey| c.wf() && key_text(c) == es[j].0@;
    lemma_key_text_injective(c, k);
    j
}

/// A table's entries have one listing: the level entries, their order and
/// their loadouts are determined by the document alone.
pub proof fn lemma_listing_unique(es: Seq<(String, Node)>, a: Seq<LevelEntry>, b: Seq<LevelEntry>)
    requires
        is_listing(es, a),
        is_listing(es, b),
    ensures
        a == b,
{
    let ka = a.map_values(|e: LevelEntry| e.key);
    let kb = b.map_values(|e: LevelEntry| e.key);
    assert forall|x: LevelKey| #[trigger] ka.contains(x) <==> kb.contains(x) by {
        if ka.contains(x) {
            let i = choose|i: int| 0 <= i < ka.len() && ka[i] == x;
            let t = lemma_listed_key_in_table(es, a, i);
            let j = choose|j: int| 0 <= j < b.len() && Some(b[j].key) == spec_level_key(#[trigger] es[t].0@);
            assert(kb[j] == x);
        }
        if kb.contains(x) {
            let j = choose|j: int| 0 <= j < kb.len() && kb[j] == x;
            let t = lemma_listed_key_in_table(es, b, j);
            let i = choose|i: int| 0 <= i < a.len() && Some(a[i].key) == spec_level_key(#[trigger] es[t].0@);
            assert(ka[i] == x);
        }
    }
    assert forall|i: int, j: int| 0 <= i < j < ka.len() implies (#[trigger] ka[i]).before(#[trigger] ka[j]) by {
        assert(a[i].key.before(a[j].key));
    }
    assert forall|i: int, j: int| 0 <= i < j < kb.len() implies (#[trigger] kb[i]).before(#[trigger] kb[j]) by {
        assert(b[i].key.before(b[j].key));
    }
    lemma_sorted_keys_equal(ka, kb);
    assert forall|i: int| 0 <= i < a.len() implies a[i] == b[i] by {
        assert(ka[i] == kb[i]);
        assert(a[i].loadouts() == b[i].loadouts());
    }
    assert(a =~= b);
}

} // verus!
