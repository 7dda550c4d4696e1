//! Store items: loosely typed attribute maps, as a key-value table holds them.

use vstd::prelude::*;

verus! {

/// One attribute value of an item. The store knows more kinds than the two
/// that a Todo is made of; every other kind is `Other`.
#[derive(Debug)]
pub enum AttributeValue {
    /// A string.
    S(String),
    /// A number, in the decimal text in which the store keeps it.
    N(String),
    /// A value of any other kind.
    Other,
}

/// What an attribute value is, as a mathematical value.
pub enum AttributeValueView {
    S(Seq<char>),
    N(Seq<char>),
    Other,
}

impl View for AttributeValue {
    type V = AttributeValueView;

    open spec fn view(&self) -> AttributeValueView {
        match self {
            AttributeValue::S(s) => AttributeValueView::S(s@),
            AttributeValue::N(n) => AttributeValueView::N(n@),
            AttributeValue::Other => AttributeValueView::Other,
        }
    }
}

impl Clone for AttributeValue {
    fn clone(&self) -> (copy: Self)
        ensures
            copy == *self,
    {
        match self {
            AttributeValue::S(s) => AttributeValue::S(s.clone()),
            AttributeValue::N(n) => AttributeValue::N(n.clone()),
            AttributeValue::Other => AttributeValue::Other,
        }
    }
}

impl AttributeValue {
    /// The string, if this value is one.
    pub fn as_s(&self) -> (r: Option<&String>)
        ensures
            match r {
                Some(s) => *self == AttributeValue::S(*s),
                None => !(self is S),
            },
    {
        match self {
            AttributeValue::S(s) => Some(s),
            _ => None,
        }
    }

    /// The decimal text, if this value is a number.
    pub fn as_n(&self) -> (r: Option<&String>)
        ensures
            match r {
                Some(n) => *self == AttributeValue::N(*n),
                None => !(self is N),
            },
    {
        match self {
            AttributeValue::N(n) => Some(n),
            _ => None,
        }
    }
}

/// A named attribute of an item.
#[derive(Debug)]
pub struct Attribute {
    pub name: String,
    pub value: AttributeValue,
}

impl Clone for Attribute {
    fn clone(&self) -> (copy: Self)
        ensures
            copy == *self,
    {
        Attribute { name: self.name.clone(), value: self.value.clone() }
    }
}

/// The value that `attributes` holds under `name` at or after position
/// `from`: that of the first attribute so named.
pub open spec fn lookup_from(attributes: Seq<Attribute>, name: Seq<char>, from: int) -> Option<
    AttributeValueView,
>
    decreases attributes.len() - from,
{
    if from < 0 || from >= attributes.len() {
        None
    } else if attributes[from].name@ == name {
        Some(attributes[from].value@)
    } else {
        lookup_from(attributes, name, from + 1)
    }
}

/// The attribute map that a list of attributes stands for. Where a name
/// occurs more than once, its first occurrence counts.
pub open spec fn attribute_map(attributes: Seq<Attribute>) -> Map<Seq<char>, AttributeValueView> {
    Map::new(
        |name: Seq<char>| lookup_from(attributes, name, 0) is Some,
        |name: Seq<char>| lookup_from(attributes, name, 0)->0,
    )
}

/// Nothing before the first attribute called `name` changes what is found
/// under that name.
proof fn lemma_lookup_skips(attributes: Seq<Attribute>, name: Seq<char>, from: int, to: int)
    requires
        0 <= from <= to <= attributes.len(),
        forall|i: int| from <= i < to ==> (#[trigger] attributes[i]).name@ != name,
    ensures
        lookup_from(attributes, name, from) == lookup_from(attributes, name, to),
    decreases to - from,
{
    if from < to {
        lemma_lookup_skips(attributes, name, from + 1, to);
    }
}

/// Replacing the value of the attribute at `at` changes what is found under
/// its name, where nothing before it has that name, and nothing else.
proof fn lemma_lookup_update(
    attributes: Seq<Attribute>,
    at: int,
    replacement: Attribute,
    name: Seq<char>,
    from: int,
)
    requires
        0 <= from <= at < attributes.len(),
        replacement.name@ == attributes[at].name@,
        forall|i: int| 0 <= i < at ==> (#[trigger] attributes[i]).name@ != replacement.name@,
    ensures
        lookup_from(attributes.update(at, replacement), name, from) == if name
            == replacement.name@ {
            Some(replacement.value@)
        } else {
            lookup_from(attributes, name, from)
        },
    decreases attributes.len() - from,
{
    let updated = attributes.update(at, replacement);
    if from < at {
        lemma_lookup_update(attributes, at, replacement, name, from + 1);
        assert(updated[from] == attributes[from]);
    } else if name != replacement.name@ {
        lemma_lookup_same_tail(attributes, updated, name, at + 1);
    }
}

/// Two lists that agree from `from` on hold the same values from there on.
proof fn lemma_lookup_same_tail(
    a: Seq<Attribute>,
    b: Seq<Attribute>,
    name: Seq<char>,
    from: int,
)
    requires
        a.len() == b.len(),
        0 <= from,
        forall|i: int| from <= i < a.len() ==> a[i] == b[i],
    ensures
        lookup_from(a, name, from) == lookup_from(b, name, from),
    decreases a.len() - from,
{
    if from < a.len() {
        lemma_lookup_same_tail(a, b, name, from + 1);
    }
}

/// Appending an attribute adds its value under its name where that name was
/// free, and changes nothing else.
proof fn lemma_lookup_push(
    attributes: Seq<Attribute>,
    added: Attribute,
    name: Seq<char>,
    from: int,
)
    requires
        0 <= from <= attributes.len(),
    ensures
        lookup_from(attributes.push(added), name, from) == match lookup_from(
            attributes,
            name,
            from,
        ) {
            Some(v) => Some(v),
            None => if name == added.name@ {
                Some(added.value@)
            } else {
                None
            },
        },
    decreases attributes.len() - from,
{
    let pushed = attributes.push(added);
    if from < attributes.len() {
        assert(pushed[from] == attributes[from]);
        lemma_lookup_push(attributes, added, name, from + 1);
    } else {
        assert(pushed[from] == added);
        assert(lookup_from(pushed, name, from + 1) is None);
    }
}

/// An item: a map from attribute names to values.
#[derive(Debug)]
pub struct Item {
    attributes: Vec<Attribute>,
}

impl View for Item {
    type V = Map<Seq<char>, AttributeValueView>;

    closed spec fn view(&self) -> Map<Seq<char>, AttributeValueView> {
        attribute_map(self.attributes@)
    }
}

impl Clone for Item {
    fn clone(&self) -> (copy: Self)
        ensures
            copy@ == self@,
    {
        let mut attributes: Vec<Attribute> = Vec::new();
        let mut i: usize = 0;
        while i < self.attributes.len()
            invariant
                i <= self.attributes.len(),
                attributes@ == self.attributes@.take(i as int),
            decreases self.attributes.len() - i,
        {
            attributes.push(self.attributes[i].clone());
            i += 1;
            assert(attributes@ =~= self.attributes@.take(i as int));
        }
        assert(attributes@ =~= self.attributes@);
        Item { attributes }
    }
}

impl Item {
    /// An item without attributes.
    pub fn new() -> (item: Item)
        ensures
            item@ == Map::<Seq<char>, AttributeValueView>::empty(),
    {
        let item = Item { attributes: Vec::new() };
        assert(item@ =~= Map::<Seq<char>, AttributeValueView>::empty());
        item
    }

    /// The value under `name`, if the item has that attribute.
    pub fn get(&self, name: &str) -> (r: Option<&AttributeValue>)
        ensures
            match r {
                Some(v) => self@.contains_key(name@) && self@[name@] == v@,
                None => !self@.contains_key(name@),
            },
    {
        let wanted = String::from_str(name);
        let mut i: usize = 0;
        while i < self.attributes.len()
            invariant
                i <= self.attributes.len(),
                wanted@ == name@,
                forall|j: int| 0 <= j < i ==> (#[trigger] self.attributes@[j]).name@ != name@,
            decreases self.attributes.len() - i,
        {
            if self.attributes[i].name == wanted {
                proof {
                    lemma_lookup_skips(self.attributes@, name@, 0, i as int);
                }
                return Some(&self.attributes[i].value);
            }
            i += 1;
        }
        proof {
            lemma_lookup_skips(self.attributes@, name@, 0, i as int);
        }
        None
    }

    /// Puts `value` under `name`, in place of what was there.
    pub fn insert(&mut self, name: String, value: AttributeValue)
        ensures
            final(self)@ == old(self)@.insert(name@, value@),
    {
        let mut i: usize = 0;
        while i < self.attributes.len()
            invariant
                i <= self.attributes.len(),
                self.attributes@ == old(self).attributes@,
                forall|j: int| 0 <= j < i ==> (#[trigger] self.attributes@[j]).name@ != name@,
            decreases self.attributes.len() - i,
        {
            if self.attributes[i].name == name {
                let replacement = Attribute { name, value };
                proof {
                    assert forall|key: Seq<char>|
                        lookup_from(
                            old(self).attributes@.update(i as int, replacement),
                            key,
                            0,
                        ) == if key == name@ {
                            Some(value@)
                        } else {
                            lookup_from(old(self).attributes@, key, 0)
                        } by {
                        lemma_lookup_update(old(self).attributes@, i as int, replacement, key, 0);
                    }
                }
                self.attributes.set(i, replacement);
                assert(self@ =~= old(self)@.insert(name@, value@));
                return ;
            }
            i += 1;
        }
        let added = Attribute { name, value };
        proof {
            lemma_lookup_skips(old(self).attributes@, name@, 0, i as int);
            assert forall|key: Seq<char>|
                lookup_from(old(self).attributes@.push(added), key, 0) == match lookup_from(
                    old(self).attributes@,
                    key,
                    0,
                ) {
                    Some(v) => Some(v),
                    None => if key == name@ {
                        Some(value@)
                    } else {
                        None
                    },
                } by {
                lemma_lookup_push(old(self).attributes@, added, key, 0);
            }
        }
        self.attributes.push(added);
        assert(self@ =~= old(self)@.insert(name@, value@));
    }

    /// The attributes as a list. Each name occurs in it; where one occurs
    /// more than once, its first occurrence is the one that counts.
    pub fn attributes(&self) -> (list: &Vec<Attribute>)
        ensures
            attribute_map(list@) == self@,
    {
        &self.attributes
    }

    /// Sets every attribute of `other` on this item, in place of what was
    /// there under the same name.
    pub fn merge(&mut self, other: &Item)
        ensures
            final(self)@ == old(self)@.union_prefer_right(other@),
    {
        let mut i: usize = other.attributes.len();
        while i > 0
            invariant
                i <= other.attributes.len(),
                forall|name: Seq<char>|
                    #[trigger] merged_under(other.attributes@, i as int, old(self)@, self@, name),
            decreases i,
        {
            i -= 1;
            let ghost before = self@;
            let attribute = other.attributes[i].clone();
            self.insert(attribute.name, attribute.value);
            assert forall|name: Seq<char>| #[trigger]
                merged_under(other.attributes@, i as int, old(self)@, self@, name) by {
                assert(merged_under(other.attributes@, i + 1, old(self)@, before, name));
            }
        }
        let ghost merged = old(self)@.union_prefer_right(other@);
        assert forall|name: Seq<char>| #[trigger]
            self@.dom().contains(name) == merged.dom().contains(name) by {
            assert(merged_under(other.attributes@, 0, old(self)@, self@, name));
        }
        assert(self@.dom() =~= merged.dom());
        assert forall|name: Seq<char>| self@.dom().contains(name) implies #[trigger] self@[name]
            == merged[name] by {
            assert(merged_under(other.attributes@, 0, old(self)@, self@, name));
        }
        assert(self@ =~= merged);
    }
}

/// Whether `now` holds under `name` what the attributes from `from` on set,
/// or else what `base` held.
spec fn merged_under(
    attributes: Seq<Attribute>,
    from: int,
    base: Map<Seq<char>, AttributeValueView>,
    now: Map<Seq<char>, AttributeValueView>,
    name: Seq<char>,
) -> bool {
    match lookup_from(attributes, name, from) {
        Some(v) => now.contains_key(name) && now[name] == v,
        None => now.contains_key(name) == base.contains_key(name) && (now.contains_key(name)
            ==> now[name] == base[name]),
    }
}

} // verus!
