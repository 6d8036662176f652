//! Compound identifiers for the rows of an application menu: the window's
//! label, the menu's name, a value and a group, joined by colons.
use vstd::prelude::*;
use vstd::string::{StrSliceExecFns, StringExecFns};

verus! {

/// The parts of a compound identifier, and the identifier itself.
#[derive(Debug)]
pub struct MenuIdExt {
    /// Label of the window the menu belongs to.
    pub label: String,
    /// The four parts joined; empty until a name is set.
    pub id: String,
    pub name: String,
    pub value: String,
    pub group: String,
}

/// What a `MenuIdExt` holds, as mathematical values.
pub struct MenuIdView {
    pub label: Seq<char>,
    pub id: Seq<char>,
    pub name: Seq<char>,
    pub value: Seq<char>,
    pub group: Seq<char>,
}

impl View for MenuIdExt {
    type V = MenuIdView;

    open spec fn view(&self) -> MenuIdView {
        MenuIdView {
            label: self.label@,
            id: self.id@,
            name: self.name@,
            value: self.value@,
            group: self.group@,
        }
    }
}

/// The four parts with a colon between each two.
pub open spec fn joined(
    label: Seq<char>,
    name: Seq<char>,
    value: Seq<char>,
    group: Seq<char>,
) -> Seq<char> {
    label + seq![':'] + name + seq![':'] + value + seq![':'] + group
}

/// The group of the rows that belong to a named menu: the menu's own
/// identifier with value and group left empty.
pub open spec fn group_of(label: Seq<char>, name: Seq<char>) -> Seq<char> {
    joined(label, name, Seq::empty(), Seq::empty())
}

/// Position of the first colon at or after `from`; the length of the
/// text if there is none.
pub open spec fn colon_from(s: Seq<char>, from: int) -> int
    decreases s.len() - from,
{
    if from >= s.len() {
        s.len() as int
    } else if s[from] == ':' {
        from
    } else {
        colon_from(s, from + 1)
    }
}

/// The text can be taken apart: it has no colon at all, or at least two.
pub open spec fn can_be_parsed(s: Seq<char>) -> bool {
    colon_from(s, 0) < s.len() ==> colon_from(s, colon_from(s, 0) + 1) < s.len()
}

/// The parts of a joined identifier. Label, name and value are what
/// stands before the first, the second and the third colon; the group is
/// all that follows the third. A text without a colon has no parts.
pub open spec fn parsed(s: Seq<char>) -> MenuIdView {
    let p1 = colon_from(s, 0);
    let p2 = colon_from(s, p1 + 1);
    let p3 = colon_from(s, p2 + 1);
    if p1 >= s.len() {
        MenuIdView {
            label: Seq::empty(),
            id: Seq::empty(),
            name: Seq::empty(),
            value: Seq::empty(),
            group: Seq::empty(),
        }
    } else {
        MenuIdView {
            label: s.subrange(0, p1),
            id: s,
            name: s.subrange(p1 + 1, p2),
            value: s.subrange(p2 + 1, p3),
            group: if p3 < s.len() {
                s.subrange(p3 + 1, s.len() as int)
            } else {
                Seq::empty()
            },
        }
    }
}

/// The first colon at or after `from` is where it is found: at a colon,
/// with no colon before it.
pub proof fn lemma_colon_from(s: Seq<char>, from: int)
    requires
        0 <= from <= s.len(),
    ensures
        from <= colon_from(s, from) <= s.len(),
        colon_from(s, from) < s.len() ==> s[colon_from(s, from)] == ':',
        forall|k: int| from <= k < colon_from(s, from) ==> s[k] != ':',
    decreases s.len() - from,
{
    if from < s.len() && s[from] != ':' {
        lemma_colon_from(s, from + 1);
    }
}

/// A colon with no colon between `from` and it is the first colon at or
/// after `from`.
pub proof fn lemma_colon_found(s: Seq<char>, from: int, at: int)
    requires
        0 <= from <= at < s.len(),
        s[at] == ':',
        forall|k: int| from <= k < at ==> s[k] != ':',
    ensures
        colon_from(s, from) == at,
    decreases at - from,
{
    if from < at {
        lemma_colon_found(s, from + 1, at);
    }
}

/// Identifiers come apart as they were joined. If label, name and value
/// hold no colon, the joined identifier can be parsed, and parsing it
/// gives back the four parts and the identifier itself.
pub proof fn lemma_id_round_trip(
    label: Seq<char>,
    name: Seq<char>,
    value: Seq<char>,
    group: Seq<char>,
)
    requires
        !label.contains(':'),
        !name.contains(':'),
        !value.contains(':'),
    ensures
        can_be_parsed(joined(label, name, value, group)),
        parsed(joined(label, name, value, group)) == (MenuIdView {
            label,
            id: joined(label, name, value, group),
            name,
            value,
            group,
        }),
{
    let s = joined(label, name, value, group);
    let p1 = label.len() as int;
    let p2 = p1 + 1 + name.len();
    let p3 = p2 + 1 + value.len();
    assert(s.len() == p3 + 1 + group.len());
    assert(s[p1] == ':');
    assert(s[p2] == ':');
    assert(s[p3] == ':');
    assert forall|k: int| 0 <= k < p1 implies s[k] != ':' by {
        assert(s[k] == label[k]);
        assert(label.contains(label[k]));
    }
    assert forall|k: int| p1 + 1 <= k < p2 implies s[k] != ':' by {
        assert(s[k] == name[k - p1 - 1]);
        assert(name.contains(name[k - p1 - 1]));
    }
    assert forall|k: int| p2 + 1 <= k < p3 implies s[k] != ':' by {
        assert(s[k] == value[k - p2 - 1]);
        assert(value.contains(value[k - p2 - 1]));
    }
    lemma_colon_found(s, 0, p1);
    lemma_colon_found(s, p1 + 1, p2);
    lemma_colon_found(s, p2 + 1, p3);
    assert(s.subrange(0, p1) =~= label);
    assert(s.subrange(p1 + 1, p2) =~= name);
    assert(s.subrange(p2 + 1, p3) =~= value);
    assert(s.subrange(p3 + 1, s.len() as int) =~= group);
}

fn find_colon(id: &str, from: usize, len: usize) -> (at: usize)
    requires
        from <= len,
        len == id@.len(),
    ensures
        at == colon_from(id@, from as int),
        from <= at <= len,
{
    let mut i = from;
    while i < len
        invariant
            from <= i <= len,
            len == id@.len(),
            colon_from(id@, from as int) == colon_from(id@, i as int),
        decreases len - i,
    {
        if id.get_char(i) == ':' {
            return i;
        }
        i = i + 1;
    }
    len
}

impl MenuIdExt {
    /// The identifier of a window's menus, with no name yet.
    pub fn new(label: &str) -> (menu_id: Self)
        ensures
            menu_id@ == (MenuIdView {
                label: label@,
                id: Seq::empty(),
                name: Seq::empty(),
                value: Seq::empty(),
                group: Seq::empty(),
            }),
    {
        MenuIdExt {
            label: label.to_owned(),
            id: String::new(),
            name: String::new(),
            value: String::new(),
            group: String::new(),
        }
    }

    /// Joins the four parts with colons.
    pub fn create_id(label: &String, name: &String, value: &String, group: &String) -> (id: String)
        ensures
            id@ == joined(label@, name@, value@, group@),
    {
        proof {
            reveal_strlit(":");
        }
        assert(":"@ =~= seq![':']);
        let mut id = label.clone();
        id.append(":");
        id.append(name.as_str());
        id.append(":");
        id.append(value.as_str());
        id.append(":");
        id.append(group.as_str());
        id
    }

    /// This identifier under a menu's name: the name is set and the
    /// joined identifier is made up anew.
    pub fn with_name(&self, name: &str) -> (named: Self)
        ensures
            named@ == (MenuIdView {
                id: joined(self@.label, name@, self@.value, self@.group),
                name: name@,
                ..self@
            }),
    {
        let name = name.to_owned();
        MenuIdExt {
            label: self.label.clone(),
            id: Self::create_id(&self.label, &name, &self.value, &self.group),
            name,
            value: self.value.clone(),
            group: self.group.clone(),
        }
    }

    /// The joined identifier this one would have under a menu's name.
    pub fn id(&self, name: &str) -> (id: String)
        ensures
            id@ == joined(self@.label, name@, self@.value, self@.group),
    {
        let name = name.to_owned();
        Self::create_id(&self.label, &name, &self.value, &self.group)
    }

    /// The joined identifier of the row that stands for `value` in this
    /// menu; its group is the menu itself.
    pub fn id_from(&self, value: &str) -> (id: String)
        ensures
            id@ == joined(self@.label, self@.name, value@, group_of(self@.label, self@.name)),
    {
        let empty = String::new();
        let group = Self::create_id(&self.label, &self.name, &empty, &empty);
        let value = value.to_owned();
        Self::create_id(&self.label, &self.name, &value, &group)
    }
    /// Takes a joined identifier apart. A text without a colon is no
    /// joined identifier and gives empty parts.
    pub fn get(id: &str) -> (menu_id: Self)
        requires
            can_be_parsed(id@),
        ensures
            menu_id@ == parsed(id@),
    {
        let len = id.unicode_len();
        let p1 = find_colon(id, 0, len);
        if p1 >= len {
            return MenuIdExt {
                label: String::new(),
                id: String::new(),
                name: String::new(),
                value: String::new(),
                group: String::new(),
            };
        }
        let p2 = find_colon(id, p1 + 1, len);
        let p3 = find_colon(id, p2 + 1, len);
        MenuIdExt {
            label: id.substring_char(0, p1).to_owned(),
            id: id.to_owned(),
            name: id.substring_char(p1 + 1, p2).to_owned(),
            value: id.substring_char(p2 + 1, p3).to_owned(),
            group: if p3 < len {
                id.substring_char(p3 + 1, len).to_owned()
            } else {
                String::new()
            },
        }
    }

    /// Whether a text can be taken apart by `get`: it has no colon at
    /// all, or at least two.
    pub fn is_joined(id: &str) -> (ok: bool)
        ensures
            ok == can_be_parsed(id@),
    {
        let len = id.unicode_len();
        let p1 = find_colon(id, 0, len);
        if p1 >= len {
            return true;
        }
        find_colon(id, p1 + 1, len) < len
    }
}

} // verus!
