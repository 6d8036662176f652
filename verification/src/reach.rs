//! The menus of a session: the root menu and every registered menu that
//! is found from it through submenu rows, at any depth.
use vstd::prelude::*;
use crate::item::XMT_SUBMENU;
use crate::registry::{lemma_same_windows_same_slots, lemma_slot, same_windows, MenuRegistry, RegistryView};

verus! {

impl RegistryView {
    /// Row `r` of the menu at position `i` opens the menu at position `j`:
    /// it is a submenu row, and the window it names has its menu there.
    pub open spec fn names_child(self, i: int, r: int, j: int) -> bool {
        &&& 0 <= r < self.menus[i].items.len()
        &&& self.menus[i].items[r].is_submenu()
        &&& self.menus[i].items[r].submenu matches Some(h) && self.has(h) && self.slot(h) == j
    }

    /// Some row of the menu at position `i` opens the menu at position
    /// `j`.
    pub open spec fn child_slot(self, i: int, j: int) -> bool {
        exists|r: int| #[trigger] self.names_child(i, r, j)
    }

    /// The positions lead from the menu at `from` to the one at `j`, each
    /// step going from a menu to the submenu of one of its rows.
    pub open spec fn leads(self, from: int, j: int, path: Seq<int>) -> bool {
        &&& path.len() > 0
        &&& path[0] == from
        &&& path[path.len() - 1] == j
        &&& forall|k: int|
            0 <= k < path.len() - 1 ==> 0 <= (#[trigger] path[k]) < self.menus.len()
                && self.child_slot(path[k], path[k + 1])
    }

    /// The menu at position `j` is found from the one at `from` through
    /// submenu rows, at whatever depth.
    pub open spec fn reaches(self, from: int, j: int) -> bool {
        exists|path: Seq<int>| #[trigger] self.leads(from, j, path)
    }

    /// The menu at position `j` belongs to the session of `root`: it is
    /// the root menu or is found from it through submenu rows.
    pub open spec fn in_session(self, root: isize, j: int) -> bool {
        self.has(root) && self.reaches(self.slot(root), j)
    }
}

/// A menu is found from itself, and with a menu the submenu of each of
/// its rows is found.
pub proof fn lemma_reaches(reg: RegistryView, from: int, i: int, j: int)
    requires
        0 <= i < reg.menus.len(),
    ensures
        reg.reaches(from, from),
        reg.reaches(from, i) && reg.child_slot(i, j) ==> reg.reaches(from, j),
{
    assert(reg.leads(from, from, seq![from]));
    if reg.reaches(from, i) && reg.child_slot(i, j) {
        let path = choose|path: Seq<int>| #[trigger] reg.leads(from, i, path);
        let longer = path.push(j);
        assert forall|k: int| 0 <= k < longer.len() - 1 implies 0 <= (#[trigger] longer[k])
            < reg.menus.len() && reg.child_slot(longer[k], longer[k + 1]) by {
            if k < path.len() - 1 {
                assert(longer[k] == path[k]);
                assert(longer[k + 1] == path[k + 1]);
            }
        }
        assert(reg.leads(from, j, longer));
    }
}

/// The session of a menu holds the menu itself and, with every menu, the
/// submenus of its rows: it reaches down to any depth.
pub proof fn lemma_session_closed(reg: RegistryView, root: isize, i: int, j: int)
    requires
        reg.has(root),
        0 <= i < reg.menus.len(),
    ensures
        reg.in_session(root, reg.slot(root)),
        reg.in_session(root, i) && reg.child_slot(i, j) ==> reg.in_session(root, j),
{
    lemma_reaches(reg, reg.slot(root), i, j);
}

/// The rows of two registries name the same submenus, position by
/// position.
pub open spec fn same_submenu_rows(a: RegistryView, b: RegistryView) -> bool {
    &&& same_windows(a, b)
    &&& forall|i: int|
        0 <= i < a.menus.len() ==> (#[trigger] a.menus[i]).items.len() == b.menus[i].items.len()
    &&& forall|i: int, r: int|
        0 <= i < a.menus.len() && 0 <= r < a.menus[i].items.len() ==> (
        #[trigger] a.menus[i].items[r]).menu_type == b.menus[i].items[r].menu_type
            && a.menus[i].items[r].submenu == b.menus[i].items[r].submenu
}

/// Registries whose rows name the same submenus have the same sessions.
pub proof fn lemma_same_session(a: RegistryView, b: RegistryView, root: isize, j: int)
    requires
        same_submenu_rows(a, b),
        a.in_session(root, j),
    ensures
        b.in_session(root, j),
{
    lemma_same_windows_same_slots(a, b, root, 0);
    let from = a.slot(root);
    let path = choose|path: Seq<int>| #[trigger] a.leads(from, j, path);
    assert forall|k: int| 0 <= k < path.len() - 1 implies 0 <= (#[trigger] path[k]) < b.menus.len()
        && b.child_slot(path[k], path[k + 1]) by {
        let i = path[k];
        assert(a.child_slot(i, path[k + 1]));
        let r = choose|r: int| #[trigger] a.names_child(i, r, path[k + 1]);
        let h = a.menus[i].items[r].submenu->0;
        lemma_same_windows_same_slots(a, b, h, 0);
        assert(b.names_child(i, r, path[k + 1]));
    }
    assert(b.leads(from, j, path));
}

/// How many of the first `n` marks are set.
pub open spec fn marks_set(marks: Seq<bool>, n: int) -> int
    decreases n,
{
    if n <= 0 {
        0
    } else {
        marks_set(marks, n - 1) + (if marks[n - 1] {
            1int
        } else {
            0int
        })
    }
}

proof fn lemma_marks_bound(marks: Seq<bool>, n: int)
    requires
        0 <= n,
    ensures
        0 <= marks_set(marks, n) <= n,
    decreases n,
{
    if n > 0 {
        lemma_marks_bound(marks, n - 1);
    }
}

proof fn lemma_marks_grow(marks: Seq<bool>, j: int, n: int)
    requires
        0 <= j < marks.len(),
        0 <= n <= marks.len(),
        !marks[j],
    ensures
        marks_set(marks.update(j, true), n) == marks_set(marks, n) + (if j < n {
            1int
        } else {
            0int
        }),
    decreases n,
{
    if n > 0 {
        lemma_marks_grow(marks, j, n - 1);
    }
}

/// The marks hold with every marked menu the submenus of its rows.
pub open spec fn marks_closed(reg: RegistryView, marks: Seq<bool>, upto: int) -> bool {
    forall|i: int, j: int|
        0 <= i < upto && 0 <= j < marks.len() && marks[i] && #[trigger] reg.child_slot(i, j)
            ==> marks[j]
}

proof fn lemma_closed_holds_all(reg: RegistryView, marks: Seq<bool>, from: int, path: Seq<int>, k: int)
    requires
        marks.len() == reg.menus.len(),
        0 <= from < marks.len(),
        marks[from],
        marks_closed(reg, marks, marks.len() as int),
        path.len() > 0,
        path[0] == from,
        forall|q: int|
            0 <= q < path.len() - 1 ==> 0 <= (#[trigger] path[q]) < reg.menus.len()
                && reg.child_slot(path[q], path[q + 1]),
        0 <= k < path.len(),
    ensures
        0 <= path[k] < marks.len(),
        marks[path[k]],
    decreases k,
{
    if k > 0 {
        lemma_closed_holds_all(reg, marks, from, path, k - 1);
        let i = path[k - 1];
        assert(reg.child_slot(i, path[k - 1 + 1]));
        let r = choose|r: int| #[trigger] reg.names_child(i, r, path[k]);
        lemma_slot(reg, reg.menus[i].items[r].submenu->0, 0);
    }
}

impl MenuRegistry {
    /// Marks the menus of the session of `root`: the root menu and every
    /// registered menu found from it through submenu rows, at any depth.
    /// The answer has one mark for each menu, in the order of the
    /// registry.
    pub fn session_slots(&self, root: isize) -> (marks: Vec<bool>)
        ensures
            marks@.len() == self@.menus.len(),
            forall|j: int|
                0 <= j < marks@.len() ==> (#[trigger] marks@[j]) == self@.in_session(root, j),
    {
        let n = self.menus.len();
        let mut marks: Vec<bool> = Vec::new();
        let mut k: usize = 0;
        while k < n
            invariant
                k <= n,
                marks@.len() == k,
                forall|j: int| 0 <= j < k ==> !(#[trigger] marks@[j]),
            decreases n - k,
        {
            marks.push(false);
            k = k + 1;
        }
        let from = match self.find(root) {
            Some(from) => from,
            None => {
                return marks;
            },
        };
        proof {
            lemma_marks_zero(marks@, n as int);
            lemma_marks_grow(marks@, from as int, n as int);
            lemma_reaches(self@, from as int, from as int, from as int);
        }
        marks.set(from, true);
        let mut count: usize = 1;
        let mut changed = true;
        while changed
            invariant
                n == self@.menus.len(),
                n == self.menus@.len(),
                marks@.len() == n,
                from < n,
                from == self@.slot(root),
                self@.has(root),
                marks@[from as int],
                count == marks_set(marks@, n as int),
                forall|j: int|
                    0 <= j < n && (#[trigger] marks@[j]) ==> self@.reaches(from as int, j),
                !changed ==> marks_closed(self@, marks@, n as int),
            decreases n - count, (if changed { 1int } else { 0int }),
        {
            proof {
                lemma_marks_bound(marks@, n as int);
            }
            changed = false;
            let ghost start = count;
            let mut i: usize = 0;
            while i < n
                invariant
                    n == self@.menus.len(),
                    n == self.menus@.len(),
                    marks@.len() == n,
                    from < n,
                    marks@[from as int],
                    i <= n,
                    start <= count <= n,
                    changed ==> start < count,
                    count == marks_set(marks@, n as int),
                    forall|j: int|
                        0 <= j < n && (#[trigger] marks@[j]) ==> self@.reaches(from as int, j),
                    !changed ==> marks_closed(self@, marks@, i as int),
                decreases n - i,
            {
                if marks[i] {
                    assert(self@.menus[i as int] == self.menus@[i as int]@);
                    let rows = self.menus[i].items.len();
                    let mut r: usize = 0;
                    while r < rows
                        invariant
                            n == self@.menus.len(),
                            n == self.menus@.len(),
                            marks@.len() == n,
                            from < n,
                            marks@[from as int],
                            i < n,
                            marks@[i as int],
                            rows == self@.menus[i as int].items.len(),
                            r <= rows,
                            start <= count <= n,
                            changed ==> start < count,
                            count == marks_set(marks@, n as int),
                            forall|j: int|
                                0 <= j < n && (#[trigger] marks@[j]) ==> self@.reaches(
                                    from as int,
                                    j,
                                ),
                            !changed ==> marks_closed(self@, marks@, i as int),
                            !changed ==> forall|q: int, j: int|
                                0 <= q < r && #[trigger] self@.names_child(i as int, q, j)
                                    ==> 0 <= j < n && marks@[j],
                        decreases rows - r,
                    {
                        assert(self@.menus[i as int] == self.menus@[i as int]@);
                        assert(self@.menus[i as int].items[r as int]
                            == self.menus@[i as int].items@[r as int]@);
                        let item = &self.menus[i].items[r];
                        let mut found: Option<usize> = None;
                        if item.menu_type.0 == XMT_SUBMENU {
                            if let Some(h) = item.submenu {
                                found = self.find(h);
                            }
                        }
                        if let Some(j) = found {
                            assert(self@.names_child(i as int, r as int, j as int));
                            if !marks[j] {
                                proof {
                                    assert(self@.child_slot(i as int, j as int));
                                    lemma_reaches(self@, from as int, i as int, j as int);
                                    lemma_marks_grow(marks@, j as int, n as int);
                                    lemma_marks_bound(marks@.update(j as int, true), n as int);
                                }
                                marks.set(j, true);
                                count = count + 1;
                                changed = true;
                            }
                        }
                        r = r + 1;
                    }
                    assert(!changed ==> marks_closed(self@, marks@, i as int + 1)) by {
                        if !changed {
                            assert forall|a: int, j: int|
                                0 <= a < i + 1 && 0 <= j < marks@.len() && marks@[a]
                                    && #[trigger] self@.child_slot(a, j) implies marks@[j] by {
                                if a == i {
                                    let q = choose|q: int| #[trigger] self@.names_child(a, q, j);
                                    assert(self@.names_child(i as int, q, j));
                                }
                            }
                        }
                    }
                }
                i = i + 1;
            }
        }
        proof {
            assert forall|j: int| 0 <= j < marks@.len() implies (#[trigger] marks@[j])
                == self@.in_session(root, j) by {
                if self@.in_session(root, j) {
                    let path = choose|path: Seq<int>| #[trigger] self@.leads(from as int, j, path);
                    lemma_closed_holds_all(self@, marks@, from as int, path, path.len() - 1);
                }
            }
        }
        marks
    }
}

proof fn lemma_marks_zero(marks: Seq<bool>, n: int)
    requires
        0 <= n <= marks.len(),
        forall|j: int| 0 <= j < marks.len() ==> !(#[trigger] marks[j]),
    ensures
        marks_set(marks, n) == 0,
    decreases n,
{
    if n > 0 {
        lemma_marks_zero(marks, n - 1);
    }
}

} // verus!
