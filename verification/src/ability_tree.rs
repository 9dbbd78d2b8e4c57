//! A binary search tree of abilities keyed by their packed id. Because the
//! level sits in the id's high bits, the tree is grouped by level.

use vstd::prelude::*;
use crate::ability::Ability;
use crate::ability_id::level_of;

verus! {

/// A node of the tree.
pub struct AbilityNode {
    pub ability: Ability,
    pub left: Option<Box<AbilityNode>>,
    pub right: Option<Box<AbilityNode>>,
}

/// The abilities below (and at) an optional node, by id.
pub open spec fn subtree_map(node: Option<Box<AbilityNode>>) -> Map<u16, Ability>
    decreases node,
{
    match node {
        None => Map::empty(),
        Some(n) => subtree_map(n.left).union_prefer_right(subtree_map(n.right)).insert(
            n.ability.id,
            n.ability,
        ),
    }
}

/// The search-tree order: every id on the left is smaller than the node's,
/// every id on the right is larger, all the way down.
pub open spec fn subtree_ordered(node: Option<Box<AbilityNode>>) -> bool
    decreases node,
{
    match node {
        None => true,
        Some(n) => {
            &&& forall|k: u16| #[trigger] subtree_map(n.left).contains_key(k) ==> k < n.ability.id
            &&& forall|k: u16| #[trigger] subtree_map(n.right).contains_key(k) ==> k > n.ability.id
            &&& subtree_ordered(n.left)
            &&& subtree_ordered(n.right)
        },
    }
}

/// The abilities in pre-order: a node, then its left subtree, then its right.
pub open spec fn subtree_preorder(node: Option<Box<AbilityNode>>) -> Seq<Ability>
    decreases node,
{
    match node {
        None => seq![],
        Some(n) => seq![n.ability] + subtree_preorder(n.left) + subtree_preorder(n.right),
    }
}

/// The abilities of `s` whose packed id decodes to `level`, in order.
pub open spec fn of_level(s: Seq<Ability>, level: u8) -> Seq<Ability>
    decreases s.len(),
{
    if s.len() == 0 {
        Seq::empty()
    } else if level_of(s.last().id) == level as int {
        of_level(s.drop_last(), level).push(s.last())
    } else {
        of_level(s.drop_last(), level)
    }
}

impl AbilityNode {
    /// A leaf holding `ability`.
    pub fn new(ability: Ability) -> (r: Box<AbilityNode>)
        ensures
            r.ability == ability,
            r.left is None,
            r.right is None,
    {
        Box::new(AbilityNode { ability, left: None, right: None })
    }
}

/// The ability tree.
pub struct AbilityTree {
    root: Option<Box<AbilityNode>>,
}

impl AbilityTree {
    /// The search-tree order holds throughout the tree.
    pub closed spec fn well_formed(self) -> bool {
        subtree_ordered(self.root)
    }

    /// The stored abilities, by id.
    pub closed spec fn view(self) -> Map<u16, Ability> {
        subtree_map(self.root)
    }

    /// The stored abilities in the order a traversal lists them.
    pub closed spec fn preorder(self) -> Seq<Ability> {
        subtree_preorder(self.root)
    }

    /// An empty tree.
    pub fn new() -> (t: Self)
        ensures
            t.well_formed(),
            t.view() == Map::<u16, Ability>::empty(),
            t.preorder() == Seq::<Ability>::empty(),
    {
        AbilityTree { root: None }
    }

    fn insert_into(node: &mut Option<Box<AbilityNode>>, ability: Ability)
        requires
            subtree_ordered(*old(node)),
        ensures
            subtree_ordered(*final(node)),
            subtree_map(*final(node)) =~= subtree_map(*old(node)).insert(ability.id, ability),
        decreases *old(node),
    {
        match node.take() {
            None => {
                *node = Some(AbilityNode::new(ability));
            },
            Some(mut n) => {
                let id = ability.id;
                if id < n.ability.id {
                    assert(!subtree_map(n.right).contains_key(id));
                    Self::insert_into(&mut n.left, ability);
                } else if id > n.ability.id {
                    assert(!subtree_map(n.left).contains_key(id));
                    Self::insert_into(&mut n.right, ability);
                } else {
                    assert(!subtree_map(n.left).contains_key(id));
                    assert(!subtree_map(n.right).contains_key(id));
                    n.ability = ability;
                }
                *node = Some(n);
            },
        }
    }

    /// Store `ability` under its id, replacing any ability with that id.
    pub fn insert(&mut self, ability: Ability)
        requires
            old(self).well_formed(),
        ensures
            final(self).well_formed(),
            final(self).view() == old(self).view().insert(ability.id, ability),
    {
        Self::insert_into(&mut self.root, ability);
    }

    fn find_in<'a>(node: &'a Option<Box<AbilityNode>>, id: u16) -> (r: Option<&'a Ability>)
        requires
            subtree_ordered(*node),
        ensures
            r == (if subtree_map(*node).contains_key(id) {
                Some(&subtree_map(*node)[id])
            } else {
                None
            }),
        decreases node,
    {
        match node {
            None => None,
            Some(n) => {
                if id == n.ability.id {
                    Some(&n.ability)
                } else if id < n.ability.id {
                    assert(!subtree_map(n.right).contains_key(id));
                    Self::find_in(&n.left, id)
                } else {
                    assert(!subtree_map(n.left).contains_key(id));
                    Self::find_in(&n.right, id)
                }
            },
        }
    }

    /// The ability stored under `id`, if any.
    pub fn find(&self, id: u16) -> (r: Option<&Ability>)
        requires
            self.well_formed(),
        ensures
            r == (if self.view().contains_key(id) {
                Some(&self.view()[id])
            } else {
                None
            }),
    {
        Self::find_in(&self.root, id)
    }

    fn collect_all<'a>(node: &'a Option<Box<AbilityNode>>, all: &mut Vec<&'a Ability>)
        ensures
            final(all)@.map_values(|a: &Ability| *a) =~= old(all)@.map_values(|a: &Ability| *a)
                + subtree_preorder(*node),
        decreases node,
    {
        match node {
            None => {},
            Some(n) => {
                all.push(&n.ability);
                Self::collect_all(&n.left, all);
                Self::collect_all(&n.right, all);
            },
        }
    }

    /// Every stored ability, each node before its left subtree and that
    /// before its right subtree.
    pub fn traverse_all(&self) -> (r: Vec<&Ability>)
        ensures
            r@.map_values(|a: &Ability| *a) == self.preorder(),
    {
        let mut all: Vec<&Ability> = Vec::new();
        Self::collect_all(&self.root, &mut all);
        all
    }

    /// The stored abilities of `level` (those whose packed id decodes to
    /// it), in traversal order; `None` when the tree holds none.
    pub fn find_all_level(&self, level: u8) -> (r: Option<Vec<&Ability>>)
        ensures
            match r {
                Some(v) => v@.map_values(|a: &Ability| *a) == of_level(self.preorder(), level)
                    && v@.len() > 0,
                None => of_level(self.preorder(), level).len() == 0,
            },
    {
        let all = self.traverse_all();
        let ghost pre = self.preorder();
        let mut out: Vec<&Ability> = Vec::new();
        let mut i: usize = 0;
        while i < all.len()
            invariant
                i <= all@.len(),
                all@.map_values(|a: &Ability| *a) == pre,
                out@.map_values(|a: &Ability| *a) == of_level(pre.take(i as int), level),
            decreases all.len() - i,
        {
            let a = all[i];
            proof {
                assert(pre.take(i as int + 1).drop_last() =~= pre.take(i as int));
                assert(pre[i as int] == *a);
            }
            if a.get_level() == level {
                let ghost before = out@;
                out.push(a);
                proof {
                    assert(out@.map_values(|a: &Ability| *a) =~= before.map_values(|a: &Ability| *a).push(*a));
                }
            }
            i = i + 1;
        }
        proof {
            assert(pre.take(all@.len() as int) =~= pre);
        }
        if out.len() == 0 {
            None
        } else {
            Some(out)
        }
    }
}

proof fn lemma_preorder_matches_map(node: Option<Box<AbilityNode>>)
    requires
        subtree_ordered(node),
    ensures
        subtree_preorder(node).len() == subtree_map(node).dom().len(),
        subtree_map(node).dom().finite(),
        forall|i: int|
            0 <= i < subtree_preorder(node).len() ==> subtree_map(node).contains_key(
                (#[trigger] subtree_preorder(node)[i]).id,
            ) && subtree_map(node)[subtree_preorder(node)[i].id] == subtree_preorder(node)[i],
        forall|k: u16|
            #[trigger] subtree_map(node).contains_key(k) ==> exists|i: int|
                0 <= i < subtree_preorder(node).len() && (#[trigger] subtree_preorder(node)[i]).id
                    == k,
    decreases node,
{
    match node {
        None => {
            assert(subtree_map(node).dom() =~= Set::<u16>::empty());
        },
        Some(n) => {
            lemma_preorder_matches_map(n.left);
            lemma_preorder_matches_map(n.right);
            let lm = subtree_map(n.left);
            let rm = subtree_map(n.right);
            let lp = subtree_preorder(n.left);
            let rp = subtree_preorder(n.right);
            let p = subtree_preorder(node);
            let m = subtree_map(node);
            assert(p =~= seq![n.ability] + lp + rp);
            assert(lm.dom().disjoint(rm.dom())) by {
                assert forall|k: u16| lm.dom().contains(k) implies !rm.dom().contains(k) by {}
            }
            assert(lm.union_prefer_right(rm).dom() =~= lm.dom().union(rm.dom()));
            vstd::set_lib::lemma_set_disjoint_lens(lm.dom(), rm.dom());
            assert(!lm.dom().union(rm.dom()).contains(n.ability.id));
            assert(m.dom() =~= lm.dom().union(rm.dom()).insert(n.ability.id));
            assert forall|i: int| 0 <= i < p.len() implies m.contains_key((#[trigger] p[i]).id)
                && m[p[i].id] == p[i] by {
                if i == 0 {
                } else if i < 1 + lp.len() {
                    assert(p[i] == lp[i - 1]);
                } else {
                    assert(p[i] == rp[i - 1 - lp.len()]);
                }
            }
            assert forall|k: u16| #[trigger] m.contains_key(k) implies exists|i: int|
                0 <= i < p.len() && (#[trigger] p[i]).id == k by {
                if k == n.ability.id {
                    assert(p[0].id == k);
                } else if lm.contains_key(k) {
                    let j = choose|j: int| 0 <= j < lp.len() && (#[trigger] lp[j]).id == k;
                    assert(p[1 + j] == lp[j]);
                } else {
                    let j = choose|j: int| 0 <= j < rp.len() && (#[trigger] rp[j]).id == k;
                    assert(p[1 + lp.len() + j] == rp[j]);
                }
            }
        },
    }
}

/// Law: a traversal lists every stored ability exactly once: as many entries
/// as stored ids, each entry the ability stored under its own id, and every
/// stored id among the entries.
pub proof fn lemma_traversal_lists_every_ability_once(t: AbilityTree)
    requires
        t.well_formed(),
    ensures
        t.preorder().len() == t.view().dom().len(),
        forall|i: int|
            0 <= i < t.preorder().len() ==> t.view().contains_key((#[trigger] t.preorder()[i]).id)
                && t.view()[t.preorder()[i].id] == t.preorder()[i],
        forall|k: u16|
            #[trigger] t.view().contains_key(k) ==> exists|i: int|
                0 <= i < t.preorder().len() && (#[trigger] t.preorder()[i]).id == k,
{
    lemma_preorder_matches_map(t.root);
}

/// Law: after storing an ability, looking up its id gives it back, and every
/// other id gives what it gave before.
pub proof fn lemma_find_after_insert(before: Map<u16, Ability>, a: Ability, other: u16)
    requires
        other != a.id,
    ensures
        before.insert(a.id, a).contains_key(a.id),
        before.insert(a.id, a)[a.id] == a,
        before.insert(a.id, a).contains_key(other) == before.contains_key(other),
        before.contains_key(other) ==> before.insert(a.id, a)[other] == before[other],
{
}

} // verus!
