//! The battle command bar: what the player has chosen, which menu is open,
//! and how key presses and clicks move through it.

use vstd::prelude::*;
use crate::ability::{Ability, AbilityEffect, AbilityShape, EntityId, MagicSchool};
use crate::items::{definition_of, ConsumableEffect, InventoryItemCatalog, InventoryItemDefinition, InventoryItemKind};
use crate::stats::{can_pay, CombatStats};
use crate::text::{append_decimal, append_signed, decimal, signed_decimal};

verus! {

/// The action waiting for a target.
#[derive(Clone, Copy, Debug, PartialEq, Eq, Structural)]
pub enum SelectedAction {
    Attack,
    Ability(u16),
}

/// Whether the bar is browsing, or an action is chosen and the next click or
/// Enter commits its target.
#[derive(Clone, Copy, Debug, PartialEq, Eq, Structural)]
pub enum HudMode {
    Idle,
    AwaitingTarget(SelectedAction),
}

impl Default for HudMode {
    /// The bar starts out browsing.
    fn default() -> (r: Self)
        ensures
            r == HudMode::Idle,
    {
        HudMode::Idle
    }
}

/// What a bar option does when chosen.
#[derive(Clone, Copy, Debug, PartialEq, Eq, Structural)]
pub enum HudAction {
    Attack,
    Ability(u16),
    Item(u16),
    Defend,
    Wait,
}

/// The two menus that fold out of the bar.
#[derive(Clone, Copy, Debug, PartialEq, Eq, Structural)]
pub enum FlyoutKind {
    Skills,
    Items,
}

/// A top-level entry of the bar: it fires an action at once, or folds out a
/// menu of further options.
#[derive(Clone, Copy, Debug, PartialEq, Eq, Structural)]
pub enum CategoryKind {
    Direct(HudAction),
    Open(FlyoutKind),
}

/// What the player asks the active combatant to do.
#[derive(Clone, Copy, Debug, PartialEq, Eq, Structural)]
pub enum PlayerAction {
    Attack(EntityId),
    UseAbility(u32, EntityId),
    UseItem(u16, Option<EntityId>),
    Defend,
    Wait,
}

/// The bar's state: its mode, the open menu, the focused entry of the bar and
/// of the open menu, how many entries the bar has this turn, and the enemy
/// aimed at while a target is awaited.
#[derive(Clone, Copy, Debug, PartialEq, Eq, Structural)]
pub struct CombatHudState {
    pub mode: HudMode,
    pub open: Option<FlyoutKind>,
    pub cat_focus: usize,
    pub opt_focus: usize,
    pub cat_count: usize,
    pub target: Option<EntityId>,
}

impl Default for CombatHudState {
    /// Browsing, nothing open, focus on the first entries, no target.
    fn default() -> (r: Self)
        ensures
            r == (CombatHudState {
                mode: HudMode::Idle,
                open: None,
                cat_focus: 0,
                opt_focus: 0,
                cat_count: 0,
                target: None,
            }),
    {
        CombatHudState { mode: HudMode::Idle, open: None, cat_focus: 0, opt_focus: 0, cat_count: 0, target: None }
    }
}

/// The lowest entity number among `s`, which is the first enemy in the
/// bar's order; `None` for no enemy.
pub open spec fn spec_first_enemy(s: Seq<EntityId>) -> Option<EntityId>
    decreases s.len(),
{
    if s.len() == 0 {
        None
    } else {
        match spec_first_enemy(s.drop_last()) {
            Some(m) => Some(if s.last() < m { s.last() } else { m }),
            None => Some(s.last()),
        }
    }
}

proof fn lemma_first_enemy(s: Seq<EntityId>)
    ensures
        spec_first_enemy(s) is None <==> s.len() == 0,
        spec_first_enemy(s) matches Some(m) ==> s.contains(m) && forall|j: int| 0 <= j < s.len() ==> m <= #[trigger] s[j],
    decreases s.len(),
{
    if s.len() > 0 {
        lemma_first_enemy(s.drop_last());
        let m = spec_first_enemy(s).unwrap();
        if s.drop_last().len() > 0 {
            let pm = spec_first_enemy(s.drop_last()).unwrap();
            assert(s.drop_last().contains(pm));
            let k = choose|k: int| 0 <= k < s.drop_last().len() && s.drop_last()[k] == pm;
            assert(s[k] == pm);
            assert forall|j: int| 0 <= j < s.len() implies m <= #[trigger] s[j] by {
                if j < s.len() - 1 {
                    assert(s[j] == s.drop_last()[j]);
                }
            }
        }
        if m == s.last() {
            assert(s[s.len() - 1] == m);
        }
    }
}

/// The first enemy in the bar's order: the one with the lowest entity
/// number.
pub fn first_enemy(enemies: &Vec<EntityId>) -> (r: Option<EntityId>)
    ensures
        r == spec_first_enemy(enemies@),
        r is None <==> enemies@.len() == 0,
        r matches Some(m) ==> enemies@.contains(m) && forall|j: int| 0 <= j < enemies@.len() ==> m <= #[trigger] enemies@[j],
{
    proof {
        lemma_first_enemy(enemies@);
    }
    let mut best: Option<EntityId> = None;
    let mut i: usize = 0;
    while i < enemies.len()
        invariant
            i <= enemies@.len(),
            best == spec_first_enemy(enemies@.subrange(0, i as int)),
        decreases enemies@.len() - i,
    {
        proof {
            assert(enemies@.subrange(0, i as int + 1).drop_last() =~= enemies@.subrange(0, i as int));
        }
        let e = enemies[i];
        best = match best {
            Some(m) => Some(if e < m { e } else { m }),
            None => Some(e),
        };
        i = i + 1;
    }
    proof {
        assert(enemies@.subrange(0, enemies@.len() as int) =~= enemies@);
    }
    best
}

/// The bar after choosing `action` (usable or not), and what it sends.
/// An unusable option does nothing. Defend, wait and items act at once and
/// return the bar to browsing; an attack or an ability waits for a target,
/// aiming first at `first`.
pub open spec fn spec_choose(
    action: HudAction,
    usable: bool,
    st: CombatHudState,
    first: Option<EntityId>,
) -> (CombatHudState, Option<PlayerAction>) {
    if !usable {
        (st, None)
    } else {
        match action {
            HudAction::Defend => (CombatHudState { mode: HudMode::Idle, ..st }, Some(PlayerAction::Defend)),
            HudAction::Wait => (CombatHudState { mode: HudMode::Idle, ..st }, Some(PlayerAction::Wait)),
            HudAction::Item(id) => (
                CombatHudState { mode: HudMode::Idle, ..st },
                Some(PlayerAction::UseItem(id, None)),
            ),
            HudAction::Attack => (
                CombatHudState { mode: HudMode::AwaitingTarget(SelectedAction::Attack), target: first, ..st },
                None,
            ),
            HudAction::Ability(id) => (
                CombatHudState {
                    mode: HudMode::AwaitingTarget(SelectedAction::Ability(id)),
                    target: first,
                    ..st
                },
                None,
            ),
        }
    }
}

/// Choose a bar option: act at once, or start waiting for a target among
/// `enemies`.
pub fn choose_option(
    action: HudAction,
    usable: bool,
    state: &mut CombatHudState,
    enemies: &Vec<EntityId>,
) -> (r: Option<PlayerAction>)
    ensures
        (*final(state), r) == spec_choose(action, usable, *old(state), spec_first_enemy(enemies@)),
{
    if !usable {
        return None;
    }
    match action {
        HudAction::Defend => {
            state.mode = HudMode::Idle;
            Some(PlayerAction::Defend)
        },
        HudAction::Wait => {
            state.mode = HudMode::Idle;
            Some(PlayerAction::Wait)
        },
        HudAction::Item(id) => {
            state.mode = HudMode::Idle;
            Some(PlayerAction::UseItem(id, None))
        },
        HudAction::Attack => {
            state.mode = HudMode::AwaitingTarget(SelectedAction::Attack);
            state.target = first_enemy(enemies);
            None
        },
        HudAction::Ability(id) => {
            state.mode = HudMode::AwaitingTarget(SelectedAction::Ability(id));
            state.target = first_enemy(enemies);
            None
        },
    }
}

/// The request that commits `selected` on `target`.
pub open spec fn commit_action(selected: SelectedAction, target: EntityId) -> PlayerAction {
    match selected {
        SelectedAction::Attack => PlayerAction::Attack(target),
        SelectedAction::Ability(id) => PlayerAction::UseAbility(id as u32, target),
    }
}

/// The bar after a target is committed: browsing, no target.
pub open spec fn committed(st: CombatHudState) -> CombatHudState {
    CombatHudState { mode: HudMode::Idle, target: None, ..st }
}

/// Commit the chosen action on `target` and go back to browsing.
pub fn commit_target(selected: SelectedAction, target: EntityId, state: &mut CombatHudState) -> (r: PlayerAction)
    ensures
        r == commit_action(selected, target),
        *final(state) == committed(*old(state)),
{
    state.mode = HudMode::Idle;
    state.target = None;
    match selected {
        SelectedAction::Attack => PlayerAction::Attack(target),
        SelectedAction::Ability(id) => PlayerAction::UseAbility(id as u32, target),
    }
}

/// The bar after activating a top-level entry, and what it sends: a direct
/// entry is chosen like an option; a menu entry folds its menu in when it is
/// the open one, else opens it with the focus on its first option.
pub open spec fn spec_activate(
    kind: CategoryKind,
    usable: bool,
    st: CombatHudState,
    first: Option<EntityId>,
) -> (CombatHudState, Option<PlayerAction>) {
    match kind {
        CategoryKind::Direct(action) => spec_choose(action, usable, st, first),
        CategoryKind::Open(k) => if st.open == Some(k) {
            (CombatHudState { open: None, ..st }, None)
        } else {
            (CombatHudState { open: Some(k), opt_focus: 0, ..st }, None)
        },
    }
}

/// Activate a top-level entry of the bar.
pub fn activate_category(
    kind: CategoryKind,
    usable: bool,
    state: &mut CombatHudState,
    enemies: &Vec<EntityId>,
) -> (r: Option<PlayerAction>)
    ensures
        (*final(state), r) == spec_activate(kind, usable, *old(state), spec_first_enemy(enemies@)),
{
    match kind {
        CategoryKind::Direct(action) => choose_option(action, usable, state, enemies),
        CategoryKind::Open(k) => {
            if state.open == Some(k) {
                state.open = None;
            } else {
                state.open = Some(k);
                state.opt_focus = 0;
            }
            None
        },
    }
}

/// A click on the battlefield while a target is awaited: a right click
/// cancels the choice; a left click near an enemy (`picked`) commits on it.
/// Outside of target selection, or with nothing picked, nothing changes.
pub fn click_target(state: &mut CombatHudState, right_click: bool, picked: Option<EntityId>) -> (r: Option<PlayerAction>)
    ensures
        match old(state).mode {
            HudMode::AwaitingTarget(selected) => if right_click {
                r is None && *final(state) == committed(*old(state))
            } else {
                match picked {
                    Some(t) => r == Some(commit_action(selected, t)) && *final(state) == committed(*old(state)),
                    None => r is None && *final(state) == *old(state),
                }
            },
            HudMode::Idle => r is None && *final(state) == *old(state),
        },
{
    match state.mode {
        HudMode::AwaitingTarget(selected) => {
            if right_click {
                state.mode = HudMode::Idle;
                state.target = None;
                None
            } else {
                match picked {
                    Some(t) => Some(commit_target(selected, t, state)),
                    None => None,
                }
            }
        },
        HudMode::Idle => None,
    }
}

/// The keys pressed this frame; `digits` are the number keys 1 to 9.
#[derive(Clone, Copy, Debug, PartialEq, Eq)]
pub struct HudKeys {
    pub escape: bool,
    pub enter: bool,
    pub tab: bool,
    pub arrow_left: bool,
    pub arrow_right: bool,
    pub arrow_up: bool,
    pub arrow_down: bool,
    pub digits: [bool; 9],
}

/// An option shown in a folded-out menu: its menu, its place there, what it
/// does, and whether the active combatant can use it now.
#[derive(Clone, Copy, Debug, PartialEq, Eq, Structural)]
pub struct HudOption {
    pub flyout: FlyoutKind,
    pub index: usize,
    pub action: HudAction,
    pub usable: bool,
}

/// A top-level entry of the bar: its place, what it does, and whether the
/// active combatant can use it now (for a direct entry).
#[derive(Clone, Copy, Debug, PartialEq, Eq, Structural)]
pub struct HudCategory {
    pub index: usize,
    pub kind: CategoryKind,
    pub usable: bool,
}

/// How many of the first `n` options belong to menu `kind`.
pub open spec fn option_count(opts: Seq<HudOption>, kind: FlyoutKind, n: int) -> int
    decreases n,
{
    if n <= 0 {
        0
    } else {
        option_count(opts, kind, n - 1) + if opts[n - 1].flyout == kind { 1int } else { 0int }
    }
}

/// The first of the first `n` options of menu `kind` at place `focus`.
pub open spec fn find_option(opts: Seq<HudOption>, kind: FlyoutKind, focus: usize, n: int) -> Option<HudOption>
    decreases n,
{
    if n <= 0 {
        None
    } else {
        match find_option(opts, kind, focus, n - 1) {
            Some(o) => Some(o),
            None => if opts[n - 1].flyout == kind && opts[n - 1].index == focus {
                Some(opts[n - 1])
            } else {
                None
            },
        }
    }
}

/// The first of the first `n` bar entries at place `focus`.
pub open spec fn find_category(cats: Seq<HudCategory>, focus: usize, n: int) -> Option<HudCategory>
    decreases n,
{
    if n <= 0 {
        None
    } else {
        match find_category(cats, focus, n - 1) {
            Some(c) => Some(c),
            None => if cats[n - 1].index == focus { Some(cats[n - 1]) } else { None },
        }
    }
}

/// The highest number key among the first `n` that is pressed and whose
/// place is below `bound`.
pub open spec fn digit_pick(d: Seq<bool>, bound: int, n: int) -> Option<int>
    decreases n,
{
    if n <= 0 {
        None
    } else if d[n - 1] && n - 1 < bound {
        Some(n - 1)
    } else {
        digit_pick(d, bound, n - 1)
    }
}

/// The smallest of the first `n` enemies above `cur`.
pub open spec fn next_above(s: Seq<EntityId>, cur: EntityId, n: int) -> Option<EntityId>
    decreases n,
{
    if n <= 0 {
        None
    } else {
        let e = s[n - 1];
        match next_above(s, cur, n - 1) {
            Some(m) => Some(if cur < e && e < m { e } else { m }),
            None => if cur < e { Some(e) } else { None },
        }
    }
}

/// The largest of the first `n` enemies below `cur`.
pub open spec fn next_below(s: Seq<EntityId>, cur: EntityId, n: int) -> Option<EntityId>
    decreases n,
{
    if n <= 0 {
        None
    } else {
        let e = s[n - 1];
        match next_below(s, cur, n - 1) {
            Some(m) => Some(if e < cur && m < e { e } else { m }),
            None => if e < cur { Some(e) } else { None },
        }
    }
}

/// The highest entity number among `s`.
pub open spec fn spec_last_enemy(s: Seq<EntityId>) -> Option<EntityId>
    decreases s.len(),
{
    if s.len() == 0 {
        None
    } else {
        match spec_last_enemy(s.drop_last()) {
            Some(m) => Some(if m < s.last() { s.last() } else { m }),
            None => Some(s.last()),
        }
    }
}

/// The enemy the arrow keys move from: the current target when it is among
/// the enemies, else the first enemy.
pub open spec fn cursor(s: Seq<EntityId>, target: Option<EntityId>) -> EntityId {
    match target {
        Some(t) => if s.contains(t) { t } else { spec_first_enemy(s).unwrap() },
        None => spec_first_enemy(s).unwrap(),
    }
}

/// The enemy after (or, going back, before) the cursor in the order of
/// entity numbers, wrapping around at the ends.
pub open spec fn cycled_target(s: Seq<EntityId>, target: Option<EntityId>, forward: bool) -> EntityId {
    let c = cursor(s, target);
    if forward {
        match next_above(s, c, s.len() as int) {
            Some(e) => e,
            None => spec_first_enemy(s).unwrap(),
        }
    } else {
        match next_below(s, c, s.len() as int) {
            Some(e) => e,
            None => spec_last_enemy(s).unwrap(),
        }
    }
}

/// Keys while a target is awaited: right, down or Tab aim at the next enemy,
/// left or up at the previous one; with no aim yet, aim at the first enemy;
/// Enter commits. Without enemies nothing happens.
pub open spec fn spec_target_keys(
    st: CombatHudState,
    selected: SelectedAction,
    keys: HudKeys,
    enemies: Seq<EntityId>,
) -> (CombatHudState, Option<PlayerAction>) {
    if enemies.len() == 0 {
        (st, None)
    } else {
        let forward = keys.arrow_right || keys.tab || keys.arrow_down;
        let backward = keys.arrow_left || keys.arrow_up;
        let t1 = if forward || backward { Some(cycled_target(enemies, st.target, forward)) } else { st.target };
        let t2 = if t1 is None { spec_first_enemy(enemies) } else { t1 };
        let s1 = CombatHudState { target: t2, ..st };
        if keys.enter && t2 is Some {
            (committed(s1), Some(commit_action(selected, t2->0)))
        } else {
            (s1, None)
        }
    }
}

/// A wrapped move of a focus: one step down (or right) and then one step up
/// (or left), over `count` places.
pub open spec fn moved_focus(focus: usize, count: int, down: bool, up: bool) -> int {
    let f1 = if down { (focus + 1) % count } else { focus as int };
    if up { (f1 + count - 1) % count } else { f1 }
}

/// Keys in an open menu: up and down move the focus round the menu, a
/// number key jumps to its option, left folds the menu in, Enter chooses the
/// focused option (once the active combatant is known).
pub open spec fn spec_flyout_keys(
    st: CombatHudState,
    kind: FlyoutKind,
    keys: HudKeys,
    enemies: Seq<EntityId>,
    options: Seq<HudOption>,
    ready: bool,
) -> (CombatHudState, Option<PlayerAction>) {
    let n = option_count(options, kind, options.len() as int);
    let count = if n == 0 { 1 } else { n };
    let f2 = moved_focus(st.opt_focus, count, keys.arrow_down, keys.arrow_up);
    let f3 = match digit_pick(keys.digits@, n, 9) {
        Some(i) => i,
        None => f2,
    };
    let s1 = CombatHudState { opt_focus: f3 as usize, ..st };
    if keys.arrow_left {
        (CombatHudState { open: None, ..s1 }, None)
    } else if keys.enter && ready {
        match find_option(options, kind, f3 as usize, options.len() as int) {
            Some(o) => spec_choose(o.action, o.usable, s1, spec_first_enemy(enemies)),
            None => (s1, None),
        }
    } else {
        (s1, None)
    }
}

/// Keys on the bar itself: left and right move the focus round the entries,
/// a number key jumps to its entry, Enter or up activates the focused entry
/// (once the active combatant is known).
pub open spec fn spec_category_keys(
    st: CombatHudState,
    keys: HudKeys,
    enemies: Seq<EntityId>,
    categories: Seq<HudCategory>,
    ready: bool,
) -> (CombatHudState, Option<PlayerAction>) {
    let count = if st.cat_count == 0 { 1 } else { st.cat_count as int };
    let f2 = moved_focus(st.cat_focus, count, keys.arrow_right, keys.arrow_left);
    let f3 = match digit_pick(keys.digits@, count, 9) {
        Some(i) => i,
        None => f2,
    };
    let s1 = CombatHudState { cat_focus: f3 as usize, ..st };
    if (keys.enter || keys.arrow_up) && ready {
        match find_category(categories, f3 as usize, categories.len() as int) {
            Some(c) => spec_activate(c.kind, c.usable, s1, spec_first_enemy(enemies)),
            None => (s1, None),
        }
    } else {
        (s1, None)
    }
}

/// One frame of keys on the bar. Escape first cancels a target choice, else
/// folds in an open menu; otherwise the keys act on the target choice, the
/// open menu or the bar.
pub open spec fn spec_keyboard(
    st: CombatHudState,
    keys: HudKeys,
    enemies: Seq<EntityId>,
    options: Seq<HudOption>,
    categories: Seq<HudCategory>,
    ready: bool,
) -> (CombatHudState, Option<PlayerAction>) {
    if keys.escape && st.mode != HudMode::Idle {
        (CombatHudState { mode: HudMode::Idle, ..st }, None)
    } else if keys.escape && st.open is Some {
        (CombatHudState { open: None, ..st }, None)
    } else {
        match st.mode {
            HudMode::AwaitingTarget(selected) => spec_target_keys(st, selected, keys, enemies),
            HudMode::Idle => match st.open {
                Some(kind) => spec_flyout_keys(st, kind, keys, enemies, options, ready),
                None => spec_category_keys(st, keys, enemies, categories, ready),
            },
        }
    }
}

/// The focus moves of a frame stay within `usize`.
pub open spec fn focus_fits(focus: usize, count: int, down: bool, up: bool) -> bool {
    &&& down ==> focus + 1 <= usize::MAX
    &&& up ==> (if down { (focus + 1) % count } else { focus as int }) + count - 1 <= usize::MAX
}

/// The keys of a frame move no focus past `usize::MAX`.
pub open spec fn keyboard_fits(st: CombatHudState, keys: HudKeys, options: Seq<HudOption>) -> bool {
    match st.open {
        Some(kind) => {
            let n = option_count(options, kind, options.len() as int);
            focus_fits(st.opt_focus, if n == 0 { 1 } else { n }, keys.arrow_down, keys.arrow_up)
        },
        None => focus_fits(
            st.cat_focus,
            if st.cat_count == 0 { 1 } else { st.cat_count as int },
            keys.arrow_right,
            keys.arrow_left,
        ),
    }
}

proof fn lemma_option_count_bounds(opts: Seq<HudOption>, kind: FlyoutKind, n: int)
    requires
        0 <= n <= opts.len(),
    ensures
        0 <= option_count(opts, kind, n) <= n,
    decreases n,
{
    if n > 0 {
        lemma_option_count_bounds(opts, kind, n - 1);
    }
}

fn count_options(options: &Vec<HudOption>, kind: FlyoutKind) -> (r: usize)
    ensures
        r == option_count(options@, kind, options@.len() as int),
{
    let mut n: usize = 0;
    let mut i: usize = 0;
    while i < options.len()
        invariant
            i <= options@.len(),
            n == option_count(options@, kind, i as int),
        decreases options@.len() - i,
    {
        proof {
            lemma_option_count_bounds(options@, kind, i as int);
        }
        if options[i].flyout == kind {
            n = n + 1;
        }
        i = i + 1;
    }
    n
}

proof fn lemma_find_option_stays(opts: Seq<HudOption>, kind: FlyoutKind, focus: usize, k: int, m: int)
    requires
        0 <= k <= m,
        find_option(opts, kind, focus, k) is Some,
    ensures
        find_option(opts, kind, focus, m) == find_option(opts, kind, focus, k),
    decreases m - k,
{
    if m > k {
        lemma_find_option_stays(opts, kind, focus, k, m - 1);
    }
}

proof fn lemma_find_category_stays(cats: Seq<HudCategory>, focus: usize, k: int, m: int)
    requires
        0 <= k <= m,
        find_category(cats, focus, k) is Some,
    ensures
        find_category(cats, focus, m) == find_category(cats, focus, k),
    decreases m - k,
{
    if m > k {
        lemma_find_category_stays(cats, focus, k, m - 1);
    }
}

fn first_option(options: &Vec<HudOption>, kind: FlyoutKind, focus: usize) -> (r: Option<HudOption>)
    ensures
        r == find_option(options@, kind, focus, options@.len() as int),
{
    let mut i: usize = 0;
    while i < options.len()
        invariant
            i <= options@.len(),
            find_option(options@, kind, focus, i as int) is None,
        decreases options@.len() - i,
    {
        if options[i].flyout == kind && options[i].index == focus {
            proof {
                lemma_find_option_stays(options@, kind, focus, i as int + 1, options@.len() as int);
            }
            return Some(options[i]);
        }
        i = i + 1;
    }
    None
}

fn first_category(categories: &Vec<HudCategory>, focus: usize) -> (r: Option<HudCategory>)
    ensures
        r == find_category(categories@, focus, categories@.len() as int),
{
    let mut i: usize = 0;
    while i < categories.len()
        invariant
            i <= categories@.len(),
            find_category(categories@, focus, i as int) is None,
        decreases categories@.len() - i,
    {
        if categories[i].index == focus {
            proof {
                lemma_find_category_stays(categories@, focus, i as int + 1, categories@.len() as int);
            }
            return Some(categories[i]);
        }
        i = i + 1;
    }
    None
}

fn pick_digit(digits: &[bool; 9], bound: usize) -> (r: Option<usize>)
    ensures
        r matches Some(i) ==> digit_pick(digits@, bound as int, 9) == Some(i as int),
        r is None ==> digit_pick(digits@, bound as int, 9) is None,
{
    let mut best: Option<usize> = None;
    let mut i: usize = 0;
    while i < 9
        invariant
            i <= 9,
            best matches Some(j) ==> digit_pick(digits@, bound as int, i as int) == Some(j as int),
            best is None ==> digit_pick(digits@, bound as int, i as int) is None,
        decreases 9 - i,
    {
        if digits[i] && i < bound {
            best = Some(i);
        }
        i = i + 1;
    }
    best
}

proof fn lemma_last_enemy(s: Seq<EntityId>)
    ensures
        spec_last_enemy(s) is None <==> s.len() == 0,
    decreases s.len(),
{
    if s.len() > 0 {
        lemma_last_enemy(s.drop_last());
    }
}

fn last_enemy(enemies: &Vec<EntityId>) -> (r: Option<EntityId>)
    ensures
        r == spec_last_enemy(enemies@),
{
    let mut best: Option<EntityId> = None;
    let mut i: usize = 0;
    while i < enemies.len()
        invariant
            i <= enemies@.len(),
            best == spec_last_enemy(enemies@.subrange(0, i as int)),
        decreases enemies@.len() - i,
    {
        proof {
            assert(enemies@.subrange(0, i as int + 1).drop_last() =~= enemies@.subrange(0, i as int));
        }
        let e = enemies[i];
        best = match best {
            Some(m) => Some(if m < e { e } else { m }),
            None => Some(e),
        };
        i = i + 1;
    }
    proof {
        assert(enemies@.subrange(0, enemies@.len() as int) =~= enemies@);
    }
    best
}

fn contains_enemy(enemies: &Vec<EntityId>, t: EntityId) -> (r: bool)
    ensures
        r == enemies@.contains(t),
{
    let mut i: usize = 0;
    while i < enemies.len()
        invariant
            i <= enemies@.len(),
            forall|j: int| 0 <= j < i ==> enemies@[j] != t,
        decreases enemies@.len() - i,
    {
        if enemies[i] == t {
            return true;
        }
        i = i + 1;
    }
    false
}

/// The enemy the arrow keys aim at next; the entities are distinct, so this
/// is the neighbour in the order of entity numbers.
fn cycle_target(enemies: &Vec<EntityId>, target: Option<EntityId>, forward: bool) -> (r: EntityId)
    requires
        enemies@.len() > 0,
    ensures
        r == cycled_target(enemies@, target, forward),
{
    proof {
        lemma_first_enemy(enemies@);
        lemma_last_enemy(enemies@);
    }
    let first = first_enemy(enemies).unwrap();
    let c = match target {
        Some(t) => if contains_enemy(enemies, t) { t } else { first },
        None => first,
    };
    let mut best: Option<EntityId> = None;
    let mut i: usize = 0;
    while i < enemies.len()
        invariant
            i <= enemies@.len(),
            forward ==> best == next_above(enemies@, c, i as int),
            !forward ==> best == next_below(enemies@, c, i as int),
        decreases enemies@.len() - i,
    {
        let e = enemies[i];
        if forward {
            best = match best {
                Some(m) => Some(if c < e && e < m { e } else { m }),
                None => if c < e { Some(e) } else { None },
            };
        } else {
            best = match best {
                Some(m) => Some(if e < c && m < e { e } else { m }),
                None => if e < c { Some(e) } else { None },
            };
        }
        i = i + 1;
    }
    match best {
        Some(e) => e,
        None => if forward { first } else { last_enemy(enemies).unwrap() },
    }
}

/// Act on one frame of keys: the bar's new state and the request it sends,
/// if any. `enemies` are the living enemies, `options` the options of the
/// menus, `categories` the bar's entries, and `ready` says whether the
/// active combatant's stats are known.
pub fn handle_keyboard(
    state: &mut CombatHudState,
    keys: HudKeys,
    enemies: &Vec<EntityId>,
    options: &Vec<HudOption>,
    categories: &Vec<HudCategory>,
    ready: bool,
) -> (r: Option<PlayerAction>)
    requires
        keyboard_fits(*old(state), keys, options@),
    ensures
        (*final(state), r) == spec_keyboard(*old(state), keys, enemies@, options@, categories@, ready),
{
    if keys.escape {
        if state.mode != HudMode::Idle {
            state.mode = HudMode::Idle;
            return None;
        }
        if state.open.is_some() {
            state.open = None;
            return None;
        }
    }
    match state.mode {
        HudMode::AwaitingTarget(selected) => {
            if enemies.len() == 0 {
                return None;
            }
            let forward = keys.arrow_right || keys.tab || keys.arrow_down;
            let backward = keys.arrow_left || keys.arrow_up;
            if forward || backward {
                state.target = Some(cycle_target(enemies, state.target, forward));
            }
            if state.target.is_none() {
                state.target = first_enemy(enemies);
            }
            if keys.enter {
                if let Some(t) = state.target {
                    return Some(commit_target(selected, t, state));
                }
            }
            None
        },
        HudMode::Idle => {
            match state.open {
                Some(kind) => {
                    let n = count_options(options, kind);
                    let count = if n == 0 { 1 } else { n };
                    if keys.arrow_down {
                        state.opt_focus = (state.opt_focus + 1) % count;
                    }
                    if keys.arrow_up {
                        state.opt_focus = (state.opt_focus + (count - 1)) % count;
                    }
                    if let Some(i) = pick_digit(&keys.digits, n) {
                        state.opt_focus = i;
                    }
                    if keys.arrow_left {
                        state.open = None;
                        return None;
                    }
                    if keys.enter && ready {
                        if let Some(o) = first_option(options, kind, state.opt_focus) {
                            return choose_option(o.action, o.usable, state, enemies);
                        }
                    }
                    None
                },
                None => {
                    let count = if state.cat_count == 0 { 1 } else { state.cat_count };
                    if keys.arrow_right {
                        state.cat_focus = (state.cat_focus + 1) % count;
                    }
                    if keys.arrow_left {
                        state.cat_focus = (state.cat_focus + (count - 1)) % count;
                    }
                    if let Some(i) = pick_digit(&keys.digits, count) {
                        state.cat_focus = i;
                    }
                    if (keys.enter || keys.arrow_up) && ready {
                        if let Some(c) = first_category(categories, state.cat_focus) {
                            return activate_category(c.kind, c.usable, state, enemies);
                        }
                    }
                    None
                },
            }
        },
    }
}

/// The pointer's state over a bar entry or menu option, as last changed.
#[derive(Clone, Copy, Debug, PartialEq, Eq, Structural)]
pub enum PointerState {
    Away,
    Hovered,
    Pressed,
}

/// The bar after the pointer changed over the first `n` entries in turn, and
/// the requests sent: hovering or pressing focuses an entry, pressing also
/// activates it.
pub open spec fn pointer_categories(
    st: CombatHudState,
    evs: Seq<(HudCategory, PointerState)>,
    first: Option<EntityId>,
    n: int,
) -> (CombatHudState, Seq<PlayerAction>)
    decreases n,
{
    if n <= 0 {
        (st, Seq::empty())
    } else {
        let (s0, acts) = pointer_categories(st, evs, first, n - 1);
        let (c, p) = evs[n - 1];
        let s1 = if p != PointerState::Away { CombatHudState { cat_focus: c.index, ..s0 } } else { s0 };
        if p == PointerState::Pressed {
            let (s2, a) = spec_activate(c.kind, c.usable, s1, first);
            (s2, match a { Some(x) => acts.push(x), None => acts })
        } else {
            (s1, acts)
        }
    }
}

/// The bar after the pointer changed over the first `n` menu options in
/// turn, and the requests sent: hovering or pressing opens the option's menu
/// and focuses it, pressing also chooses it.
pub open spec fn pointer_options(
    st: CombatHudState,
    evs: Seq<(HudOption, PointerState)>,
    first: Option<EntityId>,
    n: int,
) -> (CombatHudState, Seq<PlayerAction>)
    decreases n,
{
    if n <= 0 {
        (st, Seq::empty())
    } else {
        let (s0, acts) = pointer_options(st, evs, first, n - 1);
        let (o, p) = evs[n - 1];
        let s1 = if p != PointerState::Away {
            CombatHudState { open: Some(o.flyout), opt_focus: o.index, ..s0 }
        } else {
            s0
        };
        if p == PointerState::Pressed {
            let (s2, a) = spec_choose(o.action, o.usable, s1, first);
            (s2, match a { Some(x) => acts.push(x), None => acts })
        } else {
            (s1, acts)
        }
    }
}

/// One frame of pointer changes on the bar: while browsing, with the active
/// combatant's stats known, the changes over the entries and then over the
/// options act in turn; otherwise nothing happens.
pub open spec fn spec_pointer(
    st: CombatHudState,
    category_events: Seq<(HudCategory, PointerState)>,
    option_events: Seq<(HudOption, PointerState)>,
    enemies: Seq<EntityId>,
    ready: bool,
) -> (CombatHudState, Seq<PlayerAction>) {
    if st.mode != HudMode::Idle || !ready {
        (st, Seq::empty())
    } else {
        let first = spec_first_enemy(enemies);
        let (s1, a1) = pointer_categories(st, category_events, first, category_events.len() as int);
        let (s2, a2) = pointer_options(s1, option_events, first, option_events.len() as int);
        (s2, a1 + a2)
    }
}

/// Act on one frame of pointer changes over the bar's entries and the
/// options of its menus; the requests come out in order.
pub fn handle_pointer(
    state: &mut CombatHudState,
    category_events: &Vec<(HudCategory, PointerState)>,
    option_events: &Vec<(HudOption, PointerState)>,
    enemies: &Vec<EntityId>,
    ready: bool,
) -> (r: Vec<PlayerAction>)
    ensures
        (*final(state), r@) == spec_pointer(*old(state), category_events@, option_events@, enemies@, ready),
{
    let mut out: Vec<PlayerAction> = Vec::new();
    if state.mode != HudMode::Idle || !ready {
        return out;
    }
    let ghost st0 = *state;
    let ghost first = spec_first_enemy(enemies@);
    let mut i: usize = 0;
    while i < category_events.len()
        invariant
            i <= category_events@.len(),
            first == spec_first_enemy(enemies@),
            (*state, out@) == pointer_categories(st0, category_events@, first, i as int),
        decreases category_events@.len() - i,
    {
        let (c, p) = category_events[i];
        if p != PointerState::Away {
            state.cat_focus = c.index;
        }
        if p == PointerState::Pressed {
            if let Some(a) = activate_category(c.kind, c.usable, state, enemies) {
                out.push(a);
            }
        }
        i = i + 1;
    }
    let ghost st1 = *state;
    let ghost a1 = out@;
    let mut more: Vec<PlayerAction> = Vec::new();
    let mut j: usize = 0;
    while j < option_events.len()
        invariant
            j <= option_events@.len(),
            first == spec_first_enemy(enemies@),
            (*state, more@) == pointer_options(st1, option_events@, first, j as int),
        decreases option_events@.len() - j,
    {
        let (o, p) = option_events[j];
        if p != PointerState::Away {
            state.open = Some(o.flyout);
            state.opt_focus = o.index;
        }
        if p == PointerState::Pressed {
            if let Some(a) = choose_option(o.action, o.usable, state, enemies) {
                more.push(a);
            }
        }
        j = j + 1;
    }
    out.append(&mut more);
    proof {
        assert(out@ =~= a1 + pointer_options(st1, option_events@, first, option_events@.len() as int).1);
    }
    out
}

/// A heading under which the skills menu lists abilities: one school's
/// magic, or (with no school) the techniques that cost no magic.
#[derive(Clone, Copy, Debug, PartialEq, Eq)]
pub struct AbilityGroup {
    pub label: &'static str,
    pub school: Option<MagicSchool>,
}

/// Whether an ability goes under `g`: a magic heading takes the abilities of
/// its school that cost magic, the techniques heading those that cost none.
pub open spec fn group_takes(g: AbilityGroup, a: Ability) -> bool {
    match g.school {
        Some(s) => a.magic_cost > 0 && a.magic_school == s,
        None => a.magic_cost == 0,
    }
}

impl AbilityGroup {
    /// Whether `a` is listed under this heading.
    pub fn matches(&self, a: &Ability) -> (r: bool)
        ensures
            r == group_takes(*self, *a),
    {
        match self.school {
            Some(s) => a.magic_cost > 0 && a.magic_school == s,
            None => a.magic_cost == 0,
        }
    }
}

/// The skills menu's headings in order: the four schools, then techniques.
pub fn ability_groups() -> (r: Vec<AbilityGroup>)
    ensures
        r@.len() == 5,
        r@[0].school == Some(MagicSchool::Kiho),
        r@[1].school == Some(MagicSchool::Onmyodo),
        r@[2].school == Some(MagicSchool::Yokaijutsu),
        r@[3].school == Some(MagicSchool::Kamishin),
        r@[4].school is None,
        r@[0].label@ == "Kihō"@,
        r@[1].label@ == "Onmyōdō"@,
        r@[2].label@ == "Yōkaijutsu"@,
        r@[3].label@ == "Kamishin"@,
        r@[4].label@ == "Techniques"@,
{
    vec![
        AbilityGroup { label: "Kihō", school: Some(MagicSchool::Kiho) },
        AbilityGroup { label: "Onmyōdō", school: Some(MagicSchool::Onmyodo) },
        AbilityGroup { label: "Yōkaijutsu", school: Some(MagicSchool::Yokaijutsu) },
        AbilityGroup { label: "Kamishin", school: Some(MagicSchool::Kamishin) },
        AbilityGroup { label: "Techniques", school: None },
    ]
}

/// Law: the skills menu lists every ability under exactly one heading of
/// `ability_groups`: its school's when it costs magic, "Techniques" when it
/// costs none.
pub proof fn lemma_each_ability_under_one_heading(groups: Seq<AbilityGroup>, a: Ability)
    requires
        groups.len() == 5,
        groups[0].school == Some(MagicSchool::Kiho),
        groups[1].school == Some(MagicSchool::Onmyodo),
        groups[2].school == Some(MagicSchool::Yokaijutsu),
        groups[3].school == Some(MagicSchool::Kamishin),
        groups[4].school is None,
    ensures
        exists|i: int| 0 <= i < 5 && #[trigger] group_takes(groups[i], a),
        forall|i: int, j: int|
            0 <= i < 5 && 0 <= j < 5 && #[trigger] group_takes(groups[i], a) && #[trigger] group_takes(groups[j], a)
                ==> i == j,
{
    let k: int = if a.magic_cost == 0 {
        4
    } else {
        match a.magic_school {
            MagicSchool::Kiho => 0,
            MagicSchool::Onmyodo => 1,
            MagicSchool::Yokaijutsu => 2,
            MagicSchool::Kamishin => 3,
        }
    };
    assert(group_takes(groups[k], a));
}

/// A stand-in for an ability the tree does not hold: named "Ability {id}",
/// free, with no effect, aimed at one selected target.
pub fn placeholder_ability(id: u16) -> (r: Ability)
    ensures
        r.id == id,
        r.next_id is None,
        r.name@ == "Ability "@ + decimal(id as nat),
        r.health_cost == 0,
        r.magic_cost == 0,
        r.magic_school == MagicSchool::Kiho,
        r.element is None,
        r.action_point_cost == 0,
        r.cooldown == 0,
        r.description@.len() == 0,
        r.effects@.len() == 0,
        r.shape == AbilityShape::Select,
        r.duration == 0,
        r.targets == 1,
{
    let mut name = String::from_str("Ability ");
    append_decimal(&mut name, id as u32);
    Ability {
        id,
        next_id: None,
        name,
        health_cost: 0,
        magic_cost: 0,
        magic_school: MagicSchool::Kiho,
        element: None,
        action_point_cost: 0,
        cooldown: 0,
        description: String::new(),
        effects: Vec::new(),
        shape: AbilityShape::Select,
        duration: 0,
        targets: 1,
    }
}

/// A school's short mark.
pub open spec fn school_short(s: MagicSchool) -> Seq<char> {
    match s {
        MagicSchool::Kiho => "Ki"@,
        MagicSchool::Onmyodo => "On"@,
        MagicSchool::Yokaijutsu => "Yō"@,
        MagicSchool::Kamishin => "Ka"@,
    }
}

/// A school's short mark.
pub fn magic_school_short(s: MagicSchool) -> (r: &'static str)
    ensures
        r@ == school_short(s),
{
    match s {
        MagicSchool::Kiho => "Ki",
        MagicSchool::Onmyodo => "On",
        MagicSchool::Yokaijutsu => "Yō",
        MagicSchool::Kamishin => "Ka",
    }
}

/// A cost given in hundredths, rounded to a whole number, halves to even.
pub open spec fn whole_points(c: nat) -> nat {
    let q = c / 100;
    let r = c % 100;
    if r > 50 || (r == 50 && q % 2 == 1) { q + 1 } else { q }
}

fn round_points(c: u32) -> (r: u32)
    ensures
        r == whole_points(c as nat),
{
    let q = c / 100;
    let r = c % 100;
    if r > 50 || (r == 50 && q % 2 == 1) { q + 1 } else { q }
}

/// The pieces joined with `sep` between them.
pub open spec fn join(parts: Seq<Seq<char>>, sep: Seq<char>) -> Seq<char>
    decreases parts.len(),
{
    if parts.len() == 0 {
        Seq::empty()
    } else if parts.len() == 1 {
        parts[0]
    } else {
        join(parts.drop_last(), sep) + sep + parts.last()
    }
}

fn join_parts(parts: &Vec<String>, sep: &str) -> (r: String)
    ensures
        r@ == join(parts@.map_values(|p: String| p@), sep@),
{
    let ghost views = parts@.map_values(|p: String| p@);
    let mut out = String::new();
    let mut i: usize = 0;
    while i < parts.len()
        invariant
            i <= parts@.len(),
            views == parts@.map_values(|p: String| p@),
            out@ == join(views.take(i as int), sep@),
        decreases parts@.len() - i,
    {
        proof {
            assert(views.take(i as int + 1).drop_last() =~= views.take(i as int));
        }
        if i > 0 {
            out.append(sep);
        }
        out.append(parts[i].as_str());
        proof {
            if i == 0 {
                assert(out@ =~= views.take(1)[0]);
            }
            assert(out@ =~= join(views.take(i as int + 1), sep@));
        }
        i = i + 1;
    }
    proof {
        assert(views.take(parts@.len() as int) =~= views);
    }
    out
}

/// The cost marks of an ability's menu line: action points, magic (rounded)
/// with its school, cooldown; each only when non-zero.
pub open spec fn ability_badges(a: Ability) -> Seq<Seq<char>> {
    (if a.action_point_cost > 0 { seq![signed_decimal(a.action_point_cost as int) + " AP"@] } else { seq![] })
        + (if a.magic_cost > 0 {
        seq![decimal(whole_points(a.magic_cost as nat)) + " "@ + school_short(a.magic_school)]
    } else {
        seq![]
    }) + (if a.cooldown > 0 { seq!["CD "@ + decimal(a.cooldown as nat)] } else { seq![] })
}

/// An ability's menu line: its name, then its cost marks in brackets when it
/// has any.
pub open spec fn ability_label(a: Ability) -> Seq<char> {
    let badges = ability_badges(a);
    if badges.len() == 0 {
        a.name@
    } else {
        a.name@ + "   ["@ + join(badges, " · "@) + "]"@
    }
}

/// An ability's menu line, e.g. "Fire Palm   [2 AP · 5 Ki · CD 3]".
pub fn format_ability_label(ability: &Ability) -> (r: String)
    ensures
        r@ == ability_label(*ability),
{
    let mut badges: Vec<String> = Vec::new();
    let ghost mut expect: Seq<Seq<char>> = seq![];
    if ability.action_point_cost > 0 {
        let mut b = String::new();
        append_signed(&mut b, ability.action_point_cost);
        b.append(" AP");
        badges.push(b);
        proof {
            expect = expect.push(signed_decimal(ability.action_point_cost as int) + " AP"@);
        }
    }
    if ability.magic_cost > 0 {
        let mut b = String::new();
        append_decimal(&mut b, round_points(ability.magic_cost));
        b.append(" ");
        b.append(magic_school_short(ability.magic_school));
        badges.push(b);
        proof {
            expect = expect.push(decimal(whole_points(ability.magic_cost as nat)) + " "@ + school_short(ability.magic_school));
        }
    }
    if ability.cooldown > 0 {
        let mut b = String::from_str("CD ");
        append_decimal(&mut b, ability.cooldown as u32);
        badges.push(b);
        proof {
            expect = expect.push("CD "@ + decimal(ability.cooldown as nat));
        }
    }
    proof {
        assert(expect =~= ability_badges(*ability));
        assert(badges@.map_values(|p: String| p@) =~= expect);
    }
    if badges.len() == 0 {
        return ability.name.clone();
    }
    let mut out = ability.name.clone();
    out.append("   [");
    let joined = join_parts(&badges, " · ");
    out.append(joined.as_str());
    out.append("]");
    proof {
        assert(out@ =~= ability_label(*ability));
    }
    out
}

/// An item's menu line: its name, then the action-point cost of using an
/// item and what the item does, in brackets.
pub open spec fn item_label(def: InventoryItemDefinition, item_cost: i32) -> Seq<char> {
    let detail = match def.kind {
        InventoryItemKind::Consumable { effect: ConsumableEffect::Heal { amount }, .. } => "heal "@ + decimal(amount as nat),
        InventoryItemKind::Equipment(_) => "equipment"@,
    };
    def.name@ + "   ["@ + signed_decimal(item_cost as int) + " AP · "@ + detail + "]"@
}

/// An item's menu line, e.g. "Field Medicine   [1 AP · heal 35]";
/// `item_cost` is the action-point cost of using an item.
pub fn format_item_label(def: &InventoryItemDefinition, item_cost: i32) -> (r: String)
    ensures
        r@ == item_label(*def, item_cost),
{
    let mut out = def.name.clone();
    out.append("   [");
    append_signed(&mut out, item_cost);
    out.append(" AP · ");
    match def.kind {
        InventoryItemKind::Consumable { effect: ConsumableEffect::Heal { amount }, .. } => {
            out.append("heal ");
            append_decimal(&mut out, amount);
        },
        InventoryItemKind::Equipment(_) => {
            out.append("equipment");
        },
    }
    out.append("]");
    proof {
        assert(out@ =~= item_label(*def, item_cost));
    }
    out
}

/// The first amount an ability rolls: "≈floor–ceiling" and what it rolls
/// (damage, healing or sanity); empty when it rolls nothing.
pub open spec fn estimate_upto(effects: Seq<AbilityEffect>, n: int) -> Seq<char>
    decreases n,
{
    if n <= 0 {
        Seq::empty()
    } else {
        let earlier = estimate_upto(effects, n - 1);
        if earlier.len() > 0 {
            earlier
        } else {
            match effects[n - 1] {
                AbilityEffect::Damage { floor, ceiling, .. } => "≈"@ + decimal(floor as nat) + "–"@ + decimal(ceiling as nat) + " dmg"@,
                AbilityEffect::Heal { floor, ceiling, .. } => "≈"@ + decimal(floor as nat) + "–"@ + decimal(ceiling as nat) + " heal"@,
                AbilityEffect::DrainMorale { floor, ceiling, .. } => "≈"@ + decimal(floor as nat) + "–"@ + decimal(ceiling as nat) + " sanity"@,
                _ => Seq::empty(),
            }
        }
    }
}

fn range_text(floor: u32, ceiling: u32, what: &str) -> (r: String)
    ensures
        r@ == "≈"@ + decimal(floor as nat) + "–"@ + decimal(ceiling as nat) + what@,
{
    let mut out = String::from_str("≈");
    append_decimal(&mut out, floor);
    out.append("–");
    append_decimal(&mut out, ceiling);
    out.append(what);
    out
}

proof fn lemma_decimal_nonempty(n: nat)
    ensures
        decimal(n).len() > 0,
    decreases n,
{
    if n >= 10 {
        lemma_decimal_nonempty(n / 10);
    }
}

/// The first amount an ability rolls, e.g. "≈4–9 dmg"; empty when it rolls
/// nothing.
pub fn ability_estimate(ability: &Ability) -> (r: String)
    ensures
        r@ == estimate_upto(ability.effects@, ability.effects@.len() as int),
{
    let mut i: usize = 0;
    while i < ability.effects.len()
        invariant
            i <= ability.effects@.len(),
            estimate_upto(ability.effects@, i as int).len() == 0,
        decreases ability.effects@.len() - i,
    {
        let found = match &ability.effects[i] {
            AbilityEffect::Damage { floor, ceiling, .. } => Some(range_text(*floor, *ceiling, " dmg")),
            AbilityEffect::Heal { floor, ceiling, .. } => Some(range_text(*floor, *ceiling, " heal")),
            AbilityEffect::DrainMorale { floor, ceiling, .. } => Some(range_text(*floor, *ceiling, " sanity")),
            _ => None,
        };
        match found {
            Some(text) => {
                proof {
                    assert(estimate_upto(ability.effects@, i as int + 1) == text@);
                    lemma_estimate_stays(ability.effects@, i as int + 1, ability.effects@.len() as int);
                }
                return text;
            },
            None => {},
        }
        i = i + 1;
    }
    String::new()
}

proof fn lemma_estimate_stays(effects: Seq<AbilityEffect>, k: int, m: int)
    requires
        0 <= k <= m,
        estimate_upto(effects, k).len() > 0,
    ensures
        estimate_upto(effects, m) == estimate_upto(effects, k),
    decreases m - k,
{
    if m > k {
        lemma_estimate_stays(effects, k, m - 1);
    }
}

/// The ability behind an optional reference.
pub open spec fn owned(a: Option<&Ability>) -> Option<Ability> {
    match a {
        Some(x) => Some(*x),
        None => None,
    }
}

/// What the active combatant's statuses forbid: any action (terrified),
/// items, magic abilities (silenced).
#[derive(Clone, Copy, Debug, PartialEq, Eq, Structural)]
pub struct ActionGates {
    pub block_attacks: bool,
    pub block_items: bool,
    pub block_magic_abilities: bool,
}

/// Whether an option can be used now, and if not, a short reason.
#[derive(Clone, Debug)]
pub struct Usability {
    pub enabled: bool,
    pub reason: Option<String>,
}

/// The reason an option cannot be used now, or `None` when it can. The
/// checks come in order: a terrified combatant cannot act; a silenced one
/// cannot use items or magic abilities; then the action points, and for an
/// ability its magic (at `scaled_cost` hundredths, after the combatant's cost
/// multipliers), must be there. `ability` is what the combatant's tree holds
/// under an ability option's id; an ability the tree lacks is not checked.
pub open spec fn block_reason(
    action: HudAction,
    gates: ActionGates,
    stats: CombatStats,
    ability: Option<Ability>,
    scaled_cost: i32,
    attack_cost: i32,
    item_cost: i32,
) -> Option<Seq<char>> {
    match action {
        HudAction::Defend | HudAction::Wait => None,
        HudAction::Attack => if gates.block_attacks {
            Some("Can't act (Terrified)"@)
        } else if !can_pay(stats.action_points.current, attack_cost) {
            Some("Needs "@ + signed_decimal(attack_cost as int) + " AP"@)
        } else {
            None
        },
        HudAction::Item(_) => if gates.block_attacks {
            Some("Can't act (Terrified)"@)
        } else if gates.block_items {
            Some("Items blocked (Silenced)"@)
        } else if !can_pay(stats.action_points.current, item_cost) {
            Some("Needs "@ + signed_decimal(item_cost as int) + " AP"@)
        } else {
            None
        },
        HudAction::Ability(_) => match ability {
            None => None,
            Some(a) => if gates.block_attacks {
                Some("Can't act (Terrified)"@)
            } else if a.magic_cost > 0 && gates.block_magic_abilities {
                Some("Magic blocked (Silenced)"@)
            } else if !can_pay(stats.action_points.current, a.action_point_cost) {
                Some("Needs "@ + signed_decimal(a.action_point_cost as int) + " AP"@)
            } else if !can_pay(stats.spec_pool(a.magic_school).current, scaled_cost) {
                Some("Needs "@ + decimal(whole_points(scaled_cost as nat)) + " "@ + school_short(a.magic_school))
            } else {
                None
            },
        },
    }
}

fn needs_ap(cost: i32) -> (r: Usability)
    ensures
        !r.enabled,
        r.reason matches Some(t) && t@ == "Needs "@ + signed_decimal(cost as int) + " AP"@,
{
    let mut t = String::from_str("Needs ");
    append_signed(&mut t, cost);
    t.append(" AP");
    Usability { enabled: false, reason: Some(t) }
}

fn blocked(reason: &str) -> (r: Usability)
    ensures
        !r.enabled,
        r.reason matches Some(t) && t@ == reason@,
{
    Usability { enabled: false, reason: Some(String::from_str(reason)) }
}

/// Whether `action` can be used now, and if not, why (see `block_reason`).
/// `attack_cost` and `item_cost` are the action-point costs of a basic
/// attack and of using an item.
pub fn usability(
    action: HudAction,
    gates: ActionGates,
    stats: &CombatStats,
    ability: Option<&Ability>,
    scaled_cost: i32,
    attack_cost: i32,
    item_cost: i32,
) -> (r: Usability)
    ensures
        r.enabled == (block_reason(action, gates, *stats, owned(ability), scaled_cost, attack_cost, item_cost) is None),
        match block_reason(action, gates, *stats, owned(ability), scaled_cost, attack_cost, item_cost) {
            Some(t) => r.reason matches Some(x) && x@ == t,
            None => r.reason is None,
        },
{
    let ok = Usability { enabled: true, reason: None };
    match action {
        HudAction::Defend | HudAction::Wait => ok,
        HudAction::Attack => {
            if gates.block_attacks {
                blocked("Can't act (Terrified)")
            } else if !stats.action_points.can_spend(attack_cost) {
                needs_ap(attack_cost)
            } else {
                ok
            }
        },
        HudAction::Item(_) => {
            if gates.block_attacks {
                blocked("Can't act (Terrified)")
            } else if gates.block_items {
                blocked("Items blocked (Silenced)")
            } else if !stats.action_points.can_spend(item_cost) {
                needs_ap(item_cost)
            } else {
                ok
            }
        },
        HudAction::Ability(_) => match ability {
            None => ok,
            Some(a) => {
                if gates.block_attacks {
                    blocked("Can't act (Terrified)")
                } else if a.magic_cost > 0 && gates.block_magic_abilities {
                    blocked("Magic blocked (Silenced)")
                } else if !stats.action_points.can_spend(a.action_point_cost) {
                    needs_ap(a.action_point_cost)
                } else if !stats.pool(a.magic_school).can_spend(scaled_cost) {
                    let mut t = String::from_str("Needs ");
                    append_decimal(&mut t, round_points(scaled_cost as u32));
                    t.append(" ");
                    t.append(magic_school_short(a.magic_school));
                    Usability { enabled: false, reason: Some(t) }
                } else {
                    ok
                }
            },
        },
    }
}

/// The hint line's text for an option: what it does, led by the reason it
/// cannot be used now, if any. `catalog` names items; `ability` is what the
/// combatant's tree holds under an ability option's id.
pub open spec fn action_text(
    action: HudAction,
    reason: Option<Seq<char>>,
    catalog: Option<Seq<InventoryItemDefinition>>,
    ability: Option<Ability>,
) -> Seq<char> {
    let body = match action {
        HudAction::Attack => "Basic weapon attack on one enemy."@,
        HudAction::Defend => "Brace: reduce incoming damage until your next turn."@,
        HudAction::Wait => "Pass the rest of your turn."@,
        HudAction::Item(id) => match catalog {
            Some(items) => match definition_of(items, id) {
                Some(d) => match d.kind {
                    InventoryItemKind::Consumable { effect: ConsumableEffect::Heal { amount }, .. } =>
                        d.name@ + ": restore "@ + decimal(amount as nat) + " health."@,
                    InventoryItemKind::Equipment(_) => d.name@ + ": equipment."@,
                },
                None => "Use item."@,
            },
            None => "Use item."@,
        },
        HudAction::Ability(_) => match ability {
            Some(a) => if a.description@.len() > 0 { a.description@ } else { a.name@ + "."@ },
            None => "Ability."@,
        },
    };
    match reason {
        Some(r) => "⚠ "@ + r + " — "@ + body,
        None => body,
    }
}

/// The hint line's text for an option, given its usability.
pub fn describe_action(
    action: HudAction,
    usable: &Usability,
    catalog: Option<&InventoryItemCatalog>,
    ability: Option<&Ability>,
) -> (r: String)
    ensures
        r@ == action_text(
            action,
            match usable.reason { Some(t) => Some(t@), None => None },
            match catalog { Some(c) => Some(c.items@), None => None },
            owned(ability),
        ),
{
    let body = match action {
        HudAction::Attack => String::from_str("Basic weapon attack on one enemy."),
        HudAction::Defend => String::from_str("Brace: reduce incoming damage until your next turn."),
        HudAction::Wait => String::from_str("Pass the rest of your turn."),
        HudAction::Item(id) => {
            let def = match catalog {
                Some(c) => c.definition(id),
                None => None,
            };
            match def {
                Some(d) => match d.kind {
                    InventoryItemKind::Consumable { effect: ConsumableEffect::Heal { amount }, .. } => {
                        let mut t = d.name.clone();
                        t.append(": restore ");
                        append_decimal(&mut t, amount);
                        t.append(" health.");
                        t
                    },
                    InventoryItemKind::Equipment(_) => {
                        let mut t = d.name.clone();
                        t.append(": equipment.");
                        t
                    },
                },
                None => String::from_str("Use item."),
            }
        },
        HudAction::Ability(_) => match ability {
            Some(a) => {
                if !a.description.as_str().is_empty() {
                    a.description.clone()
                } else {
                    let mut t = a.name.clone();
                    t.append(".");
                    t
                }
            },
            None => String::from_str("Ability."),
        },
    };
    match &usable.reason {
        Some(reason) => {
            let mut t = String::from_str("⚠ ");
            t.append(reason.as_str());
            t.append(" — ");
            t.append(body.as_str());
            t
        },
        None => body,
    }
}

/// The hint line's text for a bar entry: a direct entry describes its
/// action; a menu entry says what the menu holds.
pub fn describe_category(
    kind: CategoryKind,
    usable: &Usability,
    catalog: Option<&InventoryItemCatalog>,
    ability: Option<&Ability>,
) -> (r: String)
    ensures
        r@ == match kind {
            CategoryKind::Direct(action) => action_text(
                action,
                match usable.reason { Some(t) => Some(t@), None => None },
                match catalog { Some(c) => Some(c.items@), None => None },
                owned(ability),
            ),
            CategoryKind::Open(FlyoutKind::Skills) => "Skills — abilities by school. Enter / ↑ to open."@,
            CategoryKind::Open(FlyoutKind::Items) => "Items — usable consumables. Enter / ↑ to open."@,
        },
{
    match kind {
        CategoryKind::Direct(action) => describe_action(action, usable, catalog, ability),
        CategoryKind::Open(FlyoutKind::Skills) => String::from_str("Skills — abilities by school. Enter / ↑ to open."),
        CategoryKind::Open(FlyoutKind::Items) => String::from_str("Items — usable consumables. Enter / ↑ to open."),
    }
}

} // verus!
