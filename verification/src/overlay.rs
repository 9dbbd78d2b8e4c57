//! Text shown around a battle and on the character sheet: the battle log,
//! short combatant names, stat bonuses and item labels.

use vstd::prelude::*;
use vstd::string::{StrSliceExecFns, StringExecFns};
use crate::dialogue_editor::is_white_space;
use crate::editor::first_index_of;
use crate::equipment::Equipment;
use crate::text::{append_signed, decimal, signed_decimal};

verus! {

/// How many lines the battle log keeps.
pub const LOG_LINES: usize = 6;

/// The battle log: its last lines, oldest first, and whether it changed
/// since it was last drawn.
#[derive(Clone, Debug)]
pub struct BattleLog {
    pub lines: Vec<String>,
    pub dirty: bool,
}

impl BattleLog {
    /// Add a line, dropping the oldest ones past `LOG_LINES`.
    pub fn push(&mut self, line: String)
        ensures
            ({
                let all = old(self).lines@.push(line);
                final(self).lines@ == if all.len() > LOG_LINES {
                    all.subrange(all.len() - LOG_LINES, all.len() as int)
                } else {
                    all
                }
            }),
            final(self).dirty,
    {
        let ghost all = self.lines@.push(line);
        self.lines.push(line);
        proof {
            assert(all.subrange(0, all.len() as int) =~= all);
        }
        while self.lines.len() > LOG_LINES
            invariant
                self.lines@.len() <= all.len(),
                all.len() > LOG_LINES ==> self.lines@.len() >= LOG_LINES,
                self.lines@ == all.subrange(all.len() - self.lines@.len(), all.len() as int),
                all.len() <= LOG_LINES ==> self.lines@ == all,
            decreases self.lines@.len(),
        {
            self.lines.remove(0);
            proof {
                assert(self.lines@ =~= all.subrange(all.len() - self.lines@.len(), all.len() as int));
            }
        }
        self.dirty = true;
        proof {
            if all.len() > LOG_LINES {
                assert(self.lines@.len() == LOG_LINES);
            }
        }
    }
}

/// `s` without the `c`s at its end.
pub open spec fn strip_trailing(s: Seq<char>, c: char) -> Seq<char>
    decreases s.len(),
{
    if s.len() > 0 && s.last() == c {
        strip_trailing(s.drop_last(), c)
    } else {
        s
    }
}

/// How many white-space characters `s` starts with.
pub open spec fn leading_white(s: Seq<char>) -> int
    decreases s.len(),
{
    if s.len() > 0 && is_white_space(s[0]) {
        1 + leading_white(s.drop_first())
    } else {
        0
    }
}

/// How many white-space characters `s` ends with.
pub open spec fn trailing_white(s: Seq<char>) -> int
    decreases s.len(),
{
    if s.len() > 0 && is_white_space(s.last()) {
        1 + trailing_white(s.drop_last())
    } else {
        0
    }
}

/// `s` without white space at either end.
pub open spec fn trimmed(s: Seq<char>) -> Seq<char> {
    let t = s.skip(leading_white(s));
    t.take(t.len() - trailing_white(t))
}

/// A combatant's short name: what stands inside the parentheses of a name
/// like "Yokai(Onibi)" (or the whole name), trimmed, and cut to eleven
/// characters and an ellipsis when longer than twelve.
pub open spec fn spec_short_name(full: Seq<char>) -> Seq<char> {
    let p = first_index_of(full, '(');
    let inner = if p < full.len() { strip_trailing(full.skip(p + 1), ')') } else { full };
    let t = trimmed(inner);
    if t.len() > 12 { t.take(11) + seq!['…'] } else { t }
}

proof fn lemma_leading_bound(s: Seq<char>)
    ensures
        0 <= leading_white(s) <= s.len(),
        forall|k: int| 0 <= k < leading_white(s) ==> is_white_space(#[trigger] s[k]),
        leading_white(s) < s.len() ==> !is_white_space(s[leading_white(s)]),
    decreases s.len(),
{
    if s.len() > 0 && is_white_space(s[0]) {
        lemma_leading_bound(s.drop_first());
        assert forall|k: int| 0 <= k < leading_white(s) implies is_white_space(#[trigger] s[k]) by {
            if k > 0 {
                assert(s[k] == s.drop_first()[k - 1]);
            }
        }
        if leading_white(s) < s.len() {
            assert(s[leading_white(s)] == s.drop_first()[leading_white(s) - 1]);
        }
    }
}

proof fn lemma_trailing_bound(s: Seq<char>)
    ensures
        0 <= trailing_white(s) <= s.len(),
    decreases s.len(),
{
    if s.len() > 0 && is_white_space(s.last()) {
        lemma_trailing_bound(s.drop_last());
    }
}

proof fn lemma_strip_is_prefix(s: Seq<char>, c: char)
    ensures
        strip_trailing(s, c).len() <= s.len(),
        strip_trailing(s, c) == s.take(strip_trailing(s, c).len() as int),
    decreases s.len(),
{
    if s.len() > 0 && s.last() == c {
        lemma_strip_is_prefix(s.drop_last(), c);
        assert(s.drop_last().take(strip_trailing(s, c).len() as int) =~= s.take(strip_trailing(s, c).len() as int));
    } else {
        assert(s.take(s.len() as int) =~= s);
    }
}

fn white(c: char) -> (r: bool)
    ensures
        r == is_white_space(c),
{
    let u = c as u32;
    (0x9 <= u && u <= 0xd) || u == 0x20 || u == 0x85 || u == 0xa0 || u == 0x1680 || (0x2000 <= u && u <= 0x200a)
        || u == 0x2028 || u == 0x2029 || u == 0x202f || u == 0x205f || u == 0x3000
}

fn open_paren(full: &str) -> (p: usize)
    ensures
        p == first_index_of(full@, '('),
        p <= full@.len(),
{
    let n = full.unicode_len();
    let mut p: usize = 0;
    proof {
        crate::editor::lemma_first_index_bounds(full@, '(');
    }
    while p < n && full.get_char(p) != '('
        invariant
            n == full@.len(),
            p <= n,
            forall|k: int| 0 <= k < p ==> full@[k] != '(',
            0 <= first_index_of(full@, '(') <= full@.len(),
            forall|k: int| 0 <= k < first_index_of(full@, '(') ==> full@[k] != '(',
            first_index_of(full@, '(') < full@.len() ==> full@[first_index_of(full@, '(')] == '(',
        decreases n - p,
    {
        p = p + 1;
    }
    p
}

fn strip_end(full: &str, start: usize) -> (end: usize)
    requires
        start <= full@.len(),
    ensures
        start <= end <= full@.len(),
        full@.subrange(start as int, end as int) == strip_trailing(full@.skip(start as int), ')'),
{
    let n = full.unicode_len();
    let ghost tail = full@.skip(start as int);
    let mut end: usize = n;
    proof {
        assert(tail =~= full@.subrange(start as int, n as int));
    }
    while end > start && full.get_char(end - 1) == ')'
        invariant
            n == full@.len(),
            start <= end <= n,
            tail == full@.skip(start as int),
            strip_trailing(tail, ')') == strip_trailing(full@.subrange(start as int, end as int), ')'),
        decreases end,
    {
        proof {
            assert(full@.subrange(start as int, end as int).drop_last() =~= full@.subrange(start as int, end as int - 1));
        }
        end = end - 1;
    }
    end
}

fn trim_front(full: &str, start: usize, end: usize) -> (a: usize)
    requires
        start <= end <= full@.len(),
    ensures
        start <= a <= end,
        a - start == leading_white(full@.subrange(start as int, end as int)),
{
    let ghost inner = full@.subrange(start as int, end as int);
    let mut a: usize = start;
    proof {
        lemma_leading_bound(inner);
    }
    while a < end && white(full.get_char(a))
        invariant
            start <= a <= end <= full@.len(),
            inner == full@.subrange(start as int, end as int),
            a - start <= leading_white(inner),
            0 <= leading_white(inner) <= inner.len(),
            forall|k: int| 0 <= k < leading_white(inner) ==> is_white_space(#[trigger] inner[k]),
            leading_white(inner) < inner.len() ==> !is_white_space(inner[leading_white(inner)]),
        decreases end - a,
    {
        proof {
            assert(inner[a - start] == full@[a as int]);
        }
        a = a + 1;
    }
    proof {
        if a < end {
            assert(inner[a - start] == full@[a as int]);
        }
    }
    a
}

fn trim_back(full: &str, a: usize, end: usize) -> (b: usize)
    requires
        a <= end <= full@.len(),
    ensures
        a <= b <= end,
        end - b == trailing_white(full@.subrange(a as int, end as int)),
{
    let ghost t = full@.subrange(a as int, end as int);
    let mut b: usize = end;
    proof {
        lemma_trailing_bound(t);
    }
    while b > a && white(full.get_char(b - 1))
        invariant
            a <= b <= end <= full@.len(),
            t == full@.subrange(a as int, end as int),
            trailing_white(t) == (end - b) + trailing_white(full@.subrange(a as int, b as int)),
        decreases b,
    {
        proof {
            assert(full@.subrange(a as int, b as int).drop_last() =~= full@.subrange(a as int, b as int - 1));
        }
        b = b - 1;
    }
    b
}

/// A combatant's short name (see `spec_short_name`).
pub fn short_name(full: &str) -> (r: String)
    ensures
        r@ == spec_short_name(full@),
{
    let n = full.unicode_len();
    let p = open_paren(full);
    let start: usize = if p < n { p + 1 } else { 0 };
    let end: usize = if p < n { strip_end(full, start) } else { n };
    let ghost inner = full@.subrange(start as int, end as int);
    proof {
        if p >= n {
            assert(inner =~= full@);
        }
        assert(inner == if p < n { strip_trailing(full@.skip(p + 1), ')') } else { full@ });
    }
    let a = trim_front(full, start, end);
    let b = trim_back(full, a, end);
    proof {
        let t = inner.skip(leading_white(inner));
        assert(t =~= full@.subrange(a as int, end as int));
        assert(trimmed(inner) =~= full@.subrange(a as int, b as int));
    }
    if b - a > 12 {
        let head = full.substring_char(a, a + 11);
        let mut out = String::from_str(head);
        out.append("…");
        proof {
            reveal_strlit("…");
            assert(out@ =~= trimmed(inner).take(11) + seq!['…']);
        }
        out
    } else {
        String::from_str(full.substring_char(a, b))
    }
}

/// The log line for a combatant's turn starting.
pub fn turn_line(name: &str) -> (r: String)
    ensures
        r@ == "▶ "@ + name@ + " turn"@,
{
    let mut out = String::from_str("▶ ");
    out.append(name);
    out.append(" turn");
    out
}

/// The log line for a hit, or `None` for a hit that does no damage.
pub fn damage_line(attacker: &str, target: &str, amount: i32) -> (r: Option<String>)
    ensures
        amount <= 0 ==> r is None,
        amount > 0 ==> (r matches Some(l) && l@ == attacker@ + " → "@ + target@ + " for "@ + decimal(amount as nat)),
{
    if amount <= 0 {
        return None;
    }
    let mut out = String::from_str(attacker);
    out.append(" → ");
    out.append(target);
    out.append(" for ");
    append_signed(&mut out, amount);
    Some(out)
}

/// A stat bonus as the sheet shows it: " (+n)", " (-n)", or nothing for 0.
pub open spec fn bonus_text(b: i32) -> Seq<char> {
    if b > 0 {
        " (+"@ + decimal(b as nat) + ")"@
    } else if b < 0 {
        " ("@ + signed_decimal(b as int) + ")"@
    } else {
        Seq::empty()
    }
}

/// A stat bonus as the sheet shows it.
pub fn fmt_bonus(b: i32) -> (r: String)
    ensures
        r@ == bonus_text(b),
{
    if b > 0 {
        let mut out = String::from_str(" (+");
        append_signed(&mut out, b);
        out.append(")");
        out
    } else if b < 0 {
        let mut out = String::from_str(" (");
        append_signed(&mut out, b);
        out.append(")");
        out
    } else {
        String::new()
    }
}

/// A number with its sign always shown.
pub open spec fn plus_signed(n: i32) -> Seq<char> {
    if n >= 0 { seq!['+'] + decimal(n as nat) } else { signed_decimal(n as int) }
}

/// The stat marks of an item: each non-zero stat's short name and signed
/// value.
pub open spec fn item_marks(eq: Equipment) -> Seq<Seq<char>> {
    Seq::<Seq<char>>::empty() + mark_if("Lth"@, eq.lethality) + mark_if("Hit"@, eq.hit) + mark_if("Arm"@, eq.armor)
        + mark_if("Agi"@, eq.agility) + mark_if("Mnd"@, eq.mind) + mark_if("Mrl"@, eq.morale)
}

/// An item's line on the sheet: its name, then its stat marks in
/// parentheses when it has any.
pub open spec fn item_line(eq: Equipment) -> Seq<char> {
    let marks = item_marks(eq);
    if marks.len() == 0 {
        eq.name@
    } else {
        eq.name@ + " ("@ + crate::hud::join(marks, " "@) + ")"@
    }
}

fn mark(label: &str, n: i32) -> (r: String)
    ensures
        r@ == label@ + plus_signed(n),
{
    let mut out = String::from_str(label);
    if n >= 0 {
        out.append("+");
    }
    append_signed(&mut out, n);
    proof {
        reveal_strlit("+");
    }
    out
}

fn join_marks(parts: &Vec<String>) -> (r: String)
    ensures
        r@ == crate::hud::join(parts@.map_values(|p: String| p@), " "@),
{
    let ghost views = parts@.map_values(|p: String| p@);
    let mut out = String::new();
    let mut i: usize = 0;
    while i < parts.len()
        invariant
            i <= parts@.len(),
            views == parts@.map_values(|p: String| p@),
            out@ == crate::hud::join(views.take(i as int), " "@),
        decreases parts@.len() - i,
    {
        proof {
            assert(views.take(i as int + 1).drop_last() =~= views.take(i as int));
        }
        if i > 0 {
            out.append(" ");
        }
        out.append(parts[i].as_str());
        proof {
            if i == 0 {
                assert(out@ =~= views.take(1)[0]);
            }
            assert(out@ =~= crate::hud::join(views.take(i as int + 1), " "@));
        }
        i = i + 1;
    }
    proof {
        assert(views.take(parts@.len() as int) =~= views);
    }
    out
}

/// The mark of a stat: `[label and signed value]` when non-zero, else none.
pub open spec fn mark_if(label: Seq<char>, n: i32) -> Seq<Seq<char>> {
    if n != 0 { seq![label + plus_signed(n)] } else { seq![] }
}

fn push_mark(parts: &mut Vec<String>, label: &str, n: i32)
    ensures
        final(parts)@.map_values(|p: String| p@) == old(parts)@.map_values(|p: String| p@) + mark_if(label@, n),
{
    if n != 0 {
        let ghost pre = parts@;
        parts.push(mark(label, n));
        proof {
            assert(parts@.map_values(|p: String| p@) =~= pre.map_values(|p: String| p@) + mark_if(label@, n));
        }
    } else {
        proof {
            assert(parts@.map_values(|p: String| p@) =~= parts@.map_values(|p: String| p@) + mark_if(label@, n));
        }
    }
}

/// An item's line on the sheet, e.g. "Iron Katana (Lth+4 Hit+2)".
pub fn item_label(eq: &Equipment) -> (r: String)
    ensures
        r@ == item_line(*eq),
{
    let mut parts: Vec<String> = Vec::new();
    push_mark(&mut parts, "Lth", eq.lethality);
    push_mark(&mut parts, "Hit", eq.hit);
    push_mark(&mut parts, "Arm", eq.armor);
    push_mark(&mut parts, "Agi", eq.agility);
    push_mark(&mut parts, "Mnd", eq.mind);
    push_mark(&mut parts, "Mrl", eq.morale);
    proof {
        assert(parts@.map_values(|p: String| p@) =~= item_marks(*eq));
    }
    if parts.len() == 0 {
        return eq.name.clone();
    }
    let mut out = eq.name.clone();
    out.append(" (");
    let joined = join_marks(&parts);
    out.append(joined.as_str());
    out.append(")");
    proof {
        assert(out@ =~= item_line(*eq));
    }
    out
}

/// The stats a character's worn items add on the sheet, summed over every
/// item, weapons included.
#[derive(Clone, Copy, Debug, PartialEq, Eq, Structural)]
pub struct EquipBonus {
    pub lethality: i32,
    pub hit: i32,
    pub armor: i32,
    pub agility: i32,
    pub mind: i32,
    pub morale: i32,
}

/// The first catalogued item with id `id`.
pub open spec fn catalog_item(catalog: Seq<Equipment>, id: u16) -> Option<Equipment>
    decreases catalog.len(),
{
    if catalog.len() == 0 {
        None
    } else if catalog[0].id == id {
        Some(catalog[0])
    } else {
        catalog_item(catalog.drop_first(), id)
    }
}

/// The sums, as integers, of the stats of the catalogued items among the
/// first `n` worn ids (an id the catalogue lacks adds nothing).
pub open spec fn bonus_upto(ids: Seq<u16>, catalog: Seq<Equipment>, n: int) -> (int, int, int, int, int, int)
    decreases n,
{
    if n <= 0 {
        (0, 0, 0, 0, 0, 0)
    } else {
        let (l, h, a, g, m, r) = bonus_upto(ids, catalog, n - 1);
        match catalog_item(catalog, ids[n - 1]) {
            Some(eq) => (l + eq.lethality, h + eq.hit, a + eq.armor, g + eq.agility, m + eq.mind, r + eq.morale),
            None => (l, h, a, g, m, r),
        }
    }
}

/// Whether a sum fits in an `i32`.
pub open spec fn fits(x: int) -> bool {
    i32::MIN <= x <= i32::MAX
}

/// Every running sum of the worn items' stats fits in an `i32`.
pub open spec fn bonus_fits(ids: Seq<u16>, catalog: Seq<Equipment>) -> bool {
    forall|n: int| 0 <= n <= ids.len() ==> {
        let s = #[trigger] bonus_upto(ids, catalog, n);
        fits(s.0) && fits(s.1) && fits(s.2) && fits(s.3) && fits(s.4) && fits(s.5)
    }
}

proof fn lemma_catalog_item(catalog: Seq<Equipment>, id: u16, i: int)
    requires
        0 <= i <= catalog.len(),
        forall|k: int| 0 <= k < i ==> (#[trigger] catalog[k]).id != id,
    ensures
        i < catalog.len() && catalog[i].id == id ==> catalog_item(catalog, id) == Some(catalog[i]),
        i == catalog.len() ==> catalog_item(catalog, id) is None,
    decreases catalog.len(),
{
    if i > 0 {
        assert forall|k: int| 0 <= k < i - 1 implies (#[trigger] catalog.drop_first()[k]).id != id by {
            assert(catalog.drop_first()[k] == catalog[k + 1]);
        }
        lemma_catalog_item(catalog.drop_first(), id, i - 1);
        if i < catalog.len() {
            assert(catalog.drop_first()[i - 1] == catalog[i]);
        }
    }
}

fn find_item<'a>(catalog: &'a Vec<Equipment>, id: u16) -> (r: Option<&'a Equipment>)
    ensures
        match r {
            Some(eq) => catalog_item(catalog@, id) == Some(*eq),
            None => catalog_item(catalog@, id) is None,
        },
{
    let mut i: usize = 0;
    while i < catalog.len()
        invariant
            i <= catalog@.len(),
            forall|k: int| 0 <= k < i ==> (#[trigger] catalog@[k]).id != id,
        decreases catalog@.len() - i,
    {
        if catalog[i].id == id {
            proof {
                lemma_catalog_item(catalog@, id, i as int);
            }
            return Some(&catalog[i]);
        }
        i = i + 1;
    }
    proof {
        lemma_catalog_item(catalog@, id, i as int);
    }
    None
}

/// The stats a character's worn items (by id, looked up in `catalog`) add
/// on the sheet; no worn list adds nothing.
pub fn equipped_bonus(worn: Option<&Vec<u16>>, catalog: &Vec<Equipment>) -> (r: EquipBonus)
    requires
        worn matches Some(ids) ==> bonus_fits(ids@, catalog@),
    ensures
        match worn {
            Some(ids) => {
                let s = bonus_upto(ids@, catalog@, ids@.len() as int);
                r.lethality == s.0 && r.hit == s.1 && r.armor == s.2 && r.agility == s.3 && r.mind == s.4
                    && r.morale == s.5
            },
            None => r == (EquipBonus { lethality: 0, hit: 0, armor: 0, agility: 0, mind: 0, morale: 0 }),
        },
{
    let mut b = EquipBonus { lethality: 0, hit: 0, armor: 0, agility: 0, mind: 0, morale: 0 };
    match worn {
        None => b,
        Some(ids) => {
            let mut i: usize = 0;
            while i < ids.len()
                invariant
                    i <= ids@.len(),
                    bonus_fits(ids@, catalog@),
                    ({
                        let s = bonus_upto(ids@, catalog@, i as int);
                        b.lethality == s.0 && b.hit == s.1 && b.armor == s.2 && b.agility == s.3 && b.mind == s.4
                            && b.morale == s.5
                    }),
                decreases ids@.len() - i,
            {
                let ghost next = bonus_upto(ids@, catalog@, i as int + 1);
                proof {
                    assert(fits(next.0) && fits(next.1) && fits(next.2) && fits(next.3) && fits(next.4) && fits(next.5));
                }
                match find_item(catalog, ids[i]) {
                    Some(eq) => {
                        b.lethality = b.lethality + eq.lethality;
                        b.hit = b.hit + eq.hit;
                        b.armor = b.armor + eq.armor;
                        b.agility = b.agility + eq.agility;
                        b.mind = b.mind + eq.mind;
                        b.morale = b.morale + eq.morale;
                    },
                    None => {},
                }
                i = i + 1;
            }
            b
        },
    }
}

} // verus!
