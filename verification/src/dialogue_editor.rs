//! The dialogue editor's logic: the dialogue graph it edits, its checks
//! (empty and duplicate ids, dangling references, orphans), fresh ids, and
//! how one frame's commands change the editor's state.

use vstd::prelude::*;
use vstd::string::{StrSliceExecFns, StringExecFns};
use crate::text::{append_decimal, decimal};
use vstd::relations::injective_on;
use vstd::set_lib::{lemma_int_range, lemma_len_subset, lemma_map_size, set_int_range};

verus! {

/// A choice offered at the end of a line: the event it raises, its text, and
/// the line it leads to.
#[derive(Clone, Debug)]
pub struct DialogueChoice {
    pub event: u32,
    pub text: String,
    pub next: String,
}

/// A line of dialogue: its id, speaker and text, the line after it, and the
/// choices it offers.
#[derive(Clone, Debug)]
pub struct Dialogue {
    pub id: String,
    pub speaker: String,
    pub text: String,
    pub next: Option<String>,
    pub choices: Option<Vec<DialogueChoice>>,
}

impl Default for Dialogue {
    /// A blank line: empty id, speaker and text, no next line, no choices.
    fn default() -> (r: Self)
        ensures
            r.id@.len() == 0,
            r.speaker@.len() == 0,
            r.text@.len() == 0,
            r.next is None,
            r.choices is None,
    {
        Dialogue { id: String::new(), speaker: String::new(), text: String::new(), next: None, choices: None }
    }
}

/// Whether `c` is white space in Unicode's sense (the `White_Space`
/// property).
pub open spec fn is_white_space(c: char) -> bool {
    let u = c as u32;
    (0x9 <= u <= 0xd) || u == 0x20 || u == 0x85 || u == 0xa0 || u == 0x1680 || (0x2000 <= u <= 0x200a)
        || u == 0x2028 || u == 0x2029 || u == 0x202f || u == 0x205f || u == 0x3000
}

/// Whether a text is empty once white space is trimmed from its ends.
pub open spec fn is_blank(s: Seq<char>) -> bool {
    forall|i: int| 0 <= i < s.len() ==> is_white_space(#[trigger] s[i])
}

fn white_space(c: char) -> (r: bool)
    ensures
        r == is_white_space(c),
{
    let u = c as u32;
    (0x9 <= u && u <= 0xd) || u == 0x20 || u == 0x85 || u == 0xa0 || u == 0x1680 || (0x2000 <= u && u <= 0x200a)
        || u == 0x2028 || u == 0x2029 || u == 0x202f || u == 0x205f || u == 0x3000
}

fn blank(s: &str) -> (r: bool)
    ensures
        r == is_blank(s@),
{
    let n = s.unicode_len();
    let mut i: usize = 0;
    while i < n
        invariant
            n == s@.len(),
            i <= n,
            forall|k: int| 0 <= k < i ==> is_white_space(#[trigger] s@[k]),
        decreases n - i,
    {
        if !white_space(s.get_char(i)) {
            return false;
        }
        i = i + 1;
    }
    true
}

fn same(a: &str, b: &str) -> (r: bool)
    ensures
        r == (a@ == b@),
{
    crate::editor::same_text(a, b)
}

/// The texts of a list of strings.
pub open spec fn texts(v: Seq<String>) -> Seq<Seq<char>> {
    v.map_values(|s: String| s@)
}

fn contains_text(v: &Vec<String>, s: &str) -> (r: bool)
    ensures
        r == texts(v@).contains(s@),
{
    let mut i: usize = 0;
    while i < v.len()
        invariant
            i <= v@.len(),
            forall|k: int| 0 <= k < i ==> v@[k]@ != s@,
        decreases v@.len() - i,
    {
        if same(v[i].as_str(), s) {
            proof {
                assert(texts(v@)[i as int] == s@);
            }
            return true;
        }
        i = i + 1;
    }
    proof {
        if texts(v@).contains(s@) {
            let k = choose|k: int| 0 <= k < texts(v@).len() && texts(v@)[k] == s@;
            assert(v@[k]@ == s@);
        }
    }
    false
}

/// The ids of the lines, in order.
pub open spec fn ids(ds: Seq<Dialogue>) -> Seq<Seq<char>> {
    ds.map_values(|d: Dialogue| d.id@)
}

/// The choices of a line, none when it has no list.
pub open spec fn choices_of(d: Dialogue) -> Seq<DialogueChoice> {
    match d.choices {
        Some(v) => v@,
        None => Seq::empty(),
    }
}

/// The checks on ids of the first `n` lines: an empty (all white space) id,
/// and an id that an earlier line already has.
pub open spec fn id_messages(ds: Seq<Dialogue>, n: int) -> Seq<Seq<char>>
    decreases n,
{
    if n <= 0 {
        Seq::empty()
    } else {
        let prev = id_messages(ds, n - 1);
        let id = ds[n - 1].id@;
        let a = if is_blank(id) { prev.push("Empty ID found"@) } else { prev };
        if ids(ds).take(n - 1).contains(id) { a.push("Duplicate ID: "@ + id) } else { a }
    }
}

/// The checks on the first `m` choices of line `d`: a choice leading to a
/// line that does not exist.
pub open spec fn choice_messages(d: Dialogue, all: Seq<Seq<char>>, m: int) -> Seq<Seq<char>>
    decreases m,
{
    if m <= 0 {
        Seq::empty()
    } else {
        let prev = choice_messages(d, all, m - 1);
        let next = choices_of(d)[m - 1].next@;
        if all.contains(next) {
            prev
        } else {
            prev.push("Dangling choice reference from '"@ + d.id@ + "' -> '"@ + next + "'"@)
        }
    }
}

/// The checks on the references of line `d`: its next line, then its
/// choices.
pub open spec fn line_reference_messages(d: Dialogue, all: Seq<Seq<char>>) -> Seq<Seq<char>> {
    let a = match d.next {
        Some(n) => if all.contains(n@) {
            Seq::empty()
        } else {
            seq!["Dangling next reference from '"@ + d.id@ + "' -> '"@ + n@ + "'"@]
        },
        None => Seq::empty(),
    };
    a + choice_messages(d, all, choices_of(d).len() as int)
}

/// The checks on the references of the first `n` lines.
pub open spec fn reference_messages(ds: Seq<Dialogue>, n: int) -> Seq<Seq<char>>
    decreases n,
{
    if n <= 0 {
        Seq::empty()
    } else {
        reference_messages(ds, n - 1) + line_reference_messages(ds[n - 1], ids(ds))
    }
}

/// The lines that line `d` leads to: its next line, then its choices'.
pub open spec fn targets_of(d: Dialogue) -> Seq<Seq<char>> {
    (match d.next {
        Some(n) => seq![n@],
        None => Seq::empty(),
    }) + choices_of(d).map_values(|c: DialogueChoice| c.next@)
}

/// The lines the first `n` lines lead to.
pub open spec fn targets_upto(ds: Seq<Dialogue>, n: int) -> Seq<Seq<char>>
    decreases n,
{
    if n <= 0 {
        Seq::empty()
    } else {
        targets_upto(ds, n - 1) + targets_of(ds[n - 1])
    }
}

/// The lines reached: the first line (the entry point) and every line some
/// line leads to.
pub open spec fn reached(ds: Seq<Dialogue>) -> Seq<Seq<char>> {
    (if ds.len() > 0 { seq![ds[0].id@] } else { Seq::empty() }) + targets_upto(ds, ds.len() as int)
}

/// The checks for orphans among the first `n` lines: a line nothing leads
/// to that is not the first.
pub open spec fn orphan_messages(ds: Seq<Dialogue>, n: int) -> Seq<Seq<char>>
    decreases n,
{
    if n <= 0 {
        Seq::empty()
    } else {
        let prev = orphan_messages(ds, n - 1);
        let id = ds[n - 1].id@;
        if reached(ds).contains(id) {
            prev
        } else {
            prev.push("Orphan dialogue (not referenced): "@ + id)
        }
    }
}

/// Every finding of the checks on a dialogue graph, in order: the id checks
/// line by line, the reference checks line by line, then the orphans.
pub open spec fn validation(ds: Seq<Dialogue>) -> Seq<Seq<char>> {
    let n = ds.len() as int;
    id_messages(ds, n) + reference_messages(ds, n) + orphan_messages(ds, n)
}

/// Whether a line's references all lead to lines that exist: its next line
/// and every choice's.
pub open spec fn references_resolve(d: Dialogue, all: Seq<Seq<char>>) -> bool {
    &&& (d.next matches Some(n) ==> all.contains(n@))
    &&& forall|j: int| 0 <= j < choices_of(d).len() ==> all.contains(#[trigger] choices_of(d)[j].next@)
}

/// A sound dialogue graph: no id is blank, no two lines share an id, every
/// reference leads to a line, and every line is reached.
pub open spec fn graph_sound(ds: Seq<Dialogue>) -> bool {
    &&& forall|i: int| 0 <= i < ds.len() ==> !is_blank(#[trigger] ds[i].id@)
    &&& ids(ds).no_duplicates()
    &&& forall|i: int| 0 <= i < ds.len() ==> references_resolve(#[trigger] ds[i], ids(ds))
    &&& forall|i: int| 0 <= i < ds.len() ==> reached(ds).contains(#[trigger] ds[i].id@)
}

proof fn lemma_id_messages_empty(ds: Seq<Dialogue>, n: int)
    requires
        0 <= n <= ds.len(),
    ensures
        (id_messages(ds, n).len() == 0) == (forall|k: int|
            0 <= k < n ==> !is_blank(#[trigger] ds[k].id@) && !ids(ds).take(k).contains(ds[k].id@)),
    decreases n,
{
    if n > 0 {
        lemma_id_messages_empty(ds, n - 1);
    }
}

proof fn lemma_choice_messages_empty(d: Dialogue, all: Seq<Seq<char>>, m: int)
    requires
        0 <= m <= choices_of(d).len(),
    ensures
        (choice_messages(d, all, m).len() == 0) == (forall|j: int|
            0 <= j < m ==> all.contains(#[trigger] choices_of(d)[j].next@)),
    decreases m,
{
    if m > 0 {
        lemma_choice_messages_empty(d, all, m - 1);
    }
}

proof fn lemma_reference_messages_empty(ds: Seq<Dialogue>, n: int)
    requires
        0 <= n <= ds.len(),
    ensures
        (reference_messages(ds, n).len() == 0) == (forall|k: int|
            0 <= k < n ==> references_resolve(#[trigger] ds[k], ids(ds))),
    decreases n,
{
    if n > 0 {
        lemma_reference_messages_empty(ds, n - 1);
        let d = ds[n - 1];
        lemma_choice_messages_empty(d, ids(ds), choices_of(d).len() as int);
    }
}

proof fn lemma_orphan_messages_empty(ds: Seq<Dialogue>, n: int)
    requires
        0 <= n <= ds.len(),
    ensures
        (orphan_messages(ds, n).len() == 0) == (forall|k: int|
            0 <= k < n ==> reached(ds).contains(#[trigger] ds[k].id@)),
    decreases n,
{
    if n > 0 {
        lemma_orphan_messages_empty(ds, n - 1);
    }
}

proof fn lemma_first_seen_distinct(s: Seq<Seq<char>>)
    ensures
        s.no_duplicates() == (forall|k: int| 0 <= k < s.len() ==> !s.take(k).contains(#[trigger] s[k])),
{
    if s.no_duplicates() {
        assert forall|k: int| 0 <= k < s.len() implies !s.take(k).contains(#[trigger] s[k]) by {
            if s.take(k).contains(s[k]) {
                let i = choose|i: int| 0 <= i < s.take(k).len() && s.take(k)[i] == s[k];
                assert(s[i] == s[k]);
            }
        }
    } else {
        let (i, j) = choose|i: int, j: int| 0 <= i < s.len() && 0 <= j < s.len() && i != j && s[i] == s[j];
        let (a, b) = if i < j { (i, j) } else { (j, i) };
        assert(s.take(b)[a] == s[b]);
        assert(s.take(b).contains(s[b]));
    }
}

/// Law: the checks find nothing exactly when the graph is sound: no blank
/// or repeated id, no dangling reference, and no line left unreached.
pub proof fn lemma_clean_exactly_when_sound(ds: Seq<Dialogue>)
    ensures
        (validation(ds).len() == 0) == graph_sound(ds),
{
    let n = ds.len() as int;
    lemma_id_messages_empty(ds, n);
    lemma_reference_messages_empty(ds, n);
    lemma_orphan_messages_empty(ds, n);
    lemma_first_seen_distinct(ids(ds));
    assert forall|k: int| 0 <= k < n implies #[trigger] ids(ds)[k] == ds[k].id@ by {}
    assert(validation(ds).len() == id_messages(ds, n).len() + reference_messages(ds, n).len()
        + orphan_messages(ds, n).len());
    if graph_sound(ds) {
        assert forall|k: int| 0 <= k < n implies !is_blank(#[trigger] ds[k].id@) && !ids(ds).take(k).contains(
            ds[k].id@,
        ) by {
            assert(ids(ds)[k] == ds[k].id@);
        }
    }
    if id_messages(ds, n).len() == 0 {
        assert forall|k: int| 0 <= k < ids(ds).len() implies !ids(ds).take(k).contains(#[trigger] ids(ds)[k]) by {
            assert(ids(ds)[k] == ds[k].id@);
            assert(!ids(ds).take(k).contains(ds[k].id@));
        }
    }
}

fn push_all(out: &mut Vec<String>, more: Vec<String>)
    ensures
        texts(final(out)@) == texts(old(out)@) + texts(more@),
{
    let mut more = more;
    let ghost before = out@;
    out.append(&mut more);
    proof {
        assert(texts(out@) =~= texts(before) + texts(old(out)@.subrange(before.len() as int, before.len() as int)) + texts(out@.subrange(before.len() as int, out@.len() as int)));
    }
}

/// The findings of the dialogue graph's checks (see `validation`).
pub fn validate_dialogues(dialogues: &Vec<Dialogue>) -> (r: Vec<String>)
    ensures
        texts(r@) == validation(dialogues@),
{
    let ghost ds = dialogues@;
    let n = dialogues.len();
    // Ids, line by line.
    let mut msgs: Vec<String> = Vec::new();
    let mut seen: Vec<String> = Vec::new();
    let mut i: usize = 0;
    while i < n
        invariant
            n == ds.len(),
            ds == dialogues@,
            i <= n,
            texts(msgs@) == id_messages(ds, i as int),
            texts(seen@) == ids(ds).take(i as int),
        decreases n - i,
    {
        let id = dialogues[i].id.as_str();
        let ghost before = msgs@;
        if blank(id) {
            msgs.push(String::from_str("Empty ID found"));
        }
        if contains_text(&seen, id) {
            let mut m = String::from_str("Duplicate ID: ");
            m.append(id);
            msgs.push(m);
        }
        proof {
            assert(ids(ds).take(i as int + 1) =~= ids(ds).take(i as int).push(ds[i as int].id@));
            reveal_strlit("Empty ID found");
            assert(texts(msgs@) =~= id_messages(ds, i as int + 1));
        }
        seen.push(dialogues[i].id.clone());
        proof {
            assert(texts(seen@) =~= ids(ds).take(i as int + 1));
        }
        i = i + 1;
    }
    proof {
        assert(ids(ds).take(n as int) =~= ids(ds));
    }
    let all = seen;
    // References, line by line.
    let ghost m1 = texts(msgs@);
    let mut refs: Vec<String> = Vec::new();
    let mut i: usize = 0;
    while i < n
        invariant
            n == ds.len(),
            ds == dialogues@,
            i <= n,
            texts(all@) == ids(ds),
            texts(refs@) == reference_messages(ds, i as int),
        decreases n - i,
    {
        let d = &dialogues[i];
        let ghost before = texts(refs@);
        match &d.next {
            Some(nx) => {
                if !contains_text(&all, nx.as_str()) {
                    let mut m = String::from_str("Dangling next reference from '");
                    m.append(d.id.as_str());
                    m.append("' -> '");
                    m.append(nx.as_str());
                    m.append("'");
                    let ghost pre = texts(refs@);
                    refs.push(m);
                    proof {
                        assert(texts(refs@) =~= pre.push(m@));
                    }
                }
            },
            None => {},
        }
        let ghost after_next = texts(refs@);
        match &d.choices {
            Some(cs) => {
                let mut j: usize = 0;
                while j < cs.len()
                    invariant
                        j <= cs@.len(),
                        d.choices == Some(*cs),
                        texts(all@) == ids(ds),
                        texts(refs@) == after_next + choice_messages(*d, ids(ds), j as int),
                    decreases cs@.len() - j,
                {
                    let c = &cs[j];
                    let ghost pre = texts(refs@);
                    if !contains_text(&all, c.next.as_str()) {
                        let mut m = String::from_str("Dangling choice reference from '");
                        m.append(d.id.as_str());
                        m.append("' -> '");
                        m.append(c.next.as_str());
                        m.append("'");
                        refs.push(m);
                        proof {
                            assert(texts(refs@) =~= pre.push(m@));
                        }
                    }
                    proof {
                        assert(choices_of(*d) == cs@);
                        assert(texts(refs@) =~= after_next + choice_messages(*d, ids(ds), j as int + 1));
                    }
                    j = j + 1;
                }
            },
            None => {},
        }
        proof {
            assert(texts(refs@) =~= reference_messages(ds, i as int + 1));
        }
        i = i + 1;
    }
    // Orphans.
    let mut reach: Vec<String> = Vec::new();
    if n > 0 {
        reach.push(dialogues[0].id.clone());
    }
    let mut i: usize = 0;
    while i < n
        invariant
            n == ds.len(),
            ds == dialogues@,
            i <= n,
            texts(reach@) == (if n > 0 { seq![ds[0].id@] } else { Seq::empty() }) + targets_upto(ds, i as int),
        decreases n - i,
    {
        let d = &dialogues[i];
        let ghost before = texts(reach@);
        match &d.next {
            Some(nx) => {
                let ghost pre = reach@;
                reach.push(nx.clone());
                proof {
                    assert(texts(reach@) =~= texts(pre).push(nx@));
                }
            },
            None => {},
        }
        let ghost after_next = texts(reach@);
        match &d.choices {
            Some(cs) => {
                let mut j: usize = 0;
                while j < cs.len()
                    invariant
                        j <= cs@.len(),
                        d.choices == Some(*cs),
                        texts(reach@) == after_next + cs@.take(j as int).map_values(|c: DialogueChoice| c.next@),
                    decreases cs@.len() - j,
                {
                    let ghost pre = reach@;
                    reach.push(cs[j].next.clone());
                    proof {
                        assert(texts(reach@) =~= texts(pre).push(cs@[j as int].next@));
                        assert(cs@.take(j as int + 1).map_values(|c: DialogueChoice| c.next@) =~= cs@.take(
                            j as int,
                        ).map_values(|c: DialogueChoice| c.next@).push(cs@[j as int].next@));
                    }
                    j = j + 1;
                }
                proof {
                    assert(cs@.take(cs@.len() as int) =~= cs@);
                }
            },
            None => {},
        }
        proof {
            assert(texts(reach@) =~= before + targets_of(*d));
        }
        i = i + 1;
    }
    let mut orphans: Vec<String> = Vec::new();
    let mut i: usize = 0;
    while i < n
        invariant
            n == ds.len(),
            ds == dialogues@,
            i <= n,
            texts(reach@) == reached(ds),
            texts(orphans@) == orphan_messages(ds, i as int),
        decreases n - i,
    {
        let id = dialogues[i].id.as_str();
        if !contains_text(&reach, id) {
            let mut m = String::from_str("Orphan dialogue (not referenced): ");
            m.append(id);
            let ghost pre = texts(orphans@);
            orphans.push(m);
            proof {
                assert(texts(orphans@) =~= pre.push(m@));
            }
        }
        i = i + 1;
    }
    push_all(&mut msgs, refs);
    push_all(&mut msgs, orphans);
    msgs
}

/// The `i`-th candidate id: the two prefixes, then `i` in decimal.
pub open spec fn candidate(prefix: Seq<char>, second: Seq<char>, i: nat) -> Seq<char> {
    prefix + second + decimal(i)
}

proof fn lemma_decimal_len(n: nat)
    ensures
        decimal(n).len() >= 1,
        n >= 10 ==> decimal(n).len() >= 2,
    decreases n,
{
    if n >= 10 {
        lemma_decimal_len(n / 10);
    }
}

proof fn lemma_digit_injective(a: nat, b: nat)
    requires
        a < 10,
        b < 10,
        crate::text::digit_char(a) == crate::text::digit_char(b),
    ensures
        a == b,
{
}

proof fn lemma_decimal_injective(a: nat, b: nat)
    requires
        decimal(a) == decimal(b),
    ensures
        a == b,
    decreases a,
{
    lemma_decimal_len(a);
    lemma_decimal_len(b);
    if a < 10 && b < 10 {
        assert(decimal(a)[0] == decimal(b)[0]);
        assert(decimal(a)[0] == crate::text::digit_char(a));
        assert(decimal(b)[0] == crate::text::digit_char(b));
        lemma_digit_injective(a, b);
    } else if a >= 10 && b >= 10 {
        let da = decimal(a);
        let db = decimal(b);
        assert(da.last() == db.last());
        assert(da.drop_last() =~= decimal(a / 10));
        assert(db.drop_last() =~= decimal(b / 10));
        lemma_digit_injective(a % 10, b % 10);
        lemma_decimal_injective(a / 10, b / 10);
    } else {
        assert(decimal(a).len() != decimal(b).len());
    }
}

proof fn lemma_candidate_injective(p: Seq<char>, s: Seq<char>, a: nat, b: nat)
    requires
        candidate(p, s, a) == candidate(p, s, b),
    ensures
        a == b,
{
    let k = (p + s).len() as int;
    let ca = candidate(p, s, a);
    let cb = candidate(p, s, b);
    assert(ca.subrange(k, ca.len() as int) =~= decimal(a));
    assert(cb.subrange(k, cb.len() as int) =~= decimal(b));
    lemma_decimal_injective(a, b);
}

proof fn lemma_fresh_within(ids: Seq<Seq<char>>, p: Seq<char>, s: Seq<char>, m: int)
    requires
        m >= 0,
        forall|j: nat| 1 <= j <= m ==> ids.contains(#[trigger] candidate(p, s, j)),
    ensures
        m <= ids.len(),
{
    let f = |j: int| choose|k: int| 0 <= k < ids.len() && ids[k] == candidate(p, s, j as nat);
    let x = set_int_range(1, m + 1);
    lemma_int_range(1, m + 1);
    assert forall|j: int| x.contains(j) implies 0 <= #[trigger] f(j) < ids.len() && ids[f(j)] == candidate(p, s, j as nat) by {
        assert(ids.contains(candidate(p, s, j as nat)));
    }
    assert forall|a: int, b: int| x.contains(a) && x.contains(b) && #[trigger] f(a) == #[trigger] f(b) implies a == b by {
        lemma_candidate_injective(p, s, a as nat, b as nat);
    }
    assert(injective_on(f, x));
    let y = x.map(f);
    lemma_map_size(x, y, f);
    lemma_int_range(0, ids.len() as int);
    assert forall|k: int| y.contains(k) implies set_int_range(0, ids.len() as int).contains(k) by {
        let j = choose|j: int| x.contains(j) && f(j) == k;
    }
    lemma_len_subset(y, set_int_range(0, ids.len() as int));
}

/// `i` is the smallest number from 1 up whose candidate id is not among
/// `ids`.
pub open spec fn is_least_fresh(ids: Seq<Seq<char>>, p: Seq<char>, s: Seq<char>, i: nat) -> bool {
    &&& 1 <= i
    &&& !ids.contains(candidate(p, s, i))
    &&& forall|j: nat| 1 <= j < i ==> ids.contains(#[trigger] candidate(p, s, j))
}

/// The fresh id for `ids`: the candidate of the smallest number from 1 up
/// that no id takes.
pub open spec fn fresh_id(ids: Seq<Seq<char>>, p: Seq<char>, s: Seq<char>) -> Seq<char> {
    candidate(p, s, choose|i: nat| is_least_fresh(ids, p, s, i))
}

proof fn lemma_least_fresh_unique(ids: Seq<Seq<char>>, p: Seq<char>, s: Seq<char>, i: nat)
    requires
        is_least_fresh(ids, p, s, i),
    ensures
        fresh_id(ids, p, s) == candidate(p, s, i),
{
    let k = choose|k: nat| is_least_fresh(ids, p, s, k);
    assert(is_least_fresh(ids, p, s, k));
    if k < i {
        assert(ids.contains(candidate(p, s, k)));
    } else if i < k {
        assert(ids.contains(candidate(p, s, i)));
    }
}

/// A fresh id: `prefix`, `second_prefix` and the smallest number from 1 up
/// that gives an id no line has.
pub fn unique_id(dialogues: &Vec<Dialogue>, prefix: &str, second_prefix: &str) -> (r: String)
    requires
        dialogues@.len() < i32::MAX,
    ensures
        r@ == fresh_id(ids(dialogues@), prefix@, second_prefix@),
        !ids(dialogues@).contains(r@),
{
    let ghost all = ids(dialogues@);
    let mut existing: Vec<String> = Vec::new();
    let mut k: usize = 0;
    while k < dialogues.len()
        invariant
            k <= dialogues@.len(),
            all == ids(dialogues@),
            texts(existing@) == all.take(k as int),
        decreases dialogues@.len() - k,
    {
        let ghost pre = existing@;
        existing.push(dialogues[k].id.clone());
        proof {
            assert(texts(existing@) =~= texts(pre).push(dialogues@[k as int].id@));
            assert(all.take(k as int + 1) =~= all.take(k as int).push(all[k as int]));
        }
        k = k + 1;
    }
    proof {
        assert(all.take(dialogues@.len() as int) =~= all);
    }
    let mut i: u32 = 1;
    loop
        invariant
            1 <= i <= dialogues@.len() + 1,
            texts(existing@) == all,
            all == ids(dialogues@),
            dialogues@.len() < i32::MAX,
            forall|j: nat| 1 <= j < i ==> all.contains(#[trigger] candidate(prefix@, second_prefix@, j)),
        decreases dialogues@.len() + 1 - i,
    {
        let mut c = String::from_str(prefix);
        c.append(second_prefix);
        append_decimal(&mut c, i);
        proof {
            assert(c@ =~= candidate(prefix@, second_prefix@, i as nat));
        }
        if !contains_text(&existing, c.as_str()) {
            proof {
                assert(is_least_fresh(all, prefix@, second_prefix@, i as nat));
                lemma_least_fresh_unique(all, prefix@, second_prefix@, i as nat);
            }
            return c;
        }
        proof {
            if i == dialogues@.len() + 1 {
                lemma_fresh_within(all, prefix@, second_prefix@, i as int);
            }
        }
        i = i + 1;
    }
}

/// The editor's state: the dialogue graph, the line being edited, whether
/// there are unsaved changes, and the last findings or errors shown.
#[derive(Clone, Debug)]
pub struct DialogueEditorState {
    pub dialogues: Vec<Dialogue>,
    pub selected: Option<usize>,
    pub dirty: bool,
    pub validation_messages: Vec<String>,
}

impl DialogueEditorState {
    /// An editor with nothing loaded: no lines, nothing selected, nothing
    /// changed, no messages.
    pub fn new() -> (r: Self)
        ensures
            r.dialogues@.len() == 0,
            r.selected is None,
            !r.dirty,
            r.validation_messages@.len() == 0,
    {
        DialogueEditorState { dialogues: Vec::new(), selected: None, dirty: false, validation_messages: Vec::new() }
    }
}

/// An editor that opens on an empty graph starts from a one-line example:
/// the narrator's welcome, "Intro_1", with nothing after it; the graph then
/// counts as changed. A graph with lines is left alone.
pub fn seed_example(state: &mut DialogueEditorState)
    ensures
        old(state).dialogues@.len() > 0 ==> *final(state) == *old(state),
        old(state).dialogues@.len() == 0 ==> {
            &&& final(state).dialogues@.len() == 1
            &&& final(state).dialogues@[0].id@ == "Intro_1"@
            &&& final(state).dialogues@[0].speaker@ == "Narrator"@
            &&& final(state).dialogues@[0].text@ == "Welcome to the demo."@
            &&& final(state).dialogues@[0].next is None
            &&& final(state).dialogues@[0].choices is None
            &&& final(state).dirty
            &&& final(state).selected == old(state).selected
            &&& final(state).validation_messages == old(state).validation_messages
        },
{
    if state.dialogues.len() == 0 {
        state.dialogues = vec![
            Dialogue {
                id: String::from_str("Intro_1"),
                speaker: String::from_str("Narrator"),
                text: String::from_str("Welcome to the demo."),
                next: None,
                choices: None,
            },
        ];
        state.dirty = true;
    }
}

/// A fresh line: the fresh "Dlg_Seq_" id, empty speaker and text, no next
/// line, no choices.
pub open spec fn is_new_line(d: Dialogue, ds: Seq<Dialogue>) -> bool {
    &&& d.id@ == fresh_id(ids(ds), "Dlg_"@, "Seq_"@)
    &&& d.speaker@.len() == 0
    &&& d.text@.len() == 0
    &&& d.next is None
    &&& d.choices is None
}

/// Add a fresh line at the end, select it, and mark the graph changed.
pub fn add_new_dialogue(state: &mut DialogueEditorState)
    requires
        old(state).dialogues@.len() < i32::MAX,
    ensures
        final(state).dialogues@.len() == old(state).dialogues@.len() + 1,
        final(state).dialogues@.drop_last() == old(state).dialogues@,
        is_new_line(final(state).dialogues@.last(), old(state).dialogues@),
        !ids(old(state).dialogues@).contains(final(state).dialogues@.last().id@),
        final(state).selected == Some(old(state).dialogues@.len() as usize),
        final(state).dirty,
        final(state).validation_messages == old(state).validation_messages,
{
    let id = unique_id(&state.dialogues, "Dlg_", "Seq_");
    state.dialogues.push(Dialogue { id, speaker: String::new(), text: String::new(), next: None, choices: None });
    state.selected = Some(state.dialogues.len() - 1);
    state.dirty = true;
    proof {
        assert(state.dialogues@.drop_last() =~= old(state).dialogues@);
    }
}

/// Take in the outcome of loading the graph: the loaded lines replace the
/// graph, clear the messages and the selection and count as saved; a failure
/// (its message) becomes the only message.
pub fn apply_load(state: &mut DialogueEditorState, loaded: Result<Vec<Dialogue>, String>)
    ensures
        match loaded {
            Ok(v) => final(state).dialogues == v && final(state).validation_messages@.len() == 0
                && final(state).selected is None && !final(state).dirty,
            Err(msg) => final(state).validation_messages@ == seq![msg] && final(state).dialogues
                == old(state).dialogues && final(state).selected == old(state).selected && final(state).dirty
                == old(state).dirty,
        },
{
    match loaded {
        Ok(v) => {
            state.dialogues = v;
            state.validation_messages = Vec::new();
            state.selected = None;
            state.dirty = false;
        },
        Err(msg) => {
            state.validation_messages = vec![msg];
        },
    }
}

/// Take in the outcome of saving the graph: success counts as saved; a
/// failure adds "Failed to save: " and its message to the messages.
pub fn apply_save(state: &mut DialogueEditorState, saved: Result<(), String>)
    ensures
        final(state).dialogues == old(state).dialogues,
        final(state).selected == old(state).selected,
        match saved {
            Ok(_) => !final(state).dirty && final(state).validation_messages == old(state).validation_messages,
            Err(e) => final(state).dirty == old(state).dirty && texts(final(state).validation_messages@)
                == texts(old(state).validation_messages@).push("Failed to save: "@ + e@),
        },
{
    match saved {
        Ok(_) => {
            state.dirty = false;
        },
        Err(e) => {
            let mut m = String::from_str("Failed to save: ");
            m.append(e.as_str());
            let ghost pre = state.validation_messages@;
            state.validation_messages.push(m);
            proof {
                assert(texts(state.validation_messages@) =~= texts(pre).push(m@));
            }
        },
    }
}

/// An edit to one choice of the line being edited: a new text, event or
/// next line, or the choice's deletion.
#[derive(Clone, Debug)]
pub struct ChoiceCmd {
    pub index: usize,
    pub new_text: Option<String>,
    pub new_event: Option<u32>,
    pub new_next: Option<String>,
    pub delete: bool,
}

/// The order edits are applied in: edits before deletions, each by place.
pub open spec fn cmd_le(a: ChoiceCmd, b: ChoiceCmd) -> bool {
    (!a.delete && b.delete) || (a.delete == b.delete && a.index <= b.index)
}

/// The first of the first `n` edits of `t` that comes after `c` in that
/// order, or `n`.
pub open spec fn first_after(t: Seq<ChoiceCmd>, c: ChoiceCmd, n: int) -> int
    decreases n,
{
    if n <= 0 {
        0
    } else {
        let p = first_after(t, c, n - 1);
        if p < n - 1 {
            p
        } else if cmd_le(t[n - 1], c) {
            n
        } else {
            n - 1
        }
    }
}

/// The edits in application order, equal ones keeping their order (each
/// put after those that do not come after it).
pub open spec fn sorted_cmds(s: Seq<ChoiceCmd>) -> Seq<ChoiceCmd>
    decreases s.len(),
{
    if s.len() == 0 {
        Seq::empty()
    } else {
        let t = sorted_cmds(s.drop_last());
        t.insert(first_after(t, s.last(), t.len() as int), s.last())
    }
}

proof fn lemma_first_after_range(t: Seq<ChoiceCmd>, c: ChoiceCmd, n: int)
    requires
        n >= 0,
    ensures
        0 <= first_after(t, c, n) <= n,
    decreases n,
{
    if n > 0 {
        lemma_first_after_range(t, c, n - 1);
    }
}

proof fn lemma_sorted_len(s: Seq<ChoiceCmd>)
    ensures
        sorted_cmds(s).len() == s.len(),
    decreases s.len(),
{
    if s.len() > 0 {
        lemma_sorted_len(s.drop_last());
        let t = sorted_cmds(s.drop_last());
        lemma_first_after_range(t, s.last(), t.len() as int);
    }
}

fn cmd_precedes(a: &ChoiceCmd, b: &ChoiceCmd) -> (r: bool)
    ensures
        r == cmd_le(*a, *b),
{
    (!a.delete && b.delete) || (a.delete == b.delete && a.index <= b.index)
}

fn sort_cmds(cmds: Vec<ChoiceCmd>) -> (r: Vec<ChoiceCmd>)
    ensures
        r@ == sorted_cmds(cmds@),
{
    let ghost all = cmds@;
    let mut rest = cmds;
    let mut out: Vec<ChoiceCmd> = Vec::new();
    let mut k: usize = 0;
    let n = rest.len();
    while rest.len() > 0
        invariant
            n == all.len(),
            k + rest@.len() == n,
            rest@ == all.subrange(k as int, n as int),
            out@ == sorted_cmds(all.take(k as int)),
        decreases rest@.len(),
    {
        let c = rest.remove(0);
        proof {
            lemma_sorted_len(all.take(k as int));
            assert(all.take(k as int + 1).drop_last() =~= all.take(k as int));
            assert(all.take(k as int + 1).last() == c);
            assert(rest@ =~= all.subrange(k as int + 1, n as int));
        }
        let mut p: usize = 0;
        while p < out.len() && cmd_precedes(&out[p], &c)
            invariant
                p <= out@.len(),
                first_after(out@, c, p as int) == p,
            decreases out@.len() - p,
        {
            p = p + 1;
        }
        proof {
            if p < out@.len() {
                assert(first_after(out@, c, p as int + 1) == p);
                lemma_first_after_stays(out@, c, p as int + 1, out@.len() as int);
            }
        }
        out.insert(p, c);
        k = k + 1;
    }
    proof {
        assert(all.take(n as int) =~= all);
    }
    out
}

proof fn lemma_first_after_stays(t: Seq<ChoiceCmd>, c: ChoiceCmd, k: int, m: int)
    requires
        0 < k <= m,
        first_after(t, c, k) < k,
    ensures
        first_after(t, c, m) == first_after(t, c, k),
    decreases m - k,
{
    if m > k {
        lemma_first_after_stays(t, c, k, m - 1);
    }
}

/// The places the deletions among the first `n` edits name, in order.
pub open spec fn delete_indices(t: Seq<ChoiceCmd>, n: int) -> Seq<usize>
    decreases n,
{
    if n <= 0 {
        Seq::empty()
    } else {
        delete_indices(t, n - 1) + if t[n - 1].delete { seq![t[n - 1].index] } else { Seq::empty() }
    }
}

/// The choices after the last `m` deletion places, taken from the last one
/// back, each removing the choice at its place when there is one; and
/// whether any did.
pub open spec fn deletes_from_end(ch: Seq<DialogueChoice>, idxs: Seq<usize>, m: int) -> (Seq<DialogueChoice>, bool)
    decreases m,
{
    if m <= 0 {
        (ch, false)
    } else {
        let (c1, d1) = deletes_from_end(ch, idxs, m - 1);
        let i = idxs[idxs.len() - m];
        if i < c1.len() {
            (c1.remove(i as int), true)
        } else {
            (c1, d1)
        }
    }
}

/// The choice at place `i` of `c1` after edit `cmd`.
pub open spec fn edited_choice(c: DialogueChoice, cmd: ChoiceCmd) -> DialogueChoice {
    DialogueChoice {
        event: match cmd.new_event { Some(e) => e, None => c.event },
        text: match cmd.new_text { Some(t) => t, None => c.text },
        next: match cmd.new_next { Some(x) => x, None => c.next },
    }
}

/// The choices after the first `n` edits in turn (an edit of a place past
/// the end does nothing), and whether any changed something.
pub open spec fn edits_upto(ch: Seq<DialogueChoice>, cmds: Seq<ChoiceCmd>, n: int) -> (Seq<DialogueChoice>, bool)
    decreases n,
{
    if n <= 0 {
        (ch, false)
    } else {
        let (c1, d1) = edits_upto(ch, cmds, n - 1);
        let cmd = cmds[n - 1];
        if cmd.index < c1.len() {
            (
                c1.update(cmd.index as int, edited_choice(c1[cmd.index as int], cmd)),
                d1 || cmd.new_text is Some || cmd.new_event is Some || cmd.new_next is Some,
            )
        } else {
            (c1, d1)
        }
    }
}

/// The choices after a frame's edits: the edits put in order, the deletions
/// among them applied from the last back, then every edit's changes in
/// order; and whether anything changed.
pub open spec fn choices_after(ch: Seq<DialogueChoice>, cmds: Seq<ChoiceCmd>) -> (Seq<DialogueChoice>, bool) {
    let sorted = sorted_cmds(cmds);
    let idxs = delete_indices(sorted, sorted.len() as int);
    let (c1, d1) = deletes_from_end(ch, idxs, idxs.len() as int);
    let (c2, d2) = edits_upto(c1, sorted, sorted.len() as int);
    (c2, d1 || d2)
}

/// Apply a frame's edits to the choices of the line being edited; returns
/// whether anything changed.
pub fn apply_choice_cmds(choices: &mut Vec<DialogueChoice>, cmds: Vec<ChoiceCmd>) -> (changed: bool)
    ensures
        (final(choices)@, changed) == choices_after(old(choices)@, cmds@),
{
    let ghost orig = cmds@;
    let mut sorted = sort_cmds(cmds);
    proof {
        lemma_sorted_len(orig);
    }
    let ghost s0 = sorted@;
    let mut idxs: Vec<usize> = Vec::new();
    let mut k: usize = 0;
    while k < sorted.len()
        invariant
            sorted@ == s0,
            k <= s0.len(),
            idxs@ == delete_indices(s0, k as int),
        decreases s0.len() - k,
    {
        if sorted[k].delete {
            idxs.push(sorted[k].index);
        }
        proof {
            assert(idxs@ =~= delete_indices(s0, k as int + 1));
        }
        k = k + 1;
    }
    let ghost ch0 = choices@;
    let mut changed = false;
    let mut m: usize = 0;
    while m < idxs.len()
        invariant
            m <= idxs@.len(),
            (choices@, changed) == deletes_from_end(ch0, idxs@, m as int),
        decreases idxs@.len() - m,
    {
        let i = idxs[idxs.len() - 1 - m];
        if i < choices.len() {
            choices.remove(i);
            changed = true;
        }
        m = m + 1;
    }
    let ghost ch1 = choices@;
    let ghost d1 = changed;
    let mut edited = false;
    let mut j: usize = 0;
    let n = sorted.len();
    while sorted.len() > 0
        invariant
            n == s0.len(),
            j + sorted@.len() == n,
            sorted@ == s0.subrange(j as int, n as int),
            (choices@, edited) == edits_upto(ch1, s0, j as int),
        decreases sorted@.len(),
    {
        let cmd = sorted.remove(0);
        proof {
            assert(s0[j as int] == cmd);
            assert(sorted@ =~= s0.subrange(j as int + 1, n as int));
        }
        if cmd.index < choices.len() {
            let ghost before = choices@;
            let c = choices.remove(cmd.index);
            let touched = cmd.new_text.is_some() || cmd.new_event.is_some() || cmd.new_next.is_some();
            let c2 = DialogueChoice {
                event: match cmd.new_event { Some(e) => e, None => c.event },
                text: match cmd.new_text { Some(t) => t, None => c.text },
                next: match cmd.new_next { Some(x) => x, None => c.next },
            };
            choices.insert(cmd.index, c2);
            proof {
                assert(c2 == edited_choice(before[cmd.index as int], cmd));
                assert(choices@ =~= before.update(cmd.index as int, c2));
            }
            edited = edited || touched;
        }
        j = j + 1;
    }
    changed || edited
}

/// One frame's commands other than loading and saving: check the graph,
/// select a line, delete a line, and edit the line being edited (its id,
/// speaker, text and next line; adding a choice; editing its choices).
#[derive(Clone, Debug)]
pub struct EditorCommands {
    pub validate: bool,
    pub select: Option<usize>,
    pub delete: Option<usize>,
    pub edit_id: Option<String>,
    pub edit_speaker: Option<String>,
    pub edit_text: Option<String>,
    pub edit_next: Option<Option<String>>,
    pub add_choice: bool,
    pub choice_cmds: Vec<ChoiceCmd>,
}

/// The selected line after a selection command: the new line when it exists.
pub open spec fn selection_after_select(sel: Option<usize>, select: Option<usize>, n: nat) -> Option<usize> {
    match select {
        Some(i) => if i < n { Some(i) } else { sel },
        None => sel,
    }
}

/// The selected line after line `i` is deleted: none when it was that line,
/// one place up when it came after it.
pub open spec fn selection_after_delete(sel: Option<usize>, i: usize) -> Option<usize> {
    match sel {
        Some(s) => if s == i { None } else if s > i { Some((s - 1) as usize) } else { Some(s) },
        None => None,
    }
}

/// The edited line's id, speaker, text and next line: each replaced when
/// the frame edits it.
pub open spec fn line_fields_edited(
    d: Dialogue,
    e: Dialogue,
    edit_id: Option<String>,
    edit_speaker: Option<String>,
    edit_text: Option<String>,
    edit_next: Option<Option<String>>,
) -> bool {
    &&& e.id == match edit_id { Some(x) => x, None => d.id }
    &&& e.speaker == match edit_speaker { Some(x) => x, None => d.speaker }
    &&& e.text == match edit_text { Some(x) => x, None => d.text }
    &&& e.next == match edit_next { Some(x) => x, None => d.next }
}

/// The choice added to a line: event 0, "New choice", leading to `fresh`.
pub open spec fn is_new_choice(c: DialogueChoice, fresh: Seq<char>) -> bool {
    &&& c.event == 0
    &&& c.text@ == "New choice"@
    &&& c.next@ == fresh
}

/// The edited line's choices: with a choice added (leading to `fresh`) when
/// the frame adds one, then the frame's choice edits applied, provided the
/// line has a list of choices by then; `changed` tells whether the edits
/// changed anything.
pub open spec fn line_choices_edited(
    before: Option<Vec<DialogueChoice>>,
    after: Option<Vec<DialogueChoice>>,
    add: bool,
    fresh: Seq<char>,
    cmds: Seq<ChoiceCmd>,
    changed: bool,
) -> bool {
    if add {
        &&& after is Some
        &&& exists|added: DialogueChoice| #[trigger] is_new_choice(added, fresh)
            && (after->0@, changed) == choices_after(
                match before { Some(v) => v@, None => Seq::empty() }.push(added),
                cmds,
            )
    } else {
        match before {
            None => after is None && !changed,
            Some(v) => after is Some && (after->0@, changed) == choices_after(v@, cmds),
        }
    }
}

/// The edited line's id: the new one when the frame edits it.
pub open spec fn new_line_id(d: Dialogue, edit_id: Option<String>) -> Seq<char> {
    match edit_id {
        Some(x) => x@,
        None => d.id@,
    }
}

/// The ids after the line at place `k` takes id `id`.
pub open spec fn ids_with(ds: Seq<Dialogue>, k: int, id: Seq<char>) -> Seq<Seq<char>> {
    ids(ds).update(k, id)
}

fn edit_fields(
    state: &mut DialogueEditorState,
    sel: usize,
    edit_id: Option<String>,
    edit_speaker: Option<String>,
    edit_text: Option<String>,
    edit_next: Option<Option<String>>,
) -> (any: bool)
    requires
        sel < old(state).dialogues@.len(),
    ensures
        final(state).dialogues@.len() == old(state).dialogues@.len(),
        forall|j: int| 0 <= j < old(state).dialogues@.len() && j != sel ==> final(state).dialogues@[j] == old(state).dialogues@[j],
        line_fields_edited(old(state).dialogues@[sel as int], final(state).dialogues@[sel as int], edit_id, edit_speaker, edit_text, edit_next),
        final(state).dialogues@[sel as int].choices == old(state).dialogues@[sel as int].choices,
        any == (edit_id is Some || edit_speaker is Some || edit_text is Some || edit_next is Some),
        final(state).selected == old(state).selected,
        final(state).dirty == old(state).dirty,
        final(state).validation_messages == old(state).validation_messages,
{
    let mut any = false;
    let mut dlg = state.dialogues.remove(sel);
    if let Some(x) = edit_id {
        dlg.id = x;
        any = true;
    }
    if let Some(x) = edit_speaker {
        dlg.speaker = x;
        any = true;
    }
    if let Some(x) = edit_text {
        dlg.text = x;
        any = true;
    }
    if let Some(x) = edit_next {
        dlg.next = x;
        any = true;
    }
    state.dialogues.insert(sel, dlg);
    proof {
        assert forall|j: int| 0 <= j < old(state).dialogues@.len() && j != sel implies state.dialogues@[j] == old(state).dialogues@[j] by {}
    }
    any
}

fn edit_choices(state: &mut DialogueEditorState, sel: usize, add_choice: bool, choice_cmds: Vec<ChoiceCmd>) -> (any: bool)
    requires
        sel < old(state).dialogues@.len(),
        old(state).dialogues@.len() < i32::MAX,
    ensures
        final(state).dialogues@.len() == old(state).dialogues@.len(),
        forall|j: int| 0 <= j < old(state).dialogues@.len() && j != sel ==> final(state).dialogues@[j] == old(state).dialogues@[j],
        final(state).dialogues@[sel as int].id == old(state).dialogues@[sel as int].id,
        final(state).dialogues@[sel as int].speaker == old(state).dialogues@[sel as int].speaker,
        final(state).dialogues@[sel as int].text == old(state).dialogues@[sel as int].text,
        final(state).dialogues@[sel as int].next == old(state).dialogues@[sel as int].next,
        exists|changed: bool| #[trigger] line_choices_edited(
            old(state).dialogues@[sel as int].choices,
            final(state).dialogues@[sel as int].choices,
            add_choice,
            fresh_id(ids(old(state).dialogues@), "Dlg_"@, "Seq_"@),
            choice_cmds@,
            changed,
        ) && any == (add_choice || changed),
        final(state).selected == old(state).selected,
        final(state).dirty == old(state).dirty,
        final(state).validation_messages == old(state).validation_messages,
{
    let ghost ds0 = state.dialogues@;
    let ghost d = ds0[sel as int];
    let mut working: Option<Vec<DialogueChoice>> = None;
    let ghost mut added_choice: Option<DialogueChoice> = None;
    if add_choice {
        let next = unique_id(&state.dialogues, "Dlg_", "Seq_");
        let nc = DialogueChoice { event: 0, text: String::from_str("New choice"), next };
        proof {
            added_choice = Some(nc);
        }
        let mut dlg = state.dialogues.remove(sel);
        working = match dlg.choices.take() {
            Some(mut v) => {
                v.push(nc);
                Some(v)
            },
            None => Some(vec![nc]),
        };
        state.dialogues.insert(sel, dlg);
    } else {
        let mut dlg = state.dialogues.remove(sel);
        working = dlg.choices.take();
        state.dialogues.insert(sel, dlg);
    }
    let ghost mid = working;
    let mut changed = false;
    working = match working {
        Some(mut v) => {
            changed = apply_choice_cmds(&mut v, choice_cmds);
            Some(v)
        },
        None => None,
    };
    let mut dlg = state.dialogues.remove(sel);
    dlg.choices = working;
    state.dialogues.insert(sel, dlg);
    proof {
        assert forall|j: int| 0 <= j < ds0.len() && j != sel implies state.dialogues@[j] == ds0[j] by {}
        if add_choice {
            let added = added_choice->0;
            assert(is_new_choice(added, fresh_id(ids(ds0), "Dlg_"@, "Seq_"@)));
            assert(mid->0@ =~= match d.choices { Some(v) => v@, None => Seq::empty() }.push(added));
        }
        assert(line_choices_edited(
            d.choices,
            state.dialogues@[sel as int].choices,
            add_choice,
            fresh_id(ids(ds0), "Dlg_"@, "Seq_"@),
            choice_cmds@,
            changed,
        ));
    }
    add_choice || changed
}

fn select_and_delete(state: &mut DialogueEditorState, select: Option<usize>, delete: Option<usize>)
    ensures
        ({
            let ds0 = old(state).dialogues@;
            let sel1 = selection_after_select(old(state).selected, select, ds0.len());
            let deleting = delete is Some && delete->0 < ds0.len();
            &&& final(state).dialogues@ == if deleting { ds0.remove(delete->0 as int) } else { ds0 }
            &&& final(state).selected == if deleting { selection_after_delete(sel1, delete->0) } else { sel1 }
            &&& final(state).dirty == (deleting || old(state).dirty)
        }),
        final(state).validation_messages == old(state).validation_messages,
{
    if let Some(i) = select {
        if i < state.dialogues.len() {
            state.selected = Some(i);
        }
    }
    if let Some(i) = delete {
        if i < state.dialogues.len() {
            state.dialogues.remove(i);
            state.dirty = true;
            state.selected = match state.selected {
                Some(sel) => if sel == i {
                    None
                } else if sel > i {
                    Some(sel - 1)
                } else {
                    Some(sel)
                },
                None => None,
            };
        }
    }
}

/// The editor after one frame's commands (see `apply_commands`): `s0`
/// before, `s1` after.
pub open spec fn commands_applied(s0: DialogueEditorState, s1: DialogueEditorState, cmds: EditorCommands) -> bool {
    let ds0 = s0.dialogues@;
    let sel1 = selection_after_select(s0.selected, cmds.select, ds0.len());
    let deleting = cmds.delete is Some && cmds.delete->0 < ds0.len();
    let ds1 = if deleting { ds0.remove(cmds.delete->0 as int) } else { ds0 };
    let sel2 = if deleting { selection_after_delete(sel1, cmds.delete->0) } else { sel1 };
    let dirty1 = deleting || s0.dirty;
    &&& cmds.validate ==> texts(s1.validation_messages@) == validation(ds0)
    &&& !cmds.validate ==> s1.validation_messages == s0.validation_messages
    &&& s1.selected == sel2
    &&& match sel2 {
        Some(k) => if k < ds1.len() {
            line_edited(ds1, s1.dialogues@, k as int, cmds, dirty1, s1.dirty)
        } else {
            s1.dialogues@ == ds1 && s1.dirty == dirty1
        },
        None => s1.dialogues@ == ds1 && s1.dirty == dirty1,
    }
}

/// Line `k` of `ds1` edited by the frame's commands into `ds2`, the other
/// lines kept; `dirty2` is `dirty1` or whether anything changed.
pub open spec fn line_edited(
    ds1: Seq<Dialogue>,
    ds2: Seq<Dialogue>,
    k: int,
    cmds: EditorCommands,
    dirty1: bool,
    dirty2: bool,
) -> bool {
    let d = ds1[k];
    let e = ds2[k];
    &&& ds2.len() == ds1.len()
    &&& forall|j: int| 0 <= j < ds1.len() && j != k ==> ds2[j] == ds1[j]
    &&& line_fields_edited(d, e, cmds.edit_id, cmds.edit_speaker, cmds.edit_text, cmds.edit_next)
    &&& exists|changed: bool| #[trigger] line_choices_edited(
        d.choices,
        e.choices,
        cmds.add_choice,
        fresh_id(ids_with(ds1, k, new_line_id(d, cmds.edit_id)), "Dlg_"@, "Seq_"@),
        cmds.choice_cmds@,
        changed,
    ) && dirty2 == (dirty1 || cmds.edit_id is Some || cmds.edit_speaker is Some || cmds.edit_text is Some
        || cmds.edit_next is Some || cmds.add_choice || changed)
}

/// Apply one frame's commands (other than loading and saving) in the
/// editor's order: check the graph; select a line; delete a line (fixing
/// the selection); then edit the selected line: its fields, an added choice
/// leading to a fresh id (among the ids with the line's new id), and its
/// choices. Any change marks the graph changed.
pub fn apply_commands(state: &mut DialogueEditorState, cmds: EditorCommands)
    requires
        old(state).dialogues@.len() < i32::MAX,
    ensures
        commands_applied(*old(state), *final(state), cmds),
{
    let ghost c0 = cmds;
    let EditorCommands {
        validate,
        select,
        delete,
        edit_id,
        edit_speaker,
        edit_text,
        edit_next,
        add_choice,
        choice_cmds,
    } = cmds;
    assert(select == c0.select && delete == c0.delete && validate == c0.validate);
    if validate {
        state.validation_messages = validate_dialogues(&state.dialogues);
    }
    select_and_delete(state, select, delete);
    let ghost ds1 = state.dialogues@;
    let ghost dirty1 = state.dirty;
    match state.selected {
        Some(sel) => {
            if sel < state.dialogues.len() {
                let ghost d = ds1[sel as int];
                let fields = edit_fields(state, sel, edit_id, edit_speaker, edit_text, edit_next);
                let ghost ds2 = state.dialogues@;
                proof {
                    assert(ids(ds2) =~= ids_with(ds1, sel as int, ds2[sel as int].id@));
                }
                let ghost cc = choice_cmds@;
                let more = edit_choices(state, sel, add_choice, choice_cmds);
                if fields || more {
                    state.dirty = true;
                }
                proof {
                    let fresh = fresh_id(ids(ds2), "Dlg_"@, "Seq_"@);
                    let ch = choose|changed: bool| #[trigger] line_choices_edited(
                        ds2[sel as int].choices,
                        state.dialogues@[sel as int].choices,
                        add_choice,
                        fresh,
                        cc,
                        changed,
                    ) && more == (add_choice || changed);
                    assert(ds2[sel as int].choices == d.choices);
                    assert(line_choices_edited(
                        d.choices,
                        state.dialogues@[sel as int].choices,
                        add_choice,
                        fresh,
                        cc,
                        ch,
                    ));
                    assert(cc == c0.choice_cmds@);
                    assert(add_choice == c0.add_choice);
                    let e = state.dialogues@[sel as int];
                    assert(line_fields_edited(d, e, c0.edit_id, c0.edit_speaker, c0.edit_text, c0.edit_next));
                    assert(ds2[sel as int].id@ == new_line_id(d, c0.edit_id));
                    assert(fresh == fresh_id(ids_with(ds1, sel as int, new_line_id(d, c0.edit_id)), "Dlg_"@, "Seq_"@));
                    assert(state.dialogues@.len() == ds1.len());
                    assert(state.dirty == (dirty1 || c0.edit_id is Some || c0.edit_speaker is Some
                        || c0.edit_text is Some || c0.edit_next is Some || c0.add_choice || ch));
                    assert(forall|j: int| 0 <= j < ds1.len() && j != sel ==> state.dialogues@[j] == ds1[j]);
                    assert(line_edited(ds1, state.dialogues@, sel as int, c0, dirty1, state.dirty));
                }
            }
        },
        None => {},
    }
    proof {
        assert(commands_applied(*old(state), *state, c0));
    }
}

} // verus!
