//! Boot-menu selection model.
//!
//! The menu presents the configuration's entries in display order — the
//! file order unless an entry's order value overrides it, with ties between
//! explicit order values broken by id — tracks the highlighted entry, and decides
//! when the countdown hands the boot to the default entry. Rendering and
//! raw input belong to the surrounding shell; what is proved here is the
//! ordering, the default resolution, and the timeout decision.

use vstd::prelude::*;
use crate::config::schema_types::BootEntry;
use crate::config::schema_types::LblConfig;
use vstd::string::StringSliceAdditionalSpecFns;
use vstd::string::StrSliceExecFns;

verus! {

/// Lexicographic order on text; a proper prefix comes first.
pub open spec fn lex_lt(a: Seq<char>, b: Seq<char>) -> bool
    decreases a.len(),
{
    if b.len() == 0 {
        false
    } else if a.len() == 0 {
        true
    } else if a[0] != b[0] {
        (a[0] as u32) < (b[0] as u32)
    } else {
        lex_lt(a.drop_first(), b.drop_first())
    }
}

/// Rank an entry's order value gives it; an entry without one ranks 0.
pub open spec fn spec_order_key(e: BootEntry) -> int {
    match e.order {
        Some(o) => o as int,
        None => 0,
    }
}

/// Whether an entry carries an explicit order value.
pub open spec fn spec_has_order(e: BootEntry) -> bool {
    e.order is Some
}

/// Entry `i` displays strictly before entry `j`: by order value first; at
/// an equal rank an explicitly ordered entry precedes an order-less one,
/// two explicitly ordered entries tie-break by id and then by file
/// position, and two order-less entries keep their file order.
pub open spec fn menu_lt(es: Seq<BootEntry>, i: int, j: int) -> bool {
    let eq_rank = spec_order_key(es[i]) == spec_order_key(es[j]);
    ||| spec_order_key(es[i]) < spec_order_key(es[j])
    ||| (eq_rank && spec_has_order(es[i]) && !spec_has_order(es[j]))
    ||| (eq_rank && spec_has_order(es[i]) && spec_has_order(es[j]) && lex_lt(es[i].id@, es[j].id@))
    ||| (eq_rank && spec_has_order(es[i]) && spec_has_order(es[j]) && es[i].id@ == es[j].id@ && i
        < j)
    ||| (eq_rank && !spec_has_order(es[i]) && !spec_has_order(es[j]) && i < j)
}

proof fn lemma_lex_irrefl(a: Seq<char>)
    ensures
        !lex_lt(a, a),
    decreases a.len(),
{
    if a.len() > 0 {
        lemma_lex_irrefl(a.drop_first());
    }
}

proof fn lemma_lex_total(a: Seq<char>, b: Seq<char>)
    ensures
        lex_lt(a, b) || lex_lt(b, a) || a == b,
    decreases a.len(),
{
    if a.len() == 0 && b.len() == 0 {
        assert(a =~= b);
    } else if a.len() > 0 && b.len() > 0 && a[0] != b[0] {
        vstd::utf8::char_u32_cast(a[0], a[0] as u32);
        vstd::utf8::char_u32_cast(b[0], b[0] as u32);
        assert(a[0] as u32 != b[0] as u32);
    } else if a.len() > 0 && b.len() > 0 && a[0] == b[0] {
        lemma_lex_total(a.drop_first(), b.drop_first());
        if a.drop_first() == b.drop_first() {
            assert(a.drop_first().len() == b.drop_first().len());
            assert(a.len() == b.len());
            assert forall|k: int| 0 <= k < a.len() implies a[k] == b[k] by {
                if k > 0 {
                    assert(a[k] == a.drop_first()[k - 1]);
                    assert(b[k] == b.drop_first()[k - 1]);
                }
            }
            assert(a =~= b);
        }
    }
}

proof fn lemma_lex_trans(a: Seq<char>, b: Seq<char>, c: Seq<char>)
    requires
        lex_lt(a, b),
        lex_lt(b, c),
    ensures
        lex_lt(a, c),
    decreases a.len(),
{
    if a.len() > 0 && b.len() > 0 && c.len() > 0 && a[0] == b[0] && b[0] == c[0] {
        lemma_lex_trans(a.drop_first(), b.drop_first(), c.drop_first());
    }
}

/// The display order is a strict total order on distinct positions.
proof fn lemma_menu_lt_total(es: Seq<BootEntry>, i: int, j: int)
    requires
        i != j,
    ensures
        menu_lt(es, i, j) || menu_lt(es, j, i),
{
    lemma_lex_total(es[i].id@, es[j].id@);
}

proof fn lemma_menu_lt_irrefl(es: Seq<BootEntry>, i: int)
    ensures
        !menu_lt(es, i, i),
{
    lemma_lex_irrefl(es[i].id@);
}

proof fn lemma_menu_lt_trans(es: Seq<BootEntry>, i: int, j: int, k: int)
    requires
        menu_lt(es, i, j),
        menu_lt(es, j, k),
    ensures
        menu_lt(es, i, k),
{
    if spec_order_key(es[i]) == spec_order_key(es[j]) && spec_order_key(es[j]) == spec_order_key(
        es[k],
    ) {
        if lex_lt(es[i].id@, es[j].id@) && lex_lt(es[j].id@, es[k].id@) {
            lemma_lex_trans(es[i].id@, es[j].id@, es[k].id@);
        }
    }
}

/// A valid display order: one position per entry, pairwise distinct, and
/// sorted by the display rule.
pub open spec fn display_order_ok(es: Seq<BootEntry>, order: Seq<usize>) -> bool {
    &&& order.len() == es.len()
    &&& forall|p: int| 0 <= p < order.len() ==> (#[trigger] order[p]) < es.len()
    &&& forall|p: int, q: int| 0 <= p < q < order.len() ==> order[p] != order[q]
    &&& forall|p: int, q: int|
        0 <= p < q < order.len() ==> !menu_lt(es, #[trigger] order[q] as int, #[trigger] order[p] as int)
}

/// Compares two entries by the display rule.
fn entry_lt(entries: &Vec<BootEntry>, a: usize, b: usize) -> (r: bool)
    requires
        a < entries@.len(),
        b < entries@.len(),
    ensures
        r == menu_lt(entries@, a as int, b as int),
{
    let (ka, ha): (i32, bool) = match entries[a].order {
        Some(o) => (o, true),
        None => (0, false),
    };
    let (kb, hb): (i32, bool) = match entries[b].order {
        Some(o) => (o, true),
        None => (0, false),
    };
    if ka < kb {
        return true;
    }
    if kb < ka {
        return false;
    }
    if ha != hb {
        return ha;
    }
    if !ha {
        return a < b;
    }
    if str_lex_lt(entries[a].id.as_str(), entries[b].id.as_str()) {
        return true;
    }
    if crate::util::str_eq(entries[a].id.as_str(), entries[b].id.as_str()) {
        return a < b;
    }
    false
}

/// Lexicographic comparison of text.
fn str_lex_lt(a: &str, b: &str) -> (r: bool)
    ensures
        r == lex_lt(a@, b@),
{
    let na = a.unicode_len();
    let nb = b.unicode_len();
    let mut i: usize = 0;
    proof {
        assert(a@.skip(0) =~= a@);
        assert(b@.skip(0) =~= b@);
    }
    while i < na && i < nb
        invariant
            i <= na,
            i <= nb,
            na == a@.len(),
            nb == b@.len(),
            lex_lt(a@, b@) == lex_lt(a@.skip(i as int), b@.skip(i as int)),
        decreases na - i,
    {
        let ca = a.get_char(i);
        let cb = b.get_char(i);
        proof {
            assert(a@.skip(i as int)[0] == a@[i as int]);
            assert(b@.skip(i as int)[0] == b@[i as int]);
            assert(a@.skip(i as int).drop_first() =~= a@.skip(i as int + 1));
            assert(b@.skip(i as int).drop_first() =~= b@.skip(i as int + 1));
        }
        if ca != cb {
            return (ca as u32) < (cb as u32);
        }
        i = i + 1;
    }
    proof {
        if i >= nb {
            assert(b@.skip(i as int).len() == 0);
        } else {
            assert(a@.skip(i as int).len() == 0);
            assert(b@.skip(i as int).len() > 0);
        }
    }
    i >= na && i < nb
}

/// Computes the display order of the entries.
pub fn compute_display_order(entries: &Vec<BootEntry>) -> (r: Vec<usize>)
    ensures
        display_order_ok(entries@, r@),
{
    let n = entries.len();
    let mut order: Vec<usize> = Vec::new();
    let mut i: usize = 0;
    while i < n
        invariant
            i <= n,
            n == entries@.len(),
            order@.len() == i,
            forall|p: int| 0 <= p < order@.len() ==> (#[trigger] order@[p]) < i,
            forall|p: int, q: int| 0 <= p < q < order@.len() ==> order@[p] != order@[q],
            forall|p: int, q: int|
                0 <= p < q < order@.len() ==> !menu_lt(
                    entries@,
                    #[trigger] order@[q] as int,
                    #[trigger] order@[p] as int,
                ),
        decreases n - i,
    {
        // find the first position whose element displays after entry i
        let mut pos: usize = 0;
        while pos < order.len() && !entry_lt(entries, i, order[pos])
            invariant
                pos <= order@.len(),
                i < n,
                n == entries@.len(),
                order@.len() == i,
                forall|p: int| 0 <= p < order@.len() ==> (#[trigger] order@[p]) < i,
                forall|k: int| 0 <= k < pos ==> !menu_lt(entries@, i as int, #[trigger] order@[k] as int),
            decreases order@.len() - pos,
        {
            pos = pos + 1;
        }
        let ghost before = order@;
        order.insert(pos, i);
        proof {
            assert forall|p: int, q: int|
                0 <= p < q < order@.len() implies !menu_lt(
                entries@,
                #[trigger] order@[q] as int,
                #[trigger] order@[p] as int,
            ) by {
                let x = order@[p];
                let y = order@[q];
                if p < pos && q == pos {
                    // x was kept, y is the new entry
                    assert(x == before[p]);
                    assert(!menu_lt(entries@, i as int, x as int));
                    lemma_menu_lt_total(entries@, x as int, i as int);
                    lemma_menu_lt_irrefl(entries@, i as int);
                    assert(x != i);
                } else if p < pos && q > pos {
                    assert(x == before[p]);
                    assert(y == before[q - 1]);
                } else if p == pos && q > pos {
                    // x is the new entry, y displayed after the insertion point
                    assert(y == before[q - 1]);
                    if pos < before.len() {
                        assert(menu_lt(entries@, i as int, before[pos as int] as int));
                        if q - 1 > pos {
                            assert(!menu_lt(
                                entries@,
                                before[q - 1] as int,
                                before[pos as int] as int,
                            ));
                            lemma_menu_lt_total(entries@, before[pos as int] as int, y as int);
                            lemma_menu_lt_irrefl(entries@, before[pos as int] as int);
                            if before[pos as int] != y {
                                assert(menu_lt(entries@, before[pos as int] as int, y as int));
                                lemma_menu_lt_trans(
                                    entries@,
                                    i as int,
                                    before[pos as int] as int,
                                    y as int,
                                );
                            }
                        }
                        // asymmetry
                        if menu_lt(entries@, y as int, i as int) {
                            lemma_menu_lt_trans(entries@, y as int, i as int, y as int);
                            lemma_menu_lt_irrefl(entries@, y as int);
                        }
                    }
                } else if p < pos && q < pos {
                    assert(x == before[p]);
                    assert(y == before[q]);
                } else if p > pos && q > pos {
                    assert(x == before[p - 1]);
                    assert(y == before[q - 1]);
                }
            }
            assert forall|p: int, q: int| 0 <= p < q < order@.len() implies order@[p]
                != order@[q] by {
                if p == pos {
                    assert(order@[q] == before[q - 1]);
                } else if q == pos {
                    assert(order@[p] == before[p]);
                } else if p < pos && q < pos {
                    assert(order@[p] == before[p] && order@[q] == before[q]);
                } else if p < pos && q > pos {
                    assert(order@[p] == before[p] && order@[q] == before[q - 1]);
                } else {
                    assert(order@[p] == before[p - 1] && order@[q] == before[q - 1]);
                }
            }
        }
        i = i + 1;
    }
    order
}

/// Every entry position appears somewhere in a valid display order.
pub proof fn lemma_display_order_complete(es: Seq<BootEntry>, order: Seq<usize>, k: int)
    requires
        display_order_ok(es, order),
        0 <= k < es.len(),
    ensures
        exists|p: int| 0 <= p < order.len() && (#[trigger] order[p]) as int == k,
{
    broadcast use vstd::set::group_set_axioms;

    let vals = order.map_values(|v: usize| v as int);
    assert(vals.no_duplicates()) by {
        assert forall|p: int, q: int|
            0 <= p < vals.len() && 0 <= q < vals.len() && p != q implies vals[p] != vals[q] by {
            if p < q {
                assert(order[p] != order[q]);
            } else {
                assert(order[q] != order[p]);
            }
        }
    }
    vals.unique_seq_to_set();
    if !(exists|p: int| 0 <= p < order.len() && (#[trigger] order[p]) as int == k) {
        let n = es.len() as int;
        let target = vstd::set_lib::set_int_range(0, n).remove(k);
        assert forall|x: int| vals.to_set().contains(x) implies target.contains(x) by {
            assert(vals.contains(x));
            let p = choose|p: int| 0 <= p < vals.len() && vals[p] == x;
            assert(order[p] < es.len());
            assert(order[p] as int != k);
        }
        vstd::set_lib::lemma_int_range(0, n);
        assert(vstd::set_lib::set_int_range(0, n).contains(k));
        assert(target.len() == n - 1);
        vstd::set_lib::lemma_len_subset(vals.to_set(), target);
        assert(false);
    }
}

/// The live state of the boot menu.
pub struct MenuState {
    pub display_order: Vec<usize>,
    pub selected: usize,
    pub deadline: Option<u64>,
}

impl MenuState {
    /// A menu is coherent with its entries when the order is valid and the
    /// highlight is in range.
    pub open spec fn wf(&self, es: Seq<BootEntry>) -> bool {
        &&& display_order_ok(es, self.display_order@)
        &&& es.len() > 0 ==> self.selected < self.display_order@.len()
    }

    /// Opens the menu on a configuration at time `now_ms`: entries in
    /// display order, the default entry highlighted when the configuration
    /// names one that exists, and the countdown armed exactly when the
    /// configuration shows one.
    pub fn new(config: &LblConfig, now_ms: u64) -> (r: MenuState)
        ensures
            r.wf(config.entries@),
            r.deadline matches Some(d) ==> config.advanced.show_countdown && d
                == (if now_ms + config.timeout_ms <= u64::MAX {
                (now_ms + config.timeout_ms) as u64
            } else {
                u64::MAX
            }),
            r.deadline is None ==> !config.advanced.show_countdown,
            (config.advanced.default_boot_entry_id matches Some(d) && (exists|k: int|
                0 <= k < config.entries@.len() && (#[trigger] config.entries@[k]).id@ == d@))
                ==> r.selected < r.display_order@.len()
                && config.entries@[r.display_order@[r.selected as int] as int].id@
                == config.advanced.default_boot_entry_id.unwrap()@,
    {
        let display_order = compute_display_order(&config.entries);
        let mut selected: usize = 0;
        let ghost des = config.entries@;
        match &config.advanced.default_boot_entry_id {
            Some(d) => {
                let m = display_order.len();
                let mut k: usize = 0;
                let mut found = false;
                while k < m
                    invariant
                        k <= m,
                        m == display_order@.len(),
                        des == config.entries@,
                        config.advanced.default_boot_entry_id matches Some(q) && q == d,
                        display_order_ok(config.entries@, display_order@),
                        !found ==> selected == 0,
                        !found ==> forall|p: int|
                            0 <= p < k ==> des[(#[trigger] display_order@[p]) as int].id@ != d@,
                        found ==> selected < m && des[display_order@[selected as int] as int].id@
                            == d@,
                    decreases m - k,
                {
                    let idx = display_order[k];
                    if !found && crate::util::str_eq(config.entries[idx].id.as_str(), d.as_str()) {
                        selected = k;
                        found = true;
                    }
                    k = k + 1;
                }
                proof {
                    if !found {
                        if exists|j: int| 0 <= j < des.len() && (#[trigger] des[j]).id@ == d@ {
                            let j = choose|j: int|
                                0 <= j < des.len() && (#[trigger] des[j]).id@ == d@;
                            lemma_display_order_complete(des, display_order@, j);
                            let p = choose|p: int|
                                0 <= p < display_order@.len() && (
                                #[trigger] display_order@[p]) as int == j;
                            assert(des[display_order@[p] as int].id@ == d@);
                            assert(false);
                        }
                    }
                }
            },
            None => {},
        }
        let deadline: Option<u64> = if config.advanced.show_countdown {
            if now_ms <= u64::MAX - config.timeout_ms as u64 {
                Some(now_ms + config.timeout_ms as u64)
            } else {
                Some(u64::MAX)
            }
        } else {
            None
        };
        let r = MenuState { display_order, selected, deadline };
        proof {
            if config.entries@.len() > 0 {
                assert(r.display_order@.len() == config.entries@.len());
            }
        }
        r
    }

    /// Moves the highlight one entry down, wrapping at the end.
    pub fn select_next(&mut self)
        requires
            old(self).display_order@.len() > 0,
            old(self).selected < old(self).display_order@.len(),
        ensures
            final(self).selected < final(self).display_order@.len(),
            final(self).display_order@ == old(self).display_order@,
            final(self).deadline is None,
    {
        // any navigation cancels the countdown
        self.deadline = None;
        let m = self.display_order.len();
        if self.selected < m - 1 {
            self.selected = self.selected + 1;
        } else {
            self.selected = 0;
        }
    }

    /// Moves the highlight one entry up, wrapping at the start.
    pub fn select_prev(&mut self)
        requires
            old(self).display_order@.len() > 0,
            old(self).selected < old(self).display_order@.len(),
        ensures
            final(self).selected < final(self).display_order@.len(),
            final(self).display_order@ == old(self).display_order@,
            final(self).deadline is None,
    {
        self.deadline = None;
        if self.selected > 0 {
            self.selected = self.selected - 1;
        } else {
            self.selected = self.display_order.len() - 1;
        }
    }

    /// The entry index currently highlighted.
    pub fn current_entry(&self) -> (r: usize)
        requires
            self.selected < self.display_order@.len(),
        ensures
            r == self.display_order@[self.selected as int],
    {
        self.display_order[self.selected]
    }

    /// The timeout decision: once the armed countdown has elapsed, the
    /// highlighted entry boots; before that, or with the countdown off or
    /// cancelled, nothing happens.
    pub fn tick(&self, now_ms: u64) -> (r: Option<usize>)
        requires
            self.selected < self.display_order@.len() || self.deadline is None,
        ensures
            r == (match self.deadline {
                Some(d) => if now_ms >= d {
                    Some(self.display_order@[self.selected as int])
                } else {
                    None::<usize>
                },
                None => None::<usize>,
            }),
    {
        match self.deadline {
            Some(d) => {
                if now_ms >= d {
                    Some(self.display_order[self.selected])
                } else {
                    None
                }
            },
            None => None,
        }
    }
}

} // verus!
