//! The hierarchical data parser used by the tree widget: an ordered list of
//! indentation-prefixed lines (two spaces per level) becomes an ordered
//! forest of nodes, which re-serializes as a nested constructor-call
//! expression in the generated code.
//!
//! Excess indentation (a line jumping more than one level deeper than its
//! predecessor) is absorbed, not rejected: the line is treated as one level
//! deeper than its nearest enclosing parent.

use vstd::prelude::*;
use vstd::string::StrSliceExecFns;
use crate::text::escaped;
use crate::text::push_escaped;
use crate::text::push_str;

verus! {

/// One parsed tree node: a label and its ordered children.
pub struct TreeNode {
    pub label: String,
    pub children: Vec<TreeNode>,
}

/// The mathematical shape of a node: what the contracts speak about.
pub struct TreeShape {
    pub label: Seq<char>,
    pub children: Seq<TreeShape>,
}

pub open spec fn forest_view(s: Seq<TreeNode>) -> Seq<TreeShape>
    decreases s,
{
    if s.len() == 0 {
        Seq::<TreeShape>::empty()
    } else {
        seq![node_view(s[0])] + forest_view(s.skip(1))
    }
}

pub open spec fn node_view(n: TreeNode) -> TreeShape
    decreases n,
{
    TreeShape { label: n.label@, children: forest_view(n.children@) }
}

pub proof fn lemma_forest_view_len(s: Seq<TreeNode>)
    ensures
        forest_view(s).len() == s.len(),
    decreases s.len(),
{
    if s.len() > 0 {
        lemma_forest_view_len(s.skip(1));
    }
}

pub proof fn lemma_forest_view_index(s: Seq<TreeNode>, i: int)
    requires
        0 <= i < s.len(),
    ensures
        forest_view(s).len() == s.len(),
        forest_view(s)[i] == node_view(s[i]),
    decreases s.len(),
{
    lemma_forest_view_len(s);
    if i > 0 {
        lemma_forest_view_index(s.skip(1), i - 1);
    }
}

/// Whitespace for the purposes of trimming a line.
pub open spec fn is_ws_char(c: char) -> bool {
    c == ' ' || c == '\t' || c == '\n' || c == '\r'
}

/// The number of leading space characters (spaces only, not general
/// whitespace): two of them encode one indentation level.
pub open spec fn leading_spaces(s: Seq<char>) -> nat
    decreases s.len(),
{
    if s.len() > 0 && s[0] == ' ' {
        (1 + leading_spaces(s.skip(1))) as nat
    } else {
        0
    }
}

pub open spec fn trim_start_spec(s: Seq<char>) -> Seq<char>
    decreases s.len(),
{
    if s.len() > 0 && is_ws_char(s[0]) {
        trim_start_spec(s.skip(1))
    } else {
        s
    }
}

pub open spec fn trim_end_spec(s: Seq<char>) -> Seq<char>
    decreases s.len(),
{
    if s.len() > 0 && is_ws_char(s.last()) {
        trim_end_spec(s.drop_last())
    } else {
        s
    }
}

/// The line with leading and trailing whitespace removed.
pub open spec fn trimmed(s: Seq<char>) -> Seq<char> {
    trim_end_spec(trim_start_spec(s))
}

/// `leading_spaces` equals the first non-space position.
proof fn lemma_leading_spaces_at(s: Seq<char>, j: int)
    requires
        0 <= j <= s.len(),
        forall|k: int| 0 <= k < j ==> s[k] == ' ',
        j == s.len() || s[j] != ' ',
    ensures
        leading_spaces(s) == j,
    decreases j,
{
    if j == 0 {
    } else {
        assert(s[0] == ' ');
        assert(forall|k: int| 0 <= k < j - 1 ==> s.skip(1)[k] == s[k + 1]);
        lemma_leading_spaces_at(s.skip(1), j - 1);
    }
}

/// `trim_start_spec` skips exactly the leading whitespace run.
proof fn lemma_trim_start_at(s: Seq<char>, a: int)
    requires
        0 <= a <= s.len(),
        forall|k: int| 0 <= k < a ==> is_ws_char(s[k]),
        a == s.len() || !is_ws_char(s[a]),
    ensures
        trim_start_spec(s) == s.skip(a),
    decreases a,
{
    if a == 0 {
        assert(s.skip(0) =~= s);
    } else {
        assert(is_ws_char(s[0]));
        assert(forall|k: int| 0 <= k < a - 1 ==> s.skip(1)[k] == s[k + 1]);
        lemma_trim_start_at(s.skip(1), a - 1);
        assert(s.skip(1).skip(a - 1) =~= s.skip(a));
    }
}

/// `trim_end_spec` keeps exactly the prefix up to the trailing whitespace run.
proof fn lemma_trim_end_at(s: Seq<char>, b: int)
    requires
        0 <= b <= s.len(),
        forall|k: int| b <= k < s.len() ==> is_ws_char(s[k]),
        b == 0 || !is_ws_char(s[b - 1]),
    ensures
        trim_end_spec(s) == s.take(b),
    decreases s.len() - b,
{
    if b == s.len() {
        if s.len() > 0 && is_ws_char(s.last()) {
            assert(!is_ws_char(s[b - 1]));
            assert(false);
        }
        assert(s.take(b) =~= s);
    } else {
        assert(is_ws_char(s.last()));
        lemma_trim_end_at(s.drop_last(), b);
        assert(s.drop_last().take(b) =~= s.take(b));
    }
}

/// The non-blank lines, each paired with its computed indent level
/// (leading spaces, floor-divided by two) and its trimmed text.
pub open spec fn entries(lines: Seq<Seq<char>>) -> Seq<(nat, Seq<char>)>
    decreases lines.len(),
{
    if lines.len() == 0 {
        Seq::<(nat, Seq<char>)>::empty()
    } else {
        let rest = entries(lines.drop_last());
        let t = trimmed(lines.last());
        if t.len() == 0 {
            rest
        } else {
            rest.push((leading_spaces(lines.last()) / 2, t))
        }
    }
}

/// The pairs a `(usize, String)` list stands for.
pub open spec fn entry_views(v: Seq<(usize, String)>) -> Seq<(nat, Seq<char>)> {
    v.map_values(|p: (usize, String)| (p.0 as nat, p.1@))
}

/// The level of the last entry, or -1 when there is none.
pub open spec fn last_level(es: Seq<(nat, Seq<char>)>) -> int {
    if es.len() == 0 {
        -1
    } else {
        es.last().0 as int
    }
}

/// Absorb excess indentation: a raw level deeper than one past the
/// predecessor's effective level is pulled back to exactly one deeper.
pub open spec fn clamp_level(raw: nat, prev: int) -> nat {
    if raw as int > prev + 1 {
        (prev + 1) as nat
    } else {
        raw
    }
}

/// The entry list with every level jump limited to one.
pub open spec fn leveled(es: Seq<(nat, Seq<char>)>) -> Seq<(nat, Seq<char>)>
    decreases es.len(),
{
    if es.len() == 0 {
        Seq::<(nat, Seq<char>)>::empty()
    } else {
        let pre = leveled(es.drop_last());
        pre.push((clamp_level(es.last().0, last_level(pre)), es.last().1))
    }
}

/// No entry is more than one level deeper than its predecessor.
pub open spec fn steps_ok(es: Seq<(nat, Seq<char>)>) -> bool {
    forall|i: int| 1 <= i < es.len() ==> #[trigger] es[i].0 <= es[i - 1].0 + 1
}

pub proof fn lemma_leveled_len(es: Seq<(nat, Seq<char>)>)
    ensures
        leveled(es).len() == es.len(),
        forall|i: int| 0 <= i < es.len() ==> #[trigger] leveled(es)[i].1 == es[i].1,
        forall|i: int| 0 <= i < es.len() ==> #[trigger] leveled(es)[i].0 <= es[i].0,
    decreases es.len(),
{
    if es.len() > 0 {
        lemma_leveled_len(es.drop_last());
        assert(forall|i: int|
            0 <= i < es.len() - 1 ==> #[trigger] es.drop_last()[i] == es[i]);
    }
}

/// The leveled list starts at level zero, keeps steps bounded by one, and
/// keeps every level at most its index.
pub proof fn lemma_leveled_wf(es: Seq<(nat, Seq<char>)>)
    ensures
        leveled(es).len() == es.len(),
        steps_ok(leveled(es)),
        forall|i: int| 0 <= i < es.len() ==> #[trigger] leveled(es)[i].0 <= i,
        es.len() > 0 ==> leveled(es)[0].0 == 0,
    decreases es.len(),
{
    lemma_leveled_len(es);
    if es.len() > 0 {
        lemma_leveled_wf(es.drop_last());
        let pre = leveled(es.drop_last());
        let full = leveled(es);
        assert(forall|i: int| 0 <= i < pre.len() ==> #[trigger] full[i] == pre[i]);
        assert(full.last() == (clamp_level(es.last().0, last_level(pre)), es.last().1));
        if es.len() == 1 {
            assert(full[0].0 == clamp_level(es.last().0, -1));
        } else {
            assert(full[es.len() - 2] == pre.last());
            assert(full.last().0 <= pre.last().0 + 1);
        }
    }
}

/// Leveling an already well-formed list changes nothing.
pub proof fn lemma_leveled_id(es: Seq<(nat, Seq<char>)>)
    requires
        steps_ok(es),
        es.len() > 0 ==> es[0].0 == 0,
    ensures
        leveled(es) == es,
    decreases es.len(),
{
    if es.len() > 0 {
        let pre0 = es.drop_last();
        assert(forall|i: int| 0 <= i < pre0.len() ==> #[trigger] pre0[i] == es[i]);
        lemma_leveled_id(pre0);
        if es.len() == 1 {
            assert(clamp_level(es.last().0, -1) == es.last().0);
        } else {
            assert(last_level(pre0) == es[es.len() - 2].0 as int);
            assert(es.last().0 <= es[es.len() - 2].0 + 1);
        }
        assert(leveled(es) =~= es);
    }
}

/// Scans one line: its indent level and trimmed text, or `None` when the
/// line is blank.
fn line_entry(s: &String) -> (r: Option<(usize, String)>)
    ensures
        match r {
            Some(e) => trimmed(s@).len() > 0 && e.0 as nat == leading_spaces(s@) / 2 && e.1@
                == trimmed(s@),
            None => trimmed(s@).len() == 0,
        },
{
    let st = s.as_str();
    let n = st.unicode_len();
    let mut sp: usize = 0;
    while sp < n && st.get_char(sp) == ' '
        invariant
            st@ == s@,
            n == s@.len(),
            sp <= n,
            forall|k: int| 0 <= k < sp ==> s@[k] == ' ',
        decreases n - sp,
    {
        sp = sp + 1;
    }
    proof {
        lemma_leading_spaces_at(s@, sp as int);
    }
    let mut a: usize = sp;
    while a < n && is_ws(st.get_char(a))
        invariant
            st@ == s@,
            n == s@.len(),
            sp <= a <= n,
            forall|k: int| 0 <= k < a ==> is_ws_char(s@[k]),
        decreases n - a,
    {
        a = a + 1;
    }
    proof {
        lemma_trim_start_at(s@, a as int);
    }
    if a == n {
        proof {
            assert(trim_start_spec(s@) =~= s@.skip(n as int));
            assert(trimmed(s@) =~= Seq::<char>::empty());
        }
        return None;
    }
    let mut b: usize = n;
    while b > a && is_ws(st.get_char(b - 1))
        invariant
            st@ == s@,
            n == s@.len(),
            a <= b <= n,
            forall|k: int| b <= k < n ==> is_ws_char(s@[k]),
        decreases b,
    {
        b = b - 1;
    }
    proof {
        // b > a here: the character at a is not whitespace, so the scan from
        // the right stops no earlier than a + 1.
        assert(!is_ws_char(s@[a as int]));
        let t = trim_start_spec(s@);
        assert(t == s@.skip(a as int));
        assert(forall|k: int|
            b - a <= k < t.len() ==> #[trigger] t[k] == s@[k + a]);
        lemma_trim_end_at(t, b - a);
        assert(trimmed(s@) =~= s@.subrange(a as int, b as int));
    }
    let label = st.substring_char(a, b).to_owned();
    Some((sp / 2, label))
}

/// Whitespace test for a single character.
fn is_ws(c: char) -> (r: bool)
    ensures
        r == is_ws_char(c),
{
    c == ' ' || c == '\t' || c == '\n' || c == '\r'
}

/// Pairs every non-blank line with its indent level and trimmed text.
fn make_entries(lines: &Vec<String>) -> (r: Vec<(usize, String)>)
    ensures
        entry_views(r@) == entries(lines.deep_view()),
{
    let mut out: Vec<(usize, String)> = Vec::new();
    let mut i: usize = 0;
    while i < lines.len()
        invariant
            i <= lines@.len(),
            entry_views(out@) == entries(lines.deep_view().take(i as int)),
        decreases lines@.len() - i,
    {
        let ghost dl = lines.deep_view();
        proof {
            assert(dl.take(i + 1).drop_last() =~= dl.take(i as int));
            assert(dl.take(i + 1).last() == dl[i as int]);
            assert(dl[i as int] == lines@[i as int]@);
        }
        match line_entry(&lines[i]) {
            Some(e) => {
                out.push(e);
                proof {
                    assert(entry_views(out@) =~= entries(dl.take(i + 1)));
                }
            },
            None => {
                proof {
                    assert(entry_views(out@) =~= entries(dl.take(i + 1)));
                }
            },
        }
        i = i + 1;
    }
    proof {
        assert(lines.deep_view().take(lines@.len() as int) =~= lines.deep_view());
    }
    out
}

/// Applies the level clamp to a scanned entry list.
fn clamp_levels(es: &Vec<(usize, String)>) -> (r: Vec<(usize, String)>)
    ensures
        entry_views(r@) == leveled(entry_views(es@)),
{
    let mut out: Vec<(usize, String)> = Vec::new();
    // The effective level of the previous entry, plus one; zero when there
    // is no previous entry, so the first entry lands at level zero.
    let mut prev_plus_one: usize = 0;
    let mut i: usize = 0;
    while i < es.len()
        invariant
            i <= es@.len(),
            entry_views(out@) == leveled(entry_views(es@).take(i as int)),
            prev_plus_one as int == last_level(leveled(entry_views(es@).take(i as int))) + 1,
            prev_plus_one <= i,
        decreases es@.len() - i,
    {
        let ghost evs = entry_views(es@);
        let raw = es[i].0;
        let eff: usize = if raw > prev_plus_one {
            prev_plus_one
        } else {
            raw
        };
        let label = es[i].1.clone();
        out.push((eff, label));
        proof {
            assert(evs.take(i + 1).drop_last() =~= evs.take(i as int));
            assert(evs.take(i + 1).last() == evs[i as int]);
            assert(evs[i as int] == (es@[i as int].0 as nat, es@[i as int].1@));
            assert(eff as nat == clamp_level(raw as nat, prev_plus_one as int - 1));
            assert(entry_views(out@) =~= leveled(evs.take(i + 1)));
        }
        prev_plus_one = eff + 1;
        i = i + 1;
    }
    proof {
        assert(entry_views(es@).take(es@.len() as int) =~= entry_views(es@));
    }
    out
}

/// The position of the first entry at or after `j` whose level is at most
/// `level` — the end of the subtree block that starts just before `j`.
pub open spec fn subtree_end(es: Seq<(nat, Seq<char>)>, level: nat, j: int) -> int
    decreases es.len() - j,
{
    if j >= es.len() {
        es.len() as int
    } else if es[j].0 <= level {
        j
    } else {
        subtree_end(es, level, j + 1)
    }
}

proof fn lemma_subtree_end(es: Seq<(nat, Seq<char>)>, level: nat, j: int)
    requires
        0 <= j <= es.len(),
    ensures
        j <= subtree_end(es, level, j) <= es.len(),
        forall|k: int| j <= k < subtree_end(es, level, j) ==> #[trigger] es[k].0 > level,
        subtree_end(es, level, j) == es.len() || es[subtree_end(es, level, j)].0 <= level,
    decreases es.len() - j,
{
    if j < es.len() && es[j].0 > level {
        lemma_subtree_end(es, level, j + 1);
    }
}

/// When the entries in `[1, m)` are all deeper than `level` and the entry at
/// `m` (if any) is not, the subtree block ends exactly at `m`.
proof fn lemma_subtree_end_at(es: Seq<(nat, Seq<char>)>, level: nat, m: int)
    requires
        1 <= m <= es.len(),
        forall|k: int| 1 <= k < m ==> #[trigger] es[k].0 > level,
        m == es.len() || es[m].0 <= level,
    ensures
        subtree_end(es, level, 1) == m,
{
    lemma_subtree_end(es, level, 1);
    let e = subtree_end(es, level, 1);
    if e < m {
        assert(es[e].0 > level);
    }
    if m < e {
        assert(es[m].0 > level);
    }
}

/// The forest encoded by a level-clamped entry list: each entry becomes a
/// node, and the run of deeper entries after it becomes its children.
pub open spec fn build_sforest(es: Seq<(nat, Seq<char>)>) -> Seq<TreeShape>
    decreases es.len(),
{
    if es.len() == 0 {
        Seq::<TreeShape>::empty()
    } else {
        let e = subtree_end(es, es[0].0, 1);
        if 1 <= e <= es.len() {
            seq![
                TreeShape { label: es[0].1, children: build_sforest(es.subrange(1, e)) },
            ] + build_sforest(es.skip(e))
        } else {
            Seq::<TreeShape>::empty()
        }
    }
}

/// The forest of a parsed line list: scan, clamp levels, group.
pub open spec fn parse_spec(lines: Seq<Seq<char>>) -> Seq<TreeShape> {
    build_sforest(leveled(entries(lines)))
}

/// Every level is at most its index (true of every clamped list).
pub open spec fn levels_bounded(es: Seq<(nat, Seq<char>)>) -> bool {
    forall|i: int| 0 <= i < es.len() ==> #[trigger] es[i].0 <= i
}

/// Groups the entries from `pos` on: consumes the run of entries at exactly
/// `level`, giving each one the deeper run after it as its children; stops
/// at the first entry shallower than `level`.
#[verifier::rlimit(100)]
fn build_rec(items: &Vec<(usize, String)>, pos: usize, level: usize) -> (r: (Vec<TreeNode>, usize))
    requires
        pos <= items@.len(),
        steps_ok(entry_views(items@)),
        levels_bounded(entry_views(items@)),
        pos < items@.len() ==> entry_views(items@)[pos as int].0 <= level as nat,
    ensures
        pos <= r.1 <= items@.len(),
        r.1 == items@.len() || entry_views(items@)[r.1 as int].0 < level as nat,
        pos < r.1 ==> entry_views(items@)[pos as int].0 == level as nat,
        forall|i: int|
            pos <= i < r.1 ==> #[trigger] entry_views(items@)[i].0 >= level as nat,
        forest_view(r.0@) == build_sforest(
            entry_views(items@).subrange(pos as int, r.1 as int),
        ),
    decreases items@.len() - pos,
{
    let ghost evs = entry_views(items@);
    let n = items.len();
    if pos >= n {
        let done: Vec<TreeNode> = Vec::new();
        proof {
            assert(evs.subrange(pos as int, pos as int) =~= Seq::<(nat, Seq<char>)>::empty());
        }
        return (done, pos);
    }
    let lvl_p = items[pos].0;
    if lvl_p != level {
        let done: Vec<TreeNode> = Vec::new();
        proof {
            assert(evs[pos as int] == (items@[pos as int].0 as nat, items@[pos as int].1@));
            assert(evs.subrange(pos as int, pos as int) =~= Seq::<(nat, Seq<char>)>::empty());
        }
        return (done, pos);
    }
    proof {
        assert(evs[pos as int] == (items@[pos as int].0 as nat, items@[pos as int].1@));
        assert(evs[pos as int].0 <= pos as nat);
    }
    let label = items[pos].1.clone();
    let (children, q) = build_rec(items, pos + 1, level + 1);
    let (siblings, e) = build_rec(items, q, level);
    let ghost sibv = siblings@;
    let node = TreeNode { label, children };
    let mut result = siblings;
    result.insert(0, node);
    proof {
        assert(result@.skip(1) =~= sibv);
        assert(result@[0] == node);
        lemma_build_compose(
            entry_views(items@),
            pos as int,
            q as int,
            e as int,
            level as nat,
            node,
            result@,
        );
    }
    (result, e)
}

/// Prepending a grouped node to the grouped siblings yields exactly the
/// forest of the whole consumed block.
proof fn lemma_build_compose(
    evs: Seq<(nat, Seq<char>)>,
    pos: int,
    q: int,
    e: int,
    level: nat,
    node: TreeNode,
    result: Seq<TreeNode>,
)
    requires
        0 <= pos < evs.len(),
        pos < q <= e <= evs.len(),
        evs[pos].0 == level,
        forall|k: int| pos + 1 <= k < q ==> #[trigger] evs[k].0 >= level + 1,
        q < e ==> evs[q as int].0 == level,
        node.label@ == evs[pos].1,
        forest_view(node.children@) == build_sforest(evs.subrange(pos + 1, q)),
        result.len() > 0,
        result[0] == node,
        forest_view(result.skip(1)) == build_sforest(evs.subrange(q, e)),
    ensures
        forest_view(result) == build_sforest(evs.subrange(pos, e)),
{
    let block = evs.subrange(pos, e);
    let m = q - pos;
    assert(forall|k: int| 0 <= k < block.len() ==> #[trigger] block[k] == evs[pos + k]);
    assert(forall|k: int| 1 <= k < m ==> #[trigger] block[k].0 > level);
    if m < block.len() {
        assert(block[m].0 <= level);
    }
    lemma_subtree_end_at(block, level, m);
    assert(block.subrange(1, m) =~= evs.subrange(pos + 1, q));
    assert(block.skip(m) =~= evs.subrange(q, e));
    assert(node_view(node) == TreeShape {
        label: evs[pos].1,
        children: build_sforest(evs.subrange(pos + 1, q)),
    });
    assert(forest_view(result) =~= build_sforest(block));
}

/// Parses an indentation-prefixed line list into an ordered forest.
pub fn parse_forest(lines: &Vec<String>) -> (r: Vec<TreeNode>)
    ensures
        forest_view(r@) == parse_spec(lines.deep_view()),
{
    let ents = make_entries(lines);
    let clamped = clamp_levels(&ents);
    proof {
        lemma_leveled_wf(entry_views(ents@));
    }
    let (forest, end) = build_rec(&clamped, 0, 0);
    proof {
        let es = entry_views(clamped@);
        assert(end == es.len());
        assert(es.subrange(0, end as int) =~= es);
    }
    forest
}

/// The line list actually fed to the parser: a two-line default replaces an
/// input that is empty once blanks are removed, so the emitted widget is
/// never structurally empty.
pub open spec fn tree_source(lines: Seq<Seq<char>>) -> Seq<Seq<char>> {
    if entries(lines).len() == 0 {
        seq!["Root"@, "  Child"@]
    } else {
        lines
    }
}

/// The forest the tree widget's item list stands for.
pub open spec fn tree_forest_spec(lines: Seq<Seq<char>>) -> Seq<TreeShape> {
    parse_spec(tree_source(lines))
}

/// Parses the tree widget's item list, substituting the default two-line
/// hierarchy when the list is blank.
pub fn parse_tree_items(items: &Vec<String>) -> (r: Vec<TreeNode>)
    ensures
        forest_view(r@) == tree_forest_spec(items.deep_view()),
{
    let ents = make_entries(items);
    if ents.len() == 0 {
        let mut d: Vec<String> = Vec::new();
        d.push("Root".to_owned());
        d.push("  Child".to_owned());
        proof {
            assert(d.deep_view() =~~= seq!["Root"@, "  Child"@]);
        }
        parse_forest(&d)
    } else {
        parse_forest(items)
    }
}

/// The nested constructor-call expression for a forest, as emitted into the
/// generated program.
pub open spec fn forest_literal(f: Seq<TreeShape>) -> Seq<char> {
    "vec!["@ + forest_items_text(f) + "]"@
}

/// The comma-separated node constructors inside a forest literal.
pub open spec fn forest_items_text(f: Seq<TreeShape>) -> Seq<char>
    decreases f, 1int,
{
    if f.len() == 0 {
        Seq::<char>::empty()
    } else if f.len() == 1 {
        node_literal(f[0])
    } else {
        forest_items_text(f.drop_last()) + ", "@ + node_literal(f.last())
    }
}

/// One node's constructor call, its children nested as a sequence literal.
pub open spec fn node_literal(n: TreeShape) -> Seq<char>
    decreases n, 0int,
{
    "GenTreeNode { label: \""@ + escaped(n.label) + "\".to_string(), children: "@ + ("vec!["@
        + forest_items_text(n.children) + "]"@) + " }"@
}

/// Appends the nested literal expression for `f`.
pub fn push_forest_literal(out: &mut String, f: &Vec<TreeNode>)
    ensures
        final(out)@ == old(out)@ + forest_literal(forest_view(f@)),
    decreases f,
{
    let ghost orig = out@;
    let ghost fv = forest_view(f@);
    proof {
        lemma_forest_view_len(f@);
    }
    push_str(out, "vec![");
    let mut i: usize = 0;
    while i < f.len()
        invariant
            i <= f@.len(),
            fv == forest_view(f@),
            fv.len() == f@.len(),
            out@ == orig + "vec!["@ + forest_items_text(fv.take(i as int)),
        decreases f@.len() - i,
    {
        proof {
            lemma_forest_view_index(f@, i as int);
            assert(fv.take(i + 1).drop_last() =~= fv.take(i as int));
            assert(fv.take(i + 1).last() == fv[i as int]);
        }
        if i > 0 {
            push_str(out, ", ");
        }
        push_node_literal(out, &f[i]);
        proof {
            assert(out@ =~= orig + "vec!["@ + forest_items_text(fv.take(i + 1)));
        }
        i = i + 1;
    }
    push_str(out, "]");
    proof {
        lemma_forest_view_len(f@);
        assert(fv.take(f@.len() as int) =~= fv);
        assert(out@ =~= orig + forest_literal(fv));
    }
}

/// Appends the constructor call for one node.
fn push_node_literal(out: &mut String, n: &TreeNode)
    ensures
        final(out)@ == old(out)@ + node_literal(node_view(*n)),
    decreases n,
{
    let ghost orig = out@;
    push_str(out, "GenTreeNode { label: \"");
    push_escaped(out, n.label.as_str());
    push_str(out, "\".to_string(), children: ");
    push_forest_literal(out, &n.children);
    push_str(out, " }");
    proof {
        assert(out@ =~= orig + node_literal(node_view(*n)));
    }
}


/// A run of `n` spaces.
pub open spec fn sp_seq(n: nat) -> Seq<char>
    decreases n,
{
    if n == 0 {
        Seq::<char>::empty()
    } else {
        sp_seq((n - 1) as nat).push(' ')
    }
}

proof fn lemma_sp_seq(n: nat)
    ensures
        sp_seq(n).len() == n,
        forall|k: int| 0 <= k < n ==> sp_seq(n)[k] == ' ',
    decreases n,
{
    if n > 0 {
        lemma_sp_seq((n - 1) as nat);
    }
}

/// The depth-first flattening of a forest, parent before children, each
/// node paired with its level.
pub open spec fn flat_forest(f: Seq<TreeShape>, level: nat) -> Seq<(nat, Seq<char>)>
    decreases f, 0int,
{
    if f.len() == 0 {
        Seq::<(nat, Seq<char>)>::empty()
    } else {
        flat_node(f[0], level) + flat_forest(f.skip(1), level)
    }
}

pub open spec fn flat_node(n: TreeShape, level: nat) -> Seq<(nat, Seq<char>)>
    decreases n, 1int,
{
    seq![(level, n.label)] + flat_forest(n.children, (level + 1) as nat)
}

/// Flattened entries re-rendered as canonical lines: two spaces per level.
pub open spec fn flat_lines(es: Seq<(nat, Seq<char>)>) -> Seq<Seq<char>> {
    es.map_values(|e: (nat, Seq<char>)| sp_seq(2 * e.0) + e.1)
}

proof fn lemma_flat_forest_snoc(f: Seq<TreeShape>, n: TreeShape, level: nat)
    ensures
        flat_forest(f.push(n), level) == flat_forest(f, level) + flat_node(n, level),
    decreases f.len(),
{
    if f.len() == 0 {
        assert(f.push(n)[0] == n);
        assert(f.push(n).skip(1) =~= Seq::<TreeShape>::empty());
        assert(flat_forest(f.push(n), level) == flat_node(n, level) + flat_forest(
            Seq::<TreeShape>::empty(),
            level,
        ));
        assert(flat_node(n, level) + Seq::<(nat, Seq<char>)>::empty() =~= flat_node(n, level));
        assert(flat_forest(f, level) + flat_node(n, level) =~= flat_node(n, level));
    } else {
        lemma_flat_forest_snoc(f.skip(1), n, level);
        assert(f.push(n)[0] == f[0]);
        assert(f.push(n).skip(1) =~= f.skip(1).push(n));
        assert(flat_forest(f.push(n), level) == flat_node(f[0], level) + flat_forest(
            f.skip(1).push(n),
            level,
        ));
        assert(flat_forest(f, level) == flat_node(f[0], level) + flat_forest(f.skip(1), level));
        assert(flat_node(f[0], level) + (flat_forest(f.skip(1), level) + flat_node(n, level))
            =~= (flat_node(f[0], level) + flat_forest(f.skip(1), level)) + flat_node(n, level));
    }
}

/// Appends the canonical lines of `f`, each prefixed by `pad` and children
/// indented two spaces further.
fn flatten_into(out: &mut Vec<String>, f: &Vec<TreeNode>, pad: &String, Ghost(level): Ghost<nat>)
    requires
        pad@ == sp_seq(2 * level),
    ensures
        final(out).deep_view() == old(out).deep_view() + flat_lines(
            flat_forest(forest_view(f@), level),
        ),
    decreases f,
{
    let ghost odv = out.deep_view();
    let ghost fv = forest_view(f@);
    proof {
        lemma_forest_view_len(f@);
    }
    let mut i: usize = 0;
    while i < f.len()
        invariant
            pad@ == sp_seq(2 * level),
            i <= f@.len(),
            fv == forest_view(f@),
            fv.len() == f@.len(),
            out.deep_view() == odv + flat_lines(flat_forest(fv.take(i as int), level)),
        decreases f@.len() - i,
    {
        proof {
            lemma_forest_view_index(f@, i as int);
            assert(fv.take(i + 1) =~= fv.take(i as int).push(fv[i as int]));
            lemma_flat_forest_snoc(fv.take(i as int), fv[i as int], level);
        }
        let ghost before = out.deep_view();
        let mut line = pad.clone();
        push_str(&mut line, f[i].label.as_str());
        out.push(line);
        let mut child_pad = pad.clone();
        push_str(&mut child_pad, "  ");
        proof {
            reveal_strlit("  ");
            lemma_sp_seq(2 * level);
            lemma_sp_seq((2 * (level + 1)) as nat);
            assert(child_pad@ =~= sp_seq((2 * (level + 1)) as nat));
        }
        flatten_into(out, &f[i].children, &child_pad, Ghost((level + 1) as nat));
        proof {
            let node = fv[i as int];
            let first: Seq<char> = sp_seq(2 * level) + node.label;
            assert(line@ == sp_seq(2 * level) + f@[i as int].label@);
            assert(node.label == f@[i as int].label@);
            assert(flat_node(node, level) == seq![(level, node.label)] + flat_forest(
                node.children,
                (level + 1) as nat,
            ));
            assert(flat_lines(flat_node(node, level)) =~~= seq![first] + flat_lines(
                flat_forest(node.children, (level + 1) as nat),
            ));
            assert(flat_lines(flat_forest(fv.take(i as int), level) + flat_node(node, level))
                =~~= flat_lines(flat_forest(fv.take(i as int), level)) + flat_lines(
                flat_node(node, level),
            ));
            assert(out.deep_view() =~~= before.push(line@) + flat_lines(
                flat_forest(node.children, (level + 1) as nat),
            ));
            assert(out.deep_view() =~~= odv + flat_lines(flat_forest(fv.take(i + 1), level)));
        }
        i = i + 1;
    }
    proof {
        assert(fv.take(f@.len() as int) =~= fv);
    }
}

/// Re-serializes a forest as canonical indented lines: depth first, parent
/// before children, two spaces per level.
pub fn flatten_forest(f: &Vec<TreeNode>) -> (r: Vec<String>)
    ensures
        r.deep_view() == flat_lines(flat_forest(forest_view(f@), 0)),
{
    let pad = String::new();
    let mut out: Vec<String> = Vec::new();
    proof {
        assert(pad@ =~= sp_seq(0));
        assert(out.deep_view() =~~= Seq::<Seq<char>>::empty());
    }
    flatten_into(&mut out, f, &pad, Ghost(0nat));
    proof {
        assert(out.deep_view() =~~= Seq::<Seq<char>>::empty() + flat_lines(
            flat_forest(forest_view(f@), 0),
        ));
        assert(Seq::<Seq<char>>::empty() + flat_lines(flat_forest(forest_view(f@), 0)) =~~=
            flat_lines(flat_forest(forest_view(f@), 0)));
    }
    out
}

/// A line already in canonical form: an even number of leading spaces, then
/// non-blank text with no surrounding whitespace.
pub open spec fn canonical_line(s: Seq<char>) -> bool {
    let l = leading_spaces(s);
    l % 2 == 0 && l < s.len() && !is_ws_char(s[l as int]) && !is_ws_char(s[s.len() - 1])
}

/// A line list already in canonical two-space-per-level indentation: every
/// line canonical, the first at level zero, and no line more than one level
/// deeper than its predecessor.
pub open spec fn canonical_lines(lines: Seq<Seq<char>>) -> bool {
    (forall|i: int| 0 <= i < lines.len() ==> canonical_line(#[trigger] lines[i])) && (lines.len()
        > 0 ==> leading_spaces(lines[0]) == 0) && (forall|i: int|
        1 <= i < lines.len() ==> #[trigger] (leading_spaces(lines[i]) / 2) <= leading_spaces(
            lines[i - 1],
        ) / 2 + 1)
}

proof fn lemma_leading_spaces_prefix(s: Seq<char>)
    ensures
        leading_spaces(s) <= s.len(),
        forall|k: int| 0 <= k < leading_spaces(s) ==> s[k] == ' ',
        leading_spaces(s) < s.len() ==> s[leading_spaces(s) as int] != ' ',
    decreases s.len(),
{
    if s.len() > 0 && s[0] == ' ' {
        lemma_leading_spaces_prefix(s.skip(1));
        assert(forall|k: int| 0 <= k < s.skip(1).len() ==> s.skip(1)[k] == s[k + 1]);
        assert forall|k: int| 0 <= k < leading_spaces(s) implies s[k] == ' ' by {
            if k > 0 {
                assert(s.skip(1)[k - 1] == ' ');
            }
        }
    }
}

/// What a canonical line is made of: its indentation run and its label.
proof fn lemma_canonical_split(s: Seq<char>)
    requires
        canonical_line(s),
    ensures
        trimmed(s) == s.skip(leading_spaces(s) as int),
        trimmed(s).len() > 0,
        sp_seq(leading_spaces(s)) + trimmed(s) == s,
{
    let l = leading_spaces(s);
    lemma_leading_spaces_prefix(s);
    lemma_trim_start_at(s, l as int);
    let t = s.skip(l as int);
    assert(t.len() > 0);
    assert(t.last() == s[s.len() - 1]);
    assert(trim_end_spec(t) == t);
    lemma_sp_seq(l);
    assert(s.take(l as int) =~= sp_seq(l));
    assert(sp_seq(l) + t =~= s);
}

/// Scanning canonical lines keeps every line, at its stated level.
proof fn lemma_entries_canonical(lines: Seq<Seq<char>>)
    requires
        forall|i: int| 0 <= i < lines.len() ==> canonical_line(#[trigger] lines[i]),
    ensures
        entries(lines).len() == lines.len(),
        forall|i: int|
            0 <= i < lines.len() ==> #[trigger] entries(lines)[i] == (
                leading_spaces(lines[i]) / 2,
                trimmed(lines[i]),
            ),
    decreases lines.len(),
{
    if lines.len() > 0 {
        let pre = lines.drop_last();
        assert(forall|i: int| 0 <= i < pre.len() ==> pre[i] == lines[i]);
        lemma_entries_canonical(pre);
        lemma_canonical_split(lines.last());
    }
}

/// Grouping a level-clamped entry list and flattening the result gives the
/// list back.
proof fn lemma_flat_build(es: Seq<(nat, Seq<char>)>, level: nat)
    requires
        steps_ok(es),
        forall|i: int| 0 <= i < es.len() ==> (#[trigger] es[i]).0 >= level,
        es.len() > 0 ==> es[0].0 == level,
    ensures
        flat_forest(build_sforest(es), level) == es,
    decreases es.len(),
{
    if es.len() == 0 {
    } else {
        let l0 = es[0].0;
        lemma_subtree_end(es, l0, 1);
        let e = subtree_end(es, l0, 1);
        let b1 = es.subrange(1, e);
        let b2 = es.skip(e);
        assert(forall|k: int| 0 <= k < b1.len() ==> b1[k] == es[1 + k]);
        assert(forall|k: int| 0 <= k < b2.len() ==> b2[k] == es[e + k]);
        assert(steps_ok(b1));
        assert(forall|i: int| 0 <= i < b1.len() ==> (#[trigger] b1[i]).0 >= level + 1);
        if b1.len() > 0 {
            assert(es[1].0 <= es[0].0 + 1);
            assert(b1[0].0 == level + 1);
        }
        lemma_flat_build(b1, (level + 1) as nat);
        assert(steps_ok(b2));
        if b2.len() > 0 {
            assert(es[e as int].0 <= l0);
            assert(b2[0].0 == level);
        }
        lemma_flat_build(b2, level);
        let shape = TreeShape { label: es[0].1, children: build_sforest(b1) };
        let whole = seq![shape] + build_sforest(b2);
        assert(build_sforest(es) == whole);
        assert(whole[0] == shape);
        assert(whole.skip(1) =~= build_sforest(b2));
        assert(flat_forest(whole, level) == flat_node(shape, level) + flat_forest(
            build_sforest(b2),
            level,
        ));
        assert(es[0] == (level, es[0].1));
        assert(flat_forest(build_sforest(es), level) =~= es);
    }
}

/// Tree parser idempotence: when the lines are already in canonical
/// two-space-per-level indentation, parsing and flattening reproduces
/// exactly the original lines.
pub proof fn lemma_tree_parse_idempotent(lines: Seq<Seq<char>>)
    requires
        canonical_lines(lines),
    ensures
        flat_lines(flat_forest(parse_spec(lines), 0)) == lines,
{
    lemma_entries_canonical(lines);
    let es = entries(lines);
    assert(steps_ok(es));
    if es.len() > 0 {
        assert(es[0].0 == leading_spaces(lines[0]) / 2);
        assert(es[0].0 == 0);
    }
    lemma_leveled_id(es);
    lemma_flat_build(es, 0);
    assert(flat_forest(parse_spec(lines), 0) == es);
    assert forall|i: int| 0 <= i < lines.len() implies #[trigger] flat_lines(es)[i]
        == lines[i] by {
        let l = leading_spaces(lines[i]);
        lemma_canonical_split(lines[i]);
        assert(es[i] == (l / 2, trimmed(lines[i])));
        assert(2 * (l / 2) == l);
        assert(flat_lines(es)[i] == sp_seq(l) + trimmed(lines[i]));
    }
    assert(flat_lines(es) =~~= lines);
}

} // verus!
