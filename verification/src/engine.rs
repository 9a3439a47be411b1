//! The fix database: merging fix definitions from several places by priority,
//! ordering them by name, and the selection cursor over them.
use vstd::prelude::*;
use crate::issue::Issue;
use crate::text::{
    chars_end_with, chars_of, decimal, has_suffix, lex_le, lex_lt, lemma_lex_le_transitive,
    lemma_lex_lt_total, push_decimal, push_str, str_lt,
};

verus! {

broadcast use vstd::seq_lib::group_to_multiset_ensures;

/// The fix definitions found in one place (a directory), in the order of
/// their files; `name` says where they came from ("user-local", "system", ...).
pub struct FixSource {
    pub name: String,
    pub files: Vec<Vec<Issue>>,
}

/// The loaded fix definitions and the current selection.
pub struct Engine {
    pub issues: Vec<Issue>,
    pub selected_index: usize,
    pub loaded_from: Vec<String>,
    pub total_loaded: usize,
}

// ---------------------------------------------------------------------------
// Specifications
// ---------------------------------------------------------------------------

/// The sequences of `parts`, one after the other.
pub open spec fn concat_issues(parts: Seq<Seq<Issue>>) -> Seq<Issue>
    decreases parts.len(),
{
    if parts.len() == 0 {
        seq![]
    } else {
        concat_issues(parts.drop_last()) + parts.last()
    }
}

/// The issues of one source, file after file.
pub open spec fn source_issues(src: FixSource) -> Seq<Issue> {
    concat_issues(src.files@.map_values(|f: Vec<Issue>| f@))
}

/// The issues of all sources, source after source.
pub open spec fn all_issues(srcs: Seq<FixSource>) -> Seq<Issue>
    decreases srcs.len(),
{
    if srcs.len() == 0 {
        seq![]
    } else {
        all_issues(srcs.drop_last()) + source_issues(srcs.last())
    }
}

/// Some issue of `s` has the identifier `id`.
pub open spec fn has_id(s: Seq<Issue>, id: Seq<char>) -> bool {
    exists|i: int| 0 <= i < s.len() && s[i].id@ == id
}

/// The issues of `s` whose identifier no earlier issue of `s` has, in order:
/// the definition that is met first wins.
pub open spec fn first_occurrences(s: Seq<Issue>) -> Seq<Issue>
    decreases s.len(),
{
    if s.len() == 0 {
        seq![]
    } else {
        let prev = first_occurrences(s.drop_last());
        if has_id(prev, s.last().id@) {
            prev
        } else {
            prev.push(s.last())
        }
    }
}

/// How many definitions the last source of `srcs` adds to those before it.
pub open spec fn added_by_last(srcs: Seq<FixSource>) -> int
    recommends
        srcs.len() > 0,
{
    first_occurrences(all_issues(srcs)).len() - first_occurrences(all_issues(srcs.drop_last())).len()
}

/// The label of a source that contributed `count` definitions: "name (count fixes)".
pub open spec fn source_label(name: Seq<char>, count: nat) -> Seq<char> {
    name + " ("@ + decimal(count) + " fixes)"@
}

/// The labels of the sources that contributed at least one definition, in order.
pub open spec fn source_labels(srcs: Seq<FixSource>) -> Seq<Seq<char>>
    decreases srcs.len(),
{
    if srcs.len() == 0 {
        seq![]
    } else {
        let prev = source_labels(srcs.drop_last());
        let c = added_by_last(srcs);
        if c > 0 {
            prev.push(source_label(srcs.last().name@, c as nat))
        } else {
            prev
        }
    }
}

/// `s[k]` is the first issue of `s` with its identifier.
pub open spec fn is_first_definition(s: Seq<Issue>, k: int) -> bool {
    0 <= k < s.len() && forall|j: int| 0 <= j < k ==> #[trigger] s[j].id@ != s[k].id@
}

/// Every issue of `loaded` is the first definition of its identifier in `all`.
pub open spec fn all_first_definitions(loaded: Seq<Issue>, all: Seq<Issue>) -> bool {
    forall|w: int|
        0 <= w < loaded.len() ==> exists|k: int|
            #![trigger is_first_definition(all, k)]
            is_first_definition(all, k) && all[k] == #[trigger] loaded[w]
}

/// The issues are ordered by name, in the order of `str`.
pub open spec fn sorted_by_name(s: Seq<Issue>) -> bool {
    forall|i: int, j: int| 0 <= i < j < s.len() ==> lex_le(#[trigger] s[i].name@, #[trigger] s[j].name@)
}

/// No two issues share an identifier.
pub open spec fn distinct_ids(s: Seq<Issue>) -> bool {
    forall|i: int, j: int| 0 <= i < j < s.len() ==> #[trigger] s[i].id@ != #[trigger] s[j].id@
}

/// A fix file name that `Path::extension` reads as having the extension
/// "toml": it ends in ".toml" and something stands before that dot.
pub open spec fn is_toml_file_name(name: Seq<char>) -> bool {
    name.len() > 5 && has_suffix(name, ".toml"@)
}

/// The selection after moving up: from the top it wraps to the bottom.
pub open spec fn index_after_up(len: nat, index: nat) -> nat {
    if index == 0 {
        if len == 0 { 0 } else { (len - 1) as nat }
    } else {
        (index - 1) as nat
    }
}

/// The selection after moving down: from the bottom it wraps to the top.
pub open spec fn index_after_down(len: nat, index: nat) -> nat {
    if len == 0 {
        index
    } else {
        ((index + 1) % len) as nat
    }
}

impl Engine {
    /// The selection points at an issue whenever there is one, and the count
    /// of loaded issues is the number held.
    pub open spec fn wf(&self) -> bool {
        &&& self.total_loaded == self.issues@.len()
        &&& (self.issues@.len() == 0 ==> self.selected_index == 0)
        &&& (self.issues@.len() > 0 ==> self.selected_index < self.issues@.len())
    }
}

// ---------------------------------------------------------------------------
// Lemmas
// ---------------------------------------------------------------------------

proof fn lemma_first_occurrences_distinct(s: Seq<Issue>)
    ensures
        distinct_ids(first_occurrences(s)),
        forall|i: int|
            0 <= i < first_occurrences(s).len() ==> s.contains(#[trigger] first_occurrences(s)[i]),
    decreases s.len(),
{
    if s.len() > 0 {
        lemma_first_occurrences_distinct(s.drop_last());
        let prev = first_occurrences(s.drop_last());
        assert forall|i: int| 0 <= i < prev.len() implies s.contains(#[trigger] prev[i]) by {
            assert(s.drop_last().contains(prev[i]));
            let k = choose|k: int| 0 <= k < s.drop_last().len() && s.drop_last()[k] == prev[i];
            assert(s[k] == prev[i]);
        }
        if !has_id(prev, s.last().id@) {
            let cur = prev.push(s.last());
            assert forall|i: int, j: int| 0 <= i < j < cur.len() implies #[trigger] cur[i].id@
                != #[trigger] cur[j].id@ by {
                if j == cur.len() - 1 {
                    assert(cur[i] == prev[i]);
                }
            }
            assert(s[s.len() - 1] == s.last());
            assert(s.contains(s.last()));
        }
    }
}

proof fn lemma_first_occurrences_cover(s: Seq<Issue>, k: int)
    requires
        0 <= k < s.len(),
    ensures
        has_id(first_occurrences(s), s[k].id@),
    decreases s.len(),
{
    let prev = first_occurrences(s.drop_last());
    if k < s.len() - 1 {
        lemma_first_occurrences_cover(s.drop_last(), k);
        let w = choose|w: int| 0 <= w < prev.len() && prev[w].id@ == s.drop_last()[k].id@;
        if !has_id(prev, s.last().id@) {
            assert(prev.push(s.last())[w] == prev[w]);
        }
    } else {
        if !has_id(prev, s.last().id@) {
            assert(prev.push(s.last())[prev.len() as int] == s.last());
        }
    }
}

/// Loading keeps one definition per identifier: no two loaded issues share one.
pub proof fn lemma_loaded_ids_distinct(s: Seq<Issue>)
    ensures
        distinct_ids(first_occurrences(s)),
{
    lemma_first_occurrences_distinct(s);
}

/// Every identifier that some source defines is loaded.
pub proof fn lemma_every_id_loaded(s: Seq<Issue>, k: int)
    requires
        0 <= k < s.len(),
    ensures
        has_id(first_occurrences(s), s[k].id@),
{
    lemma_first_occurrences_cover(s, k);
}

/// Each loaded issue is the first definition of its identifier in priority
/// order: a source met earlier overrides every later one.
pub proof fn lemma_loaded_is_first_definition(s: Seq<Issue>, w: int)
    requires
        0 <= w < first_occurrences(s).len(),
    ensures
        exists|k: int| is_first_definition(s, k) && s[k] == first_occurrences(s)[w],
    decreases s.len(),
{
    let prev = first_occurrences(s.drop_last());
    if w < prev.len() {
        lemma_loaded_is_first_definition(s.drop_last(), w);
        let k = choose|k: int| is_first_definition(s.drop_last(), k) && s.drop_last()[k] == prev[w];
        if !has_id(prev, s.last().id@) {
            assert(prev.push(s.last())[w] == prev[w]);
        }
        assert forall|j: int| 0 <= j < k implies #[trigger] s[j].id@ != s[k].id@ by {
            assert(s.drop_last()[j] == s[j]);
        }
        assert(is_first_definition(s, k));
    } else {
        let k = s.len() - 1;
        assert forall|j: int| 0 <= j < k implies #[trigger] s[j].id@ != s[k].id@ by {
            lemma_first_occurrences_cover(s.drop_last(), j);
            assert(s.drop_last()[j] == s[j]);
        }
        assert(first_occurrences(s)[w] == s[k]);
        assert(is_first_definition(s, k));
    }
}

/// Moving down and then up returns to the same row.
pub proof fn lemma_down_then_up(len: nat, index: nat)
    requires
        index < len,
    ensures
        index_after_up(len, index_after_down(len, index)) == index,
{
    if index + 1 < len {
        assert((index + 1) % len == index + 1) by (nonlinear_arith)
            requires index + 1 < len;
    } else {
        assert((index + 1) % len == 0) by (nonlinear_arith)
            requires index + 1 == len;
    }
}

/// The selection after `k` moves down.
pub open spec fn index_after_downs(len: nat, index: nat, k: nat) -> nat
    decreases k,
{
    if k == 0 {
        index
    } else {
        index_after_down(len, index_after_downs(len, index, (k - 1) as nat))
    }
}

/// The selection after a sequence of moves, `true` for down and `false` for up.
pub open spec fn index_after_moves(len: nat, index: nat, moves: Seq<bool>) -> nat
    decreases moves.len(),
{
    if moves.len() == 0 {
        index
    } else {
        let before = index_after_moves(len, index, moves.drop_last());
        if moves.last() {
            index_after_down(len, before)
        } else {
            index_after_up(len, before)
        }
    }
}

/// A selection inside a non-empty list stays inside it after any sequence of moves.
pub proof fn lemma_moves_stay_in_list(len: nat, index: nat, moves: Seq<bool>)
    requires
        index < len,
    ensures
        index_after_moves(len, index, moves) < len,
    decreases moves.len(),
{
    if moves.len() > 0 {
        lemma_moves_stay_in_list(len, index, moves.drop_last());
        let before = index_after_moves(len, index, moves.drop_last());
        assert(((before + 1) as int) % (len as int) < len) by (nonlinear_arith)
            requires
                len > 0,
        ;
    }
}

/// `k` moves down from `index` land on `(index + k) % len`.
pub proof fn lemma_downs_wrap(len: nat, index: nat, k: nat)
    requires
        index < len,
    ensures
        index_after_downs(len, index, k) == ((index + k) as int) % (len as int),
    decreases k,
{
    if k == 0 {
        vstd::arithmetic::div_mod::lemma_small_mod(index, len);
    } else {
        lemma_downs_wrap(len, index, (k - 1) as nat);
        let a: int = index + k - 1;
        vstd::arithmetic::div_mod::lemma_add_mod_noop(a, 1, len as int);
        vstd::arithmetic::div_mod::lemma_mod_twice(a, len as int);
        if len > 1 {
            vstd::arithmetic::div_mod::lemma_small_mod(1, len);
        } else {
            vstd::arithmetic::div_mod::lemma_mod_self_0(1);
        }
        assert(((a % (len as int)) + 1) % (len as int) == (a + 1) % (len as int));
    }
}

/// As many moves down as the list has rows return the selection to its start.
pub proof fn lemma_full_cycle_down(len: nat, index: nat)
    requires
        index < len,
    ensures
        index_after_downs(len, index, len) == index,
{
    lemma_downs_wrap(len, index, len);
    vstd::arithmetic::div_mod::lemma_mod_add_multiples_vanish(index as int, len as int);
    vstd::arithmetic::div_mod::lemma_small_mod(index, len);
}

/// Moving up and then down returns to the same row.
pub proof fn lemma_up_then_down(len: nat, index: nat)
    requires
        index < len,
    ensures
        index_after_down(len, index_after_up(len, index)) == index,
{
    if index == 0 {
        assert(len % len == 0) by (nonlinear_arith)
            requires len > 0;
    } else {
        assert(index % len == index) by (nonlinear_arith)
            requires index < len, index > 0;
    }
}

/// What holds of any reordering `loaded` of the winners of `everything`.
proof fn lemma_reordered_winners(loaded: Seq<Issue>, winners: Seq<Issue>, everything: Seq<Issue>)
    requires
        winners == first_occurrences(everything),
        forall|k: int| 0 <= k < loaded.len() ==> winners.contains(#[trigger] loaded[k]),
        forall|j: int| 0 <= j < winners.len() ==> loaded.contains(#[trigger] winners[j]),
    ensures
        forall|i: int|
            0 <= i < everything.len() ==> has_id(loaded, #[trigger] everything[i].id@),
        all_first_definitions(loaded, everything),
{
    assert forall|i: int| 0 <= i < everything.len() implies has_id(
        loaded,
        #[trigger] everything[i].id@,
    ) by {
        lemma_first_occurrences_cover(everything, i);
        let p = choose|p: int| 0 <= p < winners.len() && winners[p].id@ == everything[i].id@;
        assert(loaded.contains(winners[p]));
        let k = choose|k: int| 0 <= k < loaded.len() && loaded[k] == winners[p];
        assert(loaded[k].id@ == everything[i].id@);
    }
    assert forall|w: int| 0 <= w < loaded.len() implies exists|k: int|
        #![trigger is_first_definition(everything, k)]
        is_first_definition(everything, k) && everything[k] == #[trigger] loaded[w] by {
        assert(winners.contains(loaded[w]));
        let p = choose|p: int| 0 <= p < winners.len() && winners[p] == loaded[w];
        lemma_loaded_is_first_definition(everything, p);
        let k = choose|k: int| is_first_definition(everything, k) && everything[k] == winners[p];
        assert(everything[k] == loaded[w]);
    }
}

proof fn lemma_all_issues_push(srcs: Seq<FixSource>, k: int)
    requires
        0 <= k < srcs.len(),
    ensures
        all_issues(srcs.take(k + 1)) == all_issues(srcs.take(k)) + source_issues(srcs[k]),
{
    assert(srcs.take(k + 1).drop_last() =~= srcs.take(k));
}

proof fn lemma_concat_issues_push(files: Seq<Vec<Issue>>, k: int)
    requires
        0 <= k < files.len(),
    ensures
        concat_issues(files.take(k + 1).map_values(|f: Vec<Issue>| f@)) == concat_issues(
            files.take(k).map_values(|f: Vec<Issue>| f@),
        ) + files[k]@,
{
    let a = files.take(k + 1).map_values(|f: Vec<Issue>| f@);
    let b = files.take(k).map_values(|f: Vec<Issue>| f@);
    assert(a.drop_last() =~= b);
}

// ---------------------------------------------------------------------------
// Loading
// ---------------------------------------------------------------------------

/// Whether `name` is the name of a fix definition file (extension "toml").
pub fn is_toml_file(name: &str) -> (r: bool)
    ensures
        r == is_toml_file_name(name@),
{
    let cs = chars_of(name);
    let ext = chars_of(".toml");
    cs.len() > 5 && chars_end_with(&cs, &ext)
}

/// Which entries of a directory listing are fix definition files, and in which
/// order they are read: the indices of the "toml" names, ordered by name, ties
/// in listing order.
pub fn fix_file_order(names: &Vec<String>) -> (order: Vec<usize>)
    ensures
        forall|k: int| 0 <= k < order@.len() ==> #[trigger] order@[k] < names@.len(),
        forall|k: int|
            0 <= k < order@.len() ==> is_toml_file_name(#[trigger] names@[order@[k] as int]@),
        forall|i: int|
            0 <= i < names@.len() && is_toml_file_name(#[trigger] names@[i]@) ==> order@.contains(
                i as usize,
            ),
        forall|a: int, b: int|
            0 <= a < b < order@.len() ==> order@[a] != order@[b],
        forall|a: int, b: int|
            0 <= a < b < order@.len() ==> lex_le(
                #[trigger] names@[order@[a] as int]@,
                #[trigger] names@[order@[b] as int]@,
            ),
        forall|a: int, b: int|
            0 <= a < b < order@.len() && names@[order@[a] as int]@ == names@[order@[b] as int]@
                ==> #[trigger] order@[a] < #[trigger] order@[b],
{
    let n = names.len();
    let mut order: Vec<usize> = Vec::new();
    for i in 0..n
        invariant
            n == names@.len(),
            forall|k: int| 0 <= k < order@.len() ==> #[trigger] order@[k] < i,
            forall|k: int|
                0 <= k < order@.len() ==> is_toml_file_name(#[trigger] names@[order@[k] as int]@),
            forall|j: int|
                0 <= j < i && is_toml_file_name(#[trigger] names@[j]@) ==> order@.contains(
                    j as usize,
                ),
            forall|a: int, b: int| 0 <= a < b < order@.len() ==> order@[a] != order@[b],
            forall|a: int, b: int|
                0 <= a < b < order@.len() ==> lex_le(
                    #[trigger] names@[order@[a] as int]@,
                    #[trigger] names@[order@[b] as int]@,
                ),
            forall|a: int, b: int|
                0 <= a < b < order@.len() && names@[order@[a] as int]@ == names@[order@[b] as int]@
                    ==> #[trigger] order@[a] < #[trigger] order@[b],
    {
        if is_toml_file(names[i].as_str()) {
            let mut p = order.len();
            while p > 0 && str_lt(names[i].as_str(), names[order[p - 1]].as_str())
                invariant
                    n == names@.len(),
                    i < n,
                    p <= order@.len(),
                    forall|k: int| 0 <= k < order@.len() ==> #[trigger] order@[k] < i,
                    forall|k: int|
                        p <= k < order@.len() ==> lex_lt(
                            names@[i as int]@,
                            #[trigger] names@[order@[k] as int]@,
                        ),
                decreases p,
            {
                p = p - 1;
            }
            proof {
                if p > 0 {
                    lemma_lex_lt_total(names@[i as int]@, names@[order@[p - 1] as int]@);
                }
            }
            let ghost old_order = order@;
            order.insert(p, i);
            proof {
                assert forall|a: int, b: int| 0 <= a < b < order@.len() implies lex_le(
                    #[trigger] names@[order@[a] as int]@,
                    #[trigger] names@[order@[b] as int]@,
                ) by {
                    let xi = names@[i as int]@;
                    if a < p && b == p {
                        assert(order@[a] == old_order[a]);
                        assert(order@[b] == i);
                        assert(lex_le(names@[old_order[p - 1] as int]@, xi));
                        if a < p - 1 {
                            lemma_lex_le_transitive(
                                names@[old_order[a] as int]@,
                                names@[old_order[p - 1] as int]@,
                                xi,
                            );
                        }
                    } else if a == p {
                        assert(order@[a] == i);
                        assert(order@[b] == old_order[b - 1]);
                        let y = names@[old_order[b - 1] as int]@;
                        assert(lex_lt(xi, y));
                        if lex_lt(y, xi) {
                            crate::text::lemma_lex_lt_transitive(y, xi, y);
                            crate::text::lemma_lex_lt_irreflexive(y);
                        }
                    } else if a < p && b > p {
                        assert(order@[a] == old_order[a]);
                        assert(order@[b] == old_order[b - 1]);
                    } else if b < p {
                        assert(order@[a] == old_order[a]);
                        assert(order@[b] == old_order[b]);
                    } else {
                        assert(order@[a] == old_order[a - 1]);
                        assert(order@[b] == old_order[b - 1]);
                    }
                }
                assert forall|a: int, b: int|
                    0 <= a < b < order@.len() && names@[order@[a] as int]@
                        == names@[order@[b] as int]@ implies #[trigger] order@[a]
                    < #[trigger] order@[b] by {
                    let xi = names@[i as int]@;
                    if a < p && b == p {
                        assert(order@[a] == old_order[a]);
                    } else if a == p {
                        assert(order@[b] == old_order[b - 1]);
                        let y = names@[old_order[b - 1] as int]@;
                        assert(lex_lt(xi, y));
                        crate::text::lemma_lex_lt_irreflexive(xi);
                    } else if a < p && b > p {
                        assert(order@[a] == old_order[a]);
                        assert(order@[b] == old_order[b - 1]);
                    } else if b < p {
                        assert(order@[a] == old_order[a]);
                        assert(order@[b] == old_order[b]);
                    } else {
                        assert(order@[a] == old_order[a - 1]);
                        assert(order@[b] == old_order[b - 1]);
                    }
                }
                assert forall|j: int|
                    0 <= j <= i && is_toml_file_name(#[trigger] names@[j]@) implies order@.contains(
                    j as usize,
                ) by {
                    if j == i {
                        assert(order@[p as int] == i);
                    } else {
                        let k = choose|k: int| 0 <= k < old_order.len() && old_order[k] == j as usize;
                        if k < p {
                            assert(order@[k] == j as usize);
                        } else {
                            assert(order@[k + 1] == j as usize);
                        }
                    }
                }
            }
        }
    }
    order
}

/// Whether some issue of `list` has the identifier `id`.
fn contains_id(list: &Vec<Issue>, id: &String) -> (r: bool)
    ensures
        r == has_id(list@, id@),
{
    let n = list.len();
    for i in 0..n
        invariant
            n == list@.len(),
            forall|j: int| 0 <= j < i ==> list@[j].id@ != id@,
    {
        if list[i].id == *id {
            return true;
        }
    }
    false
}

/// The issues of `files`, file after file.
fn concat_files(files: Vec<Vec<Issue>>) -> (out: Vec<Issue>)
    ensures
        out@ == concat_issues(files@.map_values(|f: Vec<Issue>| f@)),
{
    let ghost all = files@;
    let total = files.len();
    let mut files = files;
    let mut out: Vec<Issue> = Vec::new();
    let mut k: usize = 0;
    assert(all.take(0).map_values(|f: Vec<Issue>| f@) =~= seq![]);
    while files.len() > 0
        invariant
            k + files@.len() == all.len(),
            all.len() == total,
            files@ == all.skip(k as int),
            out@ == concat_issues(all.take(k as int).map_values(|f: Vec<Issue>| f@)),
        decreases files@.len(),
    {
        let mut f = files.remove(0);
        proof {
            assert(f == all[k as int]);
            lemma_concat_issues_push(all, k as int);
            assert(files@ =~= all.skip(k + 1));
        }
        out.append(&mut f);
        k = k + 1;
    }
    assert(all.take(k as int) =~= all);
    out
}

/// Places `x` into the name-sorted `sorted`, after every issue whose name is
/// not greater.
fn insert_by_name(sorted: &mut Vec<Issue>, x: Issue)
    requires
        sorted_by_name(old(sorted)@),
    ensures
        sorted_by_name(final(sorted)@),
        final(sorted)@.to_multiset() == old(sorted)@.to_multiset().insert(x),
        final(sorted)@.contains(x),
        forall|k: int|
            0 <= k < old(sorted)@.len() ==> final(sorted)@.contains(#[trigger] old(sorted)@[k]),
        forall|k: int|
            0 <= k < final(sorted)@.len() ==> #[trigger] final(sorted)@[k] == x || old(
                sorted,
            )@.contains(final(sorted)@[k]),
        distinct_ids(old(sorted)@) && !has_id(old(sorted)@, x.id@) ==> distinct_ids(
            final(sorted)@,
        ),
{
    let mut p = sorted.len();
    while p > 0 && str_lt(x.name.as_str(), sorted[p - 1].name.as_str())
        invariant
            p <= sorted@.len(),
            forall|k: int| p <= k < sorted@.len() ==> lex_lt(x.name@, #[trigger] sorted@[k].name@),
        decreases p,
    {
        p = p - 1;
    }
    let ghost before = sorted@;
    proof {
        vstd::seq_lib::to_multiset_insert(before, p as int, x);
    }
    sorted.insert(p, x);
    proof {
        assert(sorted@[p as int] == x);
        assert forall|k: int| 0 <= k < before.len() implies sorted@.contains(#[trigger] before[k]) by {
            if k < p {
                assert(sorted@[k] == before[k]);
            } else {
                assert(sorted@[k + 1] == before[k]);
            }
        }
        assert forall|k: int| 0 <= k < sorted@.len() implies #[trigger] sorted@[k] == x
            || before.contains(sorted@[k]) by {
            if k < p {
                assert(sorted@[k] == before[k]);
            } else if k > p {
                assert(sorted@[k] == before[k - 1]);
            }
        }
        if distinct_ids(before) && !has_id(before, x.id@) {
            assert forall|a: int, b: int| 0 <= a < b < sorted@.len() implies #[trigger] sorted@[a].id@
                != #[trigger] sorted@[b].id@ by {
                if a == p {
                    assert(sorted@[b] == before[b - 1]);
                } else if b == p {
                    assert(sorted@[a] == before[a]);
                } else if b < p {
                    assert(sorted@[a] == before[a]);
                    assert(sorted@[b] == before[b]);
                } else if a < p {
                    assert(sorted@[a] == before[a]);
                    assert(sorted@[b] == before[b - 1]);
                } else {
                    assert(sorted@[a] == before[a - 1]);
                    assert(sorted@[b] == before[b - 1]);
                }
            }
        }
        assert forall|a: int, b: int| 0 <= a < b < sorted@.len() implies lex_le(
            #[trigger] sorted@[a].name@,
            #[trigger] sorted@[b].name@,
        ) by {
            if a < p && b == p {
                if a < p - 1 {
                    lemma_lex_le_transitive(before[a].name@, before[p - 1].name@, x.name@);
                }
            } else if a == p {
                let y = before[b - 1].name@;
                assert(lex_lt(x.name@, y));
                lemma_lex_lt_total(x.name@, y);
                if lex_lt(y, x.name@) {
                    crate::text::lemma_lex_lt_transitive(y, x.name@, y);
                    crate::text::lemma_lex_lt_irreflexive(y);
                }
            } else if a < p && b > p {
                assert(sorted@[a] == before[a]);
                assert(sorted@[b] == before[b - 1]);
            } else if b < p {
                assert(sorted@[a] == before[a]);
                assert(sorted@[b] == before[b]);
            } else {
                assert(sorted@[a] == before[a - 1]);
                assert(sorted@[b] == before[b - 1]);
            }
        }
    }
}

/// "name (count fixes)".
fn label_for(name: &String, count: usize) -> (out: String)
    ensures
        out@ == source_label(name@, count as nat),
{
    let mut out = String::new();
    push_str(&mut out, name.as_str());
    push_str(&mut out, " (");
    push_decimal(&mut out, count as u64);
    push_str(&mut out, " fixes)");
    assert(out@ =~= source_label(name@, count as nat));
    out
}

/// The winning definitions of `sources` in the order they are met, and the
/// labels of the sources that contributed.
fn merge_sources(sources: Vec<FixSource>) -> (r: (Vec<Issue>, Vec<String>))
    ensures
        r.0@ == first_occurrences(all_issues(sources@)),
        r.1@.map_values(|s: String| s@) == source_labels(sources@),
{
    let ghost all = sources@;
    let total = sources.len();
    let mut pending = sources;
    let mut winners: Vec<Issue> = Vec::new();
    let mut labels: Vec<String> = Vec::new();
    let mut k: usize = 0;
    assert(all.take(0) =~= seq![]);
    while pending.len() > 0
        invariant
            k + pending@.len() == all.len(),
            all.len() == total,
            pending@ == all.skip(k as int),
            winners@ == first_occurrences(all_issues(all.take(k as int))),
            labels@.map_values(|s: String| s@) == source_labels(all.take(k as int)),
        decreases pending@.len(),
    {
        let src = pending.remove(0);
        proof {
            assert(src == all[k as int]);
            assert(pending@ =~= all.skip(k + 1));
            lemma_all_issues_push(all, k as int);
        }
        let FixSource { name, files } = src;
        let mut issues = concat_files(files);
        let ghost base = all_issues(all.take(k as int));
        let ghost mine = issues@;
        let mine_len = issues.len();
        let ghost start_len = winners@.len();
        let mut count: usize = 0;
        let mut j: usize = 0;
        assert(mine.take(0) =~= seq![]);
        assert(base + mine.take(0) =~= base);
        while issues.len() > 0
            invariant
                j + issues@.len() == mine.len(),
                mine.len() == mine_len,
                issues@ == mine.skip(j as int),
                winners@ == first_occurrences(base + mine.take(j as int)),
                winners@.len() == start_len + count,
                count <= j,
            decreases issues@.len(),
        {
            let issue = issues.remove(0);
            proof {
                assert(issue == mine[j as int]);
                assert(issues@ =~= mine.skip(j + 1));
                assert((base + mine.take(j + 1)).drop_last() =~= base + mine.take(j as int));
                assert((base + mine.take(j + 1)).last() == issue);
            }
            if !contains_id(&winners, &issue.id) {
                winners.push(issue);
                count = count + 1;
            }
            j = j + 1;
        }
        proof {
            assert(mine.take(j as int) =~= mine);
            assert(all.take(k + 1).drop_last() =~= all.take(k as int));
            assert(all.take(k + 1).last() == all[k as int]);
            assert(added_by_last(all.take(k + 1)) == count);
        }
        if count > 0 {
            let label = label_for(&name, count);
            labels.push(label);
        }
        proof {
            assert(labels@.map_values(|s: String| s@) =~= source_labels(all.take(k + 1)));
        }
        k = k + 1;
    }
    assert(all.take(k as int) =~= all);
    (winners, labels)
}

/// `items`, ordered by name.
fn sort_by_name(items: Vec<Issue>) -> (sorted: Vec<Issue>)
    requires
        distinct_ids(items@),
    ensures
        sorted_by_name(sorted@),
        sorted@.to_multiset() == items@.to_multiset(),
        distinct_ids(sorted@),
        forall|k: int| 0 <= k < sorted@.len() ==> items@.contains(#[trigger] sorted@[k]),
        forall|j: int| 0 <= j < items@.len() ==> sorted@.contains(#[trigger] items@[j]),
{
    let winners = items;
    let mut sorted: Vec<Issue> = Vec::new();
    let ghost winners_all = winners@;
    let n_winners = winners.len();
    let mut w = winners;
    let mut m: usize = 0;
    assert(winners_all.take(0) =~= seq![]);
    while w.len() > 0
        invariant
            m + w@.len() == winners_all.len(),
            winners_all.len() == n_winners,
            w@ == winners_all.skip(m as int),
            sorted_by_name(sorted@),
            sorted@.to_multiset() == winners_all.take(m as int).to_multiset(),
            distinct_ids(winners_all),
            distinct_ids(sorted@),
            forall|k: int|
                0 <= k < sorted@.len() ==> winners_all.take(m as int).contains(
                    #[trigger] sorted@[k],
                ),
            forall|j: int| 0 <= j < m ==> sorted@.contains(#[trigger] winners_all[j]),
        decreases w@.len(),
    {
        let x = w.remove(0);
        let ghost before = sorted@;
        proof {
            assert(x == winners_all[m as int]);
            assert(w@ =~= winners_all.skip(m + 1));
            assert(winners_all.take(m + 1) =~= winners_all.take(m as int).push(x));
            assert forall|k: int| 0 <= k < before.len() implies #[trigger] before[k].id@
                != x.id@ by {
                let j = choose|j: int|
                    0 <= j < winners_all.take(m as int).len() && winners_all.take(
                        m as int,
                    )[j] == before[k];
                assert(winners_all[j] == before[k]);
            }
        }
        insert_by_name(&mut sorted, x);
        proof {
            assert forall|k: int| 0 <= k < sorted@.len() implies winners_all.take(
                m + 1,
            ).contains(#[trigger] sorted@[k]) by {
                if sorted@[k] == x {
                    assert(winners_all.take(m + 1)[m as int] == x);
                } else {
                    let j = choose|j: int| 0 <= j < before.len() && before[j] == sorted@[k];
                    let i = choose|i: int|
                        0 <= i < winners_all.take(m as int).len() && winners_all.take(
                            m as int,
                        )[i] == before[j];
                    assert(winners_all.take(m + 1)[i] == sorted@[k]);
                }
            }
            assert forall|j: int| 0 <= j < m + 1 implies sorted@.contains(
                #[trigger] winners_all[j],
            ) by {
                if j < m {
                    let k = choose|k: int| 0 <= k < before.len() && before[k] == winners_all[j];
                    assert(sorted@.contains(before[k]));
                }
            }
        }
        m = m + 1;
    }
    assert(winners_all.take(m as int) =~= winners_all);
    sorted
}

impl Engine {
    /// Loads the fix definitions of `sources`, which come in order of priority:
    /// of several definitions with one identifier the first one met wins. The
    /// winners are ordered by name; `loaded_from` names each source that
    /// contributed, with the number it contributed; the selection is the first.
    pub fn new(sources: Vec<FixSource>) -> (engine: Engine)
        ensures
            engine.wf(),
            engine.selected_index == 0,
            engine.issues@.to_multiset() == first_occurrences(all_issues(sources@)).to_multiset(),
            sorted_by_name(engine.issues@),
            engine.loaded_from@.map_values(|s: String| s@) == source_labels(sources@),
            distinct_ids(engine.issues@),
            forall|i: int|
                0 <= i < all_issues(sources@).len() ==> has_id(
                    engine.issues@,
                    #[trigger] all_issues(sources@)[i].id@,
                ),
            all_first_definitions(engine.issues@, all_issues(sources@)),
    {
        let ghost all = sources@;
        let (winners, labels) = merge_sources(sources);
        proof {
            lemma_first_occurrences_distinct(all_issues(all));
        }
        let ghost winners_all = winners@;
        let sorted = sort_by_name(winners);
        proof {
            lemma_reordered_winners(sorted@, winners_all, all_issues(all));
        }
        let total = sorted.len();
        Engine { issues: sorted, selected_index: 0, loaded_from: labels, total_loaded: total }
    }

    // -----------------------------------------------------------------------
    // Selection
    // -----------------------------------------------------------------------

    /// Moves the selection up one row, from the top to the bottom.
    pub fn move_up(&mut self)
        ensures
            final(self).selected_index == index_after_up(
                old(self).issues@.len(),
                old(self).selected_index as nat,
            ),
            final(self).issues == old(self).issues,
            final(self).loaded_from == old(self).loaded_from,
            final(self).total_loaded == old(self).total_loaded,
            old(self).wf() ==> final(self).wf(),
    {
        if self.selected_index == 0 {
            let n = self.issues.len();
            self.selected_index = if n == 0 { 0 } else { n - 1 };
        } else {
            self.selected_index = self.selected_index - 1;
        }
    }

    /// Moves the selection down one row, from the bottom to the top.
    pub fn move_down(&mut self)
        requires
            old(self).issues@.len() == 0 || old(self).selected_index < usize::MAX,
        ensures
            final(self).selected_index == index_after_down(
                old(self).issues@.len(),
                old(self).selected_index as nat,
            ),
            final(self).issues == old(self).issues,
            final(self).loaded_from == old(self).loaded_from,
            final(self).total_loaded == old(self).total_loaded,
            old(self).wf() ==> final(self).wf(),
    {
        if self.issues.len() == 0 {
            return;
        }
        self.selected_index = (self.selected_index + 1) % self.issues.len();
    }

    /// The selected issue, if the selection points at one.
    pub fn selected_issue(&self) -> (r: Option<&Issue>)
        ensures
            self.selected_index < self.issues@.len() ==> r == Some(&self.issues@[self.selected_index as int]),
            self.selected_index >= self.issues@.len() ==> r.is_none(),
    {
        if self.selected_index < self.issues.len() {
            Some(&self.issues[self.selected_index])
        } else {
            None
        }
    }
}

} // verus!
