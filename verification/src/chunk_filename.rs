//! The runtime module that maps a chunk id to the URL of the chunk's file.
//! It groups the chunks by their filename template, picks the template of
//! the largest group as the one rendered with the chunk id filled in at run
//! time, and lists the other chunks' files one by one.

use rustc_hash::FxHashMap;
use vstd::multiset::Multiset;
use vstd::prelude::*;
use vstd::utf8::decode_utf8;
use vstd::utf8::encode_utf8;
use vstd::utf8::is_char_boundary;

use crate::fx_map::new_string_entries;
use crate::fx_map::string_entries;
use crate::fx_map::string_entries_get;
use crate::fx_map::string_entries_insert;
use crate::fx_map::string_entries_keys;
use crate::ids::ChunkUkey;
use crate::json::json_string;
use crate::json::to_json_string;
use crate::text::decimal;
use crate::text::joined;
use crate::text::join;
use crate::text::lemma_lex_lt_asymmetric;
use crate::text::lemma_lex_lt_irreflexive;
use crate::text::lemma_lex_lt_total;
use crate::text::lemma_lex_lt_transitive;
use crate::text::lex_lt;
use crate::text::sort_strings;
use crate::text::sorted_strings;
use crate::text::str_lt;
use crate::text::usize_to_decimal;

verus! {

/// The kind of source that a runtime module produces file names for.
#[derive(Clone, Copy, Debug, PartialEq, Eq, Structural)]
pub enum SourceType {
    JavaScript,
    Css,
    Wasm,
    Asset,
    Expose,
    Remote,
    ShareInit,
    ConsumeShared,
    Unknown,
}

/// What the runtime module reads of a chunk: its identifiers, its hashes,
/// whether it holds CSS, and the filename templates of its JavaScript and
/// CSS files.
#[derive(Debug)]
pub struct ChunkFilenameInfo {
    pub ukey: ChunkUkey,
    pub id: Option<String>,
    pub name: Option<String>,
    pub rendered_hash: Option<String>,
    /// The hash of the chunk's content of the module's source type, already
    /// rendered to the configured digest length.
    pub content_hash: Option<String>,
    pub has_css: bool,
    pub js_filename_template: String,
    pub css_filename_template: String,
}

/// The lengths that a filename template asks the hashes to be cut to.
#[derive(Clone, Copy, Debug, PartialEq, Eq, Structural)]
pub struct HashLengths {
    pub chunkhash: Option<usize>,
    pub contenthash: Option<usize>,
    pub fullhash: Option<usize>,
    pub hash: Option<usize>,
}

/// The chunks that share a filename template: their positions in the list
/// of chunks, in order.
#[derive(Debug)]
pub struct ChunkFilenameGroup {
    pub template: String,
    pub chunks: Vec<usize>,
}

/// The chunks grouped by filename template, in the order in which each
/// template first occurs, and the template rendered at run time.
#[derive(Debug)]
pub struct ChunkFilenamePlan {
    pub groups: Vec<ChunkFilenameGroup>,
    pub dynamic_filename: Option<String>,
}

/// What the template of the dynamic file name is rendered with: run-time
/// expressions in place of the chunk's id, name and hashes.
#[derive(Debug)]
pub struct DynamicPathData {
    pub chunk_id: String,
    pub chunk_name: String,
    pub rendered_hash: String,
    pub content_hash: String,
    pub hash: String,
}

/// The runtime module that tells, for a chunk id, the URL of the chunk's
/// file of one content type.
#[derive(Debug)]
pub struct GetChunkFilenameRuntimeModule {
    id: String,
    chunk: Option<ChunkUkey>,
    content_type: String,
    source_type: SourceType,
    global: String,
    all_chunks: bool,
}

/// The fields of a [`GetChunkFilenameRuntimeModule`].
pub struct GetChunkFilenameRuntimeModuleView {
    pub id: Seq<char>,
    pub chunk: Option<ChunkUkey>,
    pub content_type: Seq<char>,
    pub source_type: SourceType,
    pub global: Seq<char>,
    pub all_chunks: bool,
}

impl View for GetChunkFilenameRuntimeModule {
    type V = GetChunkFilenameRuntimeModuleView;

    closed spec fn view(&self) -> GetChunkFilenameRuntimeModuleView {
        GetChunkFilenameRuntimeModuleView {
            id: self.id@,
            chunk: self.chunk,
            content_type: self.content_type@,
            source_type: self.source_type,
            global: self.global@,
            all_chunks: self.all_chunks,
        }
    }
}

/// The filename template of a chunk for files of `source_type`: the
/// JavaScript template, or the CSS template where the chunk holds CSS.
pub open spec fn template_of(source_type: SourceType, c: ChunkFilenameInfo) -> Option<Seq<char>> {
    match source_type {
        SourceType::JavaScript => Some(c.js_filename_template@),
        SourceType::Css => if c.has_css {
            Some(c.css_filename_template@)
        } else {
            None
        },
        _ => None,
    }
}

/// The filename template of each chunk.
pub open spec fn templates_of(source_type: SourceType, chunks: Seq<ChunkFilenameInfo>) -> Seq<
    Option<Seq<char>>,
> {
    chunks.map_values(|c: ChunkFilenameInfo| template_of(source_type, c))
}

/// The templates of `ts`, each once, in the order of their first occurrence.
pub open spec fn first_occurrences(ts: Seq<Option<Seq<char>>>) -> Seq<Seq<char>>
    decreases ts.len(),
{
    if ts.len() == 0 {
        Seq::empty()
    } else {
        let rest = first_occurrences(ts.drop_last());
        match ts.last() {
            Some(t) => if rest.contains(t) {
                rest
            } else {
                rest.push(t)
            },
            None => rest,
        }
    }
}

/// The positions of `t` in `ts`, in order.
pub open spec fn occurrences(ts: Seq<Option<Seq<char>>>, t: Seq<char>) -> Seq<usize>
    decreases ts.len(),
{
    if ts.len() == 0 {
        Seq::empty()
    } else {
        let rest = occurrences(ts.drop_last(), t);
        if ts.last() == Some(t) {
            rest.push((ts.len() - 1) as usize)
        } else {
            rest
        }
    }
}

/// The length of `s` in UTF-8 bytes, as `str::len` counts it.
pub open spec fn byte_len(s: Seq<char>) -> nat {
    (encode_utf8(s).len() as usize) as nat
}

/// Whether `(sa, la, a)` comes before `(sb, lb, b)`: by the size of the
/// group, then by the template's length, then by the template.
pub open spec fn rank_lt(sa: nat, la: nat, a: Seq<char>, sb: nat, lb: nat, b: Seq<char>) -> bool {
    sa < sb || (sa == sb && (la < lb || (la == lb && lex_lt(a, b))))
}

/// Whether template `a` ranks below template `b` among the chunks of `ts`:
/// it has fewer chunks, or as many and is shorter, or as many and as long
/// and comes first.
pub open spec fn ranks_below(ts: Seq<Option<Seq<char>>>, a: Seq<char>, b: Seq<char>) -> bool {
    rank_lt(occurrences(ts, a).len(), byte_len(a), a, occurrences(ts, b).len(), byte_len(b), b)
}

proof fn lemma_rank_lt_irreflexive(s: nat, l: nat, a: Seq<char>)
    ensures
        !rank_lt(s, l, a, s, l, a),
{
    lemma_lex_lt_irreflexive(a);
}

proof fn lemma_rank_lt_asymmetric(
    sa: nat,
    la: nat,
    a: Seq<char>,
    sb: nat,
    lb: nat,
    b: Seq<char>,
)
    ensures
        !(rank_lt(sa, la, a, sb, lb, b) && rank_lt(sb, lb, b, sa, la, a)),
{
    lemma_lex_lt_asymmetric(a, b);
}

proof fn lemma_rank_lt_transitive(
    sa: nat,
    la: nat,
    a: Seq<char>,
    sb: nat,
    lb: nat,
    b: Seq<char>,
    sc: nat,
    lc: nat,
    c: Seq<char>,
)
    requires
        rank_lt(sa, la, a, sb, lb, b),
        rank_lt(sb, lb, b, sc, lc, c),
    ensures
        rank_lt(sa, la, a, sc, lc, c),
{
    if sa == sb && sb == sc && la == lb && lb == lc {
        lemma_lex_lt_transitive(a, b, c);
    }
}

proof fn lemma_rank_lt_total(sa: nat, la: nat, a: Seq<char>, sb: nat, lb: nat, b: Seq<char>)
    requires
        a != b,
    ensures
        rank_lt(sa, la, a, sb, lb, b) || rank_lt(sb, lb, b, sa, la, a),
{
    lemma_lex_lt_total(a, b);
}

/// How the groups change with one more chunk.
proof fn lemma_one_more_chunk(ts: Seq<Option<Seq<char>>>, i: int)
    requires
        0 <= i < ts.len(),
    ensures
        first_occurrences(ts.take(i + 1)) == match ts[i] {
            Some(t) => if first_occurrences(ts.take(i)).contains(t) {
                first_occurrences(ts.take(i))
            } else {
                first_occurrences(ts.take(i)).push(t)
            },
            None => first_occurrences(ts.take(i)),
        },
        forall|t: Seq<char>| #[trigger]
            occurrences(ts.take(i + 1), t) == if ts[i] == Some(t) {
                occurrences(ts.take(i), t).push(i as usize)
            } else {
                occurrences(ts.take(i), t)
            },
{
    assert(ts.take(i + 1).drop_last() =~= ts.take(i));
}

/// A template that does not occur has no positions, and the templates in
/// order are each there once.
proof fn lemma_occurrences_facts(ts: Seq<Option<Seq<char>>>, t: Seq<char>)
    ensures
        !first_occurrences(ts).contains(t) ==> occurrences(ts, t).len() == 0,
        first_occurrences(ts).no_duplicates(),
    decreases ts.len(),
{
    if ts.len() > 0 {
        lemma_occurrences_facts(ts.drop_last(), t);
        let rest = first_occurrences(ts.drop_last());
        if let Some(u) = ts.last() {
            if rest.contains(t) && !rest.contains(u) {
                let j = choose|j: int| 0 <= j < rest.len() && rest[j] == t;
                assert(rest.push(u)[j] == t);
            }
            if u == t && !rest.contains(u) {
                assert(rest.push(u)[rest.len() as int] == t);
            }
            if !rest.contains(u) {
                assert forall|a: int, b: int|
                    0 <= a < b < rest.push(u).len() implies rest.push(u)[a] != rest.push(u)[b] by {
                    if b == rest.len() {
                        assert(rest.contains(rest[a]));
                    }
                }
            }
        }
    }
}

/// Whether `d` is a template of `ts` that no template ranks above.
pub open spec fn is_top_template(ts: Seq<Option<Seq<char>>>, d: Seq<char>) -> bool {
    &&& first_occurrences(ts).contains(d)
    &&& forall|k: int|
        0 <= k < first_occurrences(ts).len() ==> !ranks_below(
            ts,
            d,
            #[trigger] first_occurrences(ts)[k],
        )
}

/// No two templates are both on top among the same chunks: at most one
/// template can be the one rendered at run time.
pub proof fn lemma_top_template_is_unique(ts: Seq<Option<Seq<char>>>, d1: Seq<char>, d2: Seq<char>)
    requires
        is_top_template(ts, d1),
        is_top_template(ts, d2),
    ensures
        d1 == d2,
{
    let fo = first_occurrences(ts);
    let k1 = choose|k: int| 0 <= k < fo.len() && fo[k] == d1;
    let k2 = choose|k: int| 0 <= k < fo.len() && fo[k] == d2;
    assert(!ranks_below(ts, d1, fo[k2]));
    assert(!ranks_below(ts, d2, fo[k1]));
    if d1 != d2 {
        lemma_rank_lt_total(
            occurrences(ts, d1).len(),
            byte_len(d1),
            d1,
            occurrences(ts, d2).len(),
            byte_len(d2),
            d2,
        );
    }
}

/// The number of chunks of template `t` is how often `t` occurs among the
/// templates.
proof fn lemma_occurrences_count(ts: Seq<Option<Seq<char>>>, t: Seq<char>)
    ensures
        occurrences(ts, t).len() == ts.to_multiset().count(Some(t)),
    decreases ts.len(),
{
    broadcast use vstd::seq_lib::group_to_multiset_ensures;
    broadcast use vstd::multiset::group_multiset_axioms;

    if ts.len() == 0 {
        assert(ts.to_multiset().len() == 0);
    } else {
        lemma_occurrences_count(ts.drop_last(), t);
        assert(ts.drop_last().push(ts.last()) =~= ts);
    }
}

/// A template has a group exactly where it occurs among the templates.
proof fn lemma_first_occurrences_contains(ts: Seq<Option<Seq<char>>>, t: Seq<char>)
    ensures
        first_occurrences(ts).contains(t) <==> ts.to_multiset().count(Some(t)) > 0,
    decreases ts.len(),
{
    broadcast use vstd::seq_lib::group_to_multiset_ensures;
    broadcast use vstd::multiset::group_multiset_axioms;

    if ts.len() == 0 {
        assert(ts.to_multiset().len() == 0);
    } else {
        lemma_first_occurrences_contains(ts.drop_last(), t);
        assert(ts.drop_last().push(ts.last()) =~= ts);
        let rest = first_occurrences(ts.drop_last());
        if let Some(u) = ts.last() {
            if !rest.contains(u) {
                if u == t {
                    assert(rest.push(u)[rest.len() as int] == t);
                }
                if rest.contains(t) {
                    let j = choose|j: int| 0 <= j < rest.len() && rest[j] == t;
                    assert(rest.push(u)[j] == t);
                }
                if rest.push(u).contains(t) && u != t {
                    let j = choose|j: int| 0 <= j < rest.push(u).len() && rest.push(u)[j] == t;
                    assert(rest[j] == t);
                }
            }
        }
    }
}

/// Whether `d` is on top among templates that occur as often as `m` says:
/// it occurs, and no template that occurs ranks above it.
pub open spec fn is_top_by_counts(m: Multiset<Option<Seq<char>>>, d: Seq<char>) -> bool {
    &&& m.count(Some(d)) > 0
    &&& forall|x: Seq<char>|
        #[trigger] m.count(Some(x)) > 0 ==> !rank_lt(
            m.count(Some(d)),
            byte_len(d),
            d,
            m.count(Some(x)),
            byte_len(x),
            x,
        )
}

/// Whether a template is on top depends only on how often each template
/// occurs.
proof fn lemma_top_template_by_counts(ts: Seq<Option<Seq<char>>>, d: Seq<char>)
    ensures
        is_top_template(ts, d) <==> is_top_by_counts(ts.to_multiset(), d),
{
    let m = ts.to_multiset();
    let fo = first_occurrences(ts);
    lemma_first_occurrences_contains(ts, d);
    lemma_occurrences_count(ts, d);
    if is_top_template(ts, d) {
        assert forall|x: Seq<char>| #[trigger] m.count(Some(x)) > 0 implies !rank_lt(
            m.count(Some(d)),
            byte_len(d),
            d,
            m.count(Some(x)),
            byte_len(x),
            x,
        ) by {
            lemma_first_occurrences_contains(ts, x);
            lemma_occurrences_count(ts, x);
            let k = choose|k: int| 0 <= k < fo.len() && fo[k] == x;
            assert(!ranks_below(ts, d, fo[k]));
        }
    }
    if is_top_by_counts(m, d) {
        assert forall|k: int| 0 <= k < fo.len() implies !ranks_below(ts, d, #[trigger] fo[k]) by {
            let x = fo[k];
            lemma_first_occurrences_contains(ts, x);
            lemma_occurrences_count(ts, x);
            assert(m.count(Some(x)) > 0);
        }
    }
}

/// The templates of the same chunks in another order are the same
/// templates in another order.
proof fn lemma_templates_of_permuted(
    source_type: SourceType,
    chunks1: Seq<ChunkFilenameInfo>,
    chunks2: Seq<ChunkFilenameInfo>,
)
    requires
        chunks1.to_multiset() == chunks2.to_multiset(),
    ensures
        templates_of(source_type, chunks1).to_multiset() == templates_of(
            source_type,
            chunks2,
        ).to_multiset(),
    decreases chunks1.len(),
{
    broadcast use vstd::seq_lib::group_to_multiset_ensures;
    broadcast use vstd::multiset::group_multiset_axioms;

    let t1 = templates_of(source_type, chunks1);
    let t2 = templates_of(source_type, chunks2);
    if chunks1.len() == 0 {
        assert(chunks1.to_multiset().len() == 0);
        assert(chunks2.len() == chunks2.to_multiset().len());
        assert(t1 =~= t2);
    } else {
        let a = chunks1.last();
        let rest1 = chunks1.drop_last();
        assert(rest1.push(a) =~= chunks1);
        assert(chunks2.to_multiset().count(a) > 0);
        assert(chunks2.contains(a));
        let i = choose|i: int| 0 <= i < chunks2.len() && chunks2[i] == a;
        let rest2 = chunks2.remove(i);
        assert(rest2.to_multiset() =~= rest1.to_multiset());
        lemma_templates_of_permuted(source_type, rest1, rest2);
        assert(templates_of(source_type, rest1).push(template_of(source_type, a)) =~= t1);
        assert(templates_of(source_type, rest2) =~= t2.remove(i));
        assert(t2[i] == template_of(source_type, a));
        assert(t2.remove(i).to_multiset() == t2.to_multiset().remove(t2[i]));
        assert(t2.to_multiset() =~= t2.remove(i).to_multiset().insert(t2[i]));
    }
}

/// The template rendered at run time does not depend on the order in which
/// the chunks come: for the same chunks in two orders, a template is on top
/// in one order exactly where it is in the other, and there are templates
/// in both or in neither.
pub proof fn lemma_top_template_ignores_chunk_order(
    source_type: SourceType,
    chunks1: Seq<ChunkFilenameInfo>,
    chunks2: Seq<ChunkFilenameInfo>,
    d: Seq<char>,
)
    requires
        chunks1.to_multiset() == chunks2.to_multiset(),
    ensures
        is_top_template(templates_of(source_type, chunks1), d) == is_top_template(
            templates_of(source_type, chunks2),
            d,
        ),
        (first_occurrences(templates_of(source_type, chunks1)).len() == 0) == (first_occurrences(
            templates_of(source_type, chunks2),
        ).len() == 0),
{
    let t1 = templates_of(source_type, chunks1);
    let t2 = templates_of(source_type, chunks2);
    lemma_templates_of_permuted(source_type, chunks1, chunks2);
    lemma_top_template_by_counts(t1, d);
    lemma_top_template_by_counts(t2, d);
    let fo1 = first_occurrences(t1);
    let fo2 = first_occurrences(t2);
    if fo1.len() > 0 {
        lemma_first_occurrences_contains(t1, fo1[0]);
        lemma_first_occurrences_contains(t2, fo1[0]);
        assert(fo1.contains(fo1[0]));
    }
    if fo2.len() > 0 {
        lemma_first_occurrences_contains(t2, fo2[0]);
        lemma_first_occurrences_contains(t1, fo2[0]);
        assert(fo2.contains(fo2[0]));
    }
}

/// How the template on top changes with one more chunk, of template `t`:
/// `should_update` says whether `t` ranks at least as high as the template
/// on top before, `top`; the one that does is on top after.
proof fn lemma_dynamic_step(
    ts0: Seq<Option<Seq<char>>>,
    t: Seq<char>,
    top: Option<Seq<char>>,
    should_update: bool,
)
    requires
        top is None ==> first_occurrences(ts0).len() == 0,
        top matches Some(d) ==> is_top_template(ts0, d),
        should_update == match top {
            None => true,
            Some(d) => !rank_lt(
                occurrences(ts0.push(Some(t)), t).len(),
                byte_len(t),
                t,
                occurrences(ts0, d).len(),
                byte_len(d),
                d,
            ),
        },
    ensures
        should_update ==> is_top_template(ts0.push(Some(t)), t),
        !should_update ==> (top matches Some(d) && is_top_template(ts0.push(Some(t)), d)),
{
    let ts1 = ts0.push(Some(t));
    assert(ts1.drop_last() =~= ts0);
    let fo0 = first_occurrences(ts0);
    let fo1 = first_occurrences(ts1);
    assert forall|x: Seq<char>| x != t implies #[trigger] occurrences(ts1, x) == occurrences(ts0, x) by {}
    assert(occurrences(ts1, t) == occurrences(ts0, t).push((ts1.len() - 1) as usize));
    assert(fo1.contains(t)) by {
        if fo0.contains(t) {
        } else {
            assert(fo1[fo0.len() as int] == t);
        }
    }
    assert forall|k: int| 0 <= k < fo1.len() && fo1[k] != t implies k < fo0.len() && #[trigger] fo1[k] == fo0[k] by {}
    if should_update {
        assert forall|k: int| 0 <= k < fo1.len() implies !ranks_below(ts1, t, #[trigger] fo1[k]) by {
            let g = fo1[k];
            if g == t {
                lemma_rank_lt_irreflexive(occurrences(ts1, t).len(), byte_len(t), t);
            } else {
                assert(fo0[k] == g);
                let d = top->0;
                assert(!ranks_below(ts0, d, fo0[k]));
                let st1 = occurrences(ts1, t).len();
                let sg = occurrences(ts0, g).len();
                if d == t {
                } else {
                    let sd = occurrences(ts0, d).len();
                    if g != d {
                        lemma_rank_lt_total(sd, byte_len(d), d, sg, byte_len(g), g);
                        if rank_lt(st1, byte_len(t), t, sg, byte_len(g), g) {
                            lemma_rank_lt_transitive(
                                st1,
                                byte_len(t),
                                t,
                                sg,
                                byte_len(g),
                                g,
                                sd,
                                byte_len(d),
                                d,
                            );
                        }
                    }
                }
            }
        }
    } else {
        let d = top->0;
        assert(d != t);
        assert(fo1.contains(d)) by {
            let j = choose|j: int| 0 <= j < fo0.len() && fo0[j] == d;
            assert(fo1[j] == d);
        }
        assert forall|k: int| 0 <= k < fo1.len() implies !ranks_below(ts1, d, #[trigger] fo1[k]) by {
            let g = fo1[k];
            if g == t {
                lemma_rank_lt_asymmetric(
                    occurrences(ts1, t).len(),
                    byte_len(t),
                    t,
                    occurrences(ts0, d).len(),
                    byte_len(d),
                    d,
                );
            } else {
                assert(fo0[k] == g);
                assert(!ranks_below(ts0, d, fo0[k]));
            }
        }
    }
}

/// The characters of an optional string.
pub open spec fn opt_chars(o: Option<String>) -> Option<Seq<char>> {
    match o {
        Some(s) => Some(s@),
        None => None,
    }
}

/// What a content map has gathered from its entries: the JSON-written value
/// of each chunk id whose value differs from the id, whether some chunk's
/// value is its id, the id gathered last, and how many were gathered.
pub struct ContentMapState {
    pub result: Map<Seq<char>, Seq<char>>,
    pub use_id: bool,
    pub last_key: Option<Seq<char>>,
    pub entries: nat,
}

/// What a content map gathers from `entries`, pairs of a chunk id and the
/// chunk's value; a pair without the id or without the value adds nothing.
pub open spec fn content_map_state(entries: Seq<(Option<Seq<char>>, Option<Seq<char>>)>) -> ContentMapState
    decreases entries.len(),
{
    if entries.len() == 0 {
        ContentMapState { result: Map::empty(), use_id: false, last_key: None, entries: 0 }
    } else {
        let st = content_map_state(entries.drop_last());
        match entries.last() {
            (Some(id), Some(value)) => if value == id {
                ContentMapState { use_id: true, ..st }
            } else {
                ContentMapState {
                    result: st.result.insert(id, json_string(value)),
                    use_id: st.use_id,
                    last_key: Some(id),
                    entries: st.entries + 1,
                }
            },
            _ => st,
        }
    }
}

/// Whether no chunk id occurs twice among `entries`.
pub open spec fn distinct_entry_ids(entries: Seq<(Option<Seq<char>>, Option<Seq<char>>)>) -> bool {
    forall|a: int, b: int|
        0 <= a < b < entries.len() && (#[trigger] entries[a]).0 is Some ==> entries[a].0
            != (#[trigger] entries[b]).0
}

/// Whether `entries` give chunk id `id` a value other than the id.
pub open spec fn gathers(entries: Seq<(Option<Seq<char>>, Option<Seq<char>>)>, id: Seq<char>) -> bool {
    exists|v: Seq<char>| v != id && #[trigger] entries.contains((Some(id), Some(v)))
}

/// Whether `entries` give some chunk its own id as value.
pub open spec fn has_own_id(entries: Seq<(Option<Seq<char>>, Option<Seq<char>>)>) -> bool {
    exists|id: Seq<char>| #[trigger] entries.contains((Some(id), Some(id)))
}

/// Where no chunk id occurs twice, what a content map gathers follows from
/// which pairs occur, whatever their order: the ids gathered with their
/// JSON-written values, whether some chunk's value is its id, and how many
/// were gathered; the id gathered last is one of them.
proof fn lemma_content_map_state_of_pairs(entries: Seq<(Option<Seq<char>>, Option<Seq<char>>)>)
    requires
        distinct_entry_ids(entries),
    ensures
        ({
            let st = content_map_state(entries);
            &&& forall|id: Seq<char>| #[trigger] st.result.contains_key(id) <==> gathers(entries, id)
            &&& forall|id: Seq<char>, v: Seq<char>|
                v != id && #[trigger] entries.contains((Some(id), Some(v))) ==> st.result[id]
                    == json_string(v)
            &&& st.use_id <==> has_own_id(entries)
            &&& st.result.dom().finite()
            &&& st.entries == st.result.dom().len()
            &&& st.entries > 0 ==> st.last_key is Some && st.result.contains_key(st.last_key->0)
        }),
    decreases entries.len(),
{
    broadcast use vstd::set::group_set_axioms;
    broadcast use vstd::map::group_map_axioms;

    if entries.len() == 0 {
        let st = content_map_state(entries);
        assert(st.result.dom() =~= Set::<Seq<char>>::empty());
    } else {
        let rest = entries.drop_last();
        let x = entries.last();
        let n = entries.len() - 1;
        assert forall|a: int, b: int|
            0 <= a < b < rest.len() && (#[trigger] rest[a]).0 is Some implies rest[a].0 != (
            #[trigger] rest[b]).0 by {
            assert(rest[a] == entries[a] && rest[b] == entries[b]);
        }
        lemma_content_map_state_of_pairs(rest);
        let st0 = content_map_state(rest);
        let st = content_map_state(entries);
        assert forall|y: (Option<Seq<char>>, Option<Seq<char>>)| #[trigger] entries.contains(y) <==> (
        rest.contains(y) || y == x) by {
            if entries.contains(y) && y != x {
                let k = choose|k: int| 0 <= k < entries.len() && entries[k] == y;
                assert(rest[k] == y);
            }
            if rest.contains(y) {
                let k = choose|k: int| 0 <= k < rest.len() && rest[k] == y;
                assert(entries[k] == y);
            }
            if y == x {
                assert(entries[n] == y);
            }
        }
        // No earlier pair carries the id of the last one.
        assert forall|id: Seq<char>, v: Seq<char>|
            x.0 == Some(id) implies !#[trigger] rest.contains((Some(id), Some(v))) by {
            if rest.contains((Some(id), Some(v))) {
                let k = choose|k: int| 0 <= k < rest.len() && rest[k] == (Some(id), Some(v));
                assert(entries[k] == rest[k]);
                assert(entries[k].0 != entries[n].0);
            }
        }
        match x {
            (Some(id), Some(value)) => {
                if value == id {
                    assert forall|i: Seq<char>| #[trigger] st.result.contains_key(i) <==> gathers(entries, i) by {
                        if gathers(entries, i) {
                            let v = choose|v: Seq<char>| v != i && #[trigger] entries.contains((Some(i), Some(v)));
                            assert(rest.contains((Some(i), Some(v))));
                        }
                        if gathers(rest, i) {
                            let v = choose|v: Seq<char>| v != i && #[trigger] rest.contains((Some(i), Some(v)));
                            assert(entries.contains((Some(i), Some(v))));
                        }
                    }
                    assert(entries.contains((Some(id), Some(id))));
                } else {
                    assert(!gathers(rest, id));
                    assert(!st0.result.contains_key(id));
                    assert forall|i: Seq<char>| #[trigger] st.result.contains_key(i) <==> gathers(entries, i) by {
                        if gathers(entries, i) && i != id {
                            let v = choose|v: Seq<char>| v != i && #[trigger] entries.contains((Some(i), Some(v)));
                            assert(rest.contains((Some(i), Some(v))));
                        }
                        if gathers(rest, i) {
                            let v = choose|v: Seq<char>| v != i && #[trigger] rest.contains((Some(i), Some(v)));
                            assert(entries.contains((Some(i), Some(v))));
                        }
                        if i == id {
                            assert(entries.contains((Some(id), Some(value))));
                        }
                    }
                    assert forall|i: Seq<char>, v: Seq<char>|
                        v != i && #[trigger] entries.contains((Some(i), Some(v))) implies st.result[i]
                            == json_string(v) by {
                        if (Some(i), Some(v)) != x {
                            assert(rest.contains((Some(i), Some(v))));
                            if i == id {
                                assert(!rest.contains((Some(id), Some(v))));
                            }
                        }
                    }
                    if has_own_id(entries) {
                        let i = choose|i: Seq<char>| #[trigger] entries.contains((Some(i), Some(i)));
                        assert(rest.contains((Some(i), Some(i))));
                    }
                    if has_own_id(rest) {
                        let i = choose|i: Seq<char>| #[trigger] rest.contains((Some(i), Some(i)));
                        assert(entries.contains((Some(i), Some(i))));
                    }
                    assert(st.result.dom() =~= st0.result.dom().insert(id));
                }
            },
            _ => {
                assert forall|i: Seq<char>| #[trigger] st.result.contains_key(i) <==> gathers(entries, i) by {
                    if gathers(entries, i) {
                        let v = choose|v: Seq<char>| v != i && #[trigger] entries.contains((Some(i), Some(v)));
                        assert(rest.contains((Some(i), Some(v))));
                    }
                    if gathers(rest, i) {
                        let v = choose|v: Seq<char>| v != i && #[trigger] rest.contains((Some(i), Some(v)));
                        assert(entries.contains((Some(i), Some(v))));
                    }
                }
                if has_own_id(entries) {
                    let i = choose|i: Seq<char>| #[trigger] entries.contains((Some(i), Some(i)));
                    assert(rest.contains((Some(i), Some(i))));
                }
                if has_own_id(rest) {
                    let i = choose|i: Seq<char>| #[trigger] rest.contains((Some(i), Some(i)));
                    assert(entries.contains((Some(i), Some(i))));
                }
            },
        }
    }
}

/// The JSON-written value of each chunk id that `entries` give a value
/// other than the id.
pub open spec fn gathered_values(entries: Seq<(Option<Seq<char>>, Option<Seq<char>>)>) -> Map<
    Seq<char>,
    Seq<char>,
> {
    Map::new(
        |id: Seq<char>| gathers(entries, id),
        |id: Seq<char>|
            json_string(
                choose|v: Seq<char>| v != id && #[trigger] entries.contains((Some(id), Some(v))),
            ),
    )
}

/// Where no chunk id occurs twice, what a content map gathers is exactly
/// [`gathered_values`], and how many ids it gathered is their number.
proof fn lemma_content_map_gathers_values(entries: Seq<(Option<Seq<char>>, Option<Seq<char>>)>)
    requires
        distinct_entry_ids(entries),
    ensures
        content_map_state(entries).result == gathered_values(entries),
        content_map_state(entries).entries == gathered_values(entries).dom().len(),
        content_map_state(entries).use_id == has_own_id(entries),
        gathered_values(entries).dom().finite(),
{
    lemma_content_map_state_of_pairs(entries);
    let st = content_map_state(entries);
    let gv = gathered_values(entries);
    assert forall|id: Seq<char>| #[trigger] st.result.contains_key(id) implies st.result[id] == gv[id] by {
        let v = choose|v: Seq<char>| v != id && #[trigger] entries.contains((Some(id), Some(v)));
        assert(gathers(entries, id));
    }
    assert(st.result.dom() =~= gv.dom());
    assert(st.result =~= gv);
}

/// Two different ids in a finite set make it hold at least two.
proof fn lemma_two_members(s: Set<Seq<char>>, a: Seq<char>, b: Seq<char>)
    requires
        s.finite(),
        s.contains(a),
        s.contains(b),
        a != b,
    ensures
        s.len() >= 2,
{
    broadcast use vstd::set::group_set_axioms;

    assert(s.remove(a).contains(b));
    assert(s.remove(a).remove(b).len() + 1 == s.remove(a).len());
}

/// Where no chunk id occurs twice and at least two chunks have a value
/// other than their id, the run-time expression of a content map is the
/// object of those values indexed by the chunk id; where some chunk's value
/// is its own id, the chunk id is the fallback for ids that are not in the
/// object, however many values the object holds.
pub proof fn lemma_content_map_of_many_values(
    entries: Seq<(Option<Seq<char>>, Option<Seq<char>>)>,
    a: Seq<char>,
    b: Seq<char>,
)
    requires
        distinct_entry_ids(entries),
        gathers(entries, a),
        gathers(entries, b),
        a != b,
    ensures
        has_own_id(entries) ==> content_map_text(entries) == "\" + "@ + ("("@ + stringified_map(
            gathered_values(entries),
        ) + "[chunkId] || chunkId)"@) + " + \""@,
        !has_own_id(entries) ==> content_map_text(entries) == "\" + "@ + (stringified_map(
            gathered_values(entries),
        ) + "[chunkId]"@) + " + \""@,
{
    lemma_content_map_gathers_values(entries);
    lemma_two_members(gathered_values(entries).dom(), a, b);
}

/// Where no chunk id occurs twice and exactly one chunk, `id`, has a value
/// `v` other than its id, the run-time expression of a content map is that
/// value in JSON, guarded by the id where some chunk's value is its own id.
pub proof fn lemma_content_map_of_one_value(
    entries: Seq<(Option<Seq<char>>, Option<Seq<char>>)>,
    id: Seq<char>,
    v: Seq<char>,
)
    requires
        distinct_entry_ids(entries),
        v != id,
        entries.contains((Some(id), Some(v))),
        forall|other: Seq<char>| #[trigger] gathers(entries, other) ==> other == id,
    ensures
        has_own_id(entries) ==> content_map_text(entries) == "\" + "@ + ("(chunkId === "@
            + json_string(id) + " ? "@ + json_string(v) + " : chunkId)`"@) + " + \""@,
        !has_own_id(entries) ==> content_map_text(entries) == "\" + "@ + json_string(v) + " + \""@,
{
    broadcast use vstd::set::group_set_axioms;

    lemma_content_map_state_of_pairs(entries);
    lemma_content_map_gathers_values(entries);
    let st = content_map_state(entries);
    let d = gathered_values(entries).dom();
    assert(gathers(entries, id));
    assert(d =~= set![id]);
    assert(st.result.contains_key(st.last_key->0));
}

/// Where no chunk has a value other than its id, the run-time expression of
/// a content map is the chunk id itself.
pub proof fn lemma_content_map_of_no_value(entries: Seq<(Option<Seq<char>>, Option<Seq<char>>)>)
    requires
        distinct_entry_ids(entries),
        forall|id: Seq<char>| !#[trigger] gathers(entries, id),
    ensures
        content_map_text(entries) == "\" + "@ + "chunkId"@ + " + \""@,
{
    broadcast use vstd::set::group_set_axioms;

    lemma_content_map_gathers_values(entries);
    assert(gathered_values(entries).dom() =~= Set::<Seq<char>>::empty());
}

/// Where no chunk id occurs twice, the run-time expression of a content
/// map depends only on which pairs occur, not on their order.
pub proof fn lemma_content_map_ignores_order(
    entries1: Seq<(Option<Seq<char>>, Option<Seq<char>>)>,
    entries2: Seq<(Option<Seq<char>>, Option<Seq<char>>)>,
)
    requires
        distinct_entry_ids(entries1),
        distinct_entry_ids(entries2),
        forall|y: (Option<Seq<char>>, Option<Seq<char>>)|
            #[trigger] entries1.contains(y) <==> entries2.contains(y),
    ensures
        content_map_text(entries1) == content_map_text(entries2),
{
    broadcast use vstd::set::group_set_axioms;

    lemma_content_map_state_of_pairs(entries1);
    lemma_content_map_state_of_pairs(entries2);
    let st1 = content_map_state(entries1);
    let st2 = content_map_state(entries2);
    assert forall|id: Seq<char>| gathers(entries1, id) <==> gathers(entries2, id) by {
        if gathers(entries1, id) {
            let v = choose|v: Seq<char>| v != id && #[trigger] entries1.contains((Some(id), Some(v)));
            assert(entries2.contains((Some(id), Some(v))));
        }
        if gathers(entries2, id) {
            let v = choose|v: Seq<char>| v != id && #[trigger] entries2.contains((Some(id), Some(v)));
            assert(entries1.contains((Some(id), Some(v))));
        }
    }
    assert forall|id: Seq<char>| st1.result.contains_key(id) implies st1.result[id] == st2.result[id] by {
        assert(gathers(entries1, id));
        let v = choose|v: Seq<char>| v != id && #[trigger] entries1.contains((Some(id), Some(v)));
        assert(entries2.contains((Some(id), Some(v))));
    }
    assert(st1.result.dom() =~= st2.result.dom());
    assert(st1.result =~= st2.result);
    if has_own_id(entries1) {
        let i = choose|i: Seq<char>| #[trigger] entries1.contains((Some(i), Some(i)));
        assert(entries2.contains((Some(i), Some(i))));
    }
    if has_own_id(entries2) {
        let i = choose|i: Seq<char>| #[trigger] entries2.contains((Some(i), Some(i)));
        assert(entries1.contains((Some(i), Some(i))));
    }
    if st1.entries == 1 {
        let k1 = st1.last_key->0;
        let k2 = st2.last_key->0;
        let d = st1.result.dom();
        assert(d.remove(k1).len() == 0);
        if k1 != k2 {
            assert(d.remove(k1).contains(k2));
        }
    }
}

/// The entries of `m` for the keys `keys`, each as the key in JSON, a
/// colon, the value and a comma.
pub open spec fn map_entries_text(keys: Seq<Seq<char>>, m: Map<Seq<char>, Seq<char>>) -> Seq<char>
    decreases keys.len(),
{
    if keys.len() == 0 {
        Seq::empty()
    } else {
        map_entries_text(keys.drop_last(), m) + json_string(keys.last()) + ": "@ + m[keys.last()]
            + ","@
    }
}

/// `m` as a JavaScript object literal, its keys in the order of `str`.
pub open spec fn stringified_map(m: Map<Seq<char>, Seq<char>>) -> Seq<char> {
    "{"@ + map_entries_text(sorted_strings(m.dom()), m) + "}"@
}

/// The run-time expression for a chunk's value, from `entries`: the chunk
/// id itself where nothing was gathered; the one gathered value, guarded by
/// its id where other chunks' values are their ids; else the object of the
/// gathered values indexed by the chunk id (falling back to the id where
/// some chunks' values are their ids). The expression is spliced into a
/// string literal.
pub open spec fn content_map_text(entries: Seq<(Option<Seq<char>>, Option<Seq<char>>)>) -> Seq<char> {
    let st = content_map_state(entries);
    let content = if st.entries == 0 {
        "chunkId"@
    } else if st.entries == 1 {
        let k = st.last_key->0;
        if st.use_id {
            "(chunkId === "@ + json_string(k) + " ? "@ + st.result[k] + " : chunkId)`"@
        } else {
            st.result[k]
        }
    } else if st.use_id {
        "("@ + stringified_map(st.result) + "[chunkId] || chunkId)"@
    } else {
        stringified_map(st.result) + "[chunkId]"@
    };
    "\" + "@ + content + " + \""@
}

/// `hash` cut to `length` bytes, where a length is given.
pub open spec fn cut_hash(hash: Seq<char>, length: Option<usize>) -> Seq<char> {
    match length {
        Some(l) => decode_utf8(encode_utf8(hash).subrange(0, l as int)),
        None => hash,
    }
}

/// Whether `hash` can be cut to `length`: the length falls on a character
/// boundary of the hash.
pub open spec fn can_cut(hash: Option<String>, length: Option<usize>) -> bool {
    match (hash, length) {
        (Some(h), Some(l)) => is_char_boundary(encode_utf8(h@), l as int),
        _ => true,
    }
}

/// A chunk's name for the dynamic file name: its name, else its id.
pub open spec fn name_value(c: ChunkFilenameInfo) -> Option<Seq<char>> {
    match c.name {
        Some(n) => Some(n@),
        None => opt_chars(c.id),
    }
}

/// A chunk's rendered hash, cut to the length the template asks for.
pub open spec fn rendered_hash_value(c: ChunkFilenameInfo, lengths: HashLengths) -> Option<Seq<char>> {
    match c.rendered_hash {
        Some(h) => Some(cut_hash(h@, lengths.chunkhash)),
        None => None,
    }
}

/// A chunk's content hash, cut to the length the template asks for.
pub open spec fn content_hash_value(c: ChunkFilenameInfo, lengths: HashLengths) -> Option<Seq<char>> {
    match c.content_hash {
        Some(h) => Some(cut_hash(h@, lengths.contenthash)),
        None => None,
    }
}

/// Which value of a chunk a content map is made of.
#[derive(Clone, Copy, Debug, PartialEq, Eq, Structural)]
pub enum ChunkValue {
    Name,
    RenderedHash,
    ContentHash,
}

/// The value of `c` that `which` names.
pub open spec fn chunk_value(c: ChunkFilenameInfo, which: ChunkValue, lengths: HashLengths) -> Option<
    Seq<char>,
> {
    match which {
        ChunkValue::Name => name_value(c),
        ChunkValue::RenderedHash => rendered_hash_value(c, lengths),
        ChunkValue::ContentHash => content_hash_value(c, lengths),
    }
}

/// The entries of a content map over the chunks at `members`: each chunk's
/// id and, where it has one, its value.
pub open spec fn content_entries(
    chunks: Seq<ChunkFilenameInfo>,
    members: Seq<usize>,
    which: ChunkValue,
    lengths: HashLengths,
) -> Seq<(Option<Seq<char>>, Option<Seq<char>>)> {
    members.map_values(
        |i: usize|
            (
                opt_chars(chunks[i as int].id),
                if chunks[i as int].id is Some {
                    chunk_value(chunks[i as int], which, lengths)
                } else {
                    None
                },
            ),
    )
}

/// A chunk's pair in a content map: its id and, where it has one, its value.
pub open spec fn chunk_entry(c: ChunkFilenameInfo, which: ChunkValue, lengths: HashLengths) -> (
    Option<Seq<char>>,
    Option<Seq<char>>,
) {
    (opt_chars(c.id), if c.id is Some {
        chunk_value(c, which, lengths)
    } else {
        None
    })
}

/// Whether no chunk id occurs twice among `chunks`.
pub open spec fn distinct_chunk_ids(chunks: Seq<ChunkFilenameInfo>) -> bool {
    forall|a: int, b: int|
        0 <= a < b < chunks.len() && (#[trigger] chunks[a]).id is Some ==> opt_chars(chunks[a].id)
            != opt_chars((#[trigger] chunks[b]).id)
}

/// The positions of a template are in order, within the templates, each of
/// that template, and every position of the template is among them.
proof fn lemma_occurrences_positions(ts: Seq<Option<Seq<char>>>, t: Seq<char>)
    requires
        ts.len() <= usize::MAX,
    ensures
        forall|a: int|
            0 <= a < occurrences(ts, t).len() ==> #[trigger] occurrences(ts, t)[a] < ts.len()
                && ts[occurrences(ts, t)[a] as int] == Some(t),
        forall|a: int, b: int|
            0 <= a < b < occurrences(ts, t).len() ==> #[trigger] occurrences(ts, t)[a]
                < #[trigger] occurrences(ts, t)[b],
        forall|i: int|
            0 <= i < ts.len() && #[trigger] ts[i] == Some(t) ==> occurrences(ts, t).contains(
                i as usize,
            ),
    decreases ts.len(),
{
    if ts.len() > 0 {
        let rest = ts.drop_last();
        lemma_occurrences_positions(rest, t);
        let o0 = occurrences(rest, t);
        let o = occurrences(ts, t);
        assert forall|a: int| 0 <= a < o.len() implies #[trigger] o[a] < ts.len() && ts[o[a] as int]
            == Some(t) by {
            if a < o0.len() {
                assert(o[a] == o0[a]);
                assert(rest[o0[a] as int] == ts[o0[a] as int]);
            }
        }
        assert forall|a: int, b: int| 0 <= a < b < o.len() implies #[trigger] o[a] < #[trigger] o[b] by {
            assert(o[a] == o0[a]);
            if b < o0.len() {
                assert(o[b] == o0[b]);
            } else {
                assert(o0[a] < rest.len());
            }
        }
        assert forall|i: int| 0 <= i < ts.len() && #[trigger] ts[i] == Some(t) implies o.contains(
            i as usize,
        ) by {
            if i < rest.len() {
                assert(rest[i] == ts[i]);
                let k = choose|k: int| 0 <= k < o0.len() && o0[k] == i as usize;
                assert(o[k] == i as usize);
            } else {
                assert(o[o.len() - 1] == i as usize);
            }
        }
    }
}

/// The pairs of a content map over the chunks of template `d` are the
/// pairs of those chunks, and no id occurs twice among them where none
/// occurs twice among the chunks.
proof fn lemma_template_entries(
    source_type: SourceType,
    chunks: Seq<ChunkFilenameInfo>,
    d: Seq<char>,
    which: ChunkValue,
    lengths: HashLengths,
)
    requires
        chunks.len() <= usize::MAX,
        distinct_chunk_ids(chunks),
    ensures
        ({
            let entries = content_entries(
                chunks,
                occurrences(templates_of(source_type, chunks), d),
                which,
                lengths,
            );
            &&& distinct_entry_ids(entries)
            &&& forall|y: (Option<Seq<char>>, Option<Seq<char>>)|
                #[trigger] entries.contains(y) <==> exists|c: ChunkFilenameInfo|
                    #[trigger] chunks.contains(c) && template_of(source_type, c) == Some(d)
                        && chunk_entry(c, which, lengths) == y
        }),
{
    let ts = templates_of(source_type, chunks);
    let o = occurrences(ts, d);
    let entries = content_entries(chunks, o, which, lengths);
    lemma_occurrences_positions(ts, d);
    assert forall|a: int| 0 <= a < entries.len() implies #[trigger] entries[a] == chunk_entry(
        chunks[o[a] as int],
        which,
        lengths,
    ) by {}
    assert forall|a: int, b: int|
        0 <= a < b < entries.len() && (#[trigger] entries[a]).0 is Some implies entries[a].0 != (
        #[trigger] entries[b]).0 by {
        assert(o[a] < o[b]);
        assert(chunks[o[a] as int].id is Some);
    }
    assert forall|y: (Option<Seq<char>>, Option<Seq<char>>)| #[trigger] entries.contains(y) <==> exists|
        c: ChunkFilenameInfo,
    | #[trigger] chunks.contains(c) && template_of(source_type, c) == Some(d) && chunk_entry(
        c,
        which,
        lengths,
    ) == y by {
        if entries.contains(y) {
            let a = choose|a: int| 0 <= a < entries.len() && entries[a] == y;
            let c = chunks[o[a] as int];
            assert(ts[o[a] as int] == Some(d));
            assert(chunks.contains(c));
        }
        if exists|c: ChunkFilenameInfo|
            #[trigger] chunks.contains(c) && template_of(source_type, c) == Some(d) && chunk_entry(
                c,
                which,
                lengths,
            ) == y {
            let c = choose|c: ChunkFilenameInfo|
                #[trigger] chunks.contains(c) && template_of(source_type, c) == Some(d)
                    && chunk_entry(c, which, lengths) == y;
            assert(chunks.contains(c));
            let i = choose|i: int| 0 <= i < chunks.len() && chunks[i] == c;
            assert(chunks[i] == c);
            assert(ts[i] == template_of(source_type, chunks[i]));
            assert(ts[i] == Some(d));
            let a = choose|a: int| 0 <= a < o.len() && o[a] == i as usize;
            assert(entries[a] == y);
        }
    }
}

/// What the dynamic file name is rendered with does not depend on the order
/// of the chunks, where no chunk id occurs twice: for the same chunks in two
/// orders, the content map of each value over the chunks of a template is
/// the same.
pub proof fn lemma_content_maps_ignore_chunk_order(
    source_type: SourceType,
    chunks1: Seq<ChunkFilenameInfo>,
    chunks2: Seq<ChunkFilenameInfo>,
    d: Seq<char>,
    which: ChunkValue,
    lengths: HashLengths,
)
    requires
        chunks1.len() <= usize::MAX,
        chunks1.to_multiset() == chunks2.to_multiset(),
        distinct_chunk_ids(chunks1),
        distinct_chunk_ids(chunks2),
    ensures
        content_map_text(
            content_entries(chunks1, occurrences(templates_of(source_type, chunks1), d), which, lengths),
        ) == content_map_text(
            content_entries(chunks2, occurrences(templates_of(source_type, chunks2), d), which, lengths),
        ),
{
    broadcast use vstd::seq_lib::group_to_multiset_ensures;

    let e1 = content_entries(chunks1, occurrences(templates_of(source_type, chunks1), d), which, lengths);
    let e2 = content_entries(chunks2, occurrences(templates_of(source_type, chunks2), d), which, lengths);
    assert(chunks1.len() == chunks1.to_multiset().len());
    assert(chunks2.len() == chunks2.to_multiset().len());
    lemma_template_entries(source_type, chunks1, d, which, lengths);
    lemma_template_entries(source_type, chunks2, d, which, lengths);
    assert forall|c: ChunkFilenameInfo| #[trigger] chunks1.contains(c) <==> chunks2.contains(c) by {
        assert(chunks1.contains(c) <==> chunks1.to_multiset().count(c) > 0);
        assert(chunks2.contains(c) <==> chunks2.to_multiset().count(c) > 0);
    }
    assert forall|y: (Option<Seq<char>>, Option<Seq<char>>)| #[trigger] e1.contains(y) <==> e2.contains(y) by {
        if e1.contains(y) {
            let c = choose|c: ChunkFilenameInfo|
                #[trigger] chunks1.contains(c) && template_of(source_type, c) == Some(d)
                    && chunk_entry(c, which, lengths) == y;
            assert(chunks2.contains(c));
        }
        if e2.contains(y) {
            let c = choose|c: ChunkFilenameInfo|
                #[trigger] chunks2.contains(c) && template_of(source_type, c) == Some(d)
                    && chunk_entry(c, which, lengths) == y;
            assert(chunks1.contains(c));
        }
    }
    lemma_content_map_ignores_order(e1, e2);
}

/// The plan and what its dynamic template is rendered with do not depend
/// on the order of the chunks, where no chunk id occurs twice: for the plans
/// of the same chunks in two orders, the dynamic template is the same, and
/// so is what it is rendered with for the same hash lengths.
pub proof fn lemma_plan_ignores_chunk_order(
    source_type: SourceType,
    chunks1: Seq<ChunkFilenameInfo>,
    chunks2: Seq<ChunkFilenameInfo>,
    plan1: ChunkFilenamePlan,
    plan2: ChunkFilenamePlan,
    lengths: HashLengths,
    data1: DynamicPathData,
    data2: DynamicPathData,
)
    requires
        chunks1.len() <= usize::MAX,
        chunks1.to_multiset() == chunks2.to_multiset(),
        distinct_chunk_ids(chunks1),
        distinct_chunk_ids(chunks2),
        is_plan_of(source_type, chunks1, plan1),
        is_plan_of(source_type, chunks2, plan2),
    ensures
        opt_chars(plan1.dynamic_filename) == opt_chars(plan2.dynamic_filename),
        (plan1.dynamic_filename matches Some(d1) && plan2.dynamic_filename matches Some(d2)
            && is_path_data_of(
            chunks1,
            occurrences(templates_of(source_type, chunks1), d1@),
            lengths,
            data1,
        ) && is_path_data_of(
            chunks2,
            occurrences(templates_of(source_type, chunks2), d2@),
            lengths,
            data2,
        )) ==> data1.chunk_id@ == data2.chunk_id@ && data1.chunk_name@ == data2.chunk_name@
            && data1.rendered_hash@ == data2.rendered_hash@ && data1.content_hash@
            == data2.content_hash@ && data1.hash@ == data2.hash@,
{
    let ts1 = templates_of(source_type, chunks1);
    let ts2 = templates_of(source_type, chunks2);
    match (plan1.dynamic_filename, plan2.dynamic_filename) {
        (Some(d1), Some(d2)) => {
            lemma_top_template_ignores_chunk_order(source_type, chunks1, chunks2, d1@);
            lemma_top_template_is_unique(ts2, d1@, d2@);
            lemma_content_maps_ignore_chunk_order(source_type, chunks1, chunks2, d1@, ChunkValue::Name, lengths);
            lemma_content_maps_ignore_chunk_order(source_type, chunks1, chunks2, d1@, ChunkValue::RenderedHash, lengths);
            lemma_content_maps_ignore_chunk_order(source_type, chunks1, chunks2, d1@, ChunkValue::ContentHash, lengths);
        },
        (Some(d1), None) => {
            lemma_top_template_ignores_chunk_order(source_type, chunks1, chunks2, d1@);
            lemma_first_occurrences_contains(ts1, d1@);
        },
        (None, Some(d2)) => {
            lemma_top_template_ignores_chunk_order(source_type, chunks1, chunks2, d2@);
            lemma_first_occurrences_contains(ts2, d2@);
        },
        (None, None) => {},
    }
}

/// The run-time expression of the full hash of the compilation, cut to the
/// length the template asks for (that of `[fullhash]`, else of `[hash]`).
pub open spec fn full_hash_text(lengths: HashLengths) -> Seq<char> {
    let length = match lengths.fullhash {
        Some(l) => Some(l),
        None => lengths.hash,
    };
    match length {
        Some(l) => "\" + "@ + "__webpack_require__.h"@ + "().slice(0, "@ + decimal(l as nat)
            + ") + \""@,
        None => "\" + "@ + "__webpack_require__.h"@ + "() + \""@,
    }
}

/// The file paths of chunks of templates rendered one by one, grouped: each
/// path once, in the order of its first occurrence, with the ids of
/// its chunks in order.
pub open spec fn static_groups(entries: Seq<(Seq<char>, Seq<char>)>) -> Seq<(Seq<char>, Seq<Seq<char>>)>
    decreases entries.len(),
{
    if entries.len() == 0 {
        Seq::empty()
    } else {
        let rest = static_groups(entries.drop_last());
        let (filename, id) = entries.last();
        if exists|k: int| 0 <= k < rest.len() && #[trigger] rest[k].0 == filename {
            let k = choose|k: int| 0 <= k < rest.len() && #[trigger] rest[k].0 == filename;
            rest.update(k, (filename, rest[k].1.push(id)))
        } else {
            rest.push((filename, seq![id]))
        }
    }
}

/// The run-time test that a chunk id is one of `ids`.
pub open spec fn static_condition(ids: Seq<Seq<char>>) -> Seq<char> {
    if ids.len() == 1 {
        "chunkId === "@ + json_string(ids[0])
    } else {
        "{ "@ + joined(ids.map_values(|id: Seq<char>| json_string(id) + ":1"@), ","@)
            + " }[chunkId]"@
    }
}

/// The line that returns the path `group.0`, in quotes, for the chunk ids
/// of `group.1`.
pub open spec fn static_line(group: (Seq<char>, Seq<Seq<char>>)) -> Seq<char> {
    "if ("@ + static_condition(group.1) + ") return \""@ + group.0 + "\";"@
}

/// The lines for the chunks of templates rendered one by one.
pub open spec fn static_url_text(entries: Seq<(Seq<char>, Seq<char>)>) -> Seq<char> {
    joined(static_groups(entries).map_values(|g: (Seq<char>, Seq<Seq<char>>)| static_line(g)), "\n"@)
}

/// The module's code: it assigns to `global` the function from a chunk id
/// to the URL of the chunk's file.
pub open spec fn runtime_code(global: Seq<char>, static_url: Seq<char>, dynamic_url: Seq<char>) -> Seq<
    char,
> {
    "// This function allow to reference chunks\n        "@ + global
        + " = function (chunkId) {\n          // return url for filenames not based on template\n          "@
        + static_url + "\n          // return url for filenames based on template\n          return "@
        + dynamic_url + ";\n        };\n      "@
}

/// The views of the pairs of a content map's entries.
pub open spec fn entry_views(entries: Seq<(Option<String>, Option<String>)>) -> Seq<
    (Option<Seq<char>>, Option<Seq<char>>),
> {
    entries.map_values(|e: (Option<String>, Option<String>)| (opt_chars(e.0), opt_chars(e.1)))
}

/// `hash` cut to `length` bytes, where a length is given.
pub fn truncate_hash(hash: &String, length: Option<usize>) -> (r: String)
    requires
        length matches Some(l) ==> is_char_boundary(encode_utf8(hash@), l as int),
    ensures
        r@ == cut_hash(hash@, length),
{
    broadcast use vstd::utf8::encode_utf8_decode_utf8;

    match length {
        Some(l) => {
            let (prefix, _rest) = hash.as_str().split_at(l);
            let r = prefix.to_owned();
            assert(encode_utf8(r@) == encode_utf8(hash@).subrange(0, l as int));
            r
        },
        None => hash.clone(),
    }
}

/// `m` as a JavaScript object literal, its keys in the order of `str`.
fn stringify_map(m: &FxHashMap<String, String>) -> (r: String)
    ensures
        r@ == stringified_map(string_entries(*m)),
{
    let keys = sort_strings(string_entries_keys(m));
    let ghost ks = keys@.map_values(|k: String| k@);
    let ghost entries = string_entries(*m);
    let mut body = String::new();
    let mut i: usize = 0;
    while i < keys.len()
        invariant
            i <= keys@.len(),
            ks == keys@.map_values(|k: String| k@),
            ks == sorted_strings(entries.dom()),
            ks.to_set() == entries.dom(),
            entries == string_entries(*m),
            body@ == map_entries_text(ks.take(i as int), entries),
        decreases keys@.len() - i,
    {
        assert(ks.take(i + 1).drop_last() =~= ks.take(i as int));
        let key = &keys[i];
        assert(ks.to_set().contains(ks[i as int]));
        let value = string_entries_get(m, key.as_str()).unwrap();
        body.append(to_json_string(key.as_str()).as_str());
        body.append(": ");
        body.append(value.as_str());
        body.append(",");
        i = i + 1;
    }
    assert(ks.take(keys@.len() as int) =~= ks);
    let mut r = String::from_str("{");
    r.append(body.as_str());
    r.append("}");
    r
}

/// The run-time expression for a chunk's value from `entries`, pairs of a
/// chunk id and the chunk's value (see [`content_map_text`]).
pub fn create_dynamic_chunk_content_map(entries: &Vec<(Option<String>, Option<String>)>) -> (r:
    String)
    ensures
        r@ == content_map_text(entry_views(entries@)),
{
    let ghost views = entry_views(entries@);
    let mut result = new_string_entries();
    let mut use_id = false;
    let mut last_key: Option<String> = None;
    let mut count: usize = 0;
    let mut i: usize = 0;
    while i < entries.len()
        invariant
            i <= entries@.len(),
            views == entry_views(entries@),
            count <= i,
            ({
                let st = content_map_state(views.take(i as int));
                &&& string_entries(result) == st.result
                &&& use_id == st.use_id
                &&& opt_chars(last_key) == st.last_key
                &&& count == st.entries
                &&& count > 0 ==> last_key is Some && st.result.contains_key(
                    last_key->0@,
                )
            }),
        decreases entries@.len() - i,
    {
        assert(views.take(i + 1).drop_last() =~= views.take(i as int));
        let (id, value) = &entries[i];
        if let Some(id) = id {
            if let Some(value) = value {
                if *value == *id {
                    use_id = true;
                } else {
                    string_entries_insert(&mut result, id.clone(), to_json_string(value.as_str()));
                    last_key = Some(id.clone());
                    count = count + 1;
                }
            }
        }
        i = i + 1;
    }
    assert(views.take(entries@.len() as int) =~= views);
    let content = if count == 0 {
        String::from_str("chunkId")
    } else if count == 1 {
        let key = match &last_key {
            Some(k) => k,
            None => vstd::pervasive::unreached(),
        };
        let value = string_entries_get(&result, key.as_str()).unwrap();
        if use_id {
            let mut c = String::from_str("(chunkId === ");
            c.append(to_json_string(key.as_str()).as_str());
            c.append(" ? ");
            c.append(value.as_str());
            c.append(" : chunkId)`");
            c
        } else {
            value
        }
    } else if use_id {
        let mut c = String::from_str("(");
        c.append(stringify_map(&result).as_str());
        c.append("[chunkId] || chunkId)");
        c
    } else {
        let mut c = stringify_map(&result);
        c.append("[chunkId]");
        c
    };
    let mut r = String::from_str("\" + ");
    r.append(content.as_str());
    r.append(" + \"");
    r
}

/// The entries of a content map over the chunks at `members` (see
/// [`content_entries`]).
fn content_entries_of(
    chunks: &Vec<ChunkFilenameInfo>,
    members: &Vec<usize>,
    which: ChunkValue,
    lengths: &HashLengths,
) -> (r: Vec<(Option<String>, Option<String>)>)
    requires
        forall|j: int| 0 <= j < members@.len() ==> #[trigger] members@[j] < chunks@.len(),
        forall|j: int|
            0 <= j < members@.len() && chunks@[#[trigger] members@[j] as int].id is Some ==> can_cut(
                chunks@[members@[j] as int].rendered_hash,
                lengths.chunkhash,
            ) && can_cut(chunks@[members@[j] as int].content_hash, lengths.contenthash),
    ensures
        entry_views(r@) == content_entries(chunks@, members@, which, *lengths),
{
    let mut r: Vec<(Option<String>, Option<String>)> = Vec::new();
    let mut j: usize = 0;
    while j < members.len()
        invariant
            j <= members@.len(),
            forall|j: int| 0 <= j < members@.len() ==> #[trigger] members@[j] < chunks@.len(),
            forall|j: int|
                0 <= j < members@.len() && chunks@[#[trigger] members@[j] as int].id is Some
                    ==> can_cut(chunks@[members@[j] as int].rendered_hash, lengths.chunkhash)
                    && can_cut(chunks@[members@[j] as int].content_hash, lengths.contenthash),
            entry_views(r@) == content_entries(chunks@, members@.take(j as int), which, *lengths),
        decreases members@.len() - j,
    {
        let ghost before = r@;
        let c = &chunks[members[j]];
        assert(c == chunks@[members@[j as int] as int]);
        let id = match &c.id {
            Some(id) => Some(id.clone()),
            None => None,
        };
        let value = match &c.id {
            None => None,
            Some(_) => match which {
                ChunkValue::Name => match &c.name {
                    Some(n) => Some(n.clone()),
                    None => id.clone(),
                },
                ChunkValue::RenderedHash => match &c.rendered_hash {
                    Some(h) => Some(truncate_hash(h, lengths.chunkhash)),
                    None => None,
                },
                ChunkValue::ContentHash => match &c.content_hash {
                    Some(h) => Some(truncate_hash(h, lengths.contenthash)),
                    None => None,
                },
            },
        };
        r.push((id, value));
        proof {
            let m = members@[j as int];
            let expected = (
                opt_chars(chunks@[m as int].id),
                if chunks@[m as int].id is Some {
                    chunk_value(chunks@[m as int], which, *lengths)
                } else {
                    None
                },
            );
            assert((opt_chars(id), opt_chars(value)) == expected);
            assert(entry_views(r@) =~= entry_views(before).push((opt_chars(id), opt_chars(value))));
            assert(members@.take(j + 1) =~= members@.take(j as int).push(m));
            assert(content_entries(chunks@, members@.take(j + 1), which, *lengths)
                =~= content_entries(chunks@, members@.take(j as int), which, *lengths).push(expected));
        }
        j = j + 1;
    }
    assert(members@.take(members@.len() as int) =~= members@);
    r
}

/// The run-time expression of the full hash of the compilation (see
/// [`full_hash_text`]).
pub fn full_hash_expression(lengths: &HashLengths) -> (r: String)
    ensures
        r@ == full_hash_text(*lengths),
{
    let length = match lengths.fullhash {
        Some(l) => Some(l),
        None => lengths.hash,
    };
    let mut r = String::from_str("\" + ");
    r.append("__webpack_require__.h");
    match length {
        Some(l) => {
            r.append("().slice(0, ");
            r.append(usize_to_decimal(l).as_str());
            r.append(") + \"");
        },
        None => {
            r.append("() + \"");
        },
    }
    r
}

/// The lines for the chunks of templates rendered one by one, from pairs of
/// a chunk's file path and its id (see [`static_url_text`]).
pub fn static_url_lines(entries: &Vec<(String, String)>) -> (r: String)
    ensures
        r@ == static_url_text(entries@.map_values(|e: (String, String)| (e.0@, e.1@))),
{
    let ghost views = entries@.map_values(|e: (String, String)| (e.0@, e.1@));
    let mut names: Vec<String> = Vec::new();
    let mut ids: Vec<Vec<String>> = Vec::new();
    let mut i: usize = 0;
    while i < entries.len()
        invariant
            i <= entries@.len(),
            views == entries@.map_values(|e: (String, String)| (e.0@, e.1@)),
            names@.len() == ids@.len(),
            names@.len() == static_groups(views.take(i as int)).len(),
            forall|k: int|
                0 <= k < names@.len() ==> #[trigger] static_groups(views.take(i as int))[k] == (
                    names@[k]@,
                    ids@[k]@.map_values(|s: String| s@),
                ),
            forall|a: int, b: int|
                0 <= a < b < names@.len() ==> #[trigger] names@[a]@ != #[trigger] names@[b]@,
            forall|k: int| 0 <= k < ids@.len() ==> (#[trigger] ids@[k])@.len() > 0,
        decreases entries@.len() - i,
    {
        let ghost rest = static_groups(views.take(i as int));
        assert(views.take(i + 1).drop_last() =~= views.take(i as int));
        let (filename, id) = &entries[i];
        let ghost f = filename@;
        assert(views.take(i + 1).last() == (f, id@));
        let mut k: usize = 0;
        while k < names.len() && !(names[k] == *filename)
            invariant
                k <= names@.len(),
                f == filename@,
                forall|j: int| 0 <= j < k ==> (#[trigger] names@[j])@ != f,
            decreases names@.len() - k,
        {
            k = k + 1;
        }
        if k < names.len() {
            assert(rest[k as int].0 == f);
            let ghost chosen = choose|j: int| 0 <= j < rest.len() && #[trigger] rest[j].0 == f;
            assert(chosen == k) by {
                if chosen != k {
                    assert(names@[chosen]@ == f);
                    if chosen < k {
                        assert(names@[chosen]@ != names@[k as int]@);
                    } else {
                        assert(names@[k as int]@ != names@[chosen]@);
                    }
                }
            }
            let mut list = ids.remove(k);
            list.push(id.clone());
            ids.insert(k, list);
            assert forall|j: int| 0 <= j < names@.len() implies #[trigger] static_groups(
                views.take(i + 1),
            )[j] == (names@[j]@, ids@[j]@.map_values(|s: String| s@)) by {
                if j == k {
                    assert(ids@[j]@.map_values(|s: String| s@) =~= rest[j].1.push(id@));
                }
            }
        } else {
            assert(!(exists|j: int| 0 <= j < rest.len() && #[trigger] rest[j].0 == f)) by {
                if exists|j: int| 0 <= j < rest.len() && #[trigger] rest[j].0 == f {
                    let j = choose|j: int| 0 <= j < rest.len() && #[trigger] rest[j].0 == f;
                    assert(names@[j]@ == f);
                }
            }
            names.push(filename.clone());
            let mut list: Vec<String> = Vec::new();
            list.push(id.clone());
            ids.push(list);
            assert forall|j: int| 0 <= j < names@.len() implies #[trigger] static_groups(
                views.take(i + 1),
            )[j] == (names@[j]@, ids@[j]@.map_values(|s: String| s@)) by {
                if j == k {
                    assert(ids@[j]@.map_values(|s: String| s@) =~= seq![id@]);
                }
            }
        }
        i = i + 1;
    }
    assert(views.take(entries@.len() as int) =~= views);
    let ghost groups = static_groups(views);
    let mut lines: Vec<String> = Vec::new();
    let mut g: usize = 0;
    while g < names.len()
        invariant
            g <= names@.len(),
            names@.len() == ids@.len(),
            names@.len() == groups.len(),
            forall|k: int|
                0 <= k < names@.len() ==> #[trigger] groups[k] == (
                    names@[k]@,
                    ids@[k]@.map_values(|s: String| s@),
                ),
            forall|k: int| 0 <= k < ids@.len() ==> (#[trigger] ids@[k])@.len() > 0,
            lines@.map_values(|s: String| s@) == groups.take(g as int).map_values(
                |gr: (Seq<char>, Seq<Seq<char>>)| static_line(gr),
            ),
        decreases names@.len() - g,
    {
        let ghost before = lines@;
        let line = static_line_of(&names[g], &ids[g]);
        let ghost lv = line@;
        assert(groups[g as int] == (names@[g as int]@, ids@[g as int]@.map_values(|s: String| s@)));
        lines.push(line);
        proof {
            assert(lv == static_line(groups[g as int]));
            assert(lines@.map_values(|s: String| s@) =~= before.map_values(|s: String| s@).push(lv));
            assert(groups.take(g + 1) =~= groups.take(g as int).push(groups[g as int]));
            assert(groups.take(g + 1).map_values(|gr: (Seq<char>, Seq<Seq<char>>)| static_line(gr))
                =~= groups.take(g as int).map_values(
                |gr: (Seq<char>, Seq<Seq<char>>)| static_line(gr),
            ).push(lv));
        }
        g = g + 1;
    }
    assert(groups.take(names@.len() as int) =~= groups);
    join(&lines, "\n")
}

/// The line that returns `filename` for the chunk ids `ids`.
fn static_line_of(filename: &String, ids: &Vec<String>) -> (r: String)
    requires
        ids@.len() > 0,
    ensures
        r@ == static_line((filename@, ids@.map_values(|s: String| s@))),
{
    let ghost idv = ids@.map_values(|s: String| s@);
    let mut condition: String;
    if ids.len() == 1 {
        condition = String::from_str("chunkId === ");
        condition.append(to_json_string(ids[0].as_str()).as_str());
    } else {
        let mut parts: Vec<String> = Vec::new();
        let mut j: usize = 0;
        while j < ids.len()
            invariant
                j <= ids@.len(),
                idv == ids@.map_values(|s: String| s@),
                parts@.map_values(|s: String| s@) == idv.take(j as int).map_values(
                    |id: Seq<char>| json_string(id) + ":1"@,
                ),
            decreases ids@.len() - j,
        {
            let ghost before = parts@;
            let mut part = to_json_string(ids[j].as_str());
            part.append(":1");
            let ghost pv = part@;
            parts.push(part);
            proof {
                assert(pv == json_string(idv[j as int]) + ":1"@);
                assert(parts@.map_values(|s: String| s@) =~= before.map_values(|s: String| s@).push(
                    pv,
                ));
                assert(idv.take(j + 1) =~= idv.take(j as int).push(idv[j as int]));
                assert(idv.take(j + 1).map_values(|id: Seq<char>| json_string(id) + ":1"@)
                    =~= idv.take(j as int).map_values(|id: Seq<char>| json_string(id) + ":1"@).push(
                    pv,
                ));
            }
            j = j + 1;
        }
        assert(idv.take(ids@.len() as int) =~= idv);
        condition = String::from_str("{ ");
        condition.append(join(&parts, ",").as_str());
        condition.append(" }[chunkId]");
    }
    let mut r = String::from_str("if (");
    r.append(condition.as_str());
    r.append(") return \"");
    r.append(filename.as_str());
    r.append("\";");
    r
}

/// Whether the hashes of the chunks at `members` that have an id can be cut
/// to the lengths that the template asks for.
pub open spec fn hashes_can_be_cut(
    chunks: Seq<ChunkFilenameInfo>,
    members: Seq<usize>,
    lengths: HashLengths,
) -> bool {
    forall|j: int|
        0 <= j < members.len() && chunks[#[trigger] members[j] as int].id is Some ==> can_cut(
            chunks[members[j] as int].rendered_hash,
            lengths.chunkhash,
        ) && can_cut(chunks[members[j] as int].content_hash, lengths.contenthash)
}

/// Whether `data` is what the template of the dynamic file name is rendered
/// with for the chunks at `members`: the chunk id, and content maps of the
/// chunks' names, rendered hashes and content hashes (the hashes cut to the
/// lengths that the template asks for), and the full hash.
pub open spec fn is_path_data_of(
    chunks: Seq<ChunkFilenameInfo>,
    members: Seq<usize>,
    lengths: HashLengths,
    data: DynamicPathData,
) -> bool {
    &&& data.chunk_id@ == "\" + chunkId + \""@
    &&& data.chunk_name@ == content_map_text(
        content_entries(chunks, members, ChunkValue::Name, lengths),
    )
    &&& data.rendered_hash@ == content_map_text(
        content_entries(chunks, members, ChunkValue::RenderedHash, lengths),
    )
    &&& data.content_hash@ == content_map_text(
        content_entries(chunks, members, ChunkValue::ContentHash, lengths),
    )
    &&& data.hash@ == full_hash_text(lengths)
}

/// Whether `plan` is the plan of `chunks` for files of `source_type`: the
/// chunks grouped by template, in the order in which each template first
/// occurs, and the template on top as the dynamic one (none where there is
/// no template).
pub open spec fn is_plan_of(
    source_type: SourceType,
    chunks: Seq<ChunkFilenameInfo>,
    plan: ChunkFilenamePlan,
) -> bool {
    let ts = templates_of(source_type, chunks);
    let fo = first_occurrences(ts);
    &&& plan.groups@.len() == fo.len()
    &&& forall|k: int|
        0 <= k < fo.len() ==> (#[trigger] plan.groups@[k]).template@ == fo[k]
            && plan.groups@[k].chunks@ == occurrences(ts, fo[k])
    &&& match plan.dynamic_filename {
        None => fo.len() == 0,
        Some(d) => is_top_template(ts, d@),
    }
}

/// The run-time expressions that the template of the dynamic file name is
/// rendered with, for the chunks at `members` (those of that template):
/// the chunk id, and content maps of the chunks' names, rendered hashes and
/// content hashes (the hashes cut to the lengths that the template asks
/// for), and the full hash.
pub fn dynamic_path_data(
    chunks: &Vec<ChunkFilenameInfo>,
    members: &Vec<usize>,
    lengths: &HashLengths,
) -> (r: DynamicPathData)
    requires
        forall|j: int| 0 <= j < members@.len() ==> #[trigger] members@[j] < chunks@.len(),
        hashes_can_be_cut(chunks@, members@, *lengths),
    ensures
        is_path_data_of(chunks@, members@, *lengths, r),
{
    let names = content_entries_of(chunks, members, ChunkValue::Name, lengths);
    let rendered = content_entries_of(chunks, members, ChunkValue::RenderedHash, lengths);
    let contents = content_entries_of(chunks, members, ChunkValue::ContentHash, lengths);
    DynamicPathData {
        chunk_id: String::from_str("\" + chunkId + \""),
        chunk_name: create_dynamic_chunk_content_map(&names),
        rendered_hash: create_dynamic_chunk_content_map(&rendered),
        content_hash: create_dynamic_chunk_content_map(&contents),
        hash: full_hash_expression(lengths),
    }
}

/// Whether `v` holds `x`.
fn holds_chunk(v: &Vec<ChunkUkey>, x: ChunkUkey) -> (r: bool)
    ensures
        r == v@.contains(x),
{
    let mut i: usize = 0;
    while i < v.len()
        invariant
            i <= v@.len(),
            forall|j: int| 0 <= j < i ==> v@[j] != x,
        decreases v@.len() - i,
    {
        if v[i] == x {
            return true;
        }
        i = i + 1;
    }
    false
}

/// Adds to `out` each chunk of `items` that it does not hold yet.
fn add_new_chunks(out: &mut Vec<ChunkUkey>, items: &Vec<ChunkUkey>)
    requires
        old(out)@.no_duplicates(),
    ensures
        final(out)@.no_duplicates(),
        final(out)@.to_set() == old(out)@.to_set() + items@.to_set(),
{
    let ghost start = out@;
    let mut i: usize = 0;
    while i < items.len()
        invariant
            i <= items@.len(),
            out@.no_duplicates(),
            out@.to_set() == start.to_set() + items@.take(i as int).to_set(),
        decreases items@.len() - i,
    {
        let x = items[i];
        let ghost before = out@;
        if !holds_chunk(out, x) {
            out.push(x);
            proof {
                assert forall|a: int, b: int| 0 <= a < b < out@.len() implies out@[a] != out@[b] by {
                    if b == out@.len() - 1 {
                        assert(before.contains(out@[a]));
                    }
                }
            }
        }
        proof {
            assert(items@.take(i + 1) =~= items@.take(i as int).push(x));
            assert(out@.to_set() =~= before.to_set().insert(x)) by {
                assert forall|y: ChunkUkey| out@.to_set().contains(y) <==> before.to_set().insert(x).contains(y) by {
                    if out@.contains(y) && y != x {
                        let k = choose|k: int| 0 <= k < out@.len() && out@[k] == y;
                        assert(before[k] == y);
                    }
                    if before.contains(y) {
                        let k = choose|k: int| 0 <= k < before.len() && before[k] == y;
                        assert(out@[k] == y);
                    }
                    if y == x && !before.contains(x) {
                        assert(out@[before.len() as int] == x);
                    }
                }
            }
            let t0 = items@.take(i as int);
            let t1 = items@.take(i + 1);
            assert(t1.to_set() =~= t0.to_set().insert(x)) by {
                assert forall|y: ChunkUkey| t1.to_set().contains(y) <==> t0.to_set().insert(x).contains(y) by {
                    if t1.contains(y) && y != x {
                        let k = choose|k: int| 0 <= k < t1.len() && t1[k] == y;
                        assert(t0[k] == y);
                    }
                    if t0.contains(y) {
                        let k = choose|k: int| 0 <= k < t0.len() && t0[k] == y;
                        assert(t1[k] == y);
                    }
                    if y == x {
                        assert(t1[i as int] == x);
                    }
                }
            }
            assert(out@.to_set() =~= start.to_set() + items@.take(i + 1).to_set());
        }
        i = i + 1;
    }
    assert(items@.take(items@.len() as int) =~= items@);
}

/// Whether `hash` can be cut to `length` (see [`can_cut`]).
fn hash_can_be_cut(hash: &Option<String>, length: Option<usize>) -> (r: bool)
    ensures
        r == can_cut(*hash, length),
{
    match (hash, length) {
        (Some(h), Some(l)) => h.as_str().is_char_boundary(l),
        _ => true,
    }
}

/// The position of the group of the plan's dynamic template.
fn dynamic_group(plan: &ChunkFilenamePlan) -> (k: usize)
    requires
        plan.dynamic_filename is Some,
        exists|k: int|
            0 <= k < plan.groups@.len() && (#[trigger] plan.groups@[k]).template@
                == plan.dynamic_filename->0@,
    ensures
        k < plan.groups@.len(),
        plan.groups@[k as int].template@ == plan.dynamic_filename->0@,
{
    let d = plan.dynamic_filename.as_ref().unwrap();
    let mut k: usize = 0;
    while k < plan.groups.len()
        invariant
            k <= plan.groups@.len(),
            plan.dynamic_filename == Some(*d),
            forall|j: int| 0 <= j < k ==> (#[trigger] plan.groups@[j]).template@ != d@,
        decreases plan.groups@.len() - k,
    {
        if plan.groups[k].template == *d {
            return k;
        }
        k = k + 1;
    }
    vstd::pervasive::unreached()
}

/// Where the plan of `chunks` has a dynamic template, its group is in the
/// plan and holds that template's positions, each a position of `chunks`.
proof fn lemma_dynamic_group_in_plan(
    source_type: SourceType,
    chunks: Seq<ChunkFilenameInfo>,
    plan: ChunkFilenamePlan,
)
    requires
        chunks.len() <= usize::MAX,
        is_plan_of(source_type, chunks, plan),
        plan.dynamic_filename is Some,
    ensures
        exists|k: int|
            0 <= k < plan.groups@.len() && (#[trigger] plan.groups@[k]).template@
                == plan.dynamic_filename->0@,
        forall|k: int|
            0 <= k < plan.groups@.len() && (#[trigger] plan.groups@[k]).template@
                == plan.dynamic_filename->0@ ==> plan.groups@[k].chunks@ == occurrences(
                templates_of(source_type, chunks),
                plan.dynamic_filename->0@,
            ),
        forall|j: int|
            0 <= j < occurrences(templates_of(source_type, chunks), plan.dynamic_filename->0@).len()
                ==> #[trigger] occurrences(templates_of(source_type, chunks), plan.dynamic_filename->0@)[j]
                < chunks.len(),
{
    let ts = templates_of(source_type, chunks);
    let fo = first_occurrences(ts);
    let d = plan.dynamic_filename->0@;
    let j = choose|j: int| 0 <= j < fo.len() && fo[j] == d;
    assert(plan.groups@[j].template@ == d);
    lemma_occurrences_positions(ts, d);
}

impl GetChunkFilenameRuntimeModule {
    /// The module for files of `content_type`, made of `source_type`
    /// sources, whose code assigns the function to `global`; with
    /// `all_chunks` it covers all chunks that the attached chunk refers to,
    /// else only those it loads on demand.
    pub fn new(content_type: &str, source_type: SourceType, global: &str, all_chunks: bool) -> (m:
        Self)
        ensures
            m@ == (GetChunkFilenameRuntimeModuleView {
                id: "webpack/runtime/get_chunk_filename/"@ + content_type@,
                chunk: None,
                content_type: content_type@,
                source_type,
                global: global@,
                all_chunks,
            }),
    {
        let mut id = String::from_str("webpack/runtime/get_chunk_filename/");
        id.append(content_type);
        GetChunkFilenameRuntimeModule {
            id,
            chunk: None,
            content_type: String::from_str(content_type),
            source_type,
            global: String::from_str(global),
            all_chunks,
        }
    }

    /// The module's identifier.
    pub fn name(&self) -> (r: String)
        ensures
            r@ == self@.id,
    {
        self.id.clone()
    }

    /// Whether the module's code may be cached: never, as it depends on the
    /// whole set of chunks.
    pub fn cacheable(&self) -> (r: bool)
        ensures
            !r,
    {
        false
    }

    /// Attaches the module to `chunk`, whose chunks it covers.
    pub fn attach(&mut self, chunk: ChunkUkey)
        ensures
            final(self)@ == (GetChunkFilenameRuntimeModuleView { chunk: Some(chunk), ..old(self)@ }),
    {
        self.chunk = Some(chunk);
    }

    /// The kind of source that the module produces file names for.
    pub fn source_type(&self) -> (r: SourceType)
        ensures
            r == self@.source_type,
    {
        self.source_type
    }

    /// Whether the module covers all chunks that the attached chunk refers
    /// to, rather than only those it loads on demand.
    pub fn all_chunks(&self) -> (r: bool)
        ensures
            r == self@.all_chunks,
    {
        self.all_chunks
    }

    /// The chunks that the module covers, each once: with `all_chunks`,
    /// those that the attached chunk refers to (`referenced`); else those it
    /// loads on demand (`async_chunks`), and, where its runtime asks to
    /// include entries (`include_entries`), the chunks that its entries
    /// depend on (`entry_dependent`).
    pub fn covered_chunks(
        &self,
        referenced: &Vec<ChunkUkey>,
        async_chunks: &Vec<ChunkUkey>,
        include_entries: bool,
        entry_dependent: &Vec<ChunkUkey>,
    ) -> (r: Vec<ChunkUkey>)
        ensures
            r@.no_duplicates(),
            r@.to_set() == if self@.all_chunks {
                referenced@.to_set()
            } else if include_entries {
                async_chunks@.to_set() + entry_dependent@.to_set()
            } else {
                async_chunks@.to_set()
            },
    {
        let mut r: Vec<ChunkUkey> = Vec::new();
        proof {
            assert(r@.to_set() =~= Set::<ChunkUkey>::empty());
        }
        if self.all_chunks {
            add_new_chunks(&mut r, referenced);
            assert(r@.to_set() =~= referenced@.to_set());
        } else {
            add_new_chunks(&mut r, async_chunks);
            assert(r@.to_set() =~= async_chunks@.to_set());
            if include_entries {
                add_new_chunks(&mut r, entry_dependent);
            }
        }
        r
    }

    /// The chunk the module is attached to, if any.
    pub fn attached_chunk(&self) -> (r: Option<ChunkUkey>)
        ensures
            r == self@.chunk,
    {
        self.chunk
    }

    /// The module's code, from the entries of the chunks whose templates are
    /// rendered one by one (pairs of the file path and the chunk id) and the
    /// path rendered from the dynamic template, if there is one; each path
    /// is put in quotes. Without a dynamic path, the URL is the chunk id with
    /// the content type as extension.
    pub fn render(&self, static_urls: &Vec<(String, String)>, dynamic_path: Option<String>) -> (r:
        String)
        ensures
            r@ == runtime_code(
                self@.global,
                static_url_text(static_urls@.map_values(|e: (String, String)| (e.0@, e.1@))),
                match dynamic_path {
                    Some(p) => "\""@ + p@ + "\""@,
                    None => "'' + chunkId + '."@ + self@.content_type + "'"@,
                },
            ),
    {
        let static_url = static_url_lines(static_urls);
        let dynamic = match dynamic_path {
            Some(p) => {
                let mut u = String::from_str("\"");
                u.append(p.as_str());
                u.append("\"");
                u
            },
            None => {
                let mut u = String::from_str("'' + chunkId + '.");
                u.append(self.content_type.as_str());
                u.append("'");
                u
            },
        };
        let mut r = String::from_str("// This function allow to reference chunks\n        ");
        r.append(self.global.as_str());
        r.append(" = function (chunkId) {\n          // return url for filenames not based on template\n          ");
        r.append(static_url.as_str());
        r.append("\n          // return url for filenames based on template\n          return ");
        r.append(dynamic.as_str());
        r.append(";\n        };\n      ");
        r
    }

    /// Whether the hashes of the chunks of the dynamic template of `plan`,
    /// the plan of `chunks`, can be cut to `lengths` (true where the plan
    /// has no dynamic template).
    pub fn dynamic_hashes_can_be_cut(
        &self,
        plan: &ChunkFilenamePlan,
        chunks: &Vec<ChunkFilenameInfo>,
        lengths: &HashLengths,
    ) -> (r: bool)
        requires
            is_plan_of(self@.source_type, chunks@, *plan),
        ensures
            r == (plan.dynamic_filename matches Some(d) ==> hashes_can_be_cut(
                chunks@,
                occurrences(templates_of(self@.source_type, chunks@), d@),
                *lengths,
            )),
    {
        if plan.dynamic_filename.is_none() {
            return true;
        }
        let n = chunks.len();
        proof {
            lemma_dynamic_group_in_plan(self@.source_type, chunks@, *plan);
        }
        let k = dynamic_group(plan);
        let members = &plan.groups[k].chunks;
        let ghost occ = occurrences(templates_of(self@.source_type, chunks@), plan.dynamic_filename->0@);
        assert(members@ == occ);
        let mut j: usize = 0;
        while j < members.len()
            invariant
                j <= members@.len(),
                plan.dynamic_filename is Some,
                occ == occurrences(templates_of(self@.source_type, chunks@), plan.dynamic_filename->0@),
                members@ == occ,
                forall|i: int| 0 <= i < members@.len() ==> #[trigger] members@[i] < chunks@.len(),
                forall|i: int|
                    0 <= i < j && chunks@[#[trigger] members@[i] as int].id is Some ==> can_cut(
                        chunks@[members@[i] as int].rendered_hash,
                        lengths.chunkhash,
                    ) && can_cut(chunks@[members@[i] as int].content_hash, lengths.contenthash),
            decreases members@.len() - j,
        {
            let c = &chunks[members[j]];
            if c.id.is_some() && !(hash_can_be_cut(&c.rendered_hash, lengths.chunkhash)
                && hash_can_be_cut(&c.content_hash, lengths.contenthash)) {
                proof {
                    assert(chunks@[occ[j as int] as int].id is Some);
                }
                return false;
            }
            j = j + 1;
        }
        true
    }

    /// What the dynamic template of `plan`, the plan of `chunks`, is
    /// rendered with: the run-time expressions made from exactly the chunks
    /// of that template, their hashes cut to `lengths` (those that the
    /// template asks for); none where the plan has no dynamic template.
    pub fn plan_path_data(
        &self,
        plan: &ChunkFilenamePlan,
        chunks: &Vec<ChunkFilenameInfo>,
        lengths: &HashLengths,
    ) -> (r: Option<DynamicPathData>)
        requires
            is_plan_of(self@.source_type, chunks@, *plan),
            plan.dynamic_filename matches Some(d) ==> hashes_can_be_cut(
                chunks@,
                occurrences(templates_of(self@.source_type, chunks@), d@),
                *lengths,
            ),
        ensures
            match plan.dynamic_filename {
                None => r is None,
                Some(d) => r matches Some(data) && is_path_data_of(
                    chunks@,
                    occurrences(templates_of(self@.source_type, chunks@), d@),
                    *lengths,
                    data,
                ),
            },
    {
        if plan.dynamic_filename.is_none() {
            return None;
        }
        let n = chunks.len();
        proof {
            lemma_dynamic_group_in_plan(self@.source_type, chunks@, *plan);
        }
        let k = dynamic_group(plan);
        Some(dynamic_path_data(chunks, &plan.groups[k].chunks, lengths))
    }

    /// The module's code for `plan`, a plan made by [`Self::plan`], with
    /// `dynamic_path` the path rendered from the plan's dynamic template, if
    /// it has one. The chunks of a template other than the dynamic one are
    /// rendered one by one only where the plan has no dynamic template; such
    /// a plan has no groups, so the section of chunks rendered one by one is
    /// empty.
    pub fn render_plan(&self, plan: &ChunkFilenamePlan, dynamic_path: Option<String>) -> (r: String)
        requires
            plan.dynamic_filename is None ==> plan.groups@.len() == 0,
        ensures
            r@ == runtime_code(
                self@.global,
                Seq::empty(),
                match dynamic_path {
                    Some(p) => "\""@ + p@ + "\""@,
                    None => "'' + chunkId + '."@ + self@.content_type + "'"@,
                },
            ),
    {
        let static_urls: Vec<(String, String)> = Vec::new();
        proof {
            let entries = static_urls@.map_values(|e: (String, String)| (e.0@, e.1@));
            assert(entries =~= Seq::<(Seq<char>, Seq<char>)>::empty());
            assert(static_groups(entries) =~= Seq::<(Seq<char>, Seq<Seq<char>>)>::empty());
            assert(static_groups(entries).map_values(|g: (Seq<char>, Seq<Seq<char>>)| static_line(g))
                =~= Seq::<Seq<char>>::empty());
        }
        self.render(&static_urls, dynamic_path)
    }

    /// Groups `chunks` by filename template, in the order in which each
    /// template first occurs, and picks the template rendered at run time:
    /// the one with the most chunks, then the longest, then the last in the
    /// order of `str` (see [`is_top_template`]). A chunk with no template
    /// for this module's source type (a chunk without CSS, for CSS files) is
    /// left out.
    pub fn plan(&self, chunks: &Vec<ChunkFilenameInfo>) -> (r: ChunkFilenamePlan)
        requires
            chunks@.len() > 0 ==> self@.source_type == SourceType::JavaScript || self@.source_type
                == SourceType::Css,
        ensures
            is_plan_of(self@.source_type, chunks@, r),
    {
        let ghost ts = templates_of(self@.source_type, chunks@);
        let mut groups: Vec<ChunkFilenameGroup> = Vec::new();
        let mut dynamic: Option<usize> = None;
        let mut max_chunk_set_size: usize = 0;
        let mut i: usize = 0;
        assert(ts.take(0) =~= Seq::<Option<Seq<char>>>::empty());
        while i < chunks.len()
            invariant
                i <= chunks@.len(),
                ts == templates_of(self@.source_type, chunks@),
                chunks@.len() > 0 ==> self@.source_type == SourceType::JavaScript
                    || self@.source_type == SourceType::Css,
                groups@.len() == first_occurrences(ts.take(i as int)).len(),
                forall|k: int|
                    0 <= k < groups@.len() ==> (#[trigger] groups@[k]).template@
                        == first_occurrences(ts.take(i as int))[k] && groups@[k].chunks@
                        == occurrences(ts.take(i as int), groups@[k].template@),
                forall|k: int| 0 <= k < groups@.len() ==> (#[trigger] groups@[k]).chunks@.len() <= i,
                dynamic is None <==> groups@.len() == 0,
                dynamic matches Some(d) ==> d < groups@.len() && max_chunk_set_size
                    == groups@[d as int].chunks@.len() && is_top_template(
                    ts.take(i as int),
                    groups@[d as int].template@,
                ),
            decreases chunks@.len() - i,
        {
            let ghost ts0 = ts.take(i as int);
            let ghost ts1 = ts.take(i + 1);
            let ghost max0 = max_chunk_set_size;
            proof {
                if let Some(d) = dynamic {
                    assert(max0 == occurrences(ts0, groups@[d as int].template@).len());
                }
            }
            proof {
                lemma_one_more_chunk(ts, i as int);
                assert(ts[i as int] == template_of(self@.source_type, chunks@[i as int]));
            }
            let chunk = &chunks[i];
            let template: Option<&String> = match self.source_type {
                SourceType::JavaScript => Some(&chunk.js_filename_template),
                SourceType::Css => if chunk.has_css {
                    Some(&chunk.css_filename_template)
                } else {
                    None
                },
                _ => vstd::pervasive::unreached(),
            };
            if let Some(template) = template {
                let ghost t = template@;
                assert(ts[i as int] == Some(t));
                let mut k: usize = 0;
                while k < groups.len() && !(groups[k].template == *template)
                    invariant
                        k <= groups@.len(),
                        t == template@,
                        forall|j: int| 0 <= j < k ==> (#[trigger] groups@[j]).template@ != t,
                    decreases groups@.len() - k,
                {
                    k = k + 1;
                }
                let ghost fo0 = first_occurrences(ts0);
                proof {
                    lemma_occurrences_facts(ts0, t);
                }
                if k < groups.len() {
                    assert(fo0.contains(t)) by {
                        assert(fo0[k as int] == t);
                    }
                    let mut group = groups.remove(k);
                    group.chunks.push(i);
                    groups.insert(k, group);
                } else {
                    assert(!fo0.contains(t)) by {
                        if fo0.contains(t) {
                            let j = choose|j: int| 0 <= j < fo0.len() && fo0[j] == t;
                            assert(groups@[j].template@ == t);
                        }
                    }
                    let mut members: Vec<usize> = Vec::new();
                    members.push(i);
                    groups.push(ChunkFilenameGroup { template: template.clone(), chunks: members });
                }
                let ghost fo1 = first_occurrences(ts1);
                assert forall|j: int|
                    0 <= j < groups@.len() implies (#[trigger] groups@[j]).template@ == fo1[j]
                    && groups@[j].chunks@ == occurrences(ts1, groups@[j].template@) by {
                    if j != k {
                        assert(groups@[j].template@ != t) by {
                            lemma_occurrences_facts(ts1, t);
                            assert(fo1[k as int] == t);
                        }
                    }
                }
                let chunk_set_size = groups[k].chunks.len();
                let should_update = match dynamic {
                    None => true,
                    Some(d) => {
                        let filename_len = template.as_str().len();
                        let dynamic_len = groups[d].template.as_str().len();
                        if chunk_set_size < max_chunk_set_size {
                            false
                        } else if chunk_set_size > max_chunk_set_size {
                            true
                        } else if filename_len < dynamic_len {
                            false
                        } else if filename_len > dynamic_len {
                            true
                        } else {
                            !str_lt(template.as_str(), groups[d].template.as_str())
                        }
                    },
                };
                proof {
                    let top: Option<Seq<char>> = match dynamic {
                        Some(d) => Some(groups@[d as int].template@),
                        None => None,
                    };
                    assert(ts1 =~= ts0.push(Some(t)));
                    if let Some(d) = dynamic {
                        assert(groups@[d as int].template@ == fo0[d as int]);
                    }
                    lemma_dynamic_step(ts0, t, top, should_update);
                }
                if should_update {
                    max_chunk_set_size = chunk_set_size;
                    dynamic = Some(k);
                }
            } else {
                assert(ts[i as int] is None);
                assert forall|j: int| 0 <= j < groups@.len() implies (#[trigger] groups@[j]).chunks@
                    == occurrences(ts1, groups@[j].template@) by {}
                if let Some(d) = dynamic {
                    assert forall|j: int| 0 <= j < first_occurrences(ts1).len() implies !ranks_below(
                        ts1,
                        groups@[d as int].template@,
                        #[trigger] first_occurrences(ts1)[j],
                    ) by {
                        assert(!ranks_below(ts0, groups@[d as int].template@, first_occurrences(ts0)[j]));
                    }
                }
            }
            i = i + 1;
        }
        assert(ts.take(chunks@.len() as int) =~= ts);
        let dynamic_filename = match dynamic {
            Some(d) => Some(groups[d].template.clone()),
            None => None,
        };
        ChunkFilenamePlan { groups, dynamic_filename }
    }
}

} // verus!
