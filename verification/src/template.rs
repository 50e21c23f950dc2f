//! Template engine: decomposes a finished statement's text and value list
//! into a rebindable template with a location index from parameter name to
//! every place that name occurs.

use vstd::prelude::*;

use crate::dialect::DbBackend;
use crate::error::SqlError;
use crate::statement::{Statement, StmtV};
use crate::text::{is_word_char, spec_is_word_char, str_eq};
use crate::value::{SqlValue, ValV};

verus! {

/// A reference to one occurrence of a parameter: an index into the value
/// list, or an index into the decomposed text-segment list.
#[derive(Clone, Copy, PartialEq, Eq, Structural, Debug)]
pub enum ParamIndex {
    /// Index of a text segment to be replaced wholesale on rebind.
    Sql(usize),
    /// Index of a value-list slot to be overwritten on rebind.
    Value(usize),
}

/// One name of the location index, with every place it occurs, in insertion
/// order.
#[derive(Debug, Clone)]
pub struct ParamEntry {
    pub name: String,
    pub locs: Vec<ParamIndex>,
}

/// Mathematical model of a [`ParamEntry`].
pub struct ParamV {
    pub name: Seq<char>,
    pub locs: Seq<ParamIndex>,
}

impl View for ParamEntry {
    type V = ParamV;

    open spec fn view(&self) -> ParamV {
        ParamV { name: self.name@, locs: self.locs@ }
    }
}

impl DeepView for ParamEntry {
    type V = ParamV;

    open spec fn deep_view(&self) -> ParamV {
        self.view()
    }
}

/// One immutable text segment of a decomposed template: a span of the
/// shared original text, or owned text set by a rebind.
#[derive(Debug, Clone)]
pub enum SqlSlice {
    /// Characters `[start, end)` of the original text.
    Span(usize, usize),
    /// Owned replacement text.
    Text(String),
}

/// Mathematical model of a [`SqlSlice`].
pub enum SliceV {
    Span(int, int),
    Text(Seq<char>),
}

impl View for SqlSlice {
    type V = SliceV;

    open spec fn view(&self) -> SliceV {
        match self {
            SqlSlice::Span(a, b) => SliceV::Span(*a as int, *b as int),
            SqlSlice::Text(t) => SliceV::Text(t@),
        }
    }
}

impl DeepView for SqlSlice {
    type V = SliceV;

    open spec fn deep_view(&self) -> SliceV {
        self.view()
    }
}

/// Mathematical model of a template.
pub struct TemplV {
    pub db_backend: DbBackend,
    /// The pre-decomposition text.
    pub sql: Seq<char>,
    /// Empty when no literal-text marker was found and the text is kept
    /// verbatim.
    pub slices: Seq<SliceV>,
    pub values: Seq<ValV>,
    /// The location index: name to every occurrence, in insertion order.
    pub params: Seq<ParamV>,
}

/// The index of the first entry named `name`, or `-1` when there is none.
pub open spec fn spec_find_param(params: Seq<ParamV>, name: Seq<char>) -> int
    decreases params.len(),
{
    if params.len() == 0 {
        -1
    } else if params[0].name == name {
        0
    } else {
        let r = spec_find_param(params.drop_first(), name);
        if r < 0 {
            -1
        } else {
            r + 1
        }
    }
}

/// Record one more occurrence of `name`: extend its entry, or append a new
/// entry at the end.
pub open spec fn spec_add_param(params: Seq<ParamV>, name: Seq<char>, loc: ParamIndex) -> Seq<
    ParamV,
> {
    let k = spec_find_param(params, name);
    if k < 0 {
        params.push(ParamV { name, locs: seq![loc] })
    } else {
        params.update(k, ParamV { name, locs: params[k].locs.push(loc) })
    }
}

/// A value that is a string beginning with the sentinel `:` is a named
/// value placeholder.
pub open spec fn spec_is_named_value(v: ValV) -> bool {
    match v {
        ValV::Str(s) => s.len() > 0 && s[0] == ':',
        _ => false,
    }
}

/// The name a named value placeholder carries.
pub open spec fn spec_named_value_name(v: ValV) -> Seq<char> {
    match v {
        ValV::Str(s) => s,
        _ => Seq::empty(),
    }
}

/// Scan the value list from slot `i` on, recording a value-slot location
/// for every named value placeholder.
pub open spec fn spec_value_params(values: Seq<ValV>, i: int, params: Seq<ParamV>) -> Seq<ParamV>
    decreases values.len() - i,
{
    if i < 0 || i >= values.len() {
        params
    } else {
        let p = if spec_is_named_value(values[i]) {
            spec_add_param(params, spec_named_value_name(values[i]), ParamIndex::Value(i as usize))
        } else {
            params
        };
        spec_value_params(values, i + 1, p)
    }
}

/// The first position at or after `k` that does not hold a word character.
pub open spec fn spec_word_end(s: Seq<char>, k: int) -> int
    decreases s.len() - k,
{
    if k < 0 || k >= s.len() {
        k
    } else if !spec_is_word_char(s[k]) {
        k
    } else {
        spec_word_end(s, k + 1)
    }
}

/// State of the text scan: segments pushed so far and the index grown so
/// far.
pub struct ScanV {
    pub slices: Seq<SliceV>,
    pub params: Seq<ParamV>,
}

/// Whether position `i` of `s` starts a brace escape (`{{` or `}}`).
pub open spec fn spec_at_escape(s: Seq<char>, i: int) -> bool {
    i + 1 < s.len() && ((s[i] == '{' && s[i + 1] == '{') || (s[i] == '}' && s[i + 1] == '}'))
}

/// Whether position `i` of `s` starts a literal-text marker `{:word}`;
/// `spec_word_end(s, i + 2)` is then the position of its closing brace.
pub open spec fn spec_at_marker(s: Seq<char>, i: int) -> bool {
    &&& i + 1 < s.len()
    &&& s[i] == '{'
    &&& s[i + 1] == ':'
    &&& {
        let w = spec_word_end(s, i + 2);
        w > i + 2 && w < s.len() && s[w] == '}'
    }
}

/// Scan the text for brace escapes and literal-text markers, left to right.
///
/// `p` is the start of the segment being accumulated and `i` the scan
/// position. Each escape contributes one segment ending just after its
/// first brace; each marker contributes the segment before it, a segment
/// holding the marker itself, and a text-slice location for its name. If
/// any match was found, a final trailing segment is pushed at the end;
/// otherwise the scan leaves its input untouched.
pub open spec fn spec_scan_text(s: Seq<char>, p: int, i: int, st: ScanV) -> ScanV
    decreases s.len() - i,
{
    if !(0 <= p <= i && i <= s.len()) {
        st
    } else if i == s.len() {
        if st.slices.len() == 0 {
            st
        } else {
            ScanV { slices: st.slices.push(SliceV::Span(p, s.len() as int)), params: st.params }
        }
    } else if spec_at_escape(s, i) {
        spec_scan_text(
            s,
            i + 2,
            i + 2,
            ScanV { slices: st.slices.push(SliceV::Span(p, i + 1)), params: st.params },
        )
    } else if spec_at_marker(s, i) {
        let w = spec_word_end(s, i + 2);
        let slices2 = st.slices.push(SliceV::Span(p, i)).push(SliceV::Span(i, w + 1));
        let name = s.subrange(i + 1, w);
        let params2 = spec_add_param(
            st.params,
            name,
            ParamIndex::Sql((st.slices.len() + 1) as usize),
        );
        spec_scan_text(s, w + 1, w + 1, ScanV { slices: slices2, params: params2 })
    } else {
        spec_scan_text(s, p, i + 1, st)
    }
}

/// The template a statement decomposes into.
pub open spec fn spec_from_statement(st: StmtV) -> TemplV {
    let params0 = spec_value_params(st.values, 0, Seq::empty());
    let scan = spec_scan_text(st.sql, 0, 0, ScanV { slices: Seq::empty(), params: params0 });
    TemplV {
        db_backend: st.db_backend,
        sql: st.sql,
        slices: scan.slices,
        values: st.values,
        params: scan.params,
    }
}

/// The text a segment contributes to the finalized statement.
pub open spec fn spec_slice_text(sl: SliceV, base: Seq<char>) -> Seq<char> {
    match sl {
        SliceV::Span(a, b) => if 0 <= a <= b <= base.len() {
            base.subrange(a, b)
        } else {
            Seq::empty()
        },
        SliceV::Text(t) => t,
    }
}

/// All segments, concatenated in order.
pub open spec fn spec_concat_slices(slices: Seq<SliceV>, base: Seq<char>) -> Seq<char>
    decreases slices.len(),
{
    if slices.len() == 0 {
        Seq::empty()
    } else {
        spec_concat_slices(slices.drop_last(), base) + spec_slice_text(slices.last(), base)
    }
}

/// The SQL text a template finalizes to: the stored text verbatim when
/// undecomposed, otherwise the concatenation of its segments.
pub open spec fn spec_final_sql(t: TemplV) -> Seq<char> {
    if t.slices.len() == 0 {
        t.sql
    } else {
        spec_concat_slices(t.slices, t.sql)
    }
}

/// Well-formedness of a template: every span and every recorded location
/// stays in bounds, and every name has at least one location.
pub open spec fn spec_wf(t: TemplV) -> bool {
    &&& forall|j: int|
        0 <= j < t.slices.len() ==> ((#[trigger] t.slices[j]) matches SliceV::Span(a, b) ==> 0 <= a
            <= b <= t.sql.len())
    &&& forall|k: int| 0 <= k < t.params.len() ==> (#[trigger] t.params[k]).locs.len() > 0
    &&& forall|k: int, j: int|
        0 <= k < t.params.len() && 0 <= j < t.params[k].locs.len() ==> match (
        #[trigger] t.params[k].locs[j]) {
            ParamIndex::Value(i) => i < t.values.len(),
            ParamIndex::Sql(i) => i < t.slices.len(),
        }
}

/// The template after one location of a rebind took effect. A value-slot
/// location overwrites the value list entry; a text-slice location replaces
/// the segment wholesale with the bound literal string.
pub open spec fn spec_apply_loc(t: TemplV, loc: ParamIndex, v: ValV) -> TemplV {
    match loc {
        ParamIndex::Value(i) => if (i as int) < t.values.len() {
            TemplV { values: t.values.update(i as int, v), ..t }
        } else {
            t
        },
        ParamIndex::Sql(i) => if (i as int) < t.slices.len() {
            match v {
                ValV::Str(s) => TemplV { slices: t.slices.update(i as int, SliceV::Text(s)), ..t },
                _ => t,
            }
        } else {
            t
        },
    }
}

/// The template after the locations from `j` on took effect.
pub open spec fn spec_apply_locs(t: TemplV, locs: Seq<ParamIndex>, v: ValV, j: int) -> TemplV
    decreases locs.len() - j,
{
    if j < 0 || j >= locs.len() {
        t
    } else {
        spec_apply_locs(spec_apply_loc(t, locs[j], v), locs, v, j + 1)
    }
}

/// A rebind succeeds when the name is known and, unless the value is a
/// literal string, none of its locations is a text slice.
pub open spec fn spec_bind_ok(t: TemplV, name: Seq<char>, v: ValV) -> bool {
    let k = spec_find_param(t.params, name);
    &&& k >= 0
    &&& (v is Str || forall|j: int|
        0 <= j < t.params[k].locs.len() ==> !((#[trigger] t.params[k].locs[j]) is Sql))
}

/// The template after rebinding `name` to `v`: every location recorded for
/// the name reflects the new value.
pub open spec fn spec_bind(t: TemplV, name: Seq<char>, v: ValV) -> TemplV {
    let k = spec_find_param(t.params, name);
    if k < 0 {
        t
    } else {
        spec_apply_locs(t, t.params[k].locs, v, 0)
    }
}

/// A rebindable template: a statement's text and values, pre-analyzed into
/// a location index so that named parameters can be rebound and the
/// statement finalized again and again.
#[derive(Debug, Clone)]
pub struct SqlHelper {
    pub db_backend: DbBackend,
    sql: String,
    sql_slices: Vec<SqlSlice>,
    pub values: Vec<SqlValue>,
    params: Vec<ParamEntry>,
}

impl View for SqlHelper {
    type V = TemplV;

    closed spec fn view(&self) -> TemplV {
        TemplV {
            db_backend: self.db_backend,
            sql: self.sql@,
            slices: self.sql_slices.deep_view(),
            values: self.values.deep_view(),
            params: self.params.deep_view(),
        }
    }
}

/// Every entry has a location, and every location stays under the given
/// bounds on the value list and the segment list.
pub open spec fn spec_params_wf(params: Seq<ParamV>, nv: int, ns: int) -> bool {
    &&& forall|k: int| 0 <= k < params.len() ==> (#[trigger] params[k]).locs.len() > 0
    &&& forall|k: int, j: int|
        0 <= k < params.len() && 0 <= j < params[k].locs.len() ==> match (
        #[trigger] params[k].locs[j]) {
            ParamIndex::Value(i) => i < nv,
            ParamIndex::Sql(i) => i < ns,
        }
}

/// Every span stays inside the base text.
pub open spec fn spec_slices_wf(slices: Seq<SliceV>, len: int) -> bool {
    forall|j: int|
        0 <= j < slices.len() ==> ((#[trigger] slices[j]) matches SliceV::Span(a, b) ==> 0 <= a <= b
            <= len)
}

proof fn lemma_params_wf_mono(params: Seq<ParamV>, nv: int, ns: int, ns2: int)
    requires
        spec_params_wf(params, nv, ns),
        ns <= ns2,
    ensures
        spec_params_wf(params, nv, ns2),
{
}

proof fn lemma_add_param_wf(params: Seq<ParamV>, name: Seq<char>, loc: ParamIndex, nv: int, ns: int)
    requires
        spec_params_wf(params, nv, ns),
        match loc {
            ParamIndex::Value(i) => i < nv,
            ParamIndex::Sql(i) => i < ns,
        },
    ensures
        spec_params_wf(spec_add_param(params, name, loc), nv, ns),
{
    let r = spec_add_param(params, name, loc);
    let k = spec_find_param(params, name);
    if k < 0 {
        assert forall|m: int, j: int|
            0 <= m < r.len() && 0 <= j < r[m].locs.len() implies match (#[trigger] r[m].locs[j]) {
            ParamIndex::Value(i) => i < nv,
            ParamIndex::Sql(i) => i < ns,
        } by {
            if m < params.len() {
                assert(r[m] == params[m]);
            } else {
                assert(r[m].locs[j] == loc);
            }
        }
    } else {
        lemma_find_param_in_range(params, name);
        assert forall|m: int, j: int|
            0 <= m < r.len() && 0 <= j < r[m].locs.len() implies match (#[trigger] r[m].locs[j]) {
            ParamIndex::Value(i) => i < nv,
            ParamIndex::Sql(i) => i < ns,
        } by {
            if m != k {
                assert(r[m] == params[m]);
            } else {
                if j < params[k].locs.len() {
                    assert(r[k].locs[j] == params[k].locs[j]);
                } else {
                    assert(r[k].locs[j] == loc);
                }
            }
        }
    }
}

proof fn lemma_find_param_in_range(params: Seq<ParamV>, name: Seq<char>)
    ensures
        -1 <= spec_find_param(params, name) < params.len(),
        spec_find_param(params, name) >= 0 ==> params[spec_find_param(params, name)].name == name,
    decreases params.len(),
{
    if params.len() > 0 && params[0].name != name {
        lemma_find_param_in_range(params.drop_first(), name);
    }
}

proof fn lemma_value_params_wf(values: Seq<ValV>, i: int, params: Seq<ParamV>, ns: int)
    requires
        spec_params_wf(params, values.len() as int, ns),
    ensures
        spec_params_wf(spec_value_params(values, i, params), values.len() as int, ns),
    decreases values.len() - i,
{
    if 0 <= i < values.len() {
        if spec_is_named_value(values[i]) {
            lemma_add_param_wf(
                params,
                spec_named_value_name(values[i]),
                ParamIndex::Value(i as usize),
                values.len() as int,
                ns,
            );
        }
        lemma_value_params_wf(
            values,
            i + 1,
            if spec_is_named_value(values[i]) {
                spec_add_param(params, spec_named_value_name(values[i]), ParamIndex::Value(
                    i as usize,
                ))
            } else {
                params
            },
            ns,
        );
    }
}

proof fn lemma_scan_wf(s: Seq<char>, p: int, i: int, st: ScanV, nv: int)
    requires
        0 <= p <= i <= s.len(),
        spec_slices_wf(st.slices, s.len() as int),
        spec_params_wf(st.params, nv, st.slices.len() as int),
    ensures
        ({
            let r = spec_scan_text(s, p, i, st);
            &&& spec_slices_wf(r.slices, s.len() as int)
            &&& spec_params_wf(r.params, nv, r.slices.len() as int)
        }),
    decreases s.len() - i,
{
    if i == s.len() {
        if st.slices.len() > 0 {
            let slices2 = st.slices.push(SliceV::Span(p, s.len() as int));
            assert(spec_slices_wf(slices2, s.len() as int));
            lemma_params_wf_mono(st.params, nv, st.slices.len() as int, slices2.len() as int);
        }
    } else if spec_at_escape(s, i) {
        let slices2 = st.slices.push(SliceV::Span(p, i + 1));
        assert(spec_slices_wf(slices2, s.len() as int));
        lemma_params_wf_mono(st.params, nv, st.slices.len() as int, slices2.len() as int);
        lemma_scan_wf(s, i + 2, i + 2, ScanV { slices: slices2, params: st.params }, nv);
    } else if spec_at_marker(s, i) {
        let w = spec_word_end(s, i + 2);
        lemma_word_end_bounds(s, i + 2);
        let slices2 = st.slices.push(SliceV::Span(p, i)).push(SliceV::Span(i, w + 1));
        assert(spec_slices_wf(slices2, s.len() as int));
        lemma_params_wf_mono(st.params, nv, st.slices.len() as int, slices2.len() as int);
        let name = s.subrange(i + 1, w);
        lemma_add_param_wf(
            st.params,
            name,
            ParamIndex::Sql((st.slices.len() + 1) as usize),
            nv,
            slices2.len() as int,
        );
        let params2 = spec_add_param(
            st.params,
            name,
            ParamIndex::Sql((st.slices.len() + 1) as usize),
        );
        lemma_scan_wf(s, w + 1, w + 1, ScanV { slices: slices2, params: params2 }, nv);
    } else {
        lemma_scan_wf(s, p, i + 1, st, nv);
    }
}

proof fn lemma_word_end_bounds(s: Seq<char>, k: int)
    requires
        0 <= k <= s.len(),
    ensures
        k <= spec_word_end(s, k) <= s.len(),
    decreases s.len() - k,
{
    if k < s.len() && spec_is_word_char(s[k]) {
        lemma_word_end_bounds(s, k + 1);
    }
}

/// Decomposition always yields a well-formed template.
pub proof fn lemma_from_statement_wf(sv: StmtV)
    ensures
        spec_wf(spec_from_statement(sv)),
{
    let params0 = spec_value_params(sv.values, 0, Seq::empty());
    assert(spec_params_wf(Seq::empty(), sv.values.len() as int, 0));
    lemma_value_params_wf(sv.values, 0, Seq::empty(), 0);
    assert(spec_slices_wf(Seq::empty(), sv.sql.len() as int));
    lemma_scan_wf(sv.sql, 0, 0, ScanV { slices: Seq::empty(), params: params0 }, sv.values.len() as int);
}

proof fn lemma_find_param_found(params: Seq<ParamV>, name: Seq<char>, k: int)
    requires
        0 <= k < params.len(),
        params[k].name == name,
        forall|m: int| 0 <= m < k ==> (#[trigger] params[m]).name != name,
    ensures
        spec_find_param(params, name) == k,
    decreases k,
{
    if k == 0 {
    } else {
        assert(params.drop_first()[k - 1] == params[k]);
        assert(forall|m: int|
            0 <= m < k - 1 ==> (#[trigger] params.drop_first()[m]) == params[m + 1]);
        lemma_find_param_found(params.drop_first(), name, k - 1);
    }
}

proof fn lemma_find_param_absent(params: Seq<ParamV>, name: Seq<char>)
    requires
        forall|m: int| 0 <= m < params.len() ==> (#[trigger] params[m]).name != name,
    ensures
        spec_find_param(params, name) == -1,
    decreases params.len(),
{
    if params.len() == 0 {
    } else {
        assert(forall|m: int|
            0 <= m < params.len() - 1 ==> (#[trigger] params.drop_first()[m]) == params[m + 1]);
        lemma_find_param_absent(params.drop_first(), name);
    }
}

/// Record one more occurrence of `name` in the exec-level index.
#[verifier::loop_isolation(false)]
fn add_param(params: &mut Vec<ParamEntry>, name: String, loc: ParamIndex)
    ensures
        final(params).deep_view() == spec_add_param(old(params).deep_view(), name@, loc),
{
    let ghost dv = params.deep_view();
    let n = params.len();
    let mut k: usize = 0;
    while k < n
        invariant
            n == params@.len(),
            k <= n,
            *params == *old(params),
            dv == params.deep_view(),
            forall|m: int| 0 <= m < k ==> (#[trigger] dv[m]).name != name@,
        decreases n - k,
    {
        if str_eq(params[k].name.as_str(), name.as_str()) {
            proof {
                assert(dv[k as int].name == name@);
                lemma_find_param_found(dv, name@, k as int);
            }
            let mut entry = params.remove(k);
            entry.locs.push(loc);
            params.insert(k, entry);
            proof {
                assert(final(params).deep_view() =~= spec_add_param(dv, name@, loc));
            }
            return ;
        }
        k = k + 1;
    }
    proof {
        lemma_find_param_absent(dv, name@);
    }
    let mut locs: Vec<ParamIndex> = Vec::new();
    locs.push(loc);
    params.push(ParamEntry { name, locs });
    proof {
        assert(final(params).deep_view() =~= spec_add_param(dv, name@, loc));
    }
}

impl SqlHelper {
    /// Decompose a finished statement into a rebindable template.
    ///
    /// Named value placeholders in the value list get value-slot locations;
    /// bracketed literal-text markers in the SQL text get text-slice
    /// locations. When the text holds no marker it is kept verbatim and no
    /// segment list is built.
    #[verifier::loop_isolation(false)]
    pub fn from_statement(stmt: Statement) -> (r: SqlHelper)
        ensures
            r@ == spec_from_statement(stmt@),
            spec_wf(r@),
    {
        let Statement { db_backend, sql, values } = stmt;
        let ghost vals_dv = values.deep_view();
        let ghost sqlv = sql@;

        // Scan the value list for named value placeholders.
        let mut params: Vec<ParamEntry> = Vec::new();
        proof {
            assert(params.deep_view() =~= Seq::<ParamV>::empty());
        }
        let vn = values.len();
        let mut i: usize = 0;
        while i < vn
            invariant
                vn == values@.len(),
                vals_dv == values.deep_view(),
                i <= vn,
                spec_value_params(vals_dv, i as int, params.deep_view()) == spec_value_params(
                    vals_dv,
                    0,
                    Seq::empty(),
                ),
            decreases vn - i,
        {
            let ghost pdv = params.deep_view();
            match &values[i] {
                SqlValue::Str(s) => {
                    if s.unicode_len() > 0 && s.get_char(0) == ':' {
                        proof {
                            assert(vals_dv[i as int] == values@[i as int].deep_view());
                            assert(spec_is_named_value(vals_dv[i as int]));
                        }
                        add_param(&mut params, s.clone(), ParamIndex::Value(i));
                        proof {
                            assert(params.deep_view() == spec_add_param(
                                pdv,
                                spec_named_value_name(vals_dv[i as int]),
                                ParamIndex::Value(i),
                            ));
                        }
                    } else {
                        proof {
                            assert(vals_dv[i as int] == values@[i as int].deep_view());
                            assert(!spec_is_named_value(vals_dv[i as int]));
                        }
                    }
                },
                _ => {
                    proof {
                        assert(vals_dv[i as int] == values@[i as int].deep_view());
                        assert(!spec_is_named_value(vals_dv[i as int]));
                    }
                },
            }
            i = i + 1;
        }
        proof {
            assert(spec_value_params(vals_dv, vn as int, params.deep_view())
                == params.deep_view());
        }
        let ghost params0 = params.deep_view();

        // Scan the SQL text for brace escapes and literal-text markers.
        let mut sql_slices: Vec<SqlSlice> = Vec::new();
        proof {
            assert(sql_slices.deep_view() =~= Seq::<SliceV>::empty());
        }
        let n = sql.as_str().unicode_len();
        let mut p: usize = 0;
        let mut j: usize = 0;
        while j < n
            invariant
                n == sqlv.len(),
                sqlv == sql@,
                p <= j <= n,
                spec_scan_text(
                    sqlv,
                    p as int,
                    j as int,
                    ScanV { slices: sql_slices.deep_view(), params: params.deep_view() },
                ) == spec_scan_text(
                    sqlv,
                    0,
                    0,
                    ScanV { slices: Seq::empty(), params: params0 },
                ),
            decreases n - j,
        {
            let ghost st = ScanV { slices: sql_slices.deep_view(), params: params.deep_view() };
            let c = sql.as_str().get_char(j);
            let c2_escape = (c == '{' || c == '}') && j + 1 < n && sql.as_str().get_char(j + 1)
                == c;
            if c2_escape {
                proof {
                    assert(spec_at_escape(sqlv, j as int));
                    assert(!spec_at_marker(sqlv, j as int));
                }
                sql_slices.push(SqlSlice::Span(p, j + 1));
                proof {
                    assert(sql_slices.deep_view() =~= st.slices.push(
                        SliceV::Span(p as int, j + 1),
                    ));
                }
                p = j + 2;
                j = j + 2;
            } else if c == '{' && j + 1 < n && sql.as_str().get_char(j + 1) == ':' {
                // Look for the end of the marker's word.
                let mut w: usize = j + 2;
                while w < n && is_word_char(sql.as_str().get_char(w))
                    invariant
                        n == sqlv.len(),
                        sqlv == sql@,
                        j + 2 <= w <= n,
                        spec_word_end(sqlv, j + 2) == spec_word_end(sqlv, w as int),
                    decreases n - w,
                {
                    w = w + 1;
                }
                proof {
                    assert(spec_word_end(sqlv, j + 2) == w as int);
                }
                if w > j + 2 && w < n && sql.as_str().get_char(w) == '}' {
                    proof {
                        assert(spec_at_marker(sqlv, j as int));
                        assert(!spec_at_escape(sqlv, j as int));
                    }
                    let name = sql.as_str().substring_char(j + 1, w).to_owned();
                    sql_slices.push(SqlSlice::Span(p, j));
                    sql_slices.push(SqlSlice::Span(j, w + 1));
                    let midx = sql_slices.len() - 1;
                    proof {
                        assert(sql_slices.deep_view() =~= st.slices.push(
                            SliceV::Span(p as int, j as int),
                        ).push(SliceV::Span(j as int, w + 1)));
                        assert(midx as int == st.slices.len() + 1);
                        assert((st.slices.len() + 1) as usize == midx);
                    }
                    let ghost pdv = params.deep_view();
                    add_param(&mut params, name, ParamIndex::Sql(midx));
                    proof {
                        assert(params.deep_view() == spec_add_param(
                            pdv,
                            sqlv.subrange(j + 1, w as int),
                            ParamIndex::Sql((st.slices.len() + 1) as usize),
                        ));
                    }
                    p = w + 1;
                    j = w + 1;
                } else {
                    proof {
                        assert(!spec_at_marker(sqlv, j as int));
                        assert(!spec_at_escape(sqlv, j as int));
                    }
                    j = j + 1;
                }
            } else {
                proof {
                    assert(!spec_at_escape(sqlv, j as int));
                    assert(!spec_at_marker(sqlv, j as int));
                }
                j = j + 1;
            }
        }
        // Trailing segment, only when decomposition occurred.
        let ghost st_end = ScanV { slices: sql_slices.deep_view(), params: params.deep_view() };
        if !sql_slices.is_empty() {
            sql_slices.push(SqlSlice::Span(p, n));
            proof {
                assert(sql_slices.deep_view() =~= st_end.slices.push(
                    SliceV::Span(p as int, n as int),
                ));
            }
        }
        let r = SqlHelper { db_backend, sql, sql_slices, values, params };
        proof {
            assert(r@ == spec_from_statement(stmt@));
            lemma_from_statement_wf(stmt@);
        }
        r
    }

    /// The dialect this template renders for.
    pub fn backend(&self) -> (r: DbBackend)
        ensures
            r == self@.db_backend,
    {
        self.db_backend
    }

    /// The pre-decomposition SQL text.
    pub fn sql(&self) -> (r: &str)
        ensures
            r@ == self@.sql,
    {
        self.sql.as_str()
    }

    /// Rebind `name` to `value`: every location recorded for the name is
    /// overwritten together.
    ///
    /// An unknown name, or a non-string value for a name that occurs as a
    /// text slice, is a fatal contract violation: the error is returned and
    /// the template is left untouched.
    #[verifier::loop_isolation(false)]
    pub fn bind_param(&mut self, name: &str, value: SqlValue) -> (r: Result<(), SqlError>)
        requires
            spec_wf(old(self)@),
        ensures
            spec_wf(final(self)@),
            match r {
                Ok(_) => spec_bind_ok(old(self)@, name@, value@) && final(self)@ == spec_bind(
                    old(self)@,
                    name@,
                    value@,
                ),
                Err(e) => final(self)@ == old(self)@ && match e {
                    SqlError::UnknownParam(n) => n@ == name@ && spec_find_param(
                        old(self)@.params,
                        name@,
                    ) < 0,
                    SqlError::NotLiteral(n) => n@ == name@ && spec_find_param(
                        old(self)@.params,
                        name@,
                    ) >= 0 && !spec_bind_ok(old(self)@, name@, value@),
                    SqlError::Unsupported(_) => false,
                },
            },
    {
        let ghost t0 = self@;
        // Look the name up in the location index.
        let pn = self.params.len();
        let mut k: usize = 0;
        let mut found = false;
        while k < pn && !found
            invariant
                pn == self.params@.len(),
                k <= pn,
                *self == *old(self),
                found ==> k < pn && t0.params[k as int].name == name@,
                forall|m: int| 0 <= m < k ==> (#[trigger] t0.params[m]).name != name@,
            decreases pn - k + (if found {
                0int
            } else {
                1int
            }),
        {
            proof {
                assert(t0.params[k as int] == self.params@[k as int]@);
            }
            if str_eq(self.params[k].name.as_str(), name) {
                found = true;
            } else {
                k = k + 1;
            }
        }
        if !found {
            proof {
                lemma_find_param_absent(t0.params, name@);
            }
            return Err(SqlError::UnknownParam(String::from_str(name)));
        }
        proof {
            lemma_find_param_found(t0.params, name@, k as int);
        }
        let ghost locs_v = t0.params[k as int].locs;
        let ln = self.params[k].locs.len();

        // A non-string value must not reach a text slice.
        let is_str = match &value {
            SqlValue::Str(_) => true,
            _ => false,
        };
        if !is_str {
            let mut j: usize = 0;
            while j < ln
                invariant
                    spec_wf(old(self)@),
                    !(value@ is Str),
                    ln == locs_v.len(),
                    j <= ln,
                    *self == *old(self),
                    t0 == self@,
                    k < self.params@.len(),
                    spec_find_param(t0.params, name@) == k as int,
                    locs_v == t0.params[k as int].locs,
                    forall|m: int| 0 <= m < j ==> !((#[trigger] locs_v[m]) is Sql),
                decreases ln - j,
            {
                proof {
                    assert(t0.params[k as int] == self.params@[k as int]@);
                    assert(locs_v[j as int] == self.params@[k as int]@.locs[j as int]);
                }
                match self.params[k].locs[j] {
                    ParamIndex::Sql(_) => {
                        proof {
                            assert(locs_v[j as int] is Sql);
                            assert(!spec_bind_ok(t0, name@, value@));
                        }
                        return Err(SqlError::NotLiteral(String::from_str(name)));
                    },
                    ParamIndex::Value(_) => {},
                }
                j = j + 1;
            }
        }
        assert(spec_bind_ok(t0, name@, value@));

        // Overwrite every recorded location.
        let mut j: usize = 0;
        while j < ln
            invariant
                spec_wf(old(self)@),
                spec_wf(self@),
                ln == locs_v.len(),
                j <= ln,
                k < self.params@.len(),
                self@.params == t0.params,
                self@.sql == t0.sql,
                self@.db_backend == t0.db_backend,
                self@.values.len() == t0.values.len(),
                self@.slices.len() == t0.slices.len(),
                locs_v == t0.params[k as int].locs,
                value@ is Str || forall|m: int| 0 <= m < ln ==> !((#[trigger] locs_v[m]) is Sql),
                spec_apply_locs(t0, locs_v, value@, 0) == spec_apply_locs(
                    self@,
                    locs_v,
                    value@,
                    j as int,
                ),
            decreases ln - j,
        {
            let ghost tj = self@;
            proof {
                assert(self@.params[k as int] == self.params@[k as int]@);
            }
            let loc = self.params[k].locs[j];
            proof {
                assert(loc == locs_v[j as int]);
            }
            match loc {
                ParamIndex::Value(vi) => {
                    proof {
                        assert(spec_wf(self@));
                        assert((vi as int) < self@.values.len());
                    }
                    self.values[vi] = value.clone();
                    proof {
                        assert(self.values.deep_view() =~= tj.values.update(vi as int, value@));
                        assert(self@ == spec_apply_loc(tj, loc, value@));
                    }
                },
                ParamIndex::Sql(si) => {
                    proof {
                        assert((si as int) < self@.slices.len());
                    }
                    match &value {
                        SqlValue::Str(s) => {
                            let ghost sv = s@;
                            self.sql_slices[si] = SqlSlice::Text(s.clone());
                            proof {
                                assert(self.sql_slices.deep_view() =~= tj.slices.update(
                                    si as int,
                                    SliceV::Text(sv),
                                ));
                                assert(self@ == spec_apply_loc(tj, loc, value@));
                            }
                        },
                        _ => {
                            proof {
                                assert(false);
                            }
                        },
                    }
                },
            }
            j = j + 1;
        }
        proof {
            assert(spec_apply_locs(self@, locs_v, value@, ln as int) == self@);
            assert(final(self)@ == spec_bind(t0, name@, value@));
        }
        Ok(())
    }

    /// Rebind `name` to the integer `1` or `0` for a flag.
    pub fn bind_optional(&mut self, name: &str, optional: bool) -> (r: Result<(), SqlError>)
        requires
            spec_wf(old(self)@),
        ensures
            spec_wf(final(self)@),
            match r {
                Ok(_) => final(self)@ == spec_bind(
                    old(self)@,
                    name@,
                    ValV::Int(
                        if optional {
                            1
                        } else {
                            0
                        },
                    ),
                ),
                Err(_) => final(self)@ == old(self)@,
            },
    {
        self.bind_param(
            name,
            SqlValue::Int(
                if optional {
                    1
                } else {
                    0
                },
            ),
        )
    }

    /// Finalize into a statement: the stored text verbatim when
    /// undecomposed, otherwise all segments concatenated in order, paired
    /// with the current value list.
    #[verifier::loop_isolation(false)]
    pub fn into_statement(self) -> (r: Statement)
        requires
            spec_wf(self@),
        ensures
            r@.db_backend == self@.db_backend,
            r@.sql == spec_final_sql(self@),
            r@.values == self@.values,
    {
        let ghost t = self@;
        let SqlHelper { db_backend, sql, sql_slices, values, params: _ } = self;
        if sql_slices.is_empty() {
            Statement { db_backend, sql, values }
        } else {
            let ghost sdv = sql_slices.deep_view();
            let sn = sql_slices.len();
            let mut out = String::new();
            let mut j: usize = 0;
            proof {
                assert(sdv.take(0) =~= Seq::<SliceV>::empty());
            }
            while j < sn
                invariant
                    sn == sql_slices@.len(),
                    j <= sn,
                    sdv == sql_slices.deep_view(),
                    sqlv_inv(t, sql@, sdv),
                    spec_slices_wf(sdv, sql@.len() as int),
                    out@ == spec_concat_slices(sdv.take(j as int), sql@),
                decreases sn - j,
            {
                let ghost prefix = sdv.take(j as int);
                match &sql_slices[j] {
                    SqlSlice::Span(a, b) => {
                        proof {
                            assert(sdv[j as int] matches SliceV::Span(x, y) && x == *a as int && y
                                == *b as int);
                        }
                        let piece = sql.as_str().substring_char(*a, *b);
                        out.append(piece);
                    },
                    SqlSlice::Text(txt) => {
                        proof {
                            assert(sdv[j as int] == SliceV::Text(txt@));
                        }
                        out.append(txt.as_str());
                    },
                }
                proof {
                    assert(sdv.take(j + 1).drop_last() =~= prefix);
                    assert(sdv.take(j + 1).last() == sdv[j as int]);
                    assert(out@ == spec_concat_slices(sdv.take(j + 1), sql@));
                }
                j = j + 1;
            }
            proof {
                assert(sdv.take(sn as int) =~= sdv);
            }
            Statement { db_backend, sql: out, values }
        }
    }

    /// The names of the location index, in insertion order.
    #[verifier::loop_isolation(false)]
    pub fn iter_params(&self) -> (it: SqlParamIterator)
        ensures
            it.spec_names() == Seq::new(self@.params.len(), |i: int| self@.params[i].name),
            it.spec_pos() == 0,
    {
        let pn = self.params.len();
        let mut names: Vec<String> = Vec::new();
        let mut k: usize = 0;
        while k < pn
            invariant
                pn == self.params@.len(),
                k <= pn,
                names.deep_view() =~= Seq::new(k as nat, |i: int| self@.params[i].name),
            decreases pn - k,
        {
            let ghost prev = names.deep_view();
            names.push(self.params[k].name.clone());
            proof {
                assert(self@.params[k as int] == self.params@[k as int]@);
                assert(names.deep_view() =~= prev.push(self@.params[k as int].name));
                assert(names.deep_view() =~= Seq::new(
                    (k + 1) as nat,
                    |i: int| self@.params[i].name,
                ));
            }
            k = k + 1;
        }
        SqlParamIterator { names, pos: 0 }
    }
}

/// Every location of the index points at its name's sentinel: a value
/// slot holds the name as a string value, and a text slice holds the
/// name's bracketed marker, until a rebind overwrites them.
pub open spec fn spec_params_point(
    params: Seq<ParamV>,
    values: Seq<ValV>,
    slices: Seq<SliceV>,
    sql: Seq<char>,
) -> bool {
    forall|k: int, j: int|
        0 <= k < params.len() && 0 <= j < params[k].locs.len() ==> match (
        #[trigger] params[k].locs[j]) {
            ParamIndex::Value(i) => (i as int) < values.len() && values[i as int] == ValV::Str(
                params[k].name,
            ),
            ParamIndex::Sql(i) => (i as int) < slices.len() && spec_slice_text(
                slices[i as int],
                sql,
            ) == seq!['{'] + params[k].name + seq!['}'],
        }
}

proof fn lemma_add_param_point(
    params: Seq<ParamV>,
    name: Seq<char>,
    loc: ParamIndex,
    values: Seq<ValV>,
    slices: Seq<SliceV>,
    sql: Seq<char>,
)
    requires
        spec_params_point(params, values, slices, sql),
        match loc {
            ParamIndex::Value(i) => (i as int) < values.len() && values[i as int] == ValV::Str(
                name,
            ),
            ParamIndex::Sql(i) => (i as int) < slices.len() && spec_slice_text(
                slices[i as int],
                sql,
            ) == seq!['{'] + name + seq!['}'],
        },
    ensures
        spec_params_point(spec_add_param(params, name, loc), values, slices, sql),
{
    let r = spec_add_param(params, name, loc);
    let k = spec_find_param(params, name);
    lemma_find_param_in_range(params, name);
    assert forall|m: int, j: int|
        0 <= m < r.len() && 0 <= j < r[m].locs.len() implies match (#[trigger] r[m].locs[j]) {
        ParamIndex::Value(i) => (i as int) < values.len() && values[i as int] == ValV::Str(
            r[m].name,
        ),
        ParamIndex::Sql(i) => (i as int) < slices.len() && spec_slice_text(slices[i as int], sql)
            == seq!['{'] + r[m].name + seq!['}'],
    } by {
        if k < 0 {
            if m < params.len() {
                assert(r[m] == params[m]);
            } else {
                assert(r[m].name == name && r[m].locs[j] == loc);
            }
        } else {
            if m != k {
                assert(r[m] == params[m]);
            } else {
                assert(r[m].name == name);
                if j < params[k].locs.len() {
                    assert(r[m].locs[j] == params[k].locs[j]);
                } else {
                    assert(r[m].locs[j] == loc);
                }
            }
        }
    }
}

proof fn lemma_value_params_point(
    values: Seq<ValV>,
    i: int,
    params: Seq<ParamV>,
    slices: Seq<SliceV>,
    sql: Seq<char>,
)
    requires
        values.len() <= usize::MAX,
        spec_params_point(params, values, slices, sql),
    ensures
        spec_params_point(spec_value_params(values, i, params), values, slices, sql),
    decreases values.len() - i,
{
    if 0 <= i < values.len() {
        let p2 = if spec_is_named_value(values[i]) {
            spec_add_param(params, spec_named_value_name(values[i]), ParamIndex::Value(i as usize))
        } else {
            params
        };
        if spec_is_named_value(values[i]) {
            assert(values[i] == ValV::Str(spec_named_value_name(values[i])));
            lemma_add_param_point(
                params,
                spec_named_value_name(values[i]),
                ParamIndex::Value(i as usize),
                values,
                slices,
                sql,
            );
        }
        lemma_value_params_point(values, i + 1, p2, slices, sql);
    }
}

proof fn lemma_point_slices_push(
    params: Seq<ParamV>,
    values: Seq<ValV>,
    slices: Seq<SliceV>,
    sql: Seq<char>,
    sl: SliceV,
)
    requires
        spec_params_point(params, values, slices, sql),
    ensures
        spec_params_point(params, values, slices.push(sl), sql),
{
    assert forall|m: int, j: int|
        0 <= m < params.len() && 0 <= j < params[m].locs.len() implies match (
    #[trigger] params[m].locs[j]) {
        ParamIndex::Value(i) => (i as int) < values.len() && values[i as int] == ValV::Str(
            params[m].name,
        ),
        ParamIndex::Sql(i) => (i as int) < slices.push(sl).len() && spec_slice_text(
            slices.push(sl)[i as int],
            sql,
        ) == seq!['{'] + params[m].name + seq!['}'],
    } by {
        match params[m].locs[j] {
            ParamIndex::Value(_) => {},
            ParamIndex::Sql(i) => {
                assert(slices.push(sl)[i as int] == slices[i as int]);
            },
        }
    }
}

proof fn lemma_scan_point(s: Seq<char>, p: int, i: int, st: ScanV, values: Seq<ValV>)
    requires
        0 <= p <= i <= s.len(),
        st.slices.len() + 2 * (s.len() - i) + 2 <= usize::MAX,
        spec_params_point(st.params, values, st.slices, s),
    ensures
        ({
            let r = spec_scan_text(s, p, i, st);
            spec_params_point(r.params, values, r.slices, s)
        }),
    decreases s.len() - i,
{
    if i == s.len() {
        if st.slices.len() > 0 {
            lemma_point_slices_push(
                st.params,
                values,
                st.slices,
                s,
                SliceV::Span(p, s.len() as int),
            );
        }
    } else if spec_at_escape(s, i) {
        lemma_point_slices_push(st.params, values, st.slices, s, SliceV::Span(p, i + 1));
        lemma_scan_point(
            s,
            i + 2,
            i + 2,
            ScanV { slices: st.slices.push(SliceV::Span(p, i + 1)), params: st.params },
            values,
        );
    } else if spec_at_marker(s, i) {
        let w = spec_word_end(s, i + 2);
        lemma_word_end_bounds(s, i + 2);
        let slices2 = st.slices.push(SliceV::Span(p, i)).push(SliceV::Span(i, w + 1));
        lemma_point_slices_push(st.params, values, st.slices, s, SliceV::Span(p, i));
        lemma_point_slices_push(
            st.params,
            values,
            st.slices.push(SliceV::Span(p, i)),
            s,
            SliceV::Span(i, w + 1),
        );
        let name = s.subrange(i + 1, w);
        let midx = (st.slices.len() + 1) as usize;
        assert(spec_slice_text(slices2[midx as int], s) == seq!['{'] + name + seq!['}']) by {
            assert(slices2[midx as int] == SliceV::Span(i, w + 1));
            assert(s.subrange(i, w + 1) =~= seq!['{'] + name + seq!['}']);
        }
        lemma_add_param_point(st.params, name, ParamIndex::Sql(midx), values, slices2, s);
        lemma_scan_point(
            s,
            w + 1,
            w + 1,
            ScanV { slices: slices2, params: spec_add_param(st.params, name, ParamIndex::Sql(midx)) },
            values,
        );
    } else {
        lemma_scan_point(s, p, i + 1, st, values);
    }
}

/// The location-index invariant: in a freshly decomposed template, every
/// location recorded for a name refers to a position that contains the
/// name's sentinel — the name itself in a value slot, its bracketed
/// marker in a text slice. Rebinding mutates only those positions, never
/// the index.
pub proof fn lemma_index_points_at_sentinels(sv: StmtV)
    requires
        sv.values.len() <= usize::MAX,
        2 * sv.sql.len() + 2 <= usize::MAX,
    ensures
        ({
            let t = spec_from_statement(sv);
            spec_params_point(t.params, t.values, t.slices, t.sql)
        }),
{
    let params0 = spec_value_params(sv.values, 0, Seq::empty());
    assert(spec_params_point(Seq::empty(), sv.values, Seq::empty(), sv.sql));
    lemma_value_params_point(sv.values, 0, Seq::empty(), Seq::empty(), sv.sql);
    lemma_scan_point(
        sv.sql,
        0,
        0,
        ScanV { slices: Seq::empty(), params: params0 },
        sv.values,
    );
}

/// Whether the scan starting at position `i` matches no brace escape:
/// escapes drop one brace from the text, so only a scan clean of them can
/// reproduce its input.
pub open spec fn spec_scan_clean(s: Seq<char>, i: int) -> bool
    decreases s.len() - i,
{
    if i < 0 || i >= s.len() {
        true
    } else if spec_at_escape(s, i) {
        false
    } else if spec_at_marker(s, i) {
        spec_scan_clean(s, spec_word_end(s, i + 2) + 1)
    } else {
        spec_scan_clean(s, i + 1)
    }
}

proof fn lemma_concat_push(slices: Seq<SliceV>, sl: SliceV, base: Seq<char>)
    ensures
        spec_concat_slices(slices.push(sl), base) == spec_concat_slices(slices, base)
            + spec_slice_text(sl, base),
{
    assert(slices.push(sl).drop_last() =~= slices);
    assert(slices.push(sl).last() == sl);
}

proof fn lemma_subrange_join(s: Seq<char>, a: int, b: int, c: int)
    requires
        0 <= a <= b <= c <= s.len(),
    ensures
        s.subrange(a, b) + s.subrange(b, c) == s.subrange(a, c),
{
    assert(s.subrange(a, b) + s.subrange(b, c) =~= s.subrange(a, c));
}

proof fn lemma_scan_roundtrip(s: Seq<char>, p: int, i: int, st: ScanV)
    requires
        0 <= p <= i <= s.len(),
        spec_scan_clean(s, i),
        spec_concat_slices(st.slices, s) == s.subrange(0, p),
        st.slices.len() == 0 ==> p == 0,
    ensures
        ({
            let r = spec_scan_text(s, p, i, st);
            &&& r.slices.len() > 0 ==> spec_concat_slices(r.slices, s) == s
            &&& r.slices.len() == 0 ==> r == st && p == 0
        }),
    decreases s.len() - i,
{
    if i == s.len() {
        if st.slices.len() > 0 {
            lemma_concat_push(st.slices, SliceV::Span(p, s.len() as int), s);
            lemma_subrange_join(s, 0, p, s.len() as int);
            assert(s.subrange(0, s.len() as int) =~= s);
        }
    } else if spec_at_escape(s, i) {
        assert(false);
    } else if spec_at_marker(s, i) {
        let w = spec_word_end(s, i + 2);
        let slices2 = st.slices.push(SliceV::Span(p, i)).push(SliceV::Span(i, w + 1));
        lemma_concat_push(st.slices, SliceV::Span(p, i), s);
        lemma_concat_push(st.slices.push(SliceV::Span(p, i)), SliceV::Span(i, w + 1), s);
        lemma_subrange_join(s, 0, p, i);
        lemma_subrange_join(s, 0, i, w + 1);
        assert(spec_concat_slices(slices2, s) == s.subrange(0, w + 1));
        let name = s.subrange(i + 1, w);
        let params2 = spec_add_param(
            st.params,
            name,
            ParamIndex::Sql((st.slices.len() + 1) as usize),
        );
        lemma_scan_roundtrip(s, w + 1, w + 1, ScanV { slices: slices2, params: params2 });
    } else {
        lemma_scan_roundtrip(s, p, i + 1, st);
    }
}

/// Round trip: a statement decomposed into a template and finalized with no
/// rebinding reproduces its SQL text byte for byte. The scan must match no
/// brace escape: an escape stands for a single brace in the finalized text,
/// so text containing one is reproduced with the escape collapsed instead.
pub proof fn lemma_round_trip(sv: StmtV)
    requires
        spec_scan_clean(sv.sql, 0),
    ensures
        spec_final_sql(spec_from_statement(sv)) == sv.sql,
        spec_from_statement(sv).values == sv.values,
    decreases 0int,
{
    let params0 = spec_value_params(sv.values, 0, Seq::empty());
    let st0 = ScanV { slices: Seq::empty(), params: params0 };
    assert(spec_concat_slices(Seq::empty(), sv.sql) =~= sv.sql.subrange(0, 0));
    lemma_scan_roundtrip(sv.sql, 0, 0, st0);
}

proof fn lemma_apply_locs_char(t: TemplV, locs: Seq<ParamIndex>, v: ValV, j0: int)
    requires
        0 <= j0,
        t.values.len() <= usize::MAX,
        t.slices.len() <= usize::MAX,
        forall|j: int|
            0 <= j < locs.len() ==> match (#[trigger] locs[j]) {
                ParamIndex::Value(i) => i < t.values.len(),
                ParamIndex::Sql(i) => i < t.slices.len() && v is Str,
            },
    ensures
        ({
            let r = spec_apply_locs(t, locs, v, j0);
            &&& r.db_backend == t.db_backend
            &&& r.sql == t.sql
            &&& r.params == t.params
            &&& r.values.len() == t.values.len()
            &&& r.slices.len() == t.slices.len()
            &&& forall|q: int|
                0 <= q < t.values.len() ==> #[trigger] r.values[q] == if exists|j: int|
                    j0 <= j < locs.len() && locs[j] == ParamIndex::Value(q as usize) {
                    v
                } else {
                    t.values[q]
                }
            &&& forall|q: int|
                0 <= q < t.slices.len() ==> #[trigger] r.slices[q] == if exists|j: int|
                    j0 <= j < locs.len() && locs[j] == ParamIndex::Sql(q as usize) {
                    SliceV::Text(v->Str_0)
                } else {
                    t.slices[q]
                }
        }),
    decreases locs.len() - j0,
{
    if j0 < 0 || j0 >= locs.len() {
    } else {
        let t1 = spec_apply_loc(t, locs[j0], v);
        lemma_apply_locs_char(t1, locs, v, j0 + 1);
        let r = spec_apply_locs(t, locs, v, j0);
        assert forall|q: int| 0 <= q < t.values.len() implies #[trigger] r.values[q] == if exists|
            j: int,
        |
            j0 <= j < locs.len() && locs[j] == ParamIndex::Value(q as usize) {
            v
        } else {
            t.values[q]
        } by {
            if exists|j: int| j0 <= j < locs.len() && locs[j] == ParamIndex::Value(q as usize) {
                let j = choose|j: int|
                    j0 <= j < locs.len() && locs[j] == ParamIndex::Value(q as usize);
                if j == j0 {
                    if exists|j2: int|
                        j0 + 1 <= j2 < locs.len() && locs[j2] == ParamIndex::Value(q as usize) {
                    } else {
                        assert(t1.values[q] == v);
                    }
                } else {
                    assert(j0 + 1 <= j < locs.len() && locs[j] == ParamIndex::Value(q as usize));
                }
            } else {
                assert(t1.values[q] == t.values[q]);
            }
        }
        assert forall|q: int| 0 <= q < t.slices.len() implies #[trigger] r.slices[q] == if exists|
            j: int,
        |
            j0 <= j < locs.len() && locs[j] == ParamIndex::Sql(q as usize) {
            SliceV::Text(v->Str_0)
        } else {
            t.slices[q]
        } by {
            if exists|j: int| j0 <= j < locs.len() && locs[j] == ParamIndex::Sql(q as usize) {
                let j = choose|j: int|
                    j0 <= j < locs.len() && locs[j] == ParamIndex::Sql(q as usize);
                if j == j0 {
                    if exists|j2: int|
                        j0 + 1 <= j2 < locs.len() && locs[j2] == ParamIndex::Sql(q as usize) {
                    } else {
                        assert(t1.slices[q] == SliceV::Text(v->Str_0));
                    }
                } else {
                    assert(j0 + 1 <= j < locs.len() && locs[j] == ParamIndex::Sql(q as usize));
                }
            } else {
                assert(t1.slices[q] == t.slices[q]);
            }
        }
    }
}

/// Multi-location consistency: after one rebind of `name`, every location
/// recorded for the name reflects the new value — a value slot holds the
/// value itself, a text slice holds its literal string.
pub proof fn lemma_bind_updates_all_locations(t: TemplV, name: Seq<char>, v: ValV, j: int)
    requires
        t.values.len() <= usize::MAX,
        t.slices.len() <= usize::MAX,
        spec_wf(t),
        spec_bind_ok(t, name, v),
        0 <= j < t.params[spec_find_param(t.params, name)].locs.len(),
    ensures
        ({
            let k = spec_find_param(t.params, name);
            let r = spec_bind(t, name, v);
            match t.params[k].locs[j] {
                ParamIndex::Value(i) => r.values[i as int] == v,
                ParamIndex::Sql(i) => r.slices[i as int] == SliceV::Text(v->Str_0),
            }
        }),
{
    let k = spec_find_param(t.params, name);
    lemma_find_param_in_range(t.params, name);
    let locs = t.params[k].locs;
    lemma_apply_locs_char(t, locs, v, 0);
    match t.params[k].locs[j] {
        ParamIndex::Value(i) => {
            assert(0 <= j < locs.len() && locs[j] == ParamIndex::Value(i));
        },
        ParamIndex::Sql(i) => {
            assert(0 <= j < locs.len() && locs[j] == ParamIndex::Sql(i));
        },
    }
}

/// Idempotence: binding the same name to the same value twice leaves the
/// same template — and hence the same finalized statement — as binding it
/// once.
pub proof fn lemma_bind_idempotent(t: TemplV, name: Seq<char>, v: ValV)
    requires
        t.values.len() <= usize::MAX,
        t.slices.len() <= usize::MAX,
        spec_wf(t),
        spec_bind_ok(t, name, v),
    ensures
        spec_bind(spec_bind(t, name, v), name, v) == spec_bind(t, name, v),
{
    let k = spec_find_param(t.params, name);
    lemma_find_param_in_range(t.params, name);
    let locs = t.params[k].locs;
    let r1 = spec_bind(t, name, v);
    lemma_apply_locs_char(t, locs, v, 0);
    assert(r1.params == t.params);
    let r2 = spec_bind(r1, name, v);
    lemma_apply_locs_char(r1, locs, v, 0);
    assert(r2.values =~= r1.values);
    assert(r2.slices =~= r1.slices);
}

/// Helper predicate: the base text of the finalize loop is the template's.
spec fn sqlv_inv(t: TemplV, sqlv: Seq<char>, sdv: Seq<SliceV>) -> bool {
    sqlv == t.sql && sdv == t.slices
}

/// An explicit cursor over the names of a template's location index.
///
/// Replaces a self-referential iterator: it owns a copy of the names and a
/// position, recomputed on each step.
pub struct SqlParamIterator {
    names: Vec<String>,
    pos: usize,
}

impl SqlParamIterator {
    /// The names this cursor walks.
    pub closed spec fn spec_names(&self) -> Seq<Seq<char>> {
        self.names.deep_view()
    }

    /// The position of the next name.
    pub closed spec fn spec_pos(&self) -> int {
        self.pos as int
    }

    /// The next name, in insertion order, or nothing when exhausted.
    pub fn next(&mut self) -> (r: Option<String>)
        ensures
            final(self).spec_names() == old(self).spec_names(),
            old(self).spec_pos() < old(self).spec_names().len() ==> (r matches Some(s)
                && s@ == old(self).spec_names()[old(self).spec_pos()]
                && final(self).spec_pos() == old(self).spec_pos() + 1),
            old(self).spec_pos() >= old(self).spec_names().len() ==> (r is None
                && final(self).spec_pos() == old(self).spec_pos()),
    {
        if self.pos < self.names.len() {
            let s = self.names[self.pos].clone();
            self.pos = self.pos + 1;
            Some(s)
        } else {
            None
        }
    }
}

} // verus!
