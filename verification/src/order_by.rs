//! Keyset pagination engine: parses a free-text ordering specification
//! and, given a prior-row cursor, emits seek predicates and ORDER BY
//! clauses for stable, offset-free pagination.

use vstd::prelude::*;

use crate::builder::RawSqlBuilder;
use crate::dialect::DbBackend;
use crate::expr::{
    spec_atom_arity, spec_predicate_text, spec_predicate_values, AtomV, OperandV, PredicateV,
    SqlCmp, SqlOperand, SqlPredicate,
};
use crate::text::{is_word_char, spec_is_word_char, str_eq};
use crate::value::{SqlValue, ValV};

verus! {

/// One parsed ordering field: column name, direction, and the optional
/// wrapper and aggregate function names configured for it (empty when not
/// configured).
#[derive(Debug)]
pub struct OrderByField {
    pub field: String,
    pub asc: bool,
    pub wrapper_func: String,
    pub aggregate_func: String,
}

/// Mathematical model of an [`OrderByField`].
pub struct OrderFieldV {
    pub field: Seq<char>,
    pub asc: bool,
    pub wrapper_func: Seq<char>,
    pub aggregate_func: Seq<char>,
}

impl View for OrderByField {
    type V = OrderFieldV;

    open spec fn view(&self) -> OrderFieldV {
        OrderFieldV {
            field: self.field@,
            asc: self.asc,
            wrapper_func: self.wrapper_func@,
            aggregate_func: self.aggregate_func@,
        }
    }
}

impl DeepView for OrderByField {
    type V = OrderFieldV;

    open spec fn deep_view(&self) -> OrderFieldV {
        self.view()
    }
}

/// Sort direction of an emitted ORDER BY item.
#[derive(Clone, Copy, PartialEq, Eq, Structural, Debug)]
pub enum OrderDir {
    Asc,
    Desc,
}

impl View for OrderDir {
    type V = OrderDir;

    open spec fn view(&self) -> OrderDir {
        *self
    }
}

impl DeepView for OrderDir {
    type V = OrderDir;

    open spec fn deep_view(&self) -> OrderDir {
        *self
    }
}

/// The whitespace characters the ordering grammar skips.
pub open spec fn spec_is_space(c: char) -> bool {
    c == ' ' || c == '\t' || c == '\n' || c == '\r' || c == '\x0b' || c == '\x0c'
}

/// Whether `c` separates two ordering tokens.
pub open spec fn spec_is_sep(c: char) -> bool {
    c == ',' || c == ';'
}

fn is_space(c: char) -> (r: bool)
    ensures
        r == spec_is_space(c),
{
    c == ' ' || c == '\t' || c == '\n' || c == '\r' || c == '\x0b' || c == '\x0c'
}

/// The code point of `c` with an ASCII lower-case letter upper-cased.
pub open spec fn spec_upper_u32(c: char) -> int {
    if 'a' <= c && c <= 'z' {
        (c as u32) - 32
    } else {
        c as u32 as int
    }
}

/// Case-insensitive equality of two ASCII words.
pub open spec fn spec_eq_ci(a: Seq<char>, b: Seq<char>) -> bool {
    a.len() == b.len() && forall|i: int|
        0 <= i < a.len() ==> spec_upper_u32(#[trigger] a[i]) == spec_upper_u32(b[i])
}

/// Case-insensitive comparison of two words.
#[verifier::loop_isolation(false)]
fn eq_ci(a: &str, b: &str) -> (r: bool)
    ensures
        r == spec_eq_ci(a@, b@),
{
    let an = a.unicode_len();
    let bn = b.unicode_len();
    if an != bn {
        return false;
    }
    let mut i: usize = 0;
    while i < an
        invariant
            an == a@.len(),
            bn == b@.len(),
            an == bn,
            i <= an,
            forall|k: int| 0 <= k < i ==> spec_upper_u32(#[trigger] a@[k]) == spec_upper_u32(b@[k]),
        decreases an - i,
    {
        let ca = a.get_char(i);
        let cb = b.get_char(i);
        let ua: u32 = if 'a' <= ca && ca <= 'z' {
            (ca as u32) - 32
        } else {
            ca as u32
        };
        let ub: u32 = if 'a' <= cb && cb <= 'z' {
            (cb as u32) - 32
        } else {
            cb as u32
        };
        if ua != ub {
            return false;
        }
        i = i + 1;
    }
    true
}

/// The end of `s[..e]` with trailing whitespace dropped.
pub open spec fn spec_trim_end(s: Seq<char>, e: int) -> int
    decreases e,
{
    if e <= 0 {
        0
    } else if e > s.len() {
        spec_trim_end(s, s.len() as int)
    } else if spec_is_space(s[e - 1]) {
        spec_trim_end(s, e - 1)
    } else {
        e
    }
}

/// The start of the maximal word-character run ending at `e`.
pub open spec fn spec_word_start(s: Seq<char>, e: int) -> int
    decreases e,
{
    if e <= 0 {
        0
    } else if e > s.len() {
        e
    } else if spec_is_word_char(s[e - 1]) {
        spec_word_start(s, e - 1)
    } else {
        e
    }
}

/// Whether `w` reads `ASC` or `DESC`, case-insensitively.
pub open spec fn spec_is_dir_word(w: Seq<char>) -> bool {
    spec_eq_ci(w, "ASC"@) || spec_eq_ci(w, "DESC"@)
}

/// Parse one separator-free segment: the trailing `<word> [ASC|DESC]`
/// token, if the segment ends in one; anything before it is silently
/// dropped, and a segment with no trailing word yields nothing.
pub open spec fn spec_parse_segment(seg: Seq<char>) -> Seq<(Seq<char>, bool)> {
    let e = spec_trim_end(seg, seg.len() as int);
    if e == 0 || !spec_is_word_char(seg[e - 1]) {
        Seq::empty()
    } else {
        let b = spec_word_start(seg, e);
        let w1 = seg.subrange(b, e);
        if spec_is_dir_word(w1) {
            let e2 = spec_trim_end(seg, b);
            if 0 < e2 && e2 < b && spec_is_word_char(seg[e2 - 1]) {
                let b2 = spec_word_start(seg, e2);
                seq![(seg.subrange(b2, e2), !spec_eq_ci(w1, "DESC"@))]
            } else {
                seq![(w1, true)]
            }
        } else {
            seq![(w1, true)]
        }
    }
}

/// The position of the first separator at or after `k`, or the end.
pub open spec fn spec_find_sep(s: Seq<char>, k: int) -> int
    decreases s.len() - k,
{
    if k < 0 || k >= s.len() {
        s.len() as int
    } else if spec_is_sep(s[k]) {
        k
    } else {
        spec_find_sep(s, k + 1)
    }
}

/// Parse an ordering specification: repeated `<word> [ASC|DESC]` tokens
/// separated by comma, semicolon or end of string; the direction keyword
/// is case-insensitive and defaults to ascending; unrecognized tokens are
/// silently dropped.
pub open spec fn spec_parse_order(s: Seq<char>) -> Seq<(Seq<char>, bool)>
    decreases s.len(),
{
    if s.len() == 0 {
        Seq::empty()
    } else {
        let idx = spec_find_sep(s, 0);
        if 0 <= idx && idx < s.len() {
            spec_parse_segment(s.subrange(0, idx)) + spec_parse_order(s.skip(idx + 1))
        } else {
            spec_parse_segment(s)
        }
    }
}

/// The value configured for `key` in an association list, or empty text.
pub open spec fn spec_lookup(tbl: Seq<(Seq<char>, Seq<char>)>, key: Seq<char>) -> Seq<char>
    decreases tbl.len(),
{
    if tbl.len() == 0 {
        Seq::empty()
    } else if tbl[0].0 == key {
        tbl[0].1
    } else {
        spec_lookup(tbl.drop_first(), key)
    }
}

/// The ordering fields a specification parses to, each carrying the
/// wrapper and aggregate function configured for its column.
pub open spec fn spec_order_fields(
    s: Seq<char>,
    wrappers: Seq<(Seq<char>, Seq<char>)>,
    aggregates: Seq<(Seq<char>, Seq<char>)>,
) -> Seq<OrderFieldV> {
    spec_parse_order(s).map_values(
        |t: (Seq<char>, bool)|
            OrderFieldV {
                field: t.0,
                asc: t.1,
                wrapper_func: spec_lookup(wrappers, t.0),
                aggregate_func: spec_lookup(aggregates, t.0),
            },
    )
}

proof fn lemma_lookup_at(tbl: Seq<(Seq<char>, Seq<char>)>, key: Seq<char>, k: int)
    requires
        0 <= k <= tbl.len(),
        forall|m: int| 0 <= m < k ==> (#[trigger] tbl[m]).0 != key,
    ensures
        k < tbl.len() && tbl[k].0 == key ==> spec_lookup(tbl, key) == tbl[k].1,
        k == tbl.len() ==> spec_lookup(tbl, key) == Seq::<char>::empty(),
    decreases k,
{
    if k == 0 {
        if 0 < tbl.len() && tbl[0].0 == key {
        }
    } else {
        assert(tbl[0].0 != key);
        assert(forall|m: int| 0 <= m < k - 1 ==> (#[trigger] tbl.drop_first()[m]) == tbl[m + 1]);
        lemma_lookup_at(tbl.drop_first(), key, k - 1);
        if k < tbl.len() && tbl[k].0 == key {
            assert(tbl.drop_first()[k - 1] == tbl[k]);
        }
    }
}

/// The table an optional association list stands for.
pub open spec fn spec_opt_tbl(tbl: Option<&Vec<(String, String)>>) -> Seq<(Seq<char>, Seq<char>)> {
    match tbl {
        Some(t) => t.deep_view(),
        None => Seq::empty(),
    }
}

/// Parse one separator-free segment.
#[verifier::loop_isolation(false)]
fn parse_segment(
    seg: &str,
    wrappers: Option<&Vec<(String, String)>>,
    aggregates: Option<&Vec<(String, String)>>,
) -> (r: Option<OrderByField>)
    ensures
        ({
            let expect = spec_parse_segment(seg@).map_values(
                |t: (Seq<char>, bool)|
                    OrderFieldV {
                        field: t.0,
                        asc: t.1,
                        wrapper_func: spec_lookup(spec_opt_tbl(wrappers), t.0),
                        aggregate_func: spec_lookup(spec_opt_tbl(aggregates), t.0),
                    },
            );
            match r {
                Some(f) => expect =~= seq![f@],
                None => expect =~= Seq::<OrderFieldV>::empty(),
            }
        }),
{
    let len = seg.unicode_len();
    // Drop trailing whitespace.
    let mut e: usize = len;
    while e > 0 && is_space(seg.get_char(e - 1))
        invariant
            e <= len,
            len == seg@.len(),
            spec_trim_end(seg@, len as int) == spec_trim_end(seg@, e as int),
        decreases e,
    {
        e = e - 1;
    }
    proof {
        assert(spec_trim_end(seg@, e as int) == e as int);
    }
    if e == 0 {
        return None;
    }
    if !is_word_char(seg.get_char(e - 1)) {
        return None;
    }
    // The trailing word.
    let mut b: usize = e;
    while b > 0 && is_word_char(seg.get_char(b - 1))
        invariant
            b <= e,
            e <= len,
            len == seg@.len(),
            spec_word_start(seg@, e as int) == spec_word_start(seg@, b as int),
        decreases b,
    {
        b = b - 1;
    }
    proof {
        assert(spec_word_start(seg@, b as int) == b as int);
    }
    let w1 = seg.substring_char(b, e);
    proof {
        assert(w1@ =~= seg@.subrange(b as int, e as int));
    }
    let is_dir = eq_ci(w1, "ASC") || eq_ci(w1, "DESC");
    let mut field: String;
    let mut asc = true;
    if is_dir {
        // Whitespace, then possibly the word the direction applies to.
        let mut e2: usize = b;
        while e2 > 0 && is_space(seg.get_char(e2 - 1))
            invariant
                e2 <= b,
                b <= len,
                len == seg@.len(),
                spec_trim_end(seg@, b as int) == spec_trim_end(seg@, e2 as int),
            decreases e2,
        {
            e2 = e2 - 1;
        }
        proof {
            assert(spec_trim_end(seg@, e2 as int) == e2 as int);
        }
        if e2 > 0 && e2 < b && is_word_char(seg.get_char(e2 - 1)) {
            let mut b2: usize = e2;
            while b2 > 0 && is_word_char(seg.get_char(b2 - 1))
                invariant
                    b2 <= e2,
                    e2 <= len,
                    len == seg@.len(),
                    spec_word_start(seg@, e2 as int) == spec_word_start(seg@, b2 as int),
                decreases b2,
            {
                b2 = b2 - 1;
            }
            proof {
                assert(spec_word_start(seg@, b2 as int) == b2 as int);
            }
            field = seg.substring_char(b2, e2).to_owned();
            proof {
                assert(field@ =~= seg@.subrange(b2 as int, e2 as int));
            }
            asc = !eq_ci(w1, "DESC");
        } else {
            field = w1.to_owned();
        }
    } else {
        field = w1.to_owned();
    }
    let wrapper_func = lookup_func(wrappers, field.as_str());
    let aggregate_func = lookup_func(aggregates, field.as_str());
    Some(OrderByField { field, asc, wrapper_func, aggregate_func })
}

/// Builds keyset-pagination fragments for one entity: parsed ordering
/// fields, an id column, and the entity's (table's) name.
#[derive(Debug)]
pub struct OrderByHelper {
    entity: String,
    id_field: String,
    order_by: Vec<OrderByField>,
}

/// Mathematical model of an [`OrderByHelper`].
pub struct OrderHelperV {
    pub entity: Seq<char>,
    pub id_field: Seq<char>,
    pub order_by: Seq<OrderFieldV>,
}

impl View for OrderByHelper {
    type V = OrderHelperV;

    closed spec fn view(&self) -> OrderHelperV {
        OrderHelperV {
            entity: self.entity@,
            id_field: self.id_field@,
            order_by: self.order_by.deep_view(),
        }
    }
}

impl OrderByHelper {
    /// A helper for the table named `entity`, with no id column and no
    /// ordering fields yet.
    pub fn new(entity: &str) -> (r: OrderByHelper)
        ensures
            r@.entity == entity@,
            r@.id_field.len() == 0,
            r@.order_by.len() == 0,
    {
        let r = OrderByHelper {
            entity: String::from_str(entity),
            id_field: String::new(),
            order_by: Vec::new(),
        };
        proof {
            assert(r@.order_by =~= Seq::<OrderFieldV>::empty());
        }
        r
    }

    /// Set the column the distinguishing id predicate is built over.
    pub fn set_id_field(&mut self, id_field: &str)
        ensures
            final(self)@.entity == old(self)@.entity,
            final(self)@.id_field == id_field@,
            final(self)@.order_by == old(self)@.order_by,
    {
        self.id_field = String::from_str(id_field);
    }

    /// Parse an ordering specification into this helper's ordering fields,
    /// replacing any previous ones; `None` just clears them.
    ///
    /// Each field carries the wrapper and aggregate function configured
    /// for it in the given tables.
    #[verifier::loop_isolation(false)]
    pub fn set_order_by(
        &mut self,
        order_by: Option<&str>,
        wrapper_funcs: Option<&Vec<(String, String)>>,
        aggregate_funcs: Option<&Vec<(String, String)>>,
    )
        ensures
            final(self)@.entity == old(self)@.entity,
            final(self)@.id_field == old(self)@.id_field,
            final(self)@.order_by == match order_by {
                Some(s) => spec_order_fields(
                    s@,
                    spec_opt_tbl(wrapper_funcs),
                    spec_opt_tbl(aggregate_funcs),
                ),
                None => Seq::<OrderFieldV>::empty(),
            },
    {
        self.order_by = Vec::new();
        proof {
            assert(self.order_by.deep_view() =~= Seq::<OrderFieldV>::empty());
        }
        let s = match order_by {
            Some(s) => s,
            None => {
                return ;
            },
        };
        let ghost wv = spec_opt_tbl(wrapper_funcs);
        let ghost av = spec_opt_tbl(aggregate_funcs);
        let ghost fmap = |t: (Seq<char>, bool)|
            OrderFieldV {
                field: t.0,
                asc: t.1,
                wrapper_func: spec_lookup(wv, t.0),
                aggregate_func: spec_lookup(av, t.0),
            };
        let n = s.unicode_len();
        let mut pos: usize = 0;
        proof {
            assert(s@.skip(0) =~= s@);
            assert(self.order_by.deep_view() + spec_parse_order(s@).map_values(fmap)
                =~= spec_parse_order(s@).map_values(fmap));
        }
        while pos < n
            invariant
                n == s@.len(),
                pos <= n,
                self@.entity == old(self)@.entity,
                self@.id_field == old(self)@.id_field,
                self.order_by.deep_view() + spec_parse_order(s@.skip(pos as int)).map_values(fmap)
                    =~= spec_parse_order(s@).map_values(fmap),
            decreases n - pos,
        {
            let ghost rem = s@.skip(pos as int);
            // Find the end of this segment.
            let mut q: usize = pos;
            while q < n && !(s.get_char(q) == ',' || s.get_char(q) == ';')
                invariant
                    pos <= q <= n,
                    spec_find_sep(rem, 0) == spec_find_sep(rem, q - pos),
                decreases n - q,
            {
                proof {
                    assert(rem[q - pos] == s@[q as int]);
                }
                q = q + 1;
            }
            proof {
                if q < n {
                    assert(rem[q - pos] == s@[q as int]);
                    assert(spec_find_sep(rem, q - pos) == q - pos);
                } else {
                    assert(spec_find_sep(rem, q - pos) == rem.len() as int);
                }
            }
            let seg = s.substring_char(pos, q);
            proof {
                assert(seg@ =~= s@.subrange(pos as int, q as int));
                assert(rem.subrange(0, q - pos) =~= seg@);
            }
            let ghost prev = self.order_by.deep_view();
            match parse_segment(seg, wrapper_funcs, aggregate_funcs) {
                Some(f) => {
                    let ghost fv = f@;
                    self.order_by.push(f);
                    proof {
                        assert(self.order_by.deep_view() =~= prev.push(fv));
                    }
                },
                None => {},
            }
            let ghost newpos: int = if q < n {
                q + 1
            } else {
                n as int
            };
            proof {
                let pseg = spec_parse_segment(seg@).map_values(fmap);
                if q < n {
                    assert(rem.skip(q - pos + 1) =~= s@.skip(newpos));
                    assert(spec_parse_order(rem) == spec_parse_segment(rem.subrange(0, q - pos))
                        + spec_parse_order(rem.skip(q - pos + 1)));
                    assert(spec_parse_order(rem).map_values(fmap) =~= pseg + spec_parse_order(
                        s@.skip(newpos),
                    ).map_values(fmap));
                } else {
                    assert(rem.subrange(0, rem.len() as int) =~= rem);
                    assert(spec_parse_order(rem) == spec_parse_segment(rem));
                    assert(s@.skip(newpos) =~= Seq::<char>::empty());
                    assert(spec_parse_order(s@.skip(newpos)).map_values(fmap) =~= Seq::<
                        OrderFieldV,
                    >::empty());
                    assert(spec_parse_order(rem).map_values(fmap) =~= pseg + spec_parse_order(
                        s@.skip(newpos),
                    ).map_values(fmap));
                }
                assert(self.order_by.deep_view() + spec_parse_order(s@.skip(newpos)).map_values(
                    fmap,
                ) =~= spec_parse_order(s@).map_values(fmap));
            }
            if q < n {
                pos = q + 1;
            } else {
                pos = n;
            }
        }
        proof {
            assert(s@.skip(n as int) =~= Seq::<char>::empty());
            assert(spec_parse_order(Seq::<char>::empty()).map_values(fmap)
                =~= Seq::<OrderFieldV>::empty());
            assert(self.order_by.deep_view() =~= spec_parse_order(s@).map_values(fmap));
            assert(spec_parse_order(s@).map_values(fmap) =~= spec_order_fields(s@, wv, av));
        }
    }
}

/// Whether `name` is one of the entity's columns.
pub open spec fn spec_has_column(columns: Seq<Seq<char>>, name: Seq<char>) -> bool {
    exists|i: int| 0 <= i < columns.len() && columns[i] == name
}

/// The cursor's value for `name`: the first entry so named, unless it is
/// null — a null or absent cursor value never yields a predicate.
pub open spec fn spec_cursor_get(cursor: Seq<(Seq<char>, ValV)>, name: Seq<char>) -> Option<ValV>
    decreases cursor.len(),
{
    if cursor.len() == 0 {
        None
    } else if cursor[0].0 == name {
        if cursor[0].1 is Null {
            None
        } else {
            Some(cursor[0].1)
        }
    } else {
        spec_cursor_get(cursor.drop_first(), name)
    }
}

/// The start of the text after the last `.` in `s[..e]` (0 when there is
/// no dot): an id field may be qualified, and only its last component
/// names the column.
pub open spec fn spec_dot_start(s: Seq<char>, e: int) -> int
    decreases e,
{
    if e <= 0 {
        0
    } else if e > s.len() {
        spec_dot_start(s, s.len() as int)
    } else if s[e - 1] == '.' {
        e
    } else {
        spec_dot_start(s, e - 1)
    }
}

/// The column the id predicate is built over: the id field's last
/// dot-separated component.
pub open spec fn spec_id_column(id_field: Seq<char>) -> Seq<char> {
    id_field.subrange(spec_dot_start(id_field, id_field.len() as int), id_field.len() as int)
}

/// The function wrappers of an operand: the single configured function, or
/// none.
pub open spec fn spec_wrap1(w: Seq<char>) -> Seq<Seq<char>> {
    if w.len() == 0 {
        Seq::empty()
    } else {
        seq![w]
    }
}

/// The inequality predicates over the primary-key columns that have a
/// cursor value.
pub open spec fn spec_pk_filters(
    entity: Seq<char>,
    pks: Seq<Seq<char>>,
    cursor: Seq<(Seq<char>, ValV)>,
) -> Seq<PredicateV>
    decreases pks.len(),
{
    if pks.len() == 0 {
        Seq::empty()
    } else {
        (match spec_cursor_get(cursor, pks[0]) {
            Some(v) => seq![
                PredicateV {
                    op: SqlCmp::Ne,
                    lhs: OperandV { atom: AtomV::Column(entity, pks[0]), funcs: Seq::empty() },
                    rhs: OperandV { atom: AtomV::Value(v), funcs: Seq::empty() },
                },
            ],
            None => Seq::empty(),
        }) + spec_pk_filters(entity, pks.drop_first(), cursor)
    }
}

/// The predicates that exclude the cursor row: `id <> cursor.id` when the
/// id column resolves and has a cursor value; otherwise inequality over
/// the full primary-key column set.
pub open spec fn spec_id_filters(
    h: OrderHelperV,
    columns: Seq<Seq<char>>,
    pks: Seq<Seq<char>>,
    cursor: Seq<(Seq<char>, ValV)>,
) -> Seq<PredicateV> {
    let idcol = spec_id_column(h.id_field);
    if spec_has_column(columns, idcol) {
        match spec_cursor_get(cursor, idcol) {
            Some(v) => seq![
                PredicateV {
                    op: SqlCmp::Ne,
                    lhs: OperandV { atom: AtomV::Column(h.entity, idcol), funcs: Seq::empty() },
                    rhs: OperandV { atom: AtomV::Value(v), funcs: Seq::empty() },
                },
            ],
            None => Seq::empty(),
        }
    } else {
        spec_pk_filters(h.entity, pks, cursor)
    }
}

/// The seek predicates of the ordering fields: for each field that names a
/// real column and has a non-null cursor value, `wrapper(field) >=
/// wrapper(value)` when ascending, `<=` when descending — the same wrapper
/// on both sides preserves monotonicity in the transformed space.
pub open spec fn spec_field_filters(
    entity: Seq<char>,
    fields: Seq<OrderFieldV>,
    columns: Seq<Seq<char>>,
    cursor: Seq<(Seq<char>, ValV)>,
) -> Seq<PredicateV>
    decreases fields.len(),
{
    if fields.len() == 0 {
        Seq::empty()
    } else {
        let f = fields[0];
        (if spec_has_column(columns, f.field) {
            match spec_cursor_get(cursor, f.field) {
                Some(v) => seq![
                    PredicateV {
                        op: if f.asc {
                            SqlCmp::Ge
                        } else {
                            SqlCmp::Le
                        },
                        lhs: OperandV {
                            atom: AtomV::Column(entity, f.field),
                            funcs: spec_wrap1(f.wrapper_func),
                        },
                        rhs: OperandV {
                            atom: AtomV::Value(v),
                            funcs: spec_wrap1(f.wrapper_func),
                        },
                    },
                ],
                None => Seq::empty(),
            }
        } else {
            Seq::empty()
        }) + spec_field_filters(entity, fields.drop_first(), columns, cursor)
    }
}

/// All seek predicates for a cursor: the id predicates, then one per
/// ordering field. No cursor means no predicates.
pub open spec fn spec_build_filters(
    h: OrderHelperV,
    columns: Seq<Seq<char>>,
    pks: Seq<Seq<char>>,
    cursor: Option<Seq<(Seq<char>, ValV)>>,
) -> Seq<PredicateV> {
    match cursor {
        None => Seq::empty(),
        Some(c) => spec_id_filters(h, columns, pks, c) + spec_field_filters(
            h.entity,
            h.order_by,
            columns,
            c,
        ),
    }
}

/// The ORDER BY items: each ordering field naming a real column, wrapped
/// by its wrapper then its aggregate function, with its direction, in
/// input order.
pub open spec fn spec_order_items(
    entity: Seq<char>,
    fields: Seq<OrderFieldV>,
    columns: Seq<Seq<char>>,
) -> Seq<(OperandV, OrderDir)>
    decreases fields.len(),
{
    if fields.len() == 0 {
        Seq::empty()
    } else {
        let f = fields[0];
        (if spec_has_column(columns, f.field) {
            seq![
                (
                    OperandV {
                        atom: AtomV::Column(entity, f.field),
                        funcs: spec_wrap1(f.wrapper_func) + spec_wrap1(f.aggregate_func),
                    },
                    if f.asc {
                        OrderDir::Asc
                    } else {
                        OrderDir::Desc
                    },
                ),
            ]
        } else {
            Seq::empty()
        }) + spec_order_items(entity, fields.drop_first(), columns)
    }
}

/// Keyset monotonicity: every predicate an ordering field emits compares
/// the field, ascending with `>=` and descending with `<=`, and applies
/// the same wrapper to both sides; its right-hand side is the field's
/// cursor value.
pub proof fn lemma_keyset_monotonicity(
    entity: Seq<char>,
    fields: Seq<OrderFieldV>,
    columns: Seq<Seq<char>>,
    cursor: Seq<(Seq<char>, ValV)>,
)
    ensures
        forall|j: int|
            0 <= j < spec_field_filters(entity, fields, columns, cursor).len() ==> {
                let p = #[trigger] spec_field_filters(entity, fields, columns, cursor)[j];
                exists|k: int|
                    0 <= k < fields.len() && {
                        let f = #[trigger] fields[k];
                        &&& p.op == if f.asc {
                            SqlCmp::Ge
                        } else {
                            SqlCmp::Le
                        }
                        &&& p.lhs.atom == AtomV::Column(entity, f.field)
                        &&& p.rhs.atom == AtomV::Value(spec_cursor_get(cursor, f.field)->Some_0)
                        &&& p.lhs.funcs == p.rhs.funcs
                    }
            },
    decreases fields.len(),
{
    if fields.len() > 0 {
        lemma_keyset_monotonicity(entity, fields.drop_first(), columns, cursor);
        let r = spec_field_filters(entity, fields, columns, cursor);
        let rest = spec_field_filters(entity, fields.drop_first(), columns, cursor);
        assert forall|j: int| 0 <= j < r.len() implies {
            let p = #[trigger] r[j];
            exists|k: int|
                0 <= k < fields.len() && {
                    let f = #[trigger] fields[k];
                    &&& p.op == if f.asc {
                        SqlCmp::Ge
                    } else {
                        SqlCmp::Le
                    }
                    &&& p.lhs.atom == AtomV::Column(entity, f.field)
                    &&& p.rhs.atom == AtomV::Value(spec_cursor_get(cursor, f.field)->Some_0)
                    &&& p.lhs.funcs == p.rhs.funcs
                }
        } by {
            let head_len = r.len() - rest.len();
            if j < head_len {
                assert(fields[0] == fields[0]);
            } else {
                let p = r[j];
                assert(p == rest[j - head_len]);
                let k0 = choose|k: int|
                    0 <= k < fields.drop_first().len() && {
                        let f = #[trigger] fields.drop_first()[k];
                        &&& p.op == if f.asc {
                            SqlCmp::Ge
                        } else {
                            SqlCmp::Le
                        }
                        &&& p.lhs.atom == AtomV::Column(entity, f.field)
                        &&& p.rhs.atom == AtomV::Value(spec_cursor_get(cursor, f.field)->Some_0)
                        &&& p.lhs.funcs == p.rhs.funcs
                    };
                assert(fields.drop_first()[k0] == fields[k0 + 1]);
            }
        }
    }
}

/// The id predicates always compare with `<>`, whatever the ordering
/// directions are.
pub proof fn lemma_id_filters_ne(
    h: OrderHelperV,
    columns: Seq<Seq<char>>,
    pks: Seq<Seq<char>>,
    cursor: Seq<(Seq<char>, ValV)>,
)
    ensures
        forall|j: int|
            0 <= j < spec_id_filters(h, columns, pks, cursor).len() ==> (#[trigger] spec_id_filters(
                h,
                columns,
                pks,
                cursor,
            )[j]).op == SqlCmp::Ne,
{
    lemma_pk_filters_ne(h.entity, pks, cursor);
}

proof fn lemma_pk_filters_ne(entity: Seq<char>, pks: Seq<Seq<char>>, cursor: Seq<(Seq<char>, ValV)>)
    ensures
        forall|j: int|
            0 <= j < spec_pk_filters(entity, pks, cursor).len() ==> (#[trigger] spec_pk_filters(
                entity,
                pks,
                cursor,
            )[j]).op == SqlCmp::Ne,
    decreases pks.len(),
{
    if pks.len() > 0 {
        lemma_pk_filters_ne(entity, pks.drop_first(), cursor);
    }
}

/// Whether `name` is one of the listed columns.
#[verifier::loop_isolation(false)]
fn has_column(columns: &Vec<String>, name: &str) -> (r: bool)
    ensures
        r == spec_has_column(columns.deep_view(), name@),
{
    let n = columns.len();
    let mut k: usize = 0;
    while k < n
        invariant
            n == columns@.len(),
            k <= n,
            forall|m: int| 0 <= m < k ==> (#[trigger] columns.deep_view()[m]) != name@,
        decreases n - k,
    {
        proof {
            assert(columns.deep_view()[k as int] == columns@[k as int]@);
        }
        if str_eq(columns[k].as_str(), name) {
            return true;
        }
        k = k + 1;
    }
    false
}

proof fn lemma_cursor_get_at(cursor: Seq<(Seq<char>, ValV)>, name: Seq<char>, k: int)
    requires
        0 <= k <= cursor.len(),
        forall|m: int| 0 <= m < k ==> (#[trigger] cursor[m]).0 != name,
    ensures
        k < cursor.len() && cursor[k].0 == name ==> spec_cursor_get(cursor, name) == (if cursor[k].1
            is Null {
            None
        } else {
            Some(cursor[k].1)
        }),
        k == cursor.len() ==> spec_cursor_get(cursor, name) is None,
    decreases k,
{
    if k == 0 {
    } else {
        assert(cursor[0].0 != name);
        assert(forall|m: int|
            0 <= m < k - 1 ==> (#[trigger] cursor.drop_first()[m]) == cursor[m + 1]);
        lemma_cursor_get_at(cursor.drop_first(), name, k - 1);
        if k < cursor.len() && cursor[k].0 == name {
            assert(cursor.drop_first()[k - 1] == cursor[k]);
        }
    }
}

/// The cursor's value for `name`, unless it is null or absent.
#[verifier::loop_isolation(false)]
fn cursor_get(cursor: &Vec<(String, SqlValue)>, name: &str) -> (r: Option<SqlValue>)
    ensures
        match r {
            Some(v) => spec_cursor_get(cursor.deep_view(), name@) == Some(v@),
            None => spec_cursor_get(cursor.deep_view(), name@) is None,
        },
{
    let n = cursor.len();
    let mut k: usize = 0;
    while k < n
        invariant
            n == cursor@.len(),
            k <= n,
            forall|m: int| 0 <= m < k ==> (#[trigger] cursor.deep_view()[m]).0 != name@,
        decreases n - k,
    {
        proof {
            assert(cursor.deep_view()[k as int] == cursor@[k as int].deep_view());
        }
        if str_eq(cursor[k].0.as_str(), name) {
            proof {
                lemma_cursor_get_at(cursor.deep_view(), name@, k as int);
            }
            match &cursor[k].1 {
                SqlValue::Null => {
                    return None;
                },
                v => {
                    return Some(v.clone());
                },
            }
        }
        k = k + 1;
    }
    proof {
        lemma_cursor_get_at(cursor.deep_view(), name@, n as int);
    }
    None
}

/// The cursor an optional cursor argument stands for.
pub open spec fn spec_opt_cursor(cursor: Option<&Vec<(String, SqlValue)>>) -> Option<
    Seq<(Seq<char>, ValV)>,
> {
    match cursor {
        Some(c) => Some(c.deep_view()),
        None => None,
    }
}

impl OrderByHelper {
    /// The column the id predicate is built over: the id field's last
    /// dot-separated component.
    #[verifier::loop_isolation(false)]
    fn id_column(&self) -> (r: String)
        ensures
            r@ == spec_id_column(self@.id_field),
    {
        let n = self.id_field.as_str().unicode_len();
        let mut b: usize = n;
        while b > 0 && !(self.id_field.as_str().get_char(b - 1) == '.')
            invariant
                b <= n,
            n == self.id_field@.len(),
            spec_dot_start(self.id_field@, n as int) == spec_dot_start(self.id_field@, b as int),
        decreases b,
    {
        b = b - 1;
    }
        proof {
            assert(spec_dot_start(self.id_field@, b as int) == b as int);
        }
        self.id_field.as_str().substring_char(b, n).to_owned()
    }

    /// Build the seek predicates for a cursor: the distinguishing id
    /// predicate (or the primary-key fallback), then one predicate per
    /// ordering field with a non-null cursor value.
    ///
    /// `columns` enumerates the entity's real columns: a field naming no
    /// real column is silently dropped. `pk_columns` is the primary-key
    /// set the id predicate falls back to.
    #[verifier::loop_isolation(false)]
    pub fn build_filters(
        &self,
        columns: &Vec<String>,
        pk_columns: &Vec<String>,
        cursor: Option<&Vec<(String, SqlValue)>>,
    ) -> (r: Vec<SqlPredicate>)
        ensures
            r.deep_view() == spec_build_filters(
                self@,
                columns.deep_view(),
                pk_columns.deep_view(),
                spec_opt_cursor(cursor),
            ),
    {
        let mut r: Vec<SqlPredicate> = Vec::new();
        proof {
            assert(r.deep_view() =~= Seq::<PredicateV>::empty());
        }
        let cursor = match cursor {
            Some(c) => c,
            None => {
                return r;
            },
        };
        let ghost cv = cursor.deep_view();
        // The predicate excluding the cursor row itself.
        let idcol = self.id_column();
        if has_column(columns, idcol.as_str()) {
            match cursor_get(cursor, idcol.as_str()) {
                Some(v) => {
                    let ghost vv = v@;
                    let lhs = SqlOperand::column(self.entity.as_str(), idcol.as_str());
                    let rhs = SqlOperand::value(v);
                    r.push(SqlPredicate { op: SqlCmp::Ne, lhs, rhs });
                    proof {
                        assert(r.deep_view() =~= spec_id_filters(
                            self@,
                            columns.deep_view(),
                            pk_columns.deep_view(),
                            cv,
                        ));
                    }
                },
                None => {
                    proof {
                        assert(r.deep_view() =~= spec_id_filters(
                            self@,
                            columns.deep_view(),
                            pk_columns.deep_view(),
                            cv,
                        ));
                    }
                },
            }
        } else {
            // Fall back to the full primary-key column set.
            let pn = pk_columns.len();
            let mut k: usize = 0;
            proof {
                assert(pk_columns.deep_view().skip(0) =~= pk_columns.deep_view());
                assert(r.deep_view() + spec_pk_filters(self@.entity, pk_columns.deep_view(), cv)
                    =~= spec_pk_filters(self@.entity, pk_columns.deep_view(), cv));
            }
            while k < pn
                invariant
                    pn == pk_columns@.len(),
                    k <= pn,
                    r.deep_view() + spec_pk_filters(
                        self@.entity,
                        pk_columns.deep_view().skip(k as int),
                        cv,
                    ) =~= spec_pk_filters(self@.entity, pk_columns.deep_view(), cv),
                decreases pn - k,
            {
                let ghost pks_rest = pk_columns.deep_view().skip(k as int);
                proof {
                    assert(pks_rest[0] == pk_columns.deep_view()[k as int]);
                    assert(pk_columns.deep_view()[k as int] == pk_columns@[k as int]@);
                    assert(pks_rest.drop_first() =~= pk_columns.deep_view().skip(k + 1));
                }
                let ghost prev = r.deep_view();
                match cursor_get(cursor, pk_columns[k].as_str()) {
                    Some(v) => {
                        let ghost vv = v@;
                        let lhs = SqlOperand::column(self.entity.as_str(), pk_columns[k].as_str());
                        let rhs = SqlOperand::value(v);
                        r.push(SqlPredicate { op: SqlCmp::Ne, lhs, rhs });
                        proof {
                            assert(r.deep_view() =~= prev + spec_pk_filters(
                                self@.entity,
                                pks_rest,
                                cv,
                            ).take(1));
                            assert(r.deep_view() + spec_pk_filters(
                                self@.entity,
                                pk_columns.deep_view().skip(k + 1),
                                cv,
                            ) =~= spec_pk_filters(self@.entity, pk_columns.deep_view(), cv));
                        }
                    },
                    None => {
                        proof {
                            assert(r.deep_view() + spec_pk_filters(
                                self@.entity,
                                pk_columns.deep_view().skip(k + 1),
                                cv,
                            ) =~= spec_pk_filters(self@.entity, pk_columns.deep_view(), cv));
                        }
                    },
                }
                k = k + 1;
            }
            proof {
                assert(pk_columns.deep_view().skip(pn as int) =~= Seq::<Seq<char>>::empty());
                assert(r.deep_view() =~= spec_id_filters(
                    self@,
                    columns.deep_view(),
                    pk_columns.deep_view(),
                    cv,
                ));
            }
        }
        let ghost id_part = r.deep_view();
        let ghost colv = columns.deep_view();
        // One seek predicate per ordering field.
        let fcount = self.order_by.len();
        let mut k: usize = 0;
        proof {
            assert(self@.order_by.skip(0) =~= self@.order_by);
        }
        while k < fcount
            invariant
                fcount == self.order_by@.len(),
                k <= fcount,
                r.deep_view() + spec_field_filters(
                    self@.entity,
                    self@.order_by.skip(k as int),
                    colv,
                    cv,
                ) =~= id_part + spec_field_filters(self@.entity, self@.order_by, colv, cv),
            decreases fcount - k,
        {
            let ghost frest = self@.order_by.skip(k as int);
            proof {
                assert(frest[0] == self@.order_by[k as int]);
                assert(self@.order_by[k as int] == self.order_by@[k as int]@);
                assert(frest.drop_first() =~= self@.order_by.skip(k + 1));
            }
            let ghost prev = r.deep_view();
            let f = &self.order_by[k];
            if has_column(columns, f.field.as_str()) {
                match cursor_get(cursor, f.field.as_str()) {
                    Some(v) => {
                        let ghost vv = v@;
                        let mut lhs = SqlOperand::column(self.entity.as_str(), f.field.as_str());
                        let mut rhs = SqlOperand::value(v);
                        if !f.wrapper_func.as_str().is_empty() {
                            lhs.wrap(f.wrapper_func.as_str());
                            rhs.wrap(f.wrapper_func.as_str());
                        }
                        proof {
                            assert(lhs@.funcs =~= spec_wrap1(frest[0].wrapper_func));
                            assert(rhs@.funcs =~= spec_wrap1(frest[0].wrapper_func));
                        }
                        let op = if f.asc {
                            SqlCmp::Ge
                        } else {
                            SqlCmp::Le
                        };
                        r.push(SqlPredicate { op, lhs, rhs });
                        proof {
                            assert(r.deep_view() =~= prev + spec_field_filters(
                                self@.entity,
                                frest,
                                colv,
                                cv,
                            ).take(1));
                            assert(r.deep_view() + spec_field_filters(
                                self@.entity,
                                self@.order_by.skip(k + 1),
                                colv,
                                cv,
                            ) =~= id_part + spec_field_filters(self@.entity, self@.order_by, colv, cv));
                        }
                    },
                    None => {
                        proof {
                            assert(r.deep_view() + spec_field_filters(
                                self@.entity,
                                self@.order_by.skip(k + 1),
                                colv,
                                cv,
                            ) =~= id_part + spec_field_filters(self@.entity, self@.order_by, colv, cv));
                        }
                    },
                }
            } else {
                proof {
                    assert(r.deep_view() + spec_field_filters(
                        self@.entity,
                        self@.order_by.skip(k + 1),
                        colv,
                        cv,
                    ) =~= id_part + spec_field_filters(self@.entity, self@.order_by, colv, cv));
                }
            }
            k = k + 1;
        }
        proof {
            assert(self@.order_by.skip(fcount as int) =~= Seq::<OrderFieldV>::empty());
            assert(r.deep_view() =~= id_part + spec_field_filters(
                self@.entity,
                self@.order_by,
                colv,
                cv,
            ));
        }
        r
    }

    /// Build the ORDER BY items: each ordering field naming a real column,
    /// wrapped by its wrapper then its aggregate function, with its
    /// direction, in input order.
    #[verifier::loop_isolation(false)]
    pub fn build_order_by(&self, columns: &Vec<String>) -> (r: Vec<(SqlOperand, OrderDir)>)
        ensures
            r.deep_view() == spec_order_items(self@.entity, self@.order_by, columns.deep_view()),
    {
        let ghost colv = columns.deep_view();
        let mut r: Vec<(SqlOperand, OrderDir)> = Vec::new();
        let fcount = self.order_by.len();
        let mut k: usize = 0;
        proof {
            assert(r.deep_view() =~= Seq::<(OperandV, OrderDir)>::empty());
            assert(self@.order_by.skip(0) =~= self@.order_by);
        }
        while k < fcount
            invariant
                fcount == self.order_by@.len(),
                k <= fcount,
                r.deep_view() + spec_order_items(self@.entity, self@.order_by.skip(k as int), colv)
                    =~= spec_order_items(self@.entity, self@.order_by, colv),
            decreases fcount - k,
        {
            let ghost frest = self@.order_by.skip(k as int);
            proof {
                assert(frest[0] == self@.order_by[k as int]);
                assert(self@.order_by[k as int] == self.order_by@[k as int]@);
                assert(frest.drop_first() =~= self@.order_by.skip(k + 1));
            }
            let ghost prev = r.deep_view();
            let f = &self.order_by[k];
            if has_column(columns, f.field.as_str()) {
                let mut operand = SqlOperand::column(self.entity.as_str(), f.field.as_str());
                if !f.wrapper_func.as_str().is_empty() {
                    operand.wrap(f.wrapper_func.as_str());
                }
                if !f.aggregate_func.as_str().is_empty() {
                    operand.wrap(f.aggregate_func.as_str());
                }
                proof {
                    assert(operand@.funcs =~= spec_wrap1(frest[0].wrapper_func) + spec_wrap1(
                        frest[0].aggregate_func,
                    ));
                }
                let dir = if f.asc {
                    OrderDir::Asc
                } else {
                    OrderDir::Desc
                };
                r.push((operand, dir));
                proof {
                    assert(r.deep_view() =~= prev + spec_order_items(
                        self@.entity,
                        frest,
                        colv,
                    ).take(1));
                    assert(r.deep_view() + spec_order_items(
                        self@.entity,
                        self@.order_by.skip(k + 1),
                        colv,
                    ) =~= spec_order_items(self@.entity, self@.order_by, colv));
                }
            } else {
                proof {
                    assert(r.deep_view() + spec_order_items(
                        self@.entity,
                        self@.order_by.skip(k + 1),
                        colv,
                    ) =~= spec_order_items(self@.entity, self@.order_by, colv));
                }
            }
            k = k + 1;
        }
        proof {
            assert(self@.order_by.skip(fcount as int) =~= Seq::<OrderFieldV>::empty());
            assert(r.deep_view() =~= spec_order_items(self@.entity, self@.order_by, colv));
        }
        r
    }
}

/// The number of values a predicate renders into placeholders.
pub open spec fn spec_pred_arity(p: PredicateV) -> int {
    spec_atom_arity(p.lhs.atom) + spec_atom_arity(p.rhs.atom)
}

/// The literal SQL the predicates emit: ` AND ` before each, placeholders
/// numbered from `no` on.
pub open spec fn spec_filters_sql(backend: DbBackend, preds: Seq<PredicateV>, no: int) -> Seq<char>
    decreases preds.len(),
{
    if preds.len() == 0 {
        Seq::empty()
    } else {
        " AND "@ + spec_predicate_text(backend, preds[0], no) + spec_filters_sql(
            backend,
            preds.drop_first(),
            no + spec_pred_arity(preds[0]),
        )
    }
}

/// The values the predicates collect, left to right.
pub open spec fn spec_preds_values(preds: Seq<PredicateV>) -> Seq<ValV>
    decreases preds.len(),
{
    if preds.len() == 0 {
        Seq::empty()
    } else {
        spec_predicate_values(preds[0]) + spec_preds_values(preds.drop_first())
    }
}

/// The literal SQL the ORDER BY items emit: ` ORDER BY ` before the first,
/// `, ` before the rest, each followed by ` ASC` or ` DESC`.
pub open spec fn spec_order_sql(
    backend: DbBackend,
    items: Seq<(OperandV, OrderDir)>,
    first: bool,
) -> Seq<char>
    decreases items.len(),
{
    if items.len() == 0 {
        Seq::empty()
    } else {
        (if first {
            " ORDER BY "@
        } else {
            ", "@
        }) + crate::expr::spec_operand_text(backend, items[0].0, 0) + (match items[0].1 {
            OrderDir::Asc => " ASC"@,
            OrderDir::Desc => " DESC"@,
        }) + spec_order_sql(backend, items.drop_first(), false)
    }
}

proof fn lemma_order_items_columns(entity: Seq<char>, fields: Seq<OrderFieldV>, columns: Seq<Seq<char>>)
    ensures
        forall|j: int|
            0 <= j < spec_order_items(entity, fields, columns).len() ==> (#[trigger] spec_order_items(
                entity,
                fields,
                columns,
            )[j]).0.atom is Column,
    decreases fields.len(),
{
    if fields.len() > 0 {
        lemma_order_items_columns(entity, fields.drop_first(), columns);
    }
}

impl OrderByHelper {
    /// Emit the seek predicates as literal SQL: ` AND ` followed by each
    /// predicate, appended to the builder with its values.
    #[verifier::loop_isolation(false)]
    pub fn raw_sql_filters(
        &self,
        builder: &mut RawSqlBuilder,
        columns: &Vec<String>,
        pk_columns: &Vec<String>,
        cursor: Option<&Vec<(String, SqlValue)>>,
    )
        requires
            old(builder)@.values.len() + 2 * spec_build_filters(
                self@,
                columns.deep_view(),
                pk_columns.deep_view(),
                spec_opt_cursor(cursor),
            ).len() + 2 < u64::MAX,
        ensures
            ({
                let preds = spec_build_filters(
                    self@,
                    columns.deep_view(),
                    pk_columns.deep_view(),
                    spec_opt_cursor(cursor),
                );
                &&& final(builder)@.db_backend == old(builder)@.db_backend
                &&& final(builder)@.sql == old(builder)@.sql + spec_filters_sql(
                    old(builder)@.db_backend,
                    preds,
                    old(builder)@.values.len() as int + 1,
                )
                &&& final(builder)@.values == old(builder)@.values + spec_preds_values(preds)
            }),
    {
        let preds = self.build_filters(columns, pk_columns, cursor);
        let ghost pdv = preds.deep_view();
        let ghost backend = old(builder)@.db_backend;
        let n = preds.len();
        let mut k: usize = 0;
        proof {
            assert(pdv.skip(0) =~= pdv);
            assert(old(builder)@.sql + Seq::<char>::empty() =~= old(builder)@.sql);
            assert(old(builder)@.values + Seq::<ValV>::empty() =~= old(builder)@.values);
        }
        while k < n
            invariant
                n == preds@.len(),
                k <= n,
                pdv == preds.deep_view(),
                builder@.db_backend == backend,
                builder@.values.len() + 2 * (n - k) + 2 < u64::MAX,
                builder@.sql + spec_filters_sql(backend, pdv.skip(k as int), builder@.values.len() as int + 1)
                    == old(builder)@.sql + spec_filters_sql(backend, pdv, old(builder)@.values.len() as int + 1),
                builder@.values + spec_preds_values(pdv.skip(k as int)) == old(builder)@.values
                    + spec_preds_values(pdv),
            decreases n - k,
        {
            let ghost rest = pdv.skip(k as int);
            let ghost sql0 = builder@.sql;
            let ghost vals0 = builder@.values;
            proof {
                assert(rest[0] == pdv[k as int]);
                assert(pdv[k as int] == preds@[k as int]@);
                assert(rest.drop_first() =~= pdv.skip(k + 1));
                assert(spec_predicate_values(rest[0]).len() == spec_pred_arity(rest[0]));
            }
            builder.write(" AND ");
            builder.write_expr(&preds[k]);
            proof {
                assert(builder@.sql =~= sql0 + (" AND "@ + spec_predicate_text(
                    backend,
                    rest[0],
                    vals0.len() as int + 1,
                )));
                assert(builder@.values =~= vals0 + spec_predicate_values(rest[0]));
                assert(builder@.values.len() as int + 1 == vals0.len() as int + 1 + spec_pred_arity(
                    rest[0],
                ));
                assert(builder@.sql + spec_filters_sql(backend, pdv.skip(k + 1), builder@.values.len() as int + 1)
                    =~= sql0 + spec_filters_sql(backend, rest, vals0.len() as int + 1));
                assert(builder@.values + spec_preds_values(pdv.skip(k + 1)) =~= vals0
                    + spec_preds_values(rest));
            }
            k = k + 1;
        }
        proof {
            assert(pdv.skip(n as int) =~= Seq::<PredicateV>::empty());
            assert(builder@.sql + Seq::<char>::empty() =~= builder@.sql);
            assert(builder@.values + Seq::<ValV>::empty() =~= builder@.values);
        }
    }

    /// Emit the ORDER BY items as literal SQL: ` ORDER BY ` then each
    /// expression with its direction, joined with `, `.
    #[verifier::loop_isolation(false)]
    pub fn raw_sql_order_by(&self, builder: &mut RawSqlBuilder, columns: &Vec<String>)
        requires
            old(builder)@.values.len() + 1 < u64::MAX,
        ensures
            ({
                let items = spec_order_items(self@.entity, self@.order_by, columns.deep_view());
                &&& final(builder)@.db_backend == old(builder)@.db_backend
                &&& final(builder)@.sql == old(builder)@.sql + spec_order_sql(
                    old(builder)@.db_backend,
                    items,
                    true,
                )
                &&& final(builder)@.values == old(builder)@.values
            }),
    {
        let items = self.build_order_by(columns);
        let ghost idv = items.deep_view();
        let ghost backend = old(builder)@.db_backend;
        proof {
            lemma_order_items_columns(self@.entity, self@.order_by, columns.deep_view());
        }
        let n = items.len();
        let mut k: usize = 0;
        proof {
            assert(idv.skip(0) =~= idv);
            assert(old(builder)@.sql + Seq::<char>::empty() =~= old(builder)@.sql);
        }
        while k < n
            invariant
                n == items@.len(),
                k <= n,
                idv == items.deep_view(),
                builder@.db_backend == backend,
                builder@.values == old(builder)@.values,
                builder@.sql + spec_order_sql(backend, idv.skip(k as int), k == 0) == old(builder)@.sql
                    + spec_order_sql(backend, idv, true),
            decreases n - k,
        {
            let ghost rest = idv.skip(k as int);
            let ghost sql0 = builder@.sql;
            proof {
                assert(rest[0] == idv[k as int]);
                assert(idv[k as int] == items@[k as int].deep_view());
                assert(items@[k as int].deep_view() == (items@[k as int].0@, items@[k as int].1));
                assert(rest.drop_first() =~= idv.skip(k + 1));
                assert(rest[0].0.atom is Column);
            }
            if k == 0 {
                builder.write(" ORDER BY ");
            } else {
                builder.write(", ");
            }
            builder.write_operand(&items[k].0);
            proof {
                // A column operand's text does not depend on the
                // placeholder number.
                assert(crate::expr::spec_atom_text(backend, rest[0].0.atom, builder@.values.len() as int + 1)
                    == crate::expr::spec_atom_text(backend, rest[0].0.atom, 0));
                assert(crate::expr::spec_operand_text(backend, rest[0].0, builder@.values.len() as int + 1)
                    == crate::expr::spec_operand_text(backend, rest[0].0, 0));
                assert(crate::expr::spec_atom_values(rest[0].0.atom) =~= Seq::<ValV>::empty());
                assert(builder@.values =~= old(builder)@.values);
            }
            match items[k].1 {
                OrderDir::Asc => builder.write(" ASC"),
                OrderDir::Desc => builder.write(" DESC"),
            }
            proof {
                assert(builder@.sql =~= sql0 + ((if k == 0 {
                    " ORDER BY "@
                } else {
                    ", "@
                }) + crate::expr::spec_operand_text(backend, rest[0].0, 0) + (match rest[0].1 {
                    OrderDir::Asc => " ASC"@,
                    OrderDir::Desc => " DESC"@,
                })));
                assert(builder@.sql + spec_order_sql(backend, idv.skip(k + 1), false) =~= sql0
                    + spec_order_sql(backend, rest, k == 0));
            }
            k = k + 1;
        }
        proof {
            assert(idv.skip(n as int) =~= Seq::<(OperandV, OrderDir)>::empty());
            assert(builder@.sql + Seq::<char>::empty() =~= builder@.sql);
        }
    }
}

/// Look `key` up in an association list; empty text when absent.
#[verifier::loop_isolation(false)]
fn lookup_func(tbl: Option<&Vec<(String, String)>>, key: &str) -> (r: String)
    ensures
        r@ == match tbl {
            Some(t) => spec_lookup(t.deep_view(), key@),
            None => Seq::<char>::empty(),
        },
{
    match tbl {
        None => String::new(),
        Some(t) => {
            let n = t.len();
            let mut k: usize = 0;
            while k < n
                invariant
                    n == t@.len(),
                    k <= n,
                    forall|m: int| 0 <= m < k ==> (#[trigger] t.deep_view()[m]).0 != key@,
                decreases n - k,
            {
                proof {
                    assert(t.deep_view()[k as int] == t@[k as int].deep_view());
                }
                if str_eq(t[k].0.as_str(), key) {
                    proof {
                        lemma_lookup_at(t.deep_view(), key@, k as int);
                    }
                    return t[k].1.clone();
                }
                k = k + 1;
            }
            proof {
                lemma_lookup_at(t.deep_view(), key@, n as int);
            }
            String::new()
        },
    }
}

} // verus!
