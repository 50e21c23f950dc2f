//! Raw statement builder: assembles a dialect-specific SQL statement
//! incrementally from literal text, `?`-marker text with values, and
//! structured predicates, collecting bound values in order.

use vstd::prelude::*;

use crate::dialect::{DbBackend, PlaceholderStyle};
use crate::expr::{
    spec_atom_text, spec_atom_values, spec_operand_text, spec_placeholder, spec_predicate_text,
    spec_predicate_values, spec_wrap_funcs, SqlAtom, SqlOperand, SqlPredicate,
};
use crate::statement::{Statement, StmtV};
use crate::template::{spec_from_statement, spec_wf, SqlHelper};
use crate::text::u64_to_string;
use crate::value::{append_value_literal, spec_value_literal, SqlValue, ValV};

verus! {

/// Substitute `?` markers with the dialect's placeholder style.
///
/// `no` numbers the next placeholder; `remaining` is how many values are
/// left to pair with markers. `??` is an escape for a literal `?`, and a
/// marker with no value left to pair with is kept verbatim.
pub open spec fn spec_subst(
    style: PlaceholderStyle,
    s: Seq<char>,
    no: int,
    remaining: int,
) -> Seq<char>
    decreases s.len(),
{
    if s.len() == 0 {
        Seq::empty()
    } else if s[0] == '?' {
        if s.len() > 1 && s[1] == '?' {
            seq!['?'] + spec_subst(style, s.skip(2), no, remaining)
        } else if remaining > 0 {
            spec_placeholder(style, no) + spec_subst(style, s.skip(1), no + 1, remaining - 1)
        } else {
            seq!['?'] + spec_subst(style, s.skip(1), no, remaining)
        }
    } else {
        seq![s[0]] + spec_subst(style, s.skip(1), no, remaining)
    }
}

/// Append `s` to `out` with `?` markers replaced per `spec_subst`.
#[verifier::loop_isolation(false)]
fn append_subst(
    out: &mut String,
    style: PlaceholderStyle,
    s: &str,
    no0: u64,
    remaining0: usize,
)
    requires
        no0 + s@.len() <= u64::MAX,
    ensures
        final(out)@ == old(out)@ + spec_subst(style, s@, no0 as int, remaining0 as int),
{
    let n = s.unicode_len();
    let mut i: usize = 0;
    let mut no: u64 = no0;
    let mut remaining: usize = remaining0;
    proof {
        assert(s@.skip(0) =~= s@);
    }
    while i < n
        invariant
            n == s@.len(),
            i <= n,
            no0 <= no,
            no - no0 <= i,
            remaining <= remaining0,
            out@ + spec_subst(style, s@.skip(i as int), no as int, remaining as int) == old(out)@
                + spec_subst(style, s@, no0 as int, remaining0 as int),
        decreases n - i,
    {
        let ghost rest = s@.skip(i as int);
        let c = s.get_char(i);
        proof {
            assert(rest[0] == c);
            assert(rest.len() == n - i);
        }
        if c == '?' && i + 1 < n && s.get_char(i + 1) == '?' {
            proof {
                reveal_strlit("?");
                assert(rest.len() > 1 && rest[1] == '?');
                assert(rest.skip(2) =~= s@.skip(i + 2));
                assert(spec_subst(style, rest, no as int, remaining as int) == seq!['?']
                    + spec_subst(style, s@.skip(i + 2), no as int, remaining as int));
                assert("?"@ =~= seq!['?']);
            }
            let ghost prev = out@;
            out.append("?");
            proof {
                assert((prev + seq!['?']) + spec_subst(
                    style,
                    s@.skip(i + 2),
                    no as int,
                    remaining as int,
                ) =~= prev + (seq!['?'] + spec_subst(
                    style,
                    s@.skip(i + 2),
                    no as int,
                    remaining as int,
                )));
            }
            i = i + 2;
        } else if c == '?' && remaining > 0 {
            proof {
                assert(!(rest.len() > 1 && rest[1] == '?'));
                assert(rest.skip(1) =~= s@.skip(i + 1));
                assert(spec_subst(style, rest, no as int, remaining as int) == spec_placeholder(
                    style,
                    no as int,
                ) + spec_subst(style, s@.skip(i + 1), no + 1, remaining - 1));
            }
            let ghost prev = out@;
            match style {
                PlaceholderStyle::Numbered => {
                    proof {
                        reveal_strlit("$");
                        assert("$"@ =~= seq!['$']);
                    }
                    out.append("$");
                    let num = u64_to_string(no);
                    out.append(num.as_str());
                    proof {
                        assert(out@ =~= prev + spec_placeholder(style, no as int));
                    }
                },
                PlaceholderStyle::Repeated => {
                    proof {
                        reveal_strlit("?");
                        assert("?"@ =~= seq!['?']);
                    }
                    out.append("?");
                    proof {
                        assert(out@ =~= prev + spec_placeholder(style, no as int));
                    }
                },
            }
            proof {
                assert((prev + spec_placeholder(style, no as int)) + spec_subst(
                    style,
                    s@.skip(i + 1),
                    no + 1,
                    remaining - 1,
                ) =~= prev + (spec_placeholder(style, no as int) + spec_subst(
                    style,
                    s@.skip(i + 1),
                    no + 1,
                    remaining - 1,
                )));
            }
            no = no + 1;
            remaining = remaining - 1;
            i = i + 1;
        } else {
            proof {
                if c == '?' {
                    assert(!(rest.len() > 1 && rest[1] == '?'));
                }
                assert(rest.skip(1) =~= s@.skip(i + 1));
                assert(spec_subst(style, rest, no as int, remaining as int) == seq![c]
                    + spec_subst(style, s@.skip(i + 1), no as int, remaining as int));
            }
            let ghost prev = out@;
            let piece = s.substring_char(i, i + 1);
            proof {
                assert(piece@ =~= seq![c]);
            }
            out.append(piece);
            proof {
                assert((prev + seq![c]) + spec_subst(
                    style,
                    s@.skip(i + 1),
                    no as int,
                    remaining as int,
                ) =~= prev + (seq![c] + spec_subst(
                    style,
                    s@.skip(i + 1),
                    no as int,
                    remaining as int,
                )));
            }
            i = i + 1;
        }
    }
    proof {
        assert(s@.skip(n as int) =~= Seq::<char>::empty());
        assert(out@ + Seq::<char>::empty() =~= out@);
    }
}

/// Substitute the `?` markers of `s` with the dialect's placeholders,
/// numbered from one; `??` stands for a literal `?`.
pub fn db_cust_with_values(backend: DbBackend, s: &str) -> (r: String)
    requires
        s@.len() < u64::MAX,
    ensures
        r@ == spec_subst(backend.spec_placeholder_style(), s@, 1, s@.len() as int),
{
    let mut out = String::new();
    let style = backend.placeholder_style();
    let n = s.unicode_len();
    append_subst(&mut out, style, s, 1, n);
    out
}

/// Substitute `?` markers with the values themselves, rendered as SQL
/// literals: the display form of marker text paired with its values.
///
/// `??` is an escape for a literal `?`; a marker with no value left is
/// kept verbatim.
pub open spec fn spec_subst_inline(s: Seq<char>, values: Seq<ValV>, vi: int) -> Seq<char>
    decreases s.len(),
{
    if s.len() == 0 {
        Seq::empty()
    } else if s[0] == '?' {
        if s.len() > 1 && s[1] == '?' {
            seq!['?'] + spec_subst_inline(s.skip(2), values, vi)
        } else if 0 <= vi && vi < values.len() {
            spec_value_literal(values[vi]) + spec_subst_inline(s.skip(1), values, vi + 1)
        } else {
            seq!['?'] + spec_subst_inline(s.skip(1), values, vi)
        }
    } else {
        seq![s[0]] + spec_subst_inline(s.skip(1), values, vi)
    }
}

/// Render `?`-marker text with its values inlined as SQL literals.
#[verifier::loop_isolation(false)]
pub fn with_values_to_string(s: &str, values: &Vec<SqlValue>) -> (r: String)
    ensures
        r@ == spec_subst_inline(s@, values.deep_view(), 0),
{
    let ghost vdv = values.deep_view();
    let mut out = String::new();
    let n = s.unicode_len();
    let vn = values.len();
    let mut i: usize = 0;
    let mut vi: usize = 0;
    proof {
        assert(s@.skip(0) =~= s@);
        assert(out@ + spec_subst_inline(s@, vdv, 0) =~= spec_subst_inline(s@, vdv, 0));
    }
    while i < n
        invariant
            n == s@.len(),
            vn == values@.len(),
            vdv == values.deep_view(),
            i <= n,
            vi <= vn,
            out@ + spec_subst_inline(s@.skip(i as int), vdv, vi as int) == spec_subst_inline(
                s@,
                vdv,
                0,
            ),
        decreases n - i,
    {
        let ghost rest = s@.skip(i as int);
        let c = s.get_char(i);
        proof {
            assert(rest[0] == c);
            assert(rest.len() == n - i);
        }
        if c == '?' && i + 1 < n && s.get_char(i + 1) == '?' {
            proof {
                reveal_strlit("?");
                assert(rest.len() > 1 && rest[1] == '?');
                assert(rest.skip(2) =~= s@.skip(i + 2));
                assert("?"@ =~= seq!['?']);
            }
            let ghost prev = out@;
            out.append("?");
            proof {
                assert((prev + seq!['?']) + spec_subst_inline(s@.skip(i + 2), vdv, vi as int)
                    =~= prev + (seq!['?'] + spec_subst_inline(s@.skip(i + 2), vdv, vi as int)));
            }
            i = i + 2;
        } else if c == '?' && vi < vn {
            proof {
                assert(!(rest.len() > 1 && rest[1] == '?'));
                assert(rest.skip(1) =~= s@.skip(i + 1));
                assert(vdv[vi as int] == values@[vi as int]@);
            }
            let ghost prev = out@;
            append_value_literal(&mut out, &values[vi]);
            proof {
                assert((prev + spec_value_literal(vdv[vi as int])) + spec_subst_inline(
                    s@.skip(i + 1),
                    vdv,
                    vi + 1,
                ) =~= prev + (spec_value_literal(vdv[vi as int]) + spec_subst_inline(
                    s@.skip(i + 1),
                    vdv,
                    vi + 1,
                )));
            }
            vi = vi + 1;
            i = i + 1;
        } else {
            proof {
                if c == '?' {
                    assert(!(rest.len() > 1 && rest[1] == '?'));
                    reveal_strlit("?");
                }
                assert(rest.skip(1) =~= s@.skip(i + 1));
            }
            let ghost prev = out@;
            let piece = s.substring_char(i, i + 1);
            proof {
                assert(piece@ =~= seq![c]);
            }
            out.append(piece);
            proof {
                assert((prev + seq![c]) + spec_subst_inline(s@.skip(i + 1), vdv, vi as int)
                    =~= prev + (seq![c] + spec_subst_inline(s@.skip(i + 1), vdv, vi as int)));
            }
            i = i + 1;
        }
    }
    proof {
        assert(s@.skip(n as int) =~= Seq::<char>::empty());
        assert(out@ + Seq::<char>::empty() =~= out@);
    }
    out
}

/// The display text of an atom: a quoted column, or the value inlined as
/// a SQL literal.
pub open spec fn spec_atom_inline(backend: DbBackend, a: crate::expr::AtomV) -> Seq<char> {
    match a {
        crate::expr::AtomV::Column(t, c) => crate::expr::spec_column_text(backend, t, c),
        crate::expr::AtomV::Value(v) => spec_value_literal(v),
    }
}

/// The display text of an operand, values inlined.
pub open spec fn spec_operand_inline(backend: DbBackend, o: crate::expr::OperandV) -> Seq<char> {
    spec_wrap_funcs(o.funcs, spec_atom_inline(backend, o.atom))
}

/// The display text of a predicate, values inlined.
pub open spec fn spec_predicate_inline(backend: DbBackend, p: crate::expr::PredicateV) -> Seq<
    char,
> {
    spec_operand_inline(backend, p.lhs) + crate::expr::spec_cmp_text(p.op) + spec_operand_inline(
        backend,
        p.rhs,
    )
}

/// Render one operand with its value inlined as a SQL literal.
#[verifier::loop_isolation(false)]
fn append_operand_inline(out: &mut String, backend: DbBackend, o: &SqlOperand)
    ensures
        final(out)@ == old(out)@ + spec_operand_inline(backend, o@),
{
    let mut inner: String = String::new();
    match &o.atom {
        SqlAtom::Column(t, c) => {
            let q = match backend {
                DbBackend::MySql => "`",
                _ => "\"",
            };
            proof {
                reveal_strlit("`");
                reveal_strlit("\"");
                reveal_strlit(".");
            }
            inner.append(q);
            inner.append(t.as_str());
            inner.append(q);
            inner.append(".");
            inner.append(q);
            inner.append(c.as_str());
            inner.append(q);
            proof {
                assert(inner@ =~= spec_atom_inline(backend, o@.atom));
            }
        },
        SqlAtom::Value(v) => {
            append_value_literal(&mut inner, v);
            proof {
                assert(inner@ =~= spec_atom_inline(backend, o@.atom));
            }
        },
    }
    let fm = o.funcs.len();
    let ghost funcs_dv = o.funcs.deep_view();
    let mut k: usize = 0;
    proof {
        assert(funcs_dv.skip(0) =~= funcs_dv);
    }
    while k < fm
        invariant
            fm == o.funcs@.len(),
            k <= fm,
            funcs_dv == o.funcs.deep_view(),
            spec_wrap_funcs(funcs_dv.skip(k as int), inner@) == spec_wrap_funcs(
                funcs_dv,
                spec_atom_inline(backend, o@.atom),
            ),
        decreases fm - k,
    {
        let ghost rest = funcs_dv.skip(k as int);
        proof {
            reveal_strlit("(");
            reveal_strlit(")");
            assert(rest[0] == funcs_dv[k as int]);
            assert(o.funcs@[k as int]@ == funcs_dv[k as int]);
        }
        let mut wrapped = String::new();
        wrapped.append(o.funcs[k].as_str());
        wrapped.append("(");
        wrapped.append(inner.as_str());
        wrapped.append(")");
        proof {
            assert(wrapped@ =~= funcs_dv[k as int] + seq!['('] + inner@ + seq![')']);
            assert(rest.skip(1) =~= funcs_dv.skip(k + 1));
        }
        inner = wrapped;
        k = k + 1;
    }
    proof {
        assert(funcs_dv.skip(fm as int) =~= Seq::<Seq<char>>::empty());
        assert(inner@ == spec_operand_inline(backend, o@));
    }
    out.append(inner.as_str());
}

/// Assembles a statement incrementally: SQL text plus the ordered list of
/// values collected so far.
#[derive(Debug)]
pub struct RawSqlBuilder {
    db_backend: DbBackend,
    sql: String,
    values: Vec<SqlValue>,
}

impl View for RawSqlBuilder {
    type V = StmtV;

    closed spec fn view(&self) -> StmtV {
        StmtV { db_backend: self.db_backend, sql: self.sql@, values: self.values.deep_view() }
    }
}

impl RawSqlBuilder {
    /// An empty builder for a dialect.
    pub fn new(db_backend: DbBackend) -> (r: RawSqlBuilder)
        ensures
            r@.db_backend == db_backend,
            r@.sql.len() == 0,
            r@.values.len() == 0,
    {
        let r = RawSqlBuilder { db_backend, sql: String::new(), values: Vec::new() };
        proof {
            assert(r@.values =~= Seq::<ValV>::empty());
        }
        r
    }

    /// The dialect this builder renders for.
    pub fn get_database_backend(&self) -> (r: DbBackend)
        ensures
            r == self@.db_backend,
    {
        self.db_backend
    }

    /// Append literal SQL text verbatim.
    pub fn write(&mut self, s: &str)
        ensures
            final(self)@.db_backend == old(self)@.db_backend,
            final(self)@.sql == old(self)@.sql + s@,
            final(self)@.values == old(self)@.values,
    {
        self.sql.append(s);
    }

    /// Append `?`-marker text, substituting each marker with the dialect's
    /// placeholder style while appending `values` to the value list in the
    /// same order.
    ///
    /// For the numbered style, the marker paired with the N-th value of the
    /// final value list renders as `$N`.
    #[verifier::loop_isolation(false)]
    pub fn write_with_args(&mut self, s: &str, values: Vec<SqlValue>)
        requires
            old(self)@.values.len() + s@.len() < u64::MAX,
        ensures
            final(self)@.db_backend == old(self)@.db_backend,
            final(self)@.sql == old(self)@.sql + spec_subst(
                old(self)@.db_backend.spec_placeholder_style(),
                s@,
                old(self)@.values.len() as int + 1,
                values.deep_view().len() as int,
            ),
            final(self)@.values == old(self)@.values + values.deep_view(),
    {
        let ghost old_vals = self.values.deep_view();
        let base = self.values.len();
        let vn = values.len();
        let mut vi: usize = 0;
        let mut values = values;
        // Move the values over, in order.
        while vi < vn
            invariant
                vn == values@.len(),
                vi <= vn,
                self.db_backend == old(self)@.db_backend,
                self.sql@ == old(self)@.sql,
                base == old_vals.len(),
                old_vals == old(self)@.values,
                self.values.deep_view() =~= old_vals + values.deep_view().take(vi as int),
            decreases vn - vi,
        {
            let ghost prev = self.values.deep_view();
            let v = values[vi].clone();
            self.values.push(v);
            proof {
                assert(self.values.deep_view() =~= prev.push(values@[vi as int]@));
                assert(prev.push(values@[vi as int]@) =~= old_vals + values.deep_view().take(
                    vi + 1,
                ));
            }
            vi = vi + 1;
        }
        proof {
            assert(values.deep_view().take(vn as int) =~= values.deep_view());
        }
        let style = self.db_backend.placeholder_style();
        let no0 = base as u64 + 1;
        append_subst(&mut self.sql, style, s, no0, vn);
    }

    /// Render a predicate into the SQL text, collecting its values: each
    /// value renders as the placeholder pairing it with its slot in the
    /// value list.
    pub fn write_expr(&mut self, p: &SqlPredicate)
        requires
            old(self)@.values.len() + 2 < u64::MAX,
        ensures
            final(self)@.db_backend == old(self)@.db_backend,
            final(self)@.sql == old(self)@.sql + spec_predicate_text(
                old(self)@.db_backend,
                p@,
                old(self)@.values.len() as int + 1,
            ),
            final(self)@.values == old(self)@.values + spec_predicate_values(p@),
    {
        let ghost no0: int = self@.values.len() as int + 1;
        self.write_operand(&p.lhs);
        match p.op {
            crate::expr::SqlCmp::Ne => self.sql.append(" <> "),
            crate::expr::SqlCmp::Ge => self.sql.append(" >= "),
            crate::expr::SqlCmp::Le => self.sql.append(" <= "),
        }
        self.write_operand(&p.rhs);
        proof {
            assert(final(self)@.sql =~= old(self)@.sql + spec_predicate_text(
                old(self)@.db_backend,
                p@,
                no0,
            ));
            assert(final(self)@.values =~= old(self)@.values + spec_predicate_values(p@));
        }
    }

    /// Render one operand, collecting its value if it has one.
    #[verifier::loop_isolation(false)]
    pub(crate) fn write_operand(&mut self, o: &SqlOperand)
        requires
            old(self)@.values.len() + 1 < u64::MAX,
        ensures
            final(self)@.db_backend == old(self)@.db_backend,
            final(self)@.sql == old(self)@.sql + spec_operand_text(
                old(self)@.db_backend,
                o@,
                old(self)@.values.len() as int + 1,
            ),
            final(self)@.values == old(self)@.values + spec_atom_values(o@.atom),
    {
        let ghost no: int = self@.values.len() as int + 1;
        // Render the bare atom.
        let mut inner: String = String::new();
        match &o.atom {
            SqlAtom::Column(t, c) => {
                let q = match self.db_backend {
                    DbBackend::MySql => "`",
                    _ => "\"",
                };
                proof {
                    reveal_strlit("`");
                    reveal_strlit("\"");
                    reveal_strlit(".");
                }
                inner.append(q);
                inner.append(t.as_str());
                inner.append(q);
                inner.append(".");
                inner.append(q);
                inner.append(c.as_str());
                inner.append(q);
                proof {
                    assert(inner@ =~= spec_atom_text(self@.db_backend, o@.atom, no));
                }
            },
            SqlAtom::Value(v) => {
                let vc = v.clone();
                self.values.push(vc);
                let num = self.values.len();
                match self.db_backend.placeholder_style() {
                    PlaceholderStyle::Numbered => {
                        proof {
                            reveal_strlit("$");
                        }
                        inner.append("$");
                        let ns = u64_to_string(num as u64);
                        inner.append(ns.as_str());
                    },
                    PlaceholderStyle::Repeated => {
                        proof {
                            reveal_strlit("?");
                        }
                        inner.append("?");
                    },
                }
                proof {
                    assert(self.values.deep_view() =~= old(self)@.values.push(v@));
                    assert(num as int == no);
                    assert(inner@ =~= spec_atom_text(self@.db_backend, o@.atom, no));
                }
            },
        }
        // Wrap with each function, innermost first.
        let fm = o.funcs.len();
        let ghost funcs_dv = o.funcs.deep_view();
        let mut k: usize = 0;
        proof {
            assert(funcs_dv.skip(0) =~= funcs_dv);
        }
        while k < fm
            invariant
                fm == o.funcs@.len(),
                k <= fm,
                funcs_dv == o.funcs.deep_view(),
                spec_wrap_funcs(funcs_dv.skip(k as int), inner@) == spec_wrap_funcs(
                    funcs_dv,
                    spec_atom_text(old(self)@.db_backend, o@.atom, no),
                ),
                self.db_backend == old(self)@.db_backend,
                self.sql@ == old(self)@.sql,
                self.values.deep_view() == old(self)@.values + spec_atom_values(o@.atom),
            decreases fm - k,
        {
            let ghost rest = funcs_dv.skip(k as int);
            proof {
                reveal_strlit("(");
                reveal_strlit(")");
                assert(rest[0] == funcs_dv[k as int]);
                assert(o.funcs@[k as int]@ == funcs_dv[k as int]);
            }
            let mut wrapped = String::new();
            wrapped.append(o.funcs[k].as_str());
            wrapped.append("(");
            wrapped.append(inner.as_str());
            wrapped.append(")");
            proof {
                assert(wrapped@ =~= funcs_dv[k as int] + seq!['('] + inner@ + seq![')']);
                assert(rest.skip(1) =~= funcs_dv.skip(k + 1));
            }
            inner = wrapped;
            k = k + 1;
        }
        proof {
            assert(funcs_dv.skip(fm as int) =~= Seq::<Seq<char>>::empty());
            assert(inner@ == spec_operand_text(old(self)@.db_backend, o@, no));
        }
        self.sql.append(inner.as_str());
        proof {
            assert(final(self)@.values =~= old(self)@.values + spec_atom_values(o@.atom));
        }
    }

    /// The display text of a predicate on this builder's dialect, values
    /// inlined as SQL literals.
    pub fn expr_to_string(db_backend: DbBackend, p: &SqlPredicate) -> (r: String)
        ensures
            r@ == spec_predicate_inline(db_backend, p@),
    {
        let mut out = String::new();
        append_operand_inline(&mut out, db_backend, &p.lhs);
        match p.op {
            crate::expr::SqlCmp::Ne => out.append(" <> "),
            crate::expr::SqlCmp::Ge => out.append(" >= "),
            crate::expr::SqlCmp::Le => out.append(" <= "),
        }
        append_operand_inline(&mut out, db_backend, &p.rhs);
        proof {
            assert(out@ =~= spec_predicate_inline(db_backend, p@));
        }
        out
    }

    /// Finish: the statement built so far.
    pub fn into_statement(self) -> (r: Statement)
        ensures
            r@ == self@,
    {
        let RawSqlBuilder { db_backend, sql, values } = self;
        Statement { db_backend, sql, values }
    }

    /// Finish and decompose into a rebindable template.
    pub fn into_sql_helper(self) -> (r: SqlHelper)
        ensures
            r@ == spec_from_statement(self@),
            spec_wf(r@),
    {
        SqlHelper::from_statement(self.into_statement())
    }
}

impl SqlHelper {
    /// The display text of a predicate on this template's dialect, values
    /// inlined as SQL literals.
    pub fn expr_to_string(&self, p: &SqlPredicate) -> (r: String)
        ensures
            r@ == spec_predicate_inline(self@.db_backend, p@),
    {
        let backend = self.backend();
        RawSqlBuilder::expr_to_string(backend, p)
    }
}

} // verus!
