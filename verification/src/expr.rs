//! Structured SQL expressions: the shapes the pagination engine emits —
//! column and value operands under optional named function wrappers, and
//! comparison predicates over them — with dialect-specific rendering.

use vstd::prelude::*;

use crate::dialect::{DbBackend, PlaceholderStyle};
use crate::value::{SqlValue, ValV};

verus! {

/// A bare operand: a table-qualified column, or a bound value.
#[derive(Debug)]
pub enum SqlAtom {
    /// Table name and column name, both quoted when rendered.
    Column(String, String),
    /// A value, rendered as a placeholder and collected.
    Value(SqlValue),
}

/// Mathematical model of a [`SqlAtom`].
pub enum AtomV {
    Column(Seq<char>, Seq<char>),
    Value(ValV),
}

impl View for SqlAtom {
    type V = AtomV;

    open spec fn view(&self) -> AtomV {
        match self {
            SqlAtom::Column(t, c) => AtomV::Column(t@, c@),
            SqlAtom::Value(v) => AtomV::Value(v@),
        }
    }
}

impl DeepView for SqlAtom {
    type V = AtomV;

    open spec fn deep_view(&self) -> AtomV {
        self.view()
    }
}

/// An operand under function wrappers, applied innermost first:
/// `funcs[0]` wraps the atom, `funcs[1]` wraps that, and so on.
#[derive(Debug)]
pub struct SqlOperand {
    pub atom: SqlAtom,
    pub funcs: Vec<String>,
}

/// Mathematical model of a [`SqlOperand`].
pub struct OperandV {
    pub atom: AtomV,
    pub funcs: Seq<Seq<char>>,
}

impl View for SqlOperand {
    type V = OperandV;

    open spec fn view(&self) -> OperandV {
        OperandV { atom: self.atom@, funcs: self.funcs.deep_view() }
    }
}

impl DeepView for SqlOperand {
    type V = OperandV;

    open spec fn deep_view(&self) -> OperandV {
        self.view()
    }
}

/// The comparison operators the pagination engine emits.
#[derive(Clone, Copy, PartialEq, Eq, Structural, Debug)]
pub enum SqlCmp {
    /// `<>`
    Ne,
    /// `>=`
    Ge,
    /// `<=`
    Le,
}

/// A comparison of two operands.
#[derive(Debug)]
pub struct SqlPredicate {
    pub op: SqlCmp,
    pub lhs: SqlOperand,
    pub rhs: SqlOperand,
}

/// Mathematical model of a [`SqlPredicate`].
pub struct PredicateV {
    pub op: SqlCmp,
    pub lhs: OperandV,
    pub rhs: OperandV,
}

impl View for SqlPredicate {
    type V = PredicateV;

    open spec fn view(&self) -> PredicateV {
        PredicateV { op: self.op, lhs: self.lhs@, rhs: self.rhs@ }
    }
}

impl DeepView for SqlPredicate {
    type V = PredicateV;

    open spec fn deep_view(&self) -> PredicateV {
        self.view()
    }
}

/// The quote character a dialect uses around identifiers.
pub open spec fn spec_quote_char(backend: DbBackend) -> char {
    match backend {
        DbBackend::MySql => '`',
        _ => '"',
    }
}

/// An identifier wrapped in the dialect's quote characters.
pub open spec fn spec_quoted(backend: DbBackend, name: Seq<char>) -> Seq<char> {
    seq![spec_quote_char(backend)] + name + seq![spec_quote_char(backend)]
}

/// `"table"."column"`, quoted per dialect.
pub open spec fn spec_column_text(backend: DbBackend, table: Seq<char>, col: Seq<char>) -> Seq<
    char,
> {
    spec_quoted(backend, table) + seq!['.'] + spec_quoted(backend, col)
}

/// The text of the placeholder numbered `no`.
pub open spec fn spec_placeholder(style: PlaceholderStyle, no: int) -> Seq<char> {
    match style {
        PlaceholderStyle::Numbered => seq!['$'] + crate::text::spec_u64_digits(no as u64),
        PlaceholderStyle::Repeated => seq!['?'],
    }
}

/// `inner` wrapped by each function name in turn, innermost first.
pub open spec fn spec_wrap_funcs(funcs: Seq<Seq<char>>, inner: Seq<char>) -> Seq<char>
    decreases funcs.len(),
{
    if funcs.len() == 0 {
        inner
    } else {
        spec_wrap_funcs(funcs.drop_first(), funcs[0] + seq!['('] + inner + seq![')'])
    }
}

/// The number of values an atom contributes to the collected list.
pub open spec fn spec_atom_arity(a: AtomV) -> int {
    match a {
        AtomV::Column(_, _) => 0,
        AtomV::Value(_) => 1,
    }
}

/// The text of an atom: a quoted column, or the placeholder numbered `no`.
pub open spec fn spec_atom_text(backend: DbBackend, a: AtomV, no: int) -> Seq<char> {
    match a {
        AtomV::Column(t, c) => spec_column_text(backend, t, c),
        AtomV::Value(_) => spec_placeholder(backend.spec_placeholder_style(), no),
    }
}

/// The values an atom contributes.
pub open spec fn spec_atom_values(a: AtomV) -> Seq<ValV> {
    match a {
        AtomV::Column(_, _) => Seq::empty(),
        AtomV::Value(v) => seq![v],
    }
}

/// The text of an operand whose next placeholder is numbered `no`.
pub open spec fn spec_operand_text(backend: DbBackend, o: OperandV, no: int) -> Seq<char> {
    spec_wrap_funcs(o.funcs, spec_atom_text(backend, o.atom, no))
}

/// The text of a comparison operator, with the spacing it is rendered with.
pub open spec fn spec_cmp_text(op: SqlCmp) -> Seq<char> {
    match op {
        SqlCmp::Ne => " <> "@,
        SqlCmp::Ge => " >= "@,
        SqlCmp::Le => " <= "@,
    }
}

/// The text of a predicate whose first placeholder is numbered `no`.
pub open spec fn spec_predicate_text(backend: DbBackend, p: PredicateV, no: int) -> Seq<char> {
    spec_operand_text(backend, p.lhs, no) + spec_cmp_text(p.op) + spec_operand_text(
        backend,
        p.rhs,
        no + spec_atom_arity(p.lhs.atom),
    )
}

/// The values a predicate contributes, left to right.
pub open spec fn spec_predicate_values(p: PredicateV) -> Seq<ValV> {
    spec_atom_values(p.lhs.atom) + spec_atom_values(p.rhs.atom)
}

impl SqlOperand {
    /// A bare column operand.
    pub fn column(table: &str, col: &str) -> (r: SqlOperand)
        ensures
            r@.atom == AtomV::Column(table@, col@),
            r@.funcs == Seq::<Seq<char>>::empty(),
    {
        let r = SqlOperand {
            atom: SqlAtom::Column(String::from_str(table), String::from_str(col)),
            funcs: Vec::new(),
        };
        proof {
            assert(r@.funcs =~= Seq::<Seq<char>>::empty());
        }
        r
    }

    /// A bare value operand.
    pub fn value(v: SqlValue) -> (r: SqlOperand)
        ensures
            r@.atom == AtomV::Value(v@),
            r@.funcs == Seq::<Seq<char>>::empty(),
    {
        let r = SqlOperand { atom: SqlAtom::Value(v), funcs: Vec::new() };
        proof {
            assert(r@.funcs =~= Seq::<Seq<char>>::empty());
        }
        r
    }

    /// Wrap the operand in one more function, outermost so far.
    pub fn wrap(&mut self, func: &str)
        ensures
            final(self)@.atom == old(self)@.atom,
            final(self)@.funcs == old(self)@.funcs.push(func@),
    {
        let ghost prev = self.funcs.deep_view();
        self.funcs.push(String::from_str(func));
        proof {
            assert(self.funcs.deep_view() =~= prev.push(func@));
        }
    }
}

} // verus!
