//! The plain value model carried by statements and templates.

use vstd::prelude::*;

use crate::text::{i64_to_string, spec_i64_digits, spec_u64_digits, u64_to_string};

verus! {

/// A value bound to a statement: the closed set of plain kinds the
/// templating core manipulates.
#[derive(Debug)]
pub enum SqlValue {
    Null,
    Bool(bool),
    Int(i64),
    UInt(u64),
    Str(String),
}

/// Mathematical model of a [`SqlValue`]: text as a character sequence.
pub enum ValV {
    Null,
    Bool(bool),
    Int(i64),
    UInt(u64),
    Str(Seq<char>),
}

impl View for SqlValue {
    type V = ValV;

    open spec fn view(&self) -> ValV {
        match self {
            SqlValue::Null => ValV::Null,
            SqlValue::Bool(b) => ValV::Bool(*b),
            SqlValue::Int(n) => ValV::Int(*n),
            SqlValue::UInt(n) => ValV::UInt(*n),
            SqlValue::Str(s) => ValV::Str(s@),
        }
    }
}

impl DeepView for SqlValue {
    type V = ValV;

    open spec fn deep_view(&self) -> ValV {
        self.view()
    }
}

impl Clone for SqlValue {
    fn clone(&self) -> (r: Self)
        ensures
            r == *self,
    {
        match self {
            SqlValue::Null => SqlValue::Null,
            SqlValue::Bool(b) => SqlValue::Bool(*b),
            SqlValue::Int(n) => SqlValue::Int(*n),
            SqlValue::UInt(n) => SqlValue::UInt(*n),
            SqlValue::Str(s) => SqlValue::Str(s.clone()),
        }
    }
}

impl SqlValue {
    /// A named value placeholder: a string beginning with the sentinel `:`.
    pub open spec fn spec_is_named_placeholder(self) -> bool {
        match self@ {
            ValV::Str(s) => s.len() > 0 && s[0] == ':',
            _ => false,
        }
    }

    /// The name of a named value placeholder (including the sentinel).
    pub open spec fn spec_placeholder_name(self) -> Seq<char> {
        match self@ {
            ValV::Str(s) => s,
            _ => Seq::empty(),
        }
    }
}

/// How a value reads when inlined into SQL text as a literal: strings are
/// quoted with `'` and embedded quotes doubled.
pub open spec fn spec_value_literal(v: ValV) -> Seq<char> {
    match v {
        ValV::Null => "NULL"@,
        ValV::Bool(b) => if b {
            "TRUE"@
        } else {
            "FALSE"@
        },
        ValV::Int(n) => spec_i64_digits(n),
        ValV::UInt(n) => spec_u64_digits(n),
        ValV::Str(s) => seq!['\''] + spec_escaped_quotes(s) + seq!['\''],
    }
}

/// String content with every `'` doubled.
pub open spec fn spec_escaped_quotes(s: Seq<char>) -> Seq<char>
    decreases s.len(),
{
    if s.len() == 0 {
        Seq::empty()
    } else if s[0] == '\'' {
        seq!['\'', '\''] + spec_escaped_quotes(s.skip(1))
    } else {
        seq![s[0]] + spec_escaped_quotes(s.skip(1))
    }
}

/// Append the literal rendering of `v` to `out`.
pub fn append_value_literal(out: &mut String, v: &SqlValue)
    ensures
        final(out)@ == old(out)@ + spec_value_literal(v@),
{
    match v {
        SqlValue::Null => {
            out.append("NULL");
        },
        SqlValue::Bool(b) => {
            if *b {
                out.append("TRUE");
            } else {
                out.append("FALSE");
            }
        },
        SqlValue::Int(n) => {
            let s = i64_to_string(*n);
            out.append(s.as_str());
        },
        SqlValue::UInt(n) => {
            let s = u64_to_string(*n);
            out.append(s.as_str());
        },
        SqlValue::Str(s) => {
            proof {
                reveal_strlit("'");
            }
            out.append("'");
            append_escaped(out, s.as_str());
            out.append("'");
            assert(final(out)@ =~= old(out)@ + spec_value_literal(v@));
        },
    }
}

/// Append `s` to `out`, doubling every single quote.
fn append_escaped(out: &mut String, s: &str)
    ensures
        final(out)@ == old(out)@ + spec_escaped_quotes(s@),
{
    let n = s.unicode_len();
    let mut i: usize = 0;
    proof {
        reveal_strlit("''");
        assert(s@.skip(0) =~= s@);
    }
    while i < n
        invariant
            n == s@.len(),
            i <= n,
            out@ + spec_escaped_quotes(s@.skip(i as int)) == old(out)@ + spec_escaped_quotes(s@),
        decreases n - i,
    {
        let c = s.get_char(i);
        let ghost prev = out@;
        let ghost piece_v: Seq<char> = if c == '\'' {
            seq!['\'', '\'']
        } else {
            seq![c]
        };
        proof {
            assert(s@.skip(i as int).len() > 0);
            assert(s@.skip(i as int)[0] == c);
            assert(s@.skip(i as int).skip(1) =~= s@.skip(i + 1));
            assert(spec_escaped_quotes(s@.skip(i as int)) == piece_v + spec_escaped_quotes(
                s@.skip(i + 1),
            ));
        }
        if c == '\'' {
            out.append("''");
            proof {
                reveal_strlit("''");
                assert("''"@ =~= piece_v);
            }
            assert(out@ == prev + piece_v);
        } else {
            let piece = s.substring_char(i, i + 1);
            proof {
                assert(piece@ =~= seq![c]);
            }
            out.append(piece);
            assert(out@ == prev + piece_v);
        }
        proof {
            assert((prev + piece_v) + spec_escaped_quotes(s@.skip(i + 1)) =~= prev + (piece_v
                + spec_escaped_quotes(s@.skip(i + 1))));
        }
        i = i + 1;
    }
    proof {
        assert(s@.skip(n as int) =~= Seq::<char>::empty());
        assert(spec_escaped_quotes(Seq::<char>::empty()) == Seq::<char>::empty());
        assert(out@ + Seq::<char>::empty() =~= out@);
    }
}

} // verus!
