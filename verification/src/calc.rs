use vstd::prelude::*;
use crate::text::{str_chars, string_from_chars};
use crate::words::{chars_equal_str, split_whitespace_chars, split_words, views};

verus! {

/// An operator of the shell calculator.
#[derive(Debug, Clone, Copy, PartialEq, Eq, Structural)]
pub enum CalcOp {
    Add,
    Sub,
    Mul,
    Div,
    Rem,
}

/// The operator a token names: "+", "-", "*" or "x", "/", "%".
pub open spec fn calc_op_spec(t: Seq<char>) -> Option<CalcOp> {
    if t == "+"@ {
        Some(CalcOp::Add)
    } else if t == "-"@ {
        Some(CalcOp::Sub)
    } else if t == "*"@ || t == "x"@ {
        Some(CalcOp::Mul)
    } else if t == "/"@ {
        Some(CalcOp::Div)
    } else if t == "%"@ {
        Some(CalcOp::Rem)
    } else {
        None
    }
}

/// A token that multiplies: "*" or "x".
pub open spec fn is_times(t: Seq<char>) -> bool {
    t == "*"@ || t == "x"@
}

/// The text with every space removed.
pub open spec fn without_spaces(s: Seq<char>) -> Seq<char>
    decreases s.len(),
{
    if s.len() == 0 {
        Seq::empty()
    } else if s.last() == ' ' {
        without_spaces(s.drop_last())
    } else {
        without_spaces(s.drop_last()).push(s.last())
    }
}

/// How the calculator reads an expression.
#[derive(Debug, Clone, PartialEq, Eq)]
pub enum CalcForm {
    /// Three words: a number, an operator and a number.
    Binary { lhs: String, op: CalcOp, rhs: String },
    /// Three words whose middle one is no operator.
    BadOperator,
    /// Five words: three numbers joined by two multiplications.
    Product { a: String, b: String, c: String },
    /// Anything else: the whole text, without spaces, read as one number.
    Literal { text: String },
}

fn calc_op(t: &Vec<char>) -> (r: Option<CalcOp>)
    ensures
        r == calc_op_spec(t@),
{
    if chars_equal_str(t, "+") {
        Some(CalcOp::Add)
    } else if chars_equal_str(t, "-") {
        Some(CalcOp::Sub)
    } else if chars_equal_str(t, "*") || chars_equal_str(t, "x") {
        Some(CalcOp::Mul)
    } else if chars_equal_str(t, "/") {
        Some(CalcOp::Div)
    } else if chars_equal_str(t, "%") {
        Some(CalcOp::Rem)
    } else {
        None
    }
}

/// Reads a calculator expression: its words decide the form.
pub fn calc_form(expr: &str) -> (r: CalcForm)
    ensures
        split_words(expr@).len() == 3 ==> match r {
            CalcForm::Binary { lhs, op, rhs } => calc_op_spec(split_words(expr@)[1]) == Some(op)
                && lhs@ == split_words(expr@)[0] && rhs@ == split_words(expr@)[2],
            CalcForm::BadOperator => calc_op_spec(split_words(expr@)[1]) is None,
            _ => false,
        },
        split_words(expr@).len() == 5 && is_times(split_words(expr@)[1]) && is_times(
            split_words(expr@)[3],
        ) ==> (match r {
            CalcForm::Product { a, b, c } => a@ == split_words(expr@)[0] && b@ == split_words(
                expr@,
            )[2] && c@ == split_words(expr@)[4],
            _ => false,
        }),
        !(split_words(expr@).len() == 3) && !(split_words(expr@).len() == 5 && is_times(
            split_words(expr@)[1],
        ) && is_times(split_words(expr@)[3])) ==> (match r {
            CalcForm::Literal { text } => text@ == without_spaces(expr@),
            _ => false,
        }),
{
    let chars = str_chars(expr);
    let t = split_whitespace_chars(&chars);
    proof {
        assert(views(t@).len() == t@.len());
    }
    if t.len() == 3 {
        assert(views(t@)[1] == t@[1]@ && views(t@)[0] == t@[0]@ && views(t@)[2] == t@[2]@);
        match calc_op(&t[1]) {
            Some(op) => CalcForm::Binary {
                lhs: string_from_chars(&t[0]),
                op,
                rhs: string_from_chars(&t[2]),
            },
            None => CalcForm::BadOperator,
        }
    } else if t.len() == 5 && (chars_equal_str(&t[1], "*") || chars_equal_str(&t[1], "x")) && (
    chars_equal_str(&t[3], "*") || chars_equal_str(&t[3], "x")) {
        assert(views(t@)[0] == t@[0]@ && views(t@)[2] == t@[2]@ && views(t@)[4] == t@[4]@);
        assert(views(t@)[1] == t@[1]@ && views(t@)[3] == t@[3]@);
        CalcForm::Product {
            a: string_from_chars(&t[0]),
            b: string_from_chars(&t[2]),
            c: string_from_chars(&t[4]),
        }
    } else {
        proof {
            if t.len() == 5 {
                assert(views(t@)[1] == t@[1]@ && views(t@)[3] == t@[3]@);
            }
        }
        let mut out: Vec<char> = Vec::new();
        let mut i: usize = 0;
        while i < chars.len()
            invariant
                i <= chars.len(),
                chars@ == expr@,
                out@ == without_spaces(chars@.take(i as int)),
            decreases chars.len() - i,
        {
            assert(chars@.take(i + 1).drop_last() =~= chars@.take(i as int));
            if chars[i] != ' ' {
                out.push(chars[i]);
            }
            i = i + 1;
        }
        assert(chars@.take(chars.len() as int) =~= chars@);
        CalcForm::Literal { text: string_from_chars(&out) }
    }
}

/// The calculator's operators: "+" adds, "-" subtracts, "*" and "x"
/// multiply, "/" divides, "%" takes the remainder.
pub proof fn lemma_calc_operators(t: Seq<char>)
    ensures
        t == "+"@ ==> calc_op_spec(t) == Some(CalcOp::Add),
        t == "-"@ ==> calc_op_spec(t) == Some(CalcOp::Sub),
        t == "*"@ ==> calc_op_spec(t) == Some(CalcOp::Mul),
        t == "x"@ ==> calc_op_spec(t) == Some(CalcOp::Mul),
        t == "/"@ ==> calc_op_spec(t) == Some(CalcOp::Div),
        t == "%"@ ==> calc_op_spec(t) == Some(CalcOp::Rem),
{
    reveal_strlit("+");
    reveal_strlit("-");
    reveal_strlit("*");
    reveal_strlit("x");
    reveal_strlit("/");
    reveal_strlit("%");
    if t == "+"@ {
        assert(t.len() == 1);
        assert(t[0] == '+');
    }
    if t == "-"@ {
        assert(t.len() == 1);
        assert(t[0] == '-');
    }
    if t == "*"@ {
        assert(t.len() == 1);
        assert(t[0] == '*');
    }
    if t == "x"@ {
        assert(t.len() == 1);
        assert(t[0] == 'x');
    }
    if t == "/"@ {
        assert(t.len() == 1);
        assert(t[0] == '/');
    }
    if t == "%"@ {
        assert(t.len() == 1);
        assert(t[0] == '%');
    }
}

} // verus!
