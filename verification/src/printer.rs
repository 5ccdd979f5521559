//! An indented rendering of expression trees, one node per line.

use vstd::prelude::*;
use vstd::string::StringExecFns;
use crate::ast::{Expr, ExprModel};
use crate::text::push_char;

verus! {

/// The character of a decimal digit.
pub open spec fn digit_char(d: int) -> char {
    ('0' as int + d) as char
}

/// The decimal digits of a natural number, without leading zeros.
pub open spec fn decimal_digits(n: nat) -> Seq<char>
    decreases n,
{
    if n < 10 {
        seq![digit_char(n as int)]
    } else {
        decimal_digits(n / 10).push(digit_char((n % 10) as int))
    }
}

/// An integer in decimal, with a minus sign in front of a negative one.
pub open spec fn decimal_text(n: int) -> Seq<char> {
    if n < 0 {
        seq!['-'] + decimal_digits((-n) as nat)
    } else {
        decimal_digits(n as nat)
    }
}

/// The indentation of depth `indent`: two spaces per level.
pub open spec fn padding(indent: nat) -> Seq<char>
    decreases indent,
{
    if indent == 0 {
        Seq::empty()
    } else {
        padding((indent - 1) as nat) + "  "@
    }
}

/// The lines of `expr`, each node's line starting with `pad` and the lines of
/// its children indented one level deeper.
pub open spec fn render_with(expr: ExprModel, pad: Seq<char>) -> Seq<char>
    decreases expr,
{
    match expr {
        ExprModel::Number(value) => pad + "Number("@ + decimal_text(value as int) + ")\n"@,
        ExprModel::Ident(name) => pad + "Ident("@ + name + ")\n"@,
        ExprModel::Binary { op, left, right } => pad + "Binary("@ + seq![op] + ")\n"@
            + render_with(*left, pad + "  "@) + render_with(*right, pad + "  "@),
    }
}

/// The lines of `expr` with its root at depth `indent`.
pub open spec fn render(expr: ExprModel, indent: nat) -> Seq<char> {
    render_with(expr, padding(indent))
}

/// Appends `value` in decimal to `out`.
pub fn append_decimal(out: &mut String, value: i64)
    ensures
        final(out)@ == old(out)@ + decimal_text(value as int),
{
    let magnitude: u64 = if value < 0 {
        push_char(out, '-');
        (-(value + 1)) as u64 + 1
    } else {
        value as u64
    };
    let ghost head = out@;
    assert(head + decimal_digits(magnitude as nat) =~= old(out)@ + decimal_text(value as int));
    assert(decimal_digits(magnitude as nat) + Seq::<char>::empty() =~= decimal_digits(
        magnitude as nat,
    ));
    // The digits, least significant first.
    let mut reversed: Vec<char> = Vec::new();
    let mut rest: u64 = magnitude;
    let ghost mut text: Seq<char> = Seq::empty();
    loop
        invariant_except_break
            decimal_digits(magnitude as nat) == decimal_digits(rest as nat) + text,
        invariant
            reversed@.len() == text.len(),
            forall|i: int| 0 <= i < text.len() ==> reversed@[i] == text[text.len() - 1 - i],
        ensures
            decimal_digits(magnitude as nat) == text,
        decreases rest,
    {
        let d: u8 = (rest % 10) as u8;
        let c: char = (48u8 + d) as char;
        proof {
            assert(c == digit_char(d as int));
            let longer = seq![c] + text;
            if rest >= 10 {
                assert(decimal_digits(rest as nat) + text =~= decimal_digits((rest / 10) as nat)
                    + longer);
            } else {
                assert(decimal_digits(rest as nat) + text =~= longer);
            }
            assert forall|i: int| 0 <= i < longer.len() implies reversed@.push(c)[i] == longer[longer.len()
                - 1 - i] by {
                if i < text.len() {
                    assert(longer[longer.len() - 1 - i] == text[text.len() - 1 - i]);
                }
            }
            text = longer;
        }
        reversed.push(c);
        rest = rest / 10;
        if rest == 0 {
            break;
        }
    }
    let mut i: usize = reversed.len();
    while i > 0
        invariant
            i <= reversed@.len(),
            reversed@.len() == text.len(),
            forall|j: int| 0 <= j < text.len() ==> reversed@[j] == text[text.len() - 1 - j],
            out@ == head + text.take(text.len() - i),
        decreases i,
    {
        i -= 1;
        push_char(out, reversed[i]);
        proof {
            assert(text.take(text.len() - i) =~= text.take(text.len() - i - 1).push(
                text[text.len() - 1 - i],
            ));
            assert(out@ =~= head + text.take(text.len() - i));
        }
    }
    assert(text.take(text.len() as int) =~= text);
}

/// Appends the lines of `expr` to `out`, with `pad` in front of the root's
/// line.
pub fn render_into(expr: &Expr, pad: &String, out: &mut String)
    ensures
        final(out)@ == old(out)@ + render_with(expr@, pad@),
    decreases expr,
{
    let ghost before = out@;
    out.append(pad.as_str());
    match expr {
        Expr::Number(value) => {
            out.append("Number(");
            append_decimal(out, *value);
            out.append(")\n");
            assert(out@ =~= before + render_with(expr@, pad@));
        },
        Expr::Ident(name) => {
            out.append("Ident(");
            out.append(name.as_str());
            out.append(")\n");
            assert(out@ =~= before + render_with(expr@, pad@));
        },
        Expr::Binary { op, left, right } => {
            out.append("Binary(");
            push_char(out, *op);
            out.append(")\n");
            let mut deeper = pad.clone();
            deeper.append("  ");
            render_into(left, &deeper, out);
            render_into(right, &deeper, out);
            assert(out@ =~= before + render_with(expr@, pad@));
        },
    }
}

/// The indented rendering of `expr`, one node per line, with the root at
/// depth `indent` and each child one level deeper than its parent.
pub fn render_expr(expr: &Expr, indent: usize) -> (out: String)
    ensures
        out@ == render(expr@, indent as nat),
{
    let mut pad = String::new();
    let mut level: usize = 0;
    while level < indent
        invariant
            level <= indent,
            pad@ == padding(level as nat),
        decreases indent - level,
    {
        pad.append("  ");
        level += 1;
    }
    let mut out = String::new();
    render_into(expr, &pad, &mut out);
    assert(out@ =~= render(expr@, indent as nat));
    out
}

} // verus!
