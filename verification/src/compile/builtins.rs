//! The table of built-ins, and the code of each.

use crate::compile::immed::{
    tagged, Immed, CHAR_SHIFT, CHAR_TAG, FALSE, FX_MASK, FX_SHIFT, NIL, TRUE,
};
use crate::compile::text::{chars_of, decimal, write_decimal};
use crate::lisp_parse::{is_word, push_char};
use vstd::prelude::*;

verus! {

/// `template` with each `{}` replaced by the next of `values` in decimal;
/// a `{}` for which no value is left stays as it is.
pub open spec fn fill(template: Seq<char>, values: Seq<nat>) -> Seq<char>
    decreases template.len(),
{
    if template.len() == 0 {
        Seq::empty()
    } else if template.len() >= 2 && template[0] == '{' && template[1] == '}' && values.len() > 0 {
        decimal(values[0]) + fill(template.skip(2), values.drop_first())
    } else {
        seq![template[0]] + fill(template.drop_first(), values)
    }
}

/// The numbers a vector of numbers stands for.
pub open spec fn nats_of(values: Seq<u64>) -> Seq<nat> {
    Seq::new(values.len(), |i: int| values[i] as nat)
}

/// Appends `template` with each `{}` replaced by the next of `values`.
pub fn write_filled(out: &mut String, template: &str, values: &Vec<u64>)
    ensures
        final(out)@ == old(out)@ + fill(template@, nats_of(values@)),
{
    let letters = chars_of(template);
    let ghost all = letters@;
    let ghost numbers = nats_of(values@);
    let ghost goal = old(out)@ + fill(all, numbers);
    let mut i: usize = 0;
    let mut k: usize = 0;
    assert(all.skip(0) =~= all);
    assert(numbers.skip(0) =~= numbers);
    while i < letters.len()
        invariant
            i <= letters.len(),
            k <= values.len(),
            all == letters@,
            numbers == nats_of(values@),
            out@ + fill(all.skip(i as int), numbers.skip(k as int)) == goal,
        decreases letters.len() - i,
    {
        let ghost rest = all.skip(i as int);
        let ghost left = numbers.skip(k as int);
        if i + 1 < letters.len() && letters[i] == '{' && letters[i + 1] == '}' && k < values.len() {
            assert(rest.skip(2) =~= all.skip(i + 2));
            assert(left.drop_first() =~= numbers.skip(k + 1));
            write_decimal(out, values[k]);
            i += 2;
            k += 1;
        } else {
            assert(rest.drop_first() =~= all.skip(i + 1));
            push_char(out, letters[i]);
            i += 1;
        }
    }
}

/// What the table of built-ins holds for one of them: how many arguments it
/// takes, and its code as a template with the numbers that fill it.
pub struct Builtin {
    pub arity: nat,
    pub template: Seq<char>,
    pub values: Seq<nat>,
}

/// `fixnum?`: whether the value is a fixnum.
pub const IS_FIXNUM: &'static str = "and ${}, %eax\n      setz %al\n      shl $6, %eax\n      orl ${}, %eax\n      ";

/// `bool?`: whether the value is a boolean.
pub const IS_BOOL: &'static str = "and ${}, %eax\n    cmp ${}, %eax\n    sete %al\n    shl $6, %eax\n    orl ${}, %eax\n    ";

/// `char?`: whether the value is a character.
pub const IS_CHAR: &'static str = "and ${}, %eax\n    setnz %al\n    shl $6, %eax\n    orl ${}, %eax\n    ";

/// `not`: whether the value is the boolean false.
pub const NOT: &'static str = "cmp ${}, %eax\n      mov ${}, %eax\n      sete %al\n      shl ${}, %eax\n      orl ${}, %eax\n      ";

/// `fxadd1`: the fixnum plus one.
pub const FXADD1: &'static str = "addl ${}, %eax\n";

/// `fxsub1`: the fixnum minus one.
pub const FXSUB1: &'static str = "subl ${}, %eax\n";

/// `fxzero?`: whether the fixnum is zero.
pub const IS_FXZERO: &'static str = "cmp ${}, %eax\n    mov ${}, %eax\n    sete %al\n    shl ${}, %eax\n    orl ${}, %eax\n    ";

/// `fxnot`: the fixnum with every bit flipped.
pub const FXLOGNOT: &'static str = "not %eax\n    and ${}, %eax\n    ";

/// `null?`: whether the value is the empty list.
pub const IS_NULL: &'static str = "cmp ${}, %eax\n      mov ${}, %eax\n      sete %al\n      shl ${}, %eax\n      orl ${}, %eax\n      ";

/// `char->fixnum`: the code of the character.
pub const CHAR_TO_FIXNUM: &'static str = "xor ${}, %eax\n    shr ${}, %eax\n    ";

/// `fixnum->char`: the character of the code.
pub const FIXNUM_TO_CHAR: &'static str = "shl ${}, %eax\n    orl ${}, %eax\n    ";

/// `fx+`: the sum of two fixnums.
pub const FX_PLUS: &'static str = "addl (%rsp), %eax\n    addq $8, %rsp\n  ";

/// `fx-`: the difference of two fixnums.
pub const FX_SUB: &'static str = "subl (%rsp), %eax\n    addq $8, %rsp\n  ";

/// `fxlogor`: bitwise or.
pub const FXLOGOR: &'static str = "orl (%rsp), %eax\n    andl ${}, %eax\n    addq $8, %rsp\n  ";

/// `fxlogand`: bitwise and.
pub const FXLOGAND: &'static str = "andl (%rsp), %eax\n    andl ${}, %eax\n    addq $8, %rsp\n  ";

/// `fx=`: whether two fixnums are equal.
pub const FX_EQUAL: &'static str = "cmp (%rsp), %eax\n    mov ${}, %edi\n    cmovel %edi, %eax\n    mov ${}, %edi\n    cmovnel %edi, %eax\n    add $8, %rsp\n  ";

/// `fx<`: whether the first fixnum is below the second.
pub const FX_LT: &'static str = "cmp (%rsp), %eax\n    mov ${}, %edi\n    cmovll %edi, %eax\n    mov ${}, %edi\n    cmovgel %edi, %eax\n    add $8, %rsp\n  ";

/// `fx>`: whether the first fixnum is above the second.
pub const FX_GT: &'static str = "cmp (%rsp), %eax\n    mov ${}, %edi\n    cmovgl %edi, %eax\n    mov ${}, %edi\n    cmovlel %edi, %eax\n    add $8, %rsp\n  ";

/// The built-in of the name `name`, if there is one.
pub open spec fn builtin(name: Seq<char>) -> Option<Builtin> {
    if name == "fixnum?"@ {
        Some(Builtin { arity: 1, template: IS_FIXNUM@, values: seq![FX_MASK as nat, FALSE as nat] })
    } else if name == "bool?"@ {
        Some(
            Builtin {
                arity: 1,
                template: IS_BOOL@,
                values: seq![FALSE as nat, FALSE as nat, FALSE as nat],
            },
        )
    } else if name == "char?"@ {
        Some(Builtin { arity: 1, template: IS_CHAR@, values: seq![CHAR_TAG as nat, FALSE as nat] })
    } else if name == "not"@ {
        Some(
            Builtin {
                arity: 1,
                template: NOT@,
                values: seq![FALSE as nat, 0, (CHAR_SHIFT - FX_SHIFT) as nat, FALSE as nat],
            },
        )
    } else if name == "fxadd1"@ {
        Some(Builtin { arity: 1, template: FXADD1@, values: seq![tagged(Immed::Fixnum(1)) as nat] })
    } else if name == "fxsub1"@ {
        Some(Builtin { arity: 1, template: FXSUB1@, values: seq![tagged(Immed::Fixnum(1)) as nat] })
    } else if name == "fxzero?"@ {
        Some(
            Builtin {
                arity: 1,
                template: IS_FXZERO@,
                values: seq![0, 0, (CHAR_SHIFT - FX_SHIFT) as nat, FALSE as nat],
            },
        )
    } else if name == "fxnot"@ {
        Some(Builtin { arity: 1, template: FXLOGNOT@, values: seq![0xffff_fffc] })
    } else if name == "null?"@ {
        Some(
            Builtin {
                arity: 1,
                template: IS_NULL@,
                values: seq![NIL as nat, 0, (CHAR_SHIFT - FX_SHIFT) as nat, FALSE as nat],
            },
        )
    } else if name == "char->fixnum"@ {
        Some(
            Builtin {
                arity: 1,
                template: CHAR_TO_FIXNUM@,
                values: seq![CHAR_TAG as nat, (CHAR_SHIFT - FX_SHIFT) as nat],
            },
        )
    } else if name == "fixnum->char"@ {
        Some(
            Builtin {
                arity: 1,
                template: FIXNUM_TO_CHAR@,
                values: seq![(CHAR_SHIFT - FX_SHIFT) as nat, CHAR_TAG as nat],
            },
        )
    } else if name == "fx+"@ {
        Some(Builtin { arity: 2, template: FX_PLUS@, values: Seq::empty() })
    } else if name == "fx-"@ {
        Some(Builtin { arity: 2, template: FX_SUB@, values: Seq::empty() })
    } else if name == "fxlogor"@ {
        Some(Builtin { arity: 2, template: FXLOGOR@, values: seq![TRUE as nat] })
    } else if name == "fxlogand"@ {
        Some(Builtin { arity: 2, template: FXLOGAND@, values: seq![TRUE as nat] })
    } else if name == "fx="@ {
        Some(Builtin { arity: 2, template: FX_EQUAL@, values: seq![TRUE as nat, FALSE as nat] })
    } else if name == "fx<"@ {
        Some(Builtin { arity: 2, template: FX_LT@, values: seq![TRUE as nat, FALSE as nat] })
    } else if name == "fx>"@ {
        Some(Builtin { arity: 2, template: FX_GT@, values: seq![TRUE as nat, FALSE as nat] })
    } else {
        None
    }
}

/// The code of a built-in.
pub open spec fn code_of(builtin: Builtin) -> Seq<char> {
    fill(builtin.template, builtin.values)
}

/// What the table holds for `arity`, `template` and `values`.
fn entry(
    arity: usize,
    template: &'static str,
    values: Vec<u64>,
) -> (found: Option<(usize, &'static str, Vec<u64>)>)
    ensures
        found == Some((arity, template, values)),
{
    Some((arity, template, values))
}

/// The built-in that a looked-up entry stands for.
pub open spec fn builtin_of(found: Option<(usize, &'static str, Vec<u64>)>) -> Option<Builtin> {
    match found {
        Some((arity, template, values)) => Some(
            Builtin { arity: arity as nat, template: template@, values: nats_of(values@) },
        ),
        None => None,
    }
}

/// Looks up the built-in of the name `name`.
pub fn find_builtin(name: &String) -> (found: Option<(usize, &'static str, Vec<u64>)>)
    ensures
        builtin_of(found) == builtin(name@),
{
    if is_word(name, "fixnum?") {
        let mut values: Vec<u64> = Vec::new();
        values.push(FX_MASK as u64);
        values.push(FALSE as u64);
        assert(nats_of(values@) =~= seq![FX_MASK as nat, FALSE as nat]);
        entry(1, IS_FIXNUM, values)
    } else if is_word(name, "bool?") {
        let mut values: Vec<u64> = Vec::new();
        values.push(FALSE as u64);
        values.push(FALSE as u64);
        values.push(FALSE as u64);
        assert(nats_of(values@) =~= seq![FALSE as nat, FALSE as nat, FALSE as nat]);
        entry(1, IS_BOOL, values)
    } else if is_word(name, "char?") {
        let mut values: Vec<u64> = Vec::new();
        values.push(CHAR_TAG as u64);
        values.push(FALSE as u64);
        assert(nats_of(values@) =~= seq![CHAR_TAG as nat, FALSE as nat]);
        entry(1, IS_CHAR, values)
    } else if is_word(name, "not") {
        let mut values: Vec<u64> = Vec::new();
        values.push(FALSE as u64);
        values.push(0);
        values.push((CHAR_SHIFT - FX_SHIFT) as u64);
        values.push(FALSE as u64);
        assert(nats_of(values@) =~= seq![
            FALSE as nat,
            0,
            (CHAR_SHIFT - FX_SHIFT) as nat,
            FALSE as nat,
        ]);
        entry(1, NOT, values)
    } else if is_word(name, "fxadd1") {
        let mut values: Vec<u64> = Vec::new();
        values.push(Immed::Fixnum(1).value() as u64);
        assert(nats_of(values@) =~= seq![tagged(Immed::Fixnum(1)) as nat]);
        entry(1, FXADD1, values)
    } else if is_word(name, "fxsub1") {
        let mut values: Vec<u64> = Vec::new();
        values.push(Immed::Fixnum(1).value() as u64);
        assert(nats_of(values@) =~= seq![tagged(Immed::Fixnum(1)) as nat]);
        entry(1, FXSUB1, values)
    } else if is_word(name, "fxzero?") {
        let mut values: Vec<u64> = Vec::new();
        values.push(0);
        values.push(0);
        values.push((CHAR_SHIFT - FX_SHIFT) as u64);
        values.push(FALSE as u64);
        assert(nats_of(values@) =~= seq![0, 0, (CHAR_SHIFT - FX_SHIFT) as nat, FALSE as nat]);
        entry(1, IS_FXZERO, values)
    } else if is_word(name, "fxnot") {
        let mut values: Vec<u64> = Vec::new();
        values.push(0xffff_fffc);
        assert(nats_of(values@) =~= seq![0xffff_fffc]);
        entry(1, FXLOGNOT, values)
    } else if is_word(name, "null?") {
        let mut values: Vec<u64> = Vec::new();
        values.push(NIL as u64);
        values.push(0);
        values.push((CHAR_SHIFT - FX_SHIFT) as u64);
        values.push(FALSE as u64);
        assert(nats_of(values@) =~= seq![
            NIL as nat,
            0,
            (CHAR_SHIFT - FX_SHIFT) as nat,
            FALSE as nat,
        ]);
        entry(1, IS_NULL, values)
    } else if is_word(name, "char->fixnum") {
        let mut values: Vec<u64> = Vec::new();
        values.push(CHAR_TAG as u64);
        values.push((CHAR_SHIFT - FX_SHIFT) as u64);
        assert(nats_of(values@) =~= seq![CHAR_TAG as nat, (CHAR_SHIFT - FX_SHIFT) as nat]);
        entry(1, CHAR_TO_FIXNUM, values)
    } else if is_word(name, "fixnum->char") {
        let mut values: Vec<u64> = Vec::new();
        values.push((CHAR_SHIFT - FX_SHIFT) as u64);
        values.push(CHAR_TAG as u64);
        assert(nats_of(values@) =~= seq![(CHAR_SHIFT - FX_SHIFT) as nat, CHAR_TAG as nat]);
        entry(1, FIXNUM_TO_CHAR, values)
    } else if is_word(name, "fx+") {
        let mut values: Vec<u64> = Vec::new();
        assert(nats_of(values@) =~= Seq::<nat>::empty());
        entry(2, FX_PLUS, values)
    } else if is_word(name, "fx-") {
        let mut values: Vec<u64> = Vec::new();
        assert(nats_of(values@) =~= Seq::<nat>::empty());
        entry(2, FX_SUB, values)
    } else if is_word(name, "fxlogor") {
        let mut values: Vec<u64> = Vec::new();
        values.push(TRUE as u64);
        assert(nats_of(values@) =~= seq![TRUE as nat]);
        entry(2, FXLOGOR, values)
    } else if is_word(name, "fxlogand") {
        let mut values: Vec<u64> = Vec::new();
        values.push(TRUE as u64);
        assert(nats_of(values@) =~= seq![TRUE as nat]);
        entry(2, FXLOGAND, values)
    } else if is_word(name, "fx=") {
        let mut values: Vec<u64> = Vec::new();
        values.push(TRUE as u64);
        values.push(FALSE as u64);
        assert(nats_of(values@) =~= seq![TRUE as nat, FALSE as nat]);
        entry(2, FX_EQUAL, values)
    } else if is_word(name, "fx<") {
        let mut values: Vec<u64> = Vec::new();
        values.push(TRUE as u64);
        values.push(FALSE as u64);
        assert(nats_of(values@) =~= seq![TRUE as nat, FALSE as nat]);
        entry(2, FX_LT, values)
    } else if is_word(name, "fx>") {
        let mut values: Vec<u64> = Vec::new();
        values.push(TRUE as u64);
        values.push(FALSE as u64);
        assert(nats_of(values@) =~= seq![TRUE as nat, FALSE as nat]);
        entry(2, FX_GT, values)
    } else {
        None
    }
}

/// The code of `not`.
pub fn not() -> (text: String)
    ensures
        text@ == fill(NOT@, seq![FALSE as nat, 0, (CHAR_SHIFT - FX_SHIFT) as nat, FALSE as nat]),
{
    let mut values: Vec<u64> = Vec::new();
    values.push(FALSE as u64);
    values.push(0);
    values.push((CHAR_SHIFT - FX_SHIFT) as u64);
    values.push(FALSE as u64);
    assert(nats_of(values@) =~= seq![
        FALSE as nat,
        0,
        (CHAR_SHIFT - FX_SHIFT) as nat,
        FALSE as nat,
    ]);
    let mut text = String::new();
    write_filled(&mut text, NOT, &values);
    text
}

/// The code of `fixnum?`.
pub fn is_fixnum() -> (text: String)
    ensures
        text@ == fill(IS_FIXNUM@, seq![FX_MASK as nat, FALSE as nat]),
{
    let mut values: Vec<u64> = Vec::new();
    values.push(FX_MASK as u64);
    values.push(FALSE as u64);
    assert(nats_of(values@) =~= seq![FX_MASK as nat, FALSE as nat]);
    let mut text = String::new();
    write_filled(&mut text, IS_FIXNUM, &values);
    text
}

} // verus!
