//! From a token tree to assembly text.
//!
//! Every value is an immediate: a 32-bit word whose low bits tell its kind.
//! A call leaves its first argument in `%eax` and the others on the stack,
//! and the code of a built-in works on them there.

use crate::compile::builtins::{builtin, code_of, fill, find_builtin, nats_of, write_filled};
use crate::compile::immed::{tagged, Immed, TRUE};
use crate::compile::labels::Counter;
use crate::compile::text::{chars_of, fixnum, parse_fixnum, prefixed_binary, write_binary};
use crate::lisp_parse::{is_word, lemma_group_tree, trees_of, Token, Tree};
use vstd::prelude::*;
use vstd::string::StringExecFns;

verus! {

/// The model of an expression of this backend.
pub enum Form {
    Immed(Immed),
    /// A built-in's name and the arguments it is called on.
    Expr(Seq<char>, Seq<Form>),
    If(Box<Form>, Box<Form>, Box<Form>),
    /// A word that is no value.
    Malformed(Seq<char>),
}

/// An expression of this backend.
#[derive(Debug)]
pub enum Sexp {
    Immed(Immed),
    Expr(String, Vec<Sexp>),
    If(Box<Sexp>, Box<Sexp>, Box<Sexp>),
    Malformed(String),
}

impl Sexp {
    /// The form this expression stands for.
    pub open spec fn form(&self) -> Form
        decreases self,
    {
        match self {
            Sexp::Immed(immed) => Form::Immed(*immed),
            Sexp::Expr(name, args) => Form::Expr(
                name@,
                Seq::new(
                    args.len() as nat,
                    |i: int|
                        if 0 <= i < args.len() {
                            args[i].form()
                        } else {
                            Form::Immed(Immed::Nil)
                        },
                ),
            ),
            Sexp::If(test, then, otherwise) => Form::If(
                Box::new(test.form()),
                Box::new(then.form()),
                Box::new(otherwise.form()),
            ),
            Sexp::Malformed(word) => Form::Malformed(word@),
        }
    }
}

impl View for Sexp {
    type V = Form;

    open spec fn view(&self) -> Form {
        self.form()
    }
}

/// The forms a sequence of expressions stands for.
pub open spec fn forms_of(sexps: Seq<Sexp>) -> Seq<Form> {
    Seq::new(sexps.len(), |i: int| sexps[i]@)
}

/// A call's form holds the forms of its arguments, in order.
pub proof fn lemma_expr_form(name: &String, args: &Vec<Sexp>)
    ensures
        Sexp::Expr(*name, *args)@ == Form::Expr(name@, forms_of(args@)),
{
    assert(Sexp::Expr(*name, *args).form()->Expr_1 =~= forms_of(args@));
}

/// Whether a word is `#\` and one ASCII character.
pub open spec fn is_char_word(word: Seq<char>) -> bool {
    word.len() == 3 && word[0] == '#' && word[1] == '\\' && (word[2] as u32) < 128
}

/// The form a bare word stands for: a boolean for `#t` and `#f`, the empty
/// list for `nil` and `()`, a fixnum where the word is an integer that fits,
/// a character for `#\` and one ASCII character, and no value otherwise.
pub open spec fn classify_word(word: Seq<char>) -> Form {
    if word == "#t"@ {
        Form::Immed(Immed::Bool(true))
    } else if word == "#f"@ {
        Form::Immed(Immed::Bool(false))
    } else if word == "nil"@ || word == "()"@ {
        Form::Immed(Immed::Nil)
    } else if let Some(n) = fixnum(word) {
        Form::Immed(Immed::Fixnum(n))
    } else if is_char_word(word) {
        Form::Immed(Immed::Char(word[2] as u8))
    } else {
        Form::Malformed(word)
    }
}

/// Whether a tree can be classified: no group in it, nor in its parts, is
/// headed by a group.
pub open spec fn classifiable(tree: Tree) -> bool
    decreases tree,
{
    match tree {
        Tree::Word(_) => true,
        Tree::Group(items) => items.len() == 0 || {
            &&& items[0] is Word
            &&& forall|i: int| 1 <= i < items.len() ==> classifiable(#[trigger] items[i])
        },
    }
}

/// The form a token tree stands for. The empty group is the empty list; a
/// group of four headed by `if` is a conditional; any other group is a call
/// of the built-in that its head names on the rest.
pub open spec fn classify(tree: Tree) -> Form
    decreases tree,
{
    match tree {
        Tree::Word(word) => classify_word(word),
        Tree::Group(items) => if items.len() == 0 {
            Form::Immed(Immed::Nil)
        } else {
            match items[0] {
                Tree::Group(_) => Form::Malformed(Seq::empty()),
                Tree::Word(name) => if name == "if"@ && items.len() == 4 {
                    Form::If(
                        Box::new(classify(items[1])),
                        Box::new(classify(items[2])),
                        Box::new(classify(items[3])),
                    )
                } else {
                    Form::Expr(
                        name,
                        Seq::new(
                            (items.len() - 1) as nat,
                            |i: int|
                                if 0 <= i < items.len() - 1 {
                                    classify(items[i + 1])
                                } else {
                                    Form::Immed(Immed::Nil)
                                },
                        ),
                    )
                },
            }
        },
    }
}

/// Classifies a bare word.
fn word_type(word: &String) -> (sexp: Sexp)
    ensures
        sexp@ == classify_word(word@),
{
    if is_word(word, "#t") {
        return Sexp::Immed(Immed::Bool(true));
    }
    if is_word(word, "#f") {
        return Sexp::Immed(Immed::Bool(false));
    }
    if is_word(word, "nil") || is_word(word, "()") {
        return Sexp::Immed(Immed::Nil);
    }
    if let Some(n) = parse_fixnum(word.as_str()) {
        return Sexp::Immed(Immed::Fixnum(n));
    }
    let letters = chars_of(word.as_str());
    if letters.len() == 3 && letters[0] == '#' && letters[1] == '\\' && (letters[2] as u32) < 128 {
        return Sexp::Immed(Immed::Char(letters[2] as u8));
    }
    Sexp::Malformed(word.clone())
}

/// Whether a tree can be classified.
#[verifier::loop_isolation(false)]
pub fn is_classifiable(token: &Token) -> (r: bool)
    ensures
        r == classifiable(token@),
    decreases token,
{
    match token {
        Token::Word(_) => true,
        Token::Group(items) => {
            proof {
                lemma_group_tree(*items);
            }
            let ghost trees = trees_of(items@);
            if items.len() == 0 {
                return true;
            }
            if let Token::Group(_) = &items[0] {
                return false;
            }
            let mut i: usize = 1;
            while i < items.len()
                invariant
                    1 <= i <= items.len(),
                    trees == trees_of(items@),
                    forall|k: int| 1 <= k < i ==> classifiable(#[trigger] trees[k]),
                decreases items.len() - i,
            {
                assert(trees[i as int] == items[i as int]@);
                if !is_classifiable(&items[i]) {
                    return false;
                }
                i += 1;
            }
            true
        },
    }
}

impl Sexp {
    /// Classifies a token tree.
    #[verifier::loop_isolation(false)]
    pub fn type_of(t: &Token) -> (sexp: Sexp)
        requires
            classifiable(t@),
        ensures
            sexp@ == classify(t@),
        decreases t,
    {
        match t {
            Token::Word(word) => word_type(word),
            Token::Group(g) => {
                proof {
                    lemma_group_tree(*g);
                }
                let ghost trees = trees_of(g@);
                if g.len() == 0 {
                    return Sexp::Immed(Immed::Nil);
                }
                match &g[0] {
                    Token::Group(_) => Sexp::Malformed(String::new()),
                    Token::Word(name) => {
                        if is_word(name, "if") && g.len() == 4 {
                            return Sexp::If(
                                Box::new(Sexp::type_of(&g[1])),
                                Box::new(Sexp::type_of(&g[2])),
                                Box::new(Sexp::type_of(&g[3])),
                            );
                        }
                        let mut args: Vec<Sexp> = Vec::new();
                        let mut i: usize = 1;
                        while i < g.len()
                            invariant
                                1 <= i <= g.len(),
                                trees == trees_of(g@),
                                classifiable(Tree::Group(trees)),
                                args.len() == i - 1,
                                forall|k: int|
                                    0 <= k < i - 1 ==> (#[trigger] args[k])@ == classify(
                                        trees[k + 1],
                                    ),
                            decreases g.len() - i,
                        {
                            assert(trees[i as int] == g[i as int]@);
                            args.push(Sexp::type_of(&g[i]));
                            i += 1;
                        }
                        proof {
                            lemma_expr_form(name, &args);
                            assert(forms_of(args@) =~= classify(t@)->Expr_1);
                        }
                        Sexp::Expr(name.clone(), args)
                    },
                }
            },
        }
    }
}

/// What comes before the code of a program.
pub const PRELUDE: &'static str = "\n    .text\n    .globl _scheme\n  _scheme: ## @_scheme\n  ";

/// What comes after the code of a program.
pub const RETURN: &'static str = "  ret";

/// Loads an immediate: what comes before the word.
pub const LOAD: &'static str = "mov $";

/// Loads an immediate: what comes after the word.
pub const INTO_EAX: &'static str = ", %eax\n";

/// Keeps an argument on the stack.
pub const PUSH: &'static str = "push %rax\n";

/// After a conditional's test: the word of true, and the label.
pub const IF_TEST: &'static str = "cmp ${}, %eax\n        jne alt_{}\n        ";

/// After a conditional's first branch: the label, twice.
pub const IF_ELSE: &'static str = "jmp end_if_{}\n        alt_{}:\n        ";

/// After a conditional's second branch: the label.
pub const IF_END: &'static str = "end_if_{}:\n";

/// How many labels the code of a form takes: one for each conditional.
pub open spec fn labels_needed(form: Form) -> nat
    decreases form, 0nat,
{
    match form {
        Form::Immed(_) => 0,
        Form::Malformed(_) => 0,
        Form::If(test, then, otherwise) => 1 + labels_needed(*test) + labels_needed(*then)
            + labels_needed(*otherwise),
        Form::Expr(_, args) => labels_needed_by(args, args.len() as int),
    }
}

/// How many labels the code of the first `n` arguments takes.
pub open spec fn labels_needed_by(args: Seq<Form>, n: int) -> nat
    decreases args, n,
{
    if n <= 0 || n > args.len() {
        0
    } else {
        labels_needed(args[n - 1]) + labels_needed_by(args, n - 1)
    }
}

/// Whether code can be written for a form: it holds no word that is no
/// value, and every call in it names a built-in and gives it as many
/// arguments as it takes.
pub open spec fn emittable(form: Form) -> bool
    decreases form,
{
    match form {
        Form::Immed(_) => true,
        Form::Malformed(_) => false,
        Form::If(test, then, otherwise) => emittable(*test) && emittable(*then) && emittable(
            *otherwise,
        ),
        Form::Expr(name, args) => {
            &&& builtin(name) matches Some(found) && found.arity == args.len()
            &&& forall|i: int| 0 <= i < args.len() ==> emittable(#[trigger] args[i])
        },
    }
}

/// The code of a form, where `label` is the first label that is free.
///
/// An immediate is loaded into `%eax`. A call computes its arguments from
/// the last to the first, pushing each but the first, and then runs the
/// built-in. A conditional takes the label, computes the test, and jumps
/// over the first branch unless the test is true.
pub open spec fn emitted(form: Form, label: nat) -> Seq<char>
    decreases form, 0nat,
{
    match form {
        Form::Immed(immed) => LOAD@ + prefixed_binary(tagged(immed)) + INTO_EAX@,
        Form::Malformed(_) => Seq::empty(),
        Form::If(test, then, otherwise) => {
            let after_test = label + 1 + labels_needed(*test);
            let after_then = after_test + labels_needed(*then);
            emitted(*test, label + 1) + fill(IF_TEST@, seq![TRUE as nat, label]) + emitted(
                *then,
                after_test,
            ) + fill(IF_ELSE@, seq![label, label]) + emitted(*otherwise, after_then) + fill(
                IF_END@,
                seq![label],
            )
        },
        Form::Expr(name, args) => emitted_args(args, args.len() as int, label) + match builtin(
            name,
        ) {
            Some(found) => code_of(found),
            None => Seq::empty(),
        },
    }
}

/// The code of the first `n` arguments of a call, the last of them first.
pub open spec fn emitted_args(args: Seq<Form>, n: int, label: nat) -> Seq<char>
    decreases args, n,
{
    if n <= 0 || n > args.len() {
        Seq::empty()
    } else {
        emitted(args[n - 1], label) + if n == 1 {
            Seq::<char>::empty()
        } else {
            PUSH@
        } + emitted_args(args, n - 1, label + labels_needed(args[n - 1]))
    }
}

/// The text of a whole program.
pub open spec fn compiled(tree: Tree, label: nat) -> Seq<char> {
    PRELUDE@ + emitted(classify(tree), label) + RETURN@
}

impl Sexp {
    /// Whether code can be written for this expression.
    #[verifier::loop_isolation(false)]
    pub fn is_emittable(&self) -> (r: bool)
        ensures
            r == emittable(self@),
        decreases self,
    {
        match self {
            Sexp::Immed(_) => true,
            Sexp::Malformed(_) => false,
            Sexp::If(test, then, otherwise) => test.is_emittable() && then.is_emittable()
                && otherwise.is_emittable(),
            Sexp::Expr(name, args) => {
                proof {
                    lemma_expr_form(name, args);
                }
                let ghost forms = forms_of(args@);
                match find_builtin(name) {
                    None => false,
                    Some((arity, _, _)) => {
                        if arity != args.len() {
                            return false;
                        }
                        let mut i: usize = 0;
                        while i < args.len()
                            invariant
                                i <= args.len(),
                                forall|k: int| 0 <= k < i ==> emittable(#[trigger] forms[k]),
                            decreases args.len() - i,
                        {
                            assert(forms[i as int] == args[i as int]@);
                            if !args[i].is_emittable() {
                                return false;
                            }
                            i += 1;
                        }
                        true
                    },
                }
            },
        }
    }

    /// How many labels the code of this expression takes, where that number
    /// fits in 64 bits.
    #[verifier::loop_isolation(false)]
    pub fn count_labels(&self) -> (count: Option<u64>)
        ensures
            match count {
                Some(n) => n == labels_needed(self@),
                None => labels_needed(self@) > u64::MAX,
            },
        decreases self,
    {
        match self {
            Sexp::Immed(_) => Some(0),
            Sexp::Malformed(_) => Some(0),
            Sexp::If(test, then, otherwise) => {
                let a = match test.count_labels() {
                    None => {
                        return None;
                    },
                    Some(n) => n,
                };
                let b = match then.count_labels() {
                    None => {
                        return None;
                    },
                    Some(n) => n,
                };
                let c = match otherwise.count_labels() {
                    None => {
                        return None;
                    },
                    Some(n) => n,
                };
                match a.checked_add(b) {
                    None => None,
                    Some(ab) => match ab.checked_add(c) {
                        None => None,
                        Some(abc) => abc.checked_add(1),
                    },
                }
            },
            Sexp::Expr(name, args) => {
                proof {
                    lemma_expr_form(name, args);
                }
                let ghost forms = forms_of(args@);
                let mut total: u64 = 0;
                let mut i: usize = 0;
                while i < args.len()
                    invariant
                        i <= args.len(),
                        total == labels_needed_by(forms, i as int),
                    decreases args.len() - i,
                {
                    proof {
                        lemma_labels_grow(forms, i + 1, args.len() as int);
                    }
                    let next = match args[i].count_labels() {
                        None => {
                            return None;
                        },
                        Some(n) => n,
                    };
                    total = match total.checked_add(next) {
                        None => {
                            return None;
                        },
                        Some(sum) => sum,
                    };
                    i += 1;
                }
                Some(total)
            },
        }
    }

    /// Appends the code of this expression to `out`, taking its labels from
    /// `labels`.
    #[verifier::loop_isolation(false)]
    pub fn emit(&self, out: &mut String, labels: &mut Counter)
        requires
            emittable(self@),
            old(labels)@ + labels_needed(self@) <= u64::MAX,
        ensures
            final(out)@ == old(out)@ + emitted(self@, old(labels)@),
            final(labels)@ == old(labels)@ + labels_needed(self@),
        decreases self,
    {
        match self {
            Sexp::Immed(v) => {
                out.append(LOAD);
                write_binary(out, v.value());
                out.append(INTO_EAX);
            },
            Sexp::Malformed(_) => {},
            Sexp::If(test, then, otherwise) => {
                let label = labels.take();
                let ghost l = label as nat;
                test.emit(out, labels);
                let mut values: Vec<u64> = Vec::new();
                values.push(TRUE as u64);
                values.push(label);
                assert(nats_of(values@) =~= seq![TRUE as nat, l]);
                write_filled(out, IF_TEST, &values);
                then.emit(out, labels);
                let mut values: Vec<u64> = Vec::new();
                values.push(label);
                values.push(label);
                assert(nats_of(values@) =~= seq![l, l]);
                write_filled(out, IF_ELSE, &values);
                otherwise.emit(out, labels);
                let mut values: Vec<u64> = Vec::new();
                values.push(label);
                assert(nats_of(values@) =~= seq![l]);
                write_filled(out, IF_END, &values);
            },
            Sexp::Expr(name, args) => {
                proof {
                    lemma_expr_form(name, args);
                }
                let ghost forms = forms_of(args@);
                let ghost start = old(labels)@;
                let n = args.len();
                let mut k: usize = n;
                while k > 0
                    invariant
                        k <= n,
                        labels@ + labels_needed_by(forms, k as int) == start + labels_needed_by(
                            forms,
                            n as int,
                        ),
                        out@ + emitted_args(forms, k as int, labels@) == old(out)@ + emitted_args(
                            forms,
                            n as int,
                            start,
                        ),
                    decreases k,
                {
                    args[k - 1].emit(out, labels);
                    if k - 1 != 0 {
                        out.append(PUSH);
                    }
                    k -= 1;
                }
                match find_builtin(name) {
                    None => {},
                    Some((_, template, values)) => {
                        write_filled(out, template, &values);
                    },
                }
            },
        }
    }
}

/// The first `n` arguments take no more labels than the first `m`, for
/// `n` up to `m`.
proof fn lemma_labels_grow(args: Seq<Form>, n: int, m: int)
    requires
        0 <= n <= m <= args.len(),
    ensures
        labels_needed_by(args, n) <= labels_needed_by(args, m),
    decreases m - n,
{
    if n < m {
        lemma_labels_grow(args, n, m - 1);
    }
}

/// Appends what comes before the code of a program.
pub fn prelude(out: &mut String)
    ensures
        final(out)@ == old(out)@ + PRELUDE@,
{
    out.append(PRELUDE);
}

/// Whether `body` is a program that `compile` takes, with the labels that
/// `labels` has left: it can be classified, code can be written for it, and
/// the labels do not run out.
pub open spec fn compilable(tree: Tree, label: nat) -> bool {
    &&& classifiable(tree)
    &&& emittable(classify(tree))
    &&& label + labels_needed(classify(tree)) <= u64::MAX
}

/// Whether `body` is a program that `compile` takes.
pub fn can_compile(body: &Token, labels: &Counter) -> (r: bool)
    ensures
        r == compilable(body@, labels@),
{
    if !is_classifiable(body) {
        return false;
    }
    let sexp = Sexp::type_of(body);
    if !sexp.is_emittable() {
        return false;
    }
    match sexp.count_labels() {
        None => false,
        Some(needed) => needed <= u64::MAX - labels.0,
    }
}

/// Appends the assembly text of the program `body` to `to`.
pub fn compile(body: &Token, to: &mut String, labels: &mut Counter)
    requires
        compilable(body@, old(labels)@),
    ensures
        final(to)@ == old(to)@ + compiled(body@, old(labels)@),
        final(labels)@ == old(labels)@ + labels_needed(classify(body@)),
{
    prelude(to);
    Sexp::type_of(body).emit(to, labels);
    to.append(RETURN);
}

} // verus!
