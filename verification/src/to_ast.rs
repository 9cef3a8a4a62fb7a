//! The reader's second half: from a token tree to an expression.

use crate::ast::{
    lemma_call_term, lemma_defn_function, params_of, terms_of, Assign, Defn, EvalError, Expr,
    ParamType, Type,
};
use crate::host::{read_numeral, reads, reads_all};
use crate::lisp_parse::{is_word, lemma_group_tree, trees_of, Token, Tree};
use crate::model::{literal, Failure, Function, Numerals, Param, Term, Value};
use crate::number::Number;
use std::sync::Arc;
use vstd::prelude::*;

verus! {

/// The words that name a form and cannot name a variable.
pub open spec fn is_reserved(word: Seq<char>) -> bool {
    word == "let"@ || word == "defn"@ || word == "if"@
}

/// Whether a word begins and ends with a quotation mark.
pub open spec fn is_quoted(word: Seq<char>) -> bool {
    word.len() > 0 && word.first() == '"' && word.last() == '"'
}

/// The term a bare word stands for: nothing where the word is reserved,
/// the empty list for `[]`, a number where the host reads one, a text where
/// the word is quoted (the quotation marks stay part of it), and a variable
/// otherwise.
pub open spec fn read_word(numerals: Numerals, word: Seq<char>) -> Result<Term, Failure> {
    if is_reserved(word) {
        Err(Failure::MalformedSyntax(word))
    } else if word == "[]"@ {
        Ok(literal(Value::List(Seq::empty())))
    } else if let Some(bits) = numerals(word) {
        Ok(literal(Value::Number(bits)))
    } else if is_quoted(word) {
        Ok(literal(Value::Str(word)))
    } else {
        Ok(Term::Variable(word))
    }
}

/// The parameter a token of a definition's head stands for: a word that
/// begins with `&` takes the rest of the arguments under the name that
/// follows the `&`; any other word takes one. A group is no parameter.
pub open spec fn read_param(tree: Tree) -> Option<Param> {
    match tree {
        Tree::Word(word) => Some(
            if word.len() > 0 && word[0] == '&' {
                Param::Rest(word.skip(1))
            } else {
                Param::Fixed(word)
            },
        ),
        Tree::Group(_) => None,
    }
}

/// Whether the trees are parameters, with a rest parameter, if any, in the
/// last place only.
pub open spec fn are_params(trees: Seq<Tree>) -> bool {
    forall|i: int|
        0 <= i < trees.len() ==> {
            &&& (#[trigger] read_param(trees[i])) is Some
            &&& read_param(trees[i]) matches Some(Param::Rest(_)) ==> i == trees.len() - 1
        }
}

/// The parameters that the trees stand for.
pub open spec fn read_params(trees: Seq<Tree>) -> Seq<Param> {
    Seq::new(trees.len(), |i: int| read_param(trees[i])->Some_0)
}

/// The failure of a form that is not put together as it must be.
pub open spec fn malformed(construct: Seq<char>) -> Result<Term, Failure> {
    Err(Failure::MalformedSyntax(construct))
}

/// The term a token tree stands for.
///
/// A word is read by `read_word`. The empty group is the unit value. A group
/// headed by `let`, `defn` or `if` is that form; any other group is a call
/// of its head on the rest. Parts are read from left to right and the first
/// failure is the failure of the whole.
pub open spec fn build(numerals: Numerals, tree: Tree) -> Result<Term, Failure>
    decreases tree, 0nat,
{
    match tree {
        Tree::Word(word) => read_word(numerals, word),
        Tree::Group(items) => if items.len() == 0 {
            Ok(literal(Value::Unit))
        } else if items[0] == Tree::Word("let"@) {
            build_let(numerals, items)
        } else if items[0] == Tree::Word("defn"@) {
            build_defn(numerals, items)
        } else if items[0] == Tree::Word("if"@) {
            build_if(numerals, items)
        } else {
            build_call(numerals, items)
        },
    }
}

/// `(let name value body)`: exactly three parts after the head, the first
/// of them a word.
pub open spec fn build_let(numerals: Numerals, items: Seq<Tree>) -> Result<Term, Failure>
    decreases items, 0nat,
{
    if items.len() != 4 {
        malformed("let"@)
    } else {
        match items[1] {
            Tree::Group(_) => malformed("let"@),
            Tree::Word(name) => match build(numerals, items[2]) {
                Err(failure) => Err(failure),
                Ok(value) => match build(numerals, items[3]) {
                    Err(failure) => Err(failure),
                    Ok(body) => Ok(Term::Local(name, Box::new(value), Box::new(body))),
                },
            },
        }
    }
}

/// `(defn name params.. body)`: a name that is a word, then the parameters,
/// then the body as the last part.
pub open spec fn build_defn(numerals: Numerals, items: Seq<Tree>) -> Result<Term, Failure>
    decreases items, 0nat,
{
    if items.len() < 3 {
        malformed("defn"@)
    } else {
        match items[1] {
            Tree::Group(_) => malformed("defn"@),
            Tree::Word(name) => if !are_params(items.subrange(2, items.len() - 1)) {
                malformed("defn"@)
            } else {
                match build(numerals, items.last()) {
                    Err(failure) => Err(failure),
                    Ok(body) => Ok(
                        Term::Definition(
                            Box::new(
                                Function {
                                    name,
                                    params: read_params(items.subrange(2, items.len() - 1)),
                                    body,
                                },
                            ),
                        ),
                    ),
                }
            },
        }
    }
}

/// `(if test then else)`: exactly three parts after the head.
pub open spec fn build_if(numerals: Numerals, items: Seq<Tree>) -> Result<Term, Failure>
    decreases items, 0nat,
{
    if items.len() != 4 {
        malformed("if"@)
    } else {
        match build(numerals, items[1]) {
            Err(failure) => Err(failure),
            Ok(test) => match build(numerals, items[2]) {
                Err(failure) => Err(failure),
                Ok(then) => match build(numerals, items[3]) {
                    Err(failure) => Err(failure),
                    Ok(otherwise) => Ok(
                        Term::Conditional(Box::new(test), Box::new(then), Box::new(otherwise)),
                    ),
                },
            },
        }
    }
}

/// A call: the head is the operator, the parts after it the operands.
pub open spec fn build_call(numerals: Numerals, items: Seq<Tree>) -> Result<Term, Failure>
    recommends
        items.len() > 0,
    decreases items, items.len() + 1,
    when items.len() > 0
{
    match build(numerals, items[0]) {
        Err(failure) => Err(failure),
        Ok(operator) => match build_all(numerals, items, 1) {
            Err(failure) => Err(failure),
            Ok(operands) => Ok(Term::Call(Box::new(operator), operands)),
        },
    }
}

/// The terms that the trees from place `from` on stand for.
pub open spec fn build_all(
    numerals: Numerals,
    trees: Seq<Tree>,
    from: int,
) -> Result<Seq<Term>, Failure>
    decreases trees, trees.len() - from,
{
    if from < 0 || from >= trees.len() {
        Ok(Seq::empty())
    } else {
        match build(numerals, trees[from]) {
            Err(failure) => Err(failure),
            Ok(first) => match build_all(numerals, trees, from + 1) {
                Err(failure) => Err(failure),
                Ok(rest) => Ok(seq![first] + rest),
            },
        }
    }
}

/// The outcome that a result of reading stands for.
pub open spec fn term_of(result: Result<Expr, EvalError>) -> Result<Term, Failure> {
    match result {
        Ok(expr) => Ok(expr@),
        Err(error) => Err(error@),
    }
}

/// Puts `terms` in front of what `rest` holds.
spec fn after(terms: Seq<Term>, rest: Result<Seq<Term>, Failure>) -> Result<Seq<Term>, Failure> {
    match rest {
        Err(failure) => Err(failure),
        Ok(more) => Ok(terms + more),
    }
}

/// Whether `token` is the bare word `word`.
fn is_keyword(token: &Token, word: &str) -> (r: bool)
    ensures
        r == (token@ == Tree::Word(word@)),
{
    match token {
        Token::Word(text) => is_word(text, word),
        Token::Group(_) => false,
    }
}

/// The failure of a form that is not put together as it must be.
fn malformed_form(construct: &str) -> (result: Result<Expr, EvalError>)
    ensures
        term_of(result) == malformed(construct@),
{
    Err(EvalError::MalformedSyntax(construct.to_owned()))
}

/// Reads a bare word.
fn word_to_ast<P: Fn(&str) -> Option<Number>>(
    word: &String,
    numeral: &P,
) -> (result: Result<Expr, EvalError>)
    requires
        reads_all(numeral),
    ensures
        forall|table: Numerals| #[trigger]
            reads(numeral, table) ==> term_of(result) == read_word(table, word@),
{
    if is_word(word, "let") || is_word(word, "defn") || is_word(word, "if") {
        return Err(EvalError::MalformedSyntax(word.clone()));
    }
    if is_word(word, "[]") {
        return Ok(Expr::Value(Type::new_empty_list()));
    }
    if let Some(number) = read_numeral(numeral, word.as_str()) {
        return Ok(Expr::Value(Type::new_number(number)));
    }
    let length = word.as_str().unicode_len();
    if length > 0 && word.as_str().get_char(0) == '"' && word.as_str().get_char(length - 1) == '"' {
        let text = Arc::new(Type::Str(word.clone()));
        assert(text@ == Value::Str(word@));
        return Ok(Expr::Value(text));
    }
    Ok(Expr::Variable(word.clone()))
}

/// Reads one parameter of a definition.
fn token_to_param(token: &Token) -> (param: Option<ParamType>)
    ensures
        match param {
            Some(p) => read_param(token@) == Some(p@),
            None => read_param(token@) is None,
        },
{
    match token {
        Token::Group(_) => None,
        Token::Word(word) => {
            let length = word.as_str().unicode_len();
            if length > 0 && word.as_str().get_char(0) == '&' {
                let name = word.as_str().substring_char(1, length).to_owned();
                Some(ParamType::Rest(name))
            } else {
                Some(ParamType::Singular(word.clone()))
            }
        },
    }
}

/// Reads the parameters of a definition: the tokens between its name and
/// its body.
fn tokens_to_params(items: &Vec<Token>) -> (params: Option<Vec<ParamType>>)
    requires
        items.len() >= 3,
    ensures
        params is Some == are_params(trees_of(items@).subrange(2, items.len() - 1)),
        params matches Some(ps) ==> params_of(ps@) == read_params(
            trees_of(items@).subrange(2, items.len() - 1),
        ),
{
    let ghost trees = trees_of(items@).subrange(2, items.len() - 1);
    let last = items.len() - 1;
    let mut params: Vec<ParamType> = Vec::new();
    let mut i: usize = 2;
    while i < last
        invariant
            2 <= i <= last,
            last == items.len() - 1,
            trees == trees_of(items@).subrange(2, items.len() - 1),
            params.len() == i - 2,
            forall|k: int|
                0 <= k < i - 2 ==> {
                    &&& (#[trigger] read_param(trees[k])) == Some(params[k]@)
                    &&& params[k]@ is Rest ==> k == trees.len() - 1
                },
        decreases last - i,
    {
        assert(trees[i - 2] == items[i as int]@);
        match token_to_param(&items[i]) {
            None => {
                return None;
            },
            Some(param) => {
                if let ParamType::Rest(_) = &param {
                    if i + 1 < last {
                        return None;
                    }
                }
                params.push(param);
            },
        }
        i += 1;
    }
    Some(params)
}

/// Reads `(let name value body)`.
fn construct_let<P: Fn(&str) -> Option<Number>>(
    items: &Vec<Token>,
    numeral: &P,
) -> (result: Result<Expr, EvalError>)
    requires
        reads_all(numeral),
    ensures
        forall|table: Numerals| #[trigger]
            reads(numeral, table) ==> term_of(result) == build_let(table, trees_of(items@)),
    decreases items, 0nat,
{
    if items.len() != 4 {
        return malformed_form("let");
    }
    match &items[1] {
        Token::Group(_) => malformed_form("let"),
        Token::Word(name) => {
            let value = match items[2].to_ast(numeral) {
                Err(error) => {
                    return Err(error);
                },
                Ok(expr) => expr,
            };
            let body = match items[3].to_ast(numeral) {
                Err(error) => {
                    return Err(error);
                },
                Ok(expr) => expr,
            };
            Ok(Expr::Assign(Assign::Local(name.clone(), Arc::new(value), Arc::new(body))))
        },
    }
}

/// Reads `(defn name params.. body)`.
fn construct_defn<P: Fn(&str) -> Option<Number>>(
    items: &Vec<Token>,
    numeral: &P,
) -> (result: Result<Expr, EvalError>)
    requires
        reads_all(numeral),
    ensures
        forall|table: Numerals| #[trigger]
            reads(numeral, table) ==> term_of(result) == build_defn(table, trees_of(items@)),
    decreases items, 0nat,
{
    if items.len() < 3 {
        return malformed_form("defn");
    }
    match &items[1] {
        Token::Group(_) => malformed_form("defn"),
        Token::Word(name) => {
            let params = match tokens_to_params(items) {
                None => {
                    return malformed_form("defn");
                },
                Some(params) => params,
            };
            let body = match items[items.len() - 1].to_ast(numeral) {
                Err(error) => {
                    return Err(error);
                },
                Ok(expr) => expr,
            };
            let defn = Defn { name: name.clone(), params, body: Arc::new(body) };
            proof {
                lemma_defn_function(&defn);
            }
            Ok(Expr::Defn(Arc::new(defn)))
        },
    }
}

/// Reads `(if test then else)`.
fn construct_if<P: Fn(&str) -> Option<Number>>(
    items: &Vec<Token>,
    numeral: &P,
) -> (result: Result<Expr, EvalError>)
    requires
        reads_all(numeral),
    ensures
        forall|table: Numerals| #[trigger]
            reads(numeral, table) ==> term_of(result) == build_if(table, trees_of(items@)),
    decreases items, 0nat,
{
    if items.len() != 4 {
        return malformed_form("if");
    }
    let test = match items[1].to_ast(numeral) {
        Err(error) => {
            return Err(error);
        },
        Ok(expr) => expr,
    };
    let then = match items[2].to_ast(numeral) {
        Err(error) => {
            return Err(error);
        },
        Ok(expr) => expr,
    };
    let otherwise = match items[3].to_ast(numeral) {
        Err(error) => {
            return Err(error);
        },
        Ok(expr) => expr,
    };
    Ok(Expr::If(Arc::new(test), Arc::new(then), Arc::new(otherwise)))
}

/// Reads a call: the head and then each operand, from left to right.
#[verifier::loop_isolation(false)]
fn construct_call<P: Fn(&str) -> Option<Number>>(
    items: &Vec<Token>,
    numeral: &P,
) -> (result: Result<Expr, EvalError>)
    requires
        reads_all(numeral),
        items.len() > 0,
    ensures
        forall|table: Numerals| #[trigger]
            reads(numeral, table) ==> term_of(result) == build_call(table, trees_of(items@)),
    decreases items, 0nat,
{
    let ghost trees = trees_of(items@);
    let operator = match items[0].to_ast(numeral) {
        Err(error) => {
            return Err(error);
        },
        Ok(expr) => Arc::new(expr),
    };
    let mut operands: Vec<Arc<Expr>> = Vec::new();
    let mut i: usize = 1;
    while i < items.len()
        invariant
            1 <= i <= items.len(),
            forall|table: Numerals| #[trigger]
                reads(numeral, table) ==> build_all(table, trees, 1) == after(
                    terms_of(operands@),
                    build_all(table, trees, i as int),
                ),
        decreases items.len() - i,
    {
        let ghost before = terms_of(operands@);
        match items[i].to_ast(numeral) {
            Err(error) => {
                return Err(error);
            },
            Ok(expr) => {
                let operand = Arc::new(expr);
                operands.push(operand);
                proof {
                    assert forall|table: Numerals| #[trigger] reads(numeral, table) implies {
                        build_all(table, trees, i + 1) matches Ok(more) ==> before + (seq![
                            operand@,
                        ] + more) == terms_of(operands@) + more
                    } by {
                        if let Ok(more) = build_all(table, trees, i + 1) {
                        }
                    }
                }
            },
        }
        i += 1;
    }
    proof {
        lemma_call_term(&operator, &operands);
    }
    Ok(Expr::Call(operator, operands))
}

impl Token {
    /// Reads this token tree as an expression. Numerals are read by `numeral`.
    pub fn to_ast<P: Fn(&str) -> Option<Number>>(
        &self,
        numeral: &P,
    ) -> (result: Result<Expr, EvalError>)
        requires
            reads_all(numeral),
        ensures
            forall|table: Numerals| #[trigger]
            reads(numeral, table) ==> term_of(result) == build(table, self@),
        decreases self, 0nat,
    {
        match self {
            Token::Word(word) => word_to_ast(word, numeral),
            Token::Group(g) => {
                proof {
                    lemma_group_tree(*g);
                }
                if g.len() == 0 {
                    Ok(Expr::Value(Type::unit()))
                } else if is_keyword(&g[0], "let") {
                    construct_let(g, numeral)
                } else if is_keyword(&g[0], "defn") {
                    construct_defn(g, numeral)
                } else if is_keyword(&g[0], "if") {
                    construct_if(g, numeral)
                } else {
                    construct_call(g, numeral)
                }
            },
        }
    }
}

} // verus!
