//! The reader's first half: from text to a tree of words and groups.

use vstd::prelude::*;

verus! {

/// The model of a token: a word, or a group of tokens.
pub enum Tree {
    Word(Seq<char>),
    Group(Seq<Tree>),
}

/// A node of the token tree.
#[derive(Debug, PartialEq)]
pub enum Token {
    Word(String),
    Group(Vec<Token>),
}

impl Token {
    /// The tree this token stands for.
    pub open spec fn tree(&self) -> Tree
        decreases self,
    {
        match self {
            Token::Word(text) => Tree::Word(text@),
            Token::Group(items) => Tree::Group(
                Seq::new(
                    items.len() as nat,
                    |i: int|
                        if 0 <= i < items.len() {
                            items[i].tree()
                        } else {
                            Tree::Word(Seq::empty())
                        },
                ),
            ),
        }
    }
}

impl View for Token {
    type V = Tree;

    open spec fn view(&self) -> Tree {
        self.tree()
    }
}

/// The trees a sequence of tokens stands for.
pub open spec fn trees_of(tokens: Seq<Token>) -> Seq<Tree> {
    Seq::new(tokens.len(), |i: int| tokens[i]@)
}

/// A group's tree holds the trees of its items, in order.
pub proof fn lemma_group_tree(items: Vec<Token>)
    ensures
        Token::Group(items)@ == Tree::Group(trees_of(items@)),
{
    assert(Token::Group(items).tree()->Group_0 =~= trees_of(items@));
}

/// The characters that separate words: those with the Unicode property
/// White_Space.
pub open spec fn is_space(c: char) -> bool {
    let code = c as u32;
    ||| 0x09 <= code <= 0x0d
    ||| code == 0x20
    ||| code == 0x85
    ||| code == 0xa0
    ||| code == 0x1680
    ||| 0x2000 <= code <= 0x200a
    ||| code == 0x2028
    ||| code == 0x2029
    ||| code == 0x202f
    ||| code == 0x205f
    ||| code == 0x3000
}

/// How many groups are open after `text`: one more for each `(`, one less
/// for each `)`.
pub open spec fn nesting(text: Seq<char>) -> int
    decreases text.len(),
{
    if text.len() == 0 {
        0
    } else {
        nesting(text.drop_last()) + if text.last() == '(' {
            1int
        } else if text.last() == ')' {
            -1int
        } else {
            0int
        }
    }
}

/// No `)` comes before its `(`.
pub open spec fn never_closes_early(text: Seq<char>) -> bool {
    forall|i: int| 0 <= i <= text.len() ==> nesting(#[trigger] text.take(i)) >= 0
}

/// Every `(` has its `)` after it and every `)` its `(` before it.
pub open spec fn balanced(text: Seq<char>) -> bool {
    never_closes_early(text) && nesting(text) == 0
}

/// What the reader holds while it walks the text: the finished top-level
/// tokens, the groups that are still open (outermost first), and the
/// characters of the word in progress.
pub struct Reading {
    pub done: Seq<Tree>,
    pub open: Seq<Seq<Tree>>,
    pub word: Seq<char>,
}

/// A finished token goes into the innermost open group, or to the top level
/// when no group is open.
pub open spec fn attach(state: Reading, item: Tree) -> Reading {
    if state.open.len() == 0 {
        Reading { done: state.done.push(item), ..state }
    } else {
        Reading {
            open: state.open.update(state.open.len() - 1, state.open.last().push(item)),
            ..state
        }
    }
}

/// The word in progress, if there is one, is finished and attached.
pub open spec fn flush(state: Reading) -> Reading {
    if state.word.len() == 0 {
        state
    } else {
        Reading { word: Seq::empty(), ..attach(state, Tree::Word(state.word)) }
    }
}

/// One character of input.
///
/// `(` opens a group and leaves the word in progress as it is, so a word may
/// run on across it. `)` ends the word in progress and closes the innermost
/// group. White space ends the word in progress. Any other character extends
/// it.
pub open spec fn step(state: Reading, c: char) -> Reading {
    if c == '(' {
        Reading { open: state.open.push(Seq::empty()), ..state }
    } else if c == ')' {
        let flushed = flush(state);
        attach(
            Reading { open: flushed.open.drop_last(), ..flushed },
            Tree::Group(flushed.open.last()),
        )
    } else if is_space(c) {
        flush(state)
    } else {
        Reading { word: state.word.push(c), ..state }
    }
}

/// The reader's state after all of `text`.
pub open spec fn read(text: Seq<char>) -> Reading
    decreases text.len(),
{
    if text.len() == 0 {
        Reading { done: Seq::empty(), open: Seq::empty(), word: Seq::empty() }
    } else {
        step(read(text.drop_last()), text.last())
    }
}

/// The top-level tokens of `text`.
pub open spec fn tokenize(text: Seq<char>) -> Seq<Tree> {
    flush(Reading { open: Seq::empty(), ..read(text) }).done
}

/// Whether `c` separates words.
pub fn is_whitespace(c: char) -> (r: bool)
    ensures
        r == is_space(c),
{
    let code = c as u32;
    (0x09 <= code && code <= 0x0d) || code == 0x20 || code == 0x85 || code == 0xa0 || code
        == 0x1680 || (0x2000 <= code && code <= 0x200a) || code == 0x2028 || code == 0x2029 || code
        == 0x202f || code == 0x205f || code == 0x3000
}

/// Whether `text` is the word `word`.
pub fn is_word(text: &String, word: &str) -> (r: bool)
    ensures
        r == (text@ == word@),
{
    *text == word.to_owned()
}

/// `String::push`: the character is appended to the string.
#[verifier::external_body]
pub(crate) fn push_char(text: &mut String, c: char)
    ensures
        final(text)@ == old(text)@.push(c),
{
    text.push(c)
}

/// The number of groups that `s` leaves open, or `None` where a `)` comes
/// before its `(`.
pub fn unclosed_parens(s: &str) -> (open: Option<usize>)
    ensures
        open is Some == never_closes_early(s@),
        open matches Some(n) ==> n == nesting(s@),
{
    let length = s.unicode_len();
    let mut count: usize = 0;
    for c in it: s.chars()
        invariant
            it.seq() == s@,
            length == s@.len(),
            count == nesting(s@.take(it.index())),
            count <= it.index(),
            forall|i: int| 0 <= i <= it.index() ==> nesting(#[trigger] s@.take(i)) >= 0,
    {
        assert(s@.take(it.index() + 1).drop_last() =~= s@.take(it.index()));
        if c == '(' {
            count = count + 1;
        } else if c == ')' {
            if count == 0 {
                return None;
            }
            count = count - 1;
        }
    }
    assert(s@.take(s@.len() as int) =~= s@);
    Some(count)
}

/// Whether every `(` of `s` has its `)` and every `)` its `(`.
pub fn has_matching_parens(s: &String) -> (r: bool)
    ensures
        r == balanced(s@),
{
    match unclosed_parens(s.as_str()) {
        Some(open) => open == 0,
        None => false,
    }
}

impl Token {
    /// The word `s`.
    pub fn from(s: &str) -> (token: Token)
        ensures
            token@ == Tree::Word(s@),
    {
        Token::Word(s.to_owned())
    }

    /// Appends `next` to this group.
    pub fn add_next(&mut self, next: Token)
        requires
            old(self)@ is Group,
        ensures
            final(self)@ == Tree::Group(old(self)@->Group_0.push(next@)),
    {
        match self {
            Token::Word(_) => {},
            Token::Group(items) => {
                proof {
                    lemma_group_tree(*items);
                }
                items.push(next);
                proof {
                    lemma_group_tree(*items);
                    assert(trees_of(items@) =~= trees_of(old(self)->Group_0@).push(next@));
                }
            },
        }
    }

    /// A group with nothing in it.
    pub fn init_group() -> (token: Token)
        ensures
            token@ == Tree::Group(Seq::empty()),
    {
        let items: Vec<Token> = Vec::new();
        proof {
            lemma_group_tree(items);
            assert(trees_of(items@) =~= Seq::<Tree>::empty());
        }
        Token::Group(items)
    }
}

/// The groups that a stack of group tokens holds open.
pub open spec fn groups_of(stack: Seq<Token>) -> Seq<Seq<Tree>> {
    Seq::new(stack.len(), |i: int| stack[i]@->Group_0)
}

/// The reader's state that its three buffers stand for.
pub open spec fn reading_of(done: Seq<Token>, stack: Seq<Token>, word: Seq<char>) -> Reading {
    Reading { done: trees_of(done), open: groups_of(stack), word }
}

/// Puts a finished token into the innermost open group, or at the top level.
fn attach_token(done: &mut Vec<Token>, stack: &mut Vec<Token>, item: Token)
    requires
        forall|i: int| 0 <= i < old(stack).len() ==> old(stack)[i]@ is Group,
    ensures
        forall|i: int| 0 <= i < final(stack).len() ==> final(stack)[i]@ is Group,
        final(stack).len() == old(stack).len(),
        trees_of(final(done)@) == attach(
            reading_of(old(done)@, old(stack)@, Seq::empty()),
            item@,
        ).done,
        groups_of(final(stack)@) == attach(
            reading_of(old(done)@, old(stack)@, Seq::empty()),
            item@,
        ).open,
{
    match stack.pop() {
        None => {
            done.push(item);
        },
        Some(mut top) => {
            top.add_next(item);
            stack.push(top);
        },
    }
}

/// Splits `body` into its top-level tokens: words separated by white space,
/// and parenthesised groups of tokens.
pub fn parse(body: String) -> (tokens: Vec<Token>)
    requires
        balanced(body@),
    ensures
        trees_of(tokens@) == tokenize(body@),
{
    let mut done: Vec<Token> = Vec::new();
    let mut buf: Vec<Token> = Vec::new();
    let mut curr = String::new();
    assert(reading_of(done@, buf@, curr@).done =~= Seq::<Tree>::empty());
    assert(reading_of(done@, buf@, curr@).open =~= Seq::<Seq<Tree>>::empty());
    for c in it: body.chars()
        invariant
            it.seq() == body@,
            balanced(body@),
            forall|i: int| 0 <= i < buf.len() ==> buf[i]@ is Group,
            buf.len() == nesting(body@.take(it.index())),
            reading_of(done@, buf@, curr@) == read(body@.take(it.index())),
    {
        let ghost before = reading_of(done@, buf@, curr@);
        assert(body@.take(it.index() + 1).drop_last() =~= body@.take(it.index()));
        if c == '(' {
            buf.push(Token::init_group());
            assert(groups_of(buf@) =~= before.open.push(Seq::empty()));
        } else if c == ')' {
            if !curr.as_str().is_empty() {
                attach_token(&mut done, &mut buf, Token::Word(curr));
                curr = String::new();
            }
            let ghost flushed = reading_of(done@, buf@, curr@);
            let completed = buf.pop().unwrap();
            assert(groups_of(buf@) =~= flushed.open.drop_last());
            attach_token(&mut done, &mut buf, completed);
        } else if is_whitespace(c) {
            if !curr.as_str().is_empty() {
                attach_token(&mut done, &mut buf, Token::Word(curr));
                curr = String::new();
            }
        } else {
            push_char(&mut curr, c);
        }
    }
    assert(body@.take(body@.len() as int) =~= body@);
    if !curr.as_str().is_empty() {
        done.push(Token::Word(curr));
    }
    done
}

} // verus!
