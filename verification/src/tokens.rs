//! Token trees: what the directive parser reads and what the weaver writes.
//!
//! A token tree of `proc_macro2` is opaque to the verifier. Its content, spans
//! left aside, is modelled by [`Tree`]; the functions at the end of this file
//! are the only places where the two meet.
//!
//! A token stream never holds a literal with a minus sign: a tree of that kind
//! goes into a stream as the sign and the literal without it. What a run of
//! trees stands for is therefore what a stream of them holds ([`held`]).

use proc_macro2::{Delimiter, Group, Ident, Punct, Spacing, Span, TokenStream, TokenTree};
use vstd::prelude::*;

verus! {

/// The bracket kind of a delimited group of tokens.
#[derive(Clone, Copy, Debug, PartialEq, Eq, Structural)]
pub enum Delim {
    Paren,
    Brace,
    Bracket,
    /// A group without visible brackets, as macro expansion leaves it.
    Invisible,
}

/// The content of one token tree, spans left aside.
pub enum Tree {
    /// An identifier or keyword, as it is spelled (`r#` included for a raw one).
    Ident(Seq<char>),
    /// One punctuation character; the flag says that it is joined to the
    /// punctuation that follows it, as the first `:` of `::` is.
    Punct(char, bool),
    /// A literal, as it is spelled.
    Literal(Seq<char>),
    /// A delimited group and the trees between its brackets.
    Group(Delim, Seq<Tree>),
}

/// `proc_macro2::TokenStream`, carried through unopened.
#[verifier::external_type_specification]
#[verifier::external_body]
pub struct ExTokenStream(TokenStream);

/// `proc_macro2::TokenTree`, carried through unopened.
#[verifier::external_type_specification]
#[verifier::external_body]
pub struct ExTokenTree(TokenTree);

/// The token trees that a stream holds, in order.
pub uninterp spec fn stream_trees(stream: TokenStream) -> Seq<Tree>;

/// The content of one token tree.
pub uninterp spec fn tree_content(tree: TokenTree) -> Tree;

/// The contents of a run of token trees.
pub open spec fn contents(trees: Seq<TokenTree>) -> Seq<Tree> {
    Seq::new(trees.len(), |i: int| tree_content(trees[i]))
}

/// Whether a tree is a literal that is spelled with a minus sign in front.
pub open spec fn is_negative(tree: Tree) -> bool {
    tree matches Tree::Literal(text) && text.len() > 0 && text[0] == '-'
}

/// What a stream holds once `tree` was put into it: the tree itself, or, for
/// a literal with a minus sign, the sign and the literal without it.
pub open spec fn pieces(tree: Tree) -> Seq<Tree> {
    if is_negative(tree) {
        seq![Tree::Punct('-', false), Tree::Literal(tree->Literal_0.skip(1))]
    } else {
        seq![tree]
    }
}

/// What a stream holds once `trees` were put into it, one after another.
pub open spec fn settled(trees: Seq<Tree>) -> Seq<Tree>
    decreases trees.len(),
{
    if trees.len() == 0 {
        Seq::empty()
    } else {
        settled(trees.drop_last()) + pieces(trees.last())
    }
}

/// What a stream of the given token trees holds.
pub open spec fn held(trees: Seq<TokenTree>) -> Seq<Tree> {
    settled(contents(trees))
}

/// The trees with each group without visible brackets replaced by what it
/// holds, and so again for such groups among what it holds.
pub open spec fn opened(trees: Seq<Tree>) -> Seq<Tree>
    decreases trees,
{
    if trees.len() == 0 {
        Seq::empty()
    } else {
        opened(trees.drop_last()) + opened_tree(trees.last())
    }
}

/// What stands for `tree` once groups without visible brackets are opened.
pub open spec fn opened_tree(tree: Tree) -> Seq<Tree>
    decreases tree,
{
    match tree {
        Tree::Group(Delim::Invisible, inner) => opened(inner),
        _ => seq![tree],
    }
}

/// A comma, joined or not.
pub open spec fn is_comma(tree: Tree) -> bool {
    tree matches Tree::Punct(c, _) && c == ','
}

/// A group in round brackets.
pub open spec fn is_paren_group(tree: Tree) -> bool {
    tree matches Tree::Group(d, _) && d == Delim::Paren
}

/// The letters that may begin a name built by [`make_ident`].
pub open spec fn is_name_start(c: char) -> bool {
    c == '_' || ('a' <= c && c <= 'z') || ('A' <= c && c <= 'Z')
}

/// The letters that may follow in such a name.
pub open spec fn is_name_char(c: char) -> bool {
    is_name_start(c) || ('0' <= c && c <= '9')
}

/// An ASCII identifier: a letter or underscore, then letters, digits and
/// underscores.
pub open spec fn is_plain_name(s: Seq<char>) -> bool {
    &&& s.len() > 0
    &&& is_name_start(s[0])
    &&& forall|i: int| 0 <= i < s.len() ==> is_name_char(#[trigger] s[i])
}

/// The punctuation that the weaver writes itself.
pub open spec fn is_woven_punct(c: char) -> bool {
    c == ',' || c == ';' || c == '=' || c == '|'
}

/// One token tree, opened one level: a group holds its trees unopened.
pub enum Token {
    Ident(String),
    Punct(char, bool),
    Literal(String),
    Group(Delim, Vec<TokenTree>),
}

impl DeepView for Token {
    type V = Tree;

    open spec fn deep_view(&self) -> Tree {
        match self {
            Token::Ident(name) => Tree::Ident(name@),
            Token::Punct(c, joint) => Tree::Punct(*c, *joint),
            Token::Literal(text) => Tree::Literal(text@),
            Token::Group(delim, inner) => Tree::Group(*delim, contents(inner@)),
        }
    }
}

/// A piece of source code that is carried through unread: a path, an
/// expression, a statement, a type.
#[derive(Clone, Debug)]
pub struct Fragment {
    pub trees: Vec<TokenTree>,
}

impl DeepView for Fragment {
    type V = Seq<Tree>;

    open spec fn deep_view(&self) -> Seq<Tree> {
        held(self.trees@)
    }
}

/// Opening goes through a run of trees piece by piece.
pub proof fn lemma_opened_add(a: Seq<Tree>, b: Seq<Tree>)
    ensures
        opened(a + b) == opened(a) + opened(b),
    decreases b.len(),
{
    if b.len() == 0 {
        assert(a + b =~= a);
        assert(opened(a) + opened(b) =~= opened(a));
    } else {
        lemma_opened_add(a, b.drop_last());
        assert((a + b).drop_last() =~= a + b.drop_last());
        assert((a + b).last() == b.last());
        assert(opened(a) + (opened(b.drop_last()) + opened_tree(b.last())) =~= (opened(a) + opened(
            b.drop_last(),
        )) + opened_tree(b.last()));
    }
}

pub proof fn lemma_settled_add(a: Seq<Tree>, b: Seq<Tree>)
    ensures
        settled(a + b) == settled(a) + settled(b),
    decreases b.len(),
{
    if b.len() == 0 {
        assert(a + b =~= a);
        assert(settled(a) + settled(b) =~= settled(a));
    } else {
        lemma_settled_add(a, b.drop_last());
        assert((a + b).drop_last() =~= a + b.drop_last());
        assert((a + b).last() == b.last());
        assert(settled(a) + (settled(b.drop_last()) + pieces(b.last())) =~= (settled(a) + settled(
            b.drop_last(),
        )) + pieces(b.last()));
    }
}

/// A tree that is no literal with a minus sign goes into a stream as it is.
pub proof fn lemma_held_push(trees: Seq<TokenTree>, tree: TokenTree)
    requires
        !is_negative(tree_content(tree)),
    ensures
        held(trees.push(tree)) == held(trees).push(tree_content(tree)),
{
    lemma_contents_push(trees, tree);
    assert(contents(trees).push(tree_content(tree)).drop_last() =~= contents(trees));
    assert(held(trees) + seq![tree_content(tree)] =~= held(trees).push(tree_content(tree)));
}

pub proof fn lemma_held_empty(trees: Seq<TokenTree>)
    requires
        trees.len() == 0,
    ensures
        held(trees) == Seq::<Tree>::empty(),
{
    assert(contents(trees) =~= Seq::<Tree>::empty());
}

pub proof fn lemma_contents_push(trees: Seq<TokenTree>, tree: TokenTree)
    ensures
        contents(trees.push(tree)) == contents(trees).push(tree_content(tree)),
{
    assert(contents(trees.push(tree)) =~= contents(trees).push(tree_content(tree)));
}

pub proof fn lemma_contents_skip(trees: Seq<TokenTree>, n: int)
    requires
        0 <= n <= trees.len(),
    ensures
        contents(trees.skip(n)) == contents(trees).skip(n),
{
    assert(contents(trees.skip(n)) =~= contents(trees).skip(n));
}

/// A comma that stands alone.
pub open spec fn comma() -> Tree {
    Tree::Punct(',', false)
}

/// A semicolon that stands alone.
pub open spec fn semicolon() -> Tree {
    Tree::Punct(';', false)
}

/// The parts one after another, with `separator` between each two.
pub open spec fn joined(parts: Seq<Seq<Tree>>, separator: Tree) -> Seq<Tree>
    decreases parts.len(),
{
    if parts.len() == 0 {
        Seq::empty()
    } else if parts.len() == 1 {
        parts[0]
    } else {
        joined(parts.drop_last(), separator).push(separator) + parts.last()
    }
}

/// The parts one after another.
pub open spec fn flattened(parts: Seq<Seq<Tree>>) -> Seq<Tree>
    decreases parts.len(),
{
    if parts.len() == 0 {
        Seq::empty()
    } else {
        flattened(parts.drop_last()) + parts.last()
    }
}

/// Copies `source` to the end of `target`.
pub fn append_trees(target: &mut Vec<TokenTree>, source: &Vec<TokenTree>)
    ensures
        contents(final(target)@) == contents(old(target)@) + contents(source@),
        held(final(target)@) == held(old(target)@) + held(source@),
{
    let mut i: usize = 0;
    while i < source.len()
        invariant
            i <= source.len(),
            contents(target@) == contents(old(target)@) + contents(source@.take(i as int)),
        decreases source.len() - i,
    {
        let copy = clone_tree(&source[i]);
        proof {
            lemma_contents_push(target@, copy);
            assert(contents(source@.take(i + 1)) =~= contents(source@.take(i as int)).push(
                tree_content(source@[i as int]),
            ));
            assert(contents(target@.push(copy)) =~= contents(old(target)@) + contents(
                source@.take(i + 1),
            ));
        }
        target.push(copy);
        i = i + 1;
    }
    proof {
        assert(source@.take(source.len() as int) =~= source@);
        lemma_settled_add(contents(old(target)@), contents(source@));
    }
}

impl Fragment {
    /// A fragment without tokens.
    pub fn empty() -> (fragment: Fragment)
        ensures
            fragment.deep_view() == Seq::<Tree>::empty(),
    {
        let fragment = Fragment { trees: Vec::new() };
        proof {
            lemma_held_empty(fragment.trees@);
        }
        fragment
    }

    /// A fragment with the same content.
    pub fn copy(&self) -> (fragment: Fragment)
        ensures
            fragment.deep_view() == self.deep_view(),
    {
        let mut trees: Vec<TokenTree> = Vec::new();
        proof {
            lemma_held_empty(trees@);
        }
        append_trees(&mut trees, &self.trees);
        proof {
            assert(Seq::<Tree>::empty() + held(self.trees@) =~= held(self.trees@));
        }
        Fragment { trees }
    }
}

/// Copies of `trees` with each group without visible brackets replaced by
/// what it holds.
pub fn open_invisible(trees: &Vec<TokenTree>) -> (flat: Vec<TokenTree>)
    ensures
        contents(flat@) == opened(contents(trees@)),
    decreases contents(trees@),
{
    let mut flat: Vec<TokenTree> = Vec::new();
    let mut i: usize = 0;
    proof {
        assert(contents(flat@) =~= Seq::<Tree>::empty());
        assert(contents(trees@.take(0)) =~= Seq::<Tree>::empty());
    }
    while i < trees.len()
        invariant
            i <= trees.len(),
            contents(flat@) == opened(contents(trees@.take(i as int))),
        decreases trees.len() - i,
    {
        proof {
            let next = contents(trees@.take(i + 1));
            assert(next.drop_last() =~= contents(trees@.take(i as int)));
            assert(next.last() == tree_content(trees@[i as int]));
            assert(contents(trees@)[i as int] == tree_content(trees@[i as int]));
        }
        let ghost tree = tree_content(trees@[i as int]);
        match classify(&trees[i]) {
            Token::Group(Delim::Invisible, inner) => {
                proof {
                    assert(tree == Tree::Group(Delim::Invisible, contents(inner@)));
                    vstd::seq::axiom_seq_index_decreases(contents(trees@), i as int);
                    assert(opened_tree(tree) == opened(contents(inner@)));
                }
                let inside = open_invisible(&inner);
                append_trees(&mut flat, &inside);
            },
            token => {
                let copy = clone_tree(&trees[i]);
                proof {
                    assert(token.deep_view() == tree);
                    assert(opened_tree(tree) == seq![tree]);
                    lemma_contents_push(flat@, copy);
                    assert(contents(flat@).push(tree_content(copy)) =~= contents(flat@) + seq![
                        tree_content(copy),
                    ]);
                }
                flat.push(copy);
            },
        }
        i = i + 1;
    }
    proof {
        assert(trees@.take(trees.len() as int) =~= trees@);
    }
    flat
}

/// The tokens of `parts`, one part after another, with a comma between each
/// two.
pub fn join_with_commas(parts: &Vec<Fragment>) -> (trees: Vec<TokenTree>)
    ensures
        held(trees@) == joined(parts.deep_view(), comma()),
{
    let mut trees: Vec<TokenTree> = Vec::new();
    let mut i: usize = 0;
    proof {
        lemma_held_empty(trees@);
        assert(parts.deep_view().take(0) =~= Seq::<Seq<Tree>>::empty());
    }
    while i < parts.len()
        invariant
            i <= parts.len(),
            held(trees@) == joined(parts.deep_view().take(i as int), comma()),
        decreases parts.len() - i,
    {
        proof {
            let next = parts.deep_view().take(i + 1);
            assert(next.drop_last() =~= parts.deep_view().take(i as int));
            assert(next.last() == parts[i as int].deep_view());
        }
        if i > 0 {
            let separator = make_punct(',');
            proof {
                lemma_held_push(trees@, separator);
            }
            trees.push(separator);
        } else {
            proof {
                assert(Seq::<Tree>::empty() + parts[0].deep_view() =~= parts[0].deep_view());
            }
        }
        append_trees(&mut trees, &parts[i].trees);
        i = i + 1;
    }
    proof {
        assert(parts.deep_view().take(parts.len() as int) =~= parts.deep_view());
    }
    trees
}

/// The tokens of `parts`, one part after another.
pub fn flatten(parts: &Vec<Fragment>) -> (trees: Vec<TokenTree>)
    ensures
        held(trees@) == flattened(parts.deep_view()),
{
    let mut trees: Vec<TokenTree> = Vec::new();
    let mut i: usize = 0;
    proof {
        lemma_held_empty(trees@);
        assert(parts.deep_view().take(0) =~= Seq::<Seq<Tree>>::empty());
    }
    while i < parts.len()
        invariant
            i <= parts.len(),
            held(trees@) == flattened(parts.deep_view().take(i as int)),
        decreases parts.len() - i,
    {
        proof {
            let next = parts.deep_view().take(i + 1);
            assert(next.drop_last() =~= parts.deep_view().take(i as int));
            assert(next.last() == parts[i as int].deep_view());
        }
        append_trees(&mut trees, &parts[i].trees);
        i = i + 1;
    }
    proof {
        assert(parts.deep_view().take(parts.len() as int) =~= parts.deep_view());
    }
    trees
}

/// `TokenStream::into_iter`, collected: the trees of a stream, in its order.
#[verifier::external_body]
pub(crate) fn stream_to_trees(stream: TokenStream) -> (trees: Vec<TokenTree>)
    ensures
        contents(trees@) == stream_trees(stream),
{
    stream.into_iter().collect()
}

/// `TokenStream::from_iter`: the stream that holds copies of these trees, in
/// their order, a literal with a minus sign as the sign and the rest.
#[verifier::external_body]
pub(crate) fn trees_to_stream(trees: &Vec<TokenTree>) -> (stream: TokenStream)
    ensures
        stream_trees(stream) == held(trees@),
{
    trees.iter().cloned().collect()
}

/// Opens a token tree one level, through the accessors of `proc_macro2`:
/// `Ident::to_string`, `Punct::as_char` and `Punct::spacing`,
/// `Literal::to_string`, `Group::delimiter` and `Group::stream`.
#[verifier::external_body]
pub(crate) fn classify(tree: &TokenTree) -> (token: Token)
    ensures
        token.deep_view() == tree_content(*tree),
{
    match tree {
        TokenTree::Ident(ident) => Token::Ident(ident.to_string()),
        TokenTree::Punct(p) => Token::Punct(p.as_char(), matches!(p.spacing(), Spacing::Joint)),
        TokenTree::Literal(literal) => Token::Literal(literal.to_string()),
        TokenTree::Group(group) => {
            let inner = group.stream().into_iter().collect();
            match group.delimiter() {
                Delimiter::Parenthesis => Token::Group(Delim::Paren, inner),
                Delimiter::Brace => Token::Group(Delim::Brace, inner),
                Delimiter::Bracket => Token::Group(Delim::Bracket, inner),
                Delimiter::None => Token::Group(Delim::Invisible, inner),
            }
        },
    }
}

/// `TokenTree::clone`: a tree with the same content.
#[verifier::external_body]
pub(crate) fn clone_tree(tree: &TokenTree) -> (copy: TokenTree)
    ensures
        tree_content(copy) == tree_content(*tree),
{
    tree.clone()
}

/// `Group::new`: a group with the given brackets around the stream that
/// `TokenStream::from_iter` makes of copies of `inner`.
#[verifier::external_body]
pub(crate) fn make_group(delim: Delim, inner: &Vec<TokenTree>) -> (tree: TokenTree)
    ensures
        tree_content(tree) == Tree::Group(delim, held(inner@)),
{
    let delimiter = match delim {
        Delim::Paren => Delimiter::Parenthesis,
        Delim::Brace => Delimiter::Brace,
        Delim::Bracket => Delimiter::Bracket,
        Delim::Invisible => Delimiter::None,
    };
    TokenTree::Group(Group::new(delimiter, inner.iter().cloned().collect()))
}

/// `Punct::new` with `Spacing::Alone`. It panics on a character that is no
/// punctuation of the language; the four admitted here are.
#[verifier::external_body]
pub(crate) fn make_punct(c: char) -> (tree: TokenTree)
    requires
        is_woven_punct(c),
    ensures
        tree_content(tree) == Tree::Punct(c, false),
{
    TokenTree::Punct(Punct::new(c, Spacing::Alone))
}

/// `Ident::new` at the call site. It panics on text that is no identifier;
/// an ASCII identifier always is one, and is spelled back as it was given.
#[verifier::external_body]
pub(crate) fn make_ident(name: &str) -> (tree: TokenTree)
    requires
        is_plain_name(name@),
    ensures
        tree_content(tree) == Tree::Ident(name@),
{
    TokenTree::Ident(Ident::new(name, Span::call_site()))
}

} // verus!
