//! Tokens and sentences as the scorer reads them.

use vstd::prelude::*;

verus! {

/// The governor of a token and the relation that attaches the token to it.
#[derive(Debug)]
pub struct Head {
    /// The position of the governor in the sentence, counted from one; zero
    /// for the root.
    pub index: usize,
    /// The label of the relation.
    pub relation: String,
}

/// A named feature of a token, with or without a value.
#[derive(Debug)]
pub struct Feature {
    pub name: String,
    pub value: Option<String>,
}

/// One token of a sentence.
#[derive(Debug)]
pub struct Token {
    /// The surface form.
    pub form: String,
    /// The governor and relation, where the token has them.
    pub head: Option<Head>,
    /// The named features, where the token has any.
    pub features: Option<Vec<Feature>>,
}

/// One entry of a sentence: a token, or a structural marker that stands for
/// no token.
#[derive(Debug)]
pub enum Node {
    Root,
    Token(Token),
}

/// An ordered sequence of entries.
#[derive(Debug)]
pub struct Sentence {
    pub nodes: Vec<Node>,
}

/// What the scorer reads of a token: its surface form and, where it has
/// them, the position of its governor and the label of the relation.
pub struct TokenView {
    pub form: Seq<char>,
    pub head: Option<(usize, Seq<char>)>,
}

impl View for Token {
    type V = TokenView;

    open spec fn view(&self) -> TokenView {
        TokenView {
            form: self.form@,
            head: match self.head {
                Some(head) => Some((head.index, head.relation@)),
                None => None,
            },
        }
    }
}

/// The tokens among `nodes`, in order; entries that are no tokens are
/// skipped.
pub open spec fn tokens_of(nodes: Seq<Node>) -> Seq<TokenView>
    decreases nodes.len(),
{
    if nodes.len() == 0 {
        Seq::empty()
    } else {
        let before = tokens_of(nodes.drop_last());
        match nodes.last() {
            Node::Token(token) => before.push(token@),
            Node::Root => before,
        }
    }
}

impl View for Sentence {
    type V = Seq<TokenView>;

    /// The tokens of the sentence; the token at index `i` has the position
    /// `i + 1`.
    open spec fn view(&self) -> Seq<TokenView> {
        tokens_of(self.nodes@)
    }
}

impl Sentence {
    /// The tokens of the sentence, in order, without the entries that are
    /// no tokens.
    pub fn tokens(&self) -> (tokens: Vec<&Token>)
        ensures
            tokens@.len() == self@.len(),
            forall|i: int| 0 <= i < tokens@.len() ==> (#[trigger] tokens@[i])@ == self@[i],
    {
        let mut tokens: Vec<&Token> = Vec::new();
        let mut i: usize = 0;
        assert(self.nodes@.subrange(0, 0) =~= Seq::<Node>::empty());
        while i < self.nodes.len()
            invariant
                i <= self.nodes.len(),
                tokens@.len() == tokens_of(self.nodes@.subrange(0, i as int)).len(),
                forall|k: int|
                    0 <= k < tokens@.len() ==> (#[trigger] tokens@[k])@ == tokens_of(
                        self.nodes@.subrange(0, i as int),
                    )[k],
            decreases self.nodes.len() - i,
        {
            assert(self.nodes@.subrange(0, i + 1).drop_last() =~= self.nodes@.subrange(
                0,
                i as int,
            ));
            match &self.nodes[i] {
                Node::Token(token) => {
                    tokens.push(token);
                },
                Node::Root => {},
            }
            i += 1;
        }
        assert(self.nodes@.subrange(0, i as int) =~= self.nodes@);
        tokens
    }
}

/// The value of the first feature among `features` that has the name
/// `name`, if there is such a feature and it has a value.
pub open spec fn feature_in(features: Seq<Feature>, name: Seq<char>) -> Option<Seq<char>>
    decreases features.len(),
{
    if features.len() == 0 {
        None
    } else if features[0].name@ == name {
        match features[0].value {
            Some(value) => Some(value@),
            None => None,
        }
    } else {
        feature_in(features.skip(1), name)
    }
}

/// Lookup of a named feature.
pub trait GetFeature {
    /// The value of the feature `name`, if the feature is there and has
    /// one.
    spec fn feature(&self, name: Seq<char>) -> Option<Seq<char>>;

    /// The value of the feature `name`, if the feature is there and has
    /// one.
    fn get_feature(&self, name: &str) -> (value: Option<&str>)
        ensures
            match value {
                Some(text) => self.feature(name@) == Some(text@),
                None => self.feature(name@) is None,
            },
    ;
}

impl GetFeature for Token {
    open spec fn feature(&self, name: Seq<char>) -> Option<Seq<char>> {
        match self.features {
            Some(features) => feature_in(features@, name),
            None => None,
        }
    }

    fn get_feature(&self, name: &str) -> (value: Option<&str>) {
        if let Some(features) = &self.features {
            let wanted = name.to_owned();
            let mut i: usize = 0;
            assert(features@.skip(0) =~= features@);
            while i < features.len()
                invariant
                    i <= features.len(),
                    wanted@ == name@,
                    self.features == Some(*features),
                    feature_in(features@, name@) == feature_in(features@.skip(i as int), name@),
                decreases features.len() - i,
            {
                assert(features@.skip(i as int)[0] == features@[i as int]);
                assert(features@.skip(i as int).skip(1) =~= features@.skip(i + 1));
                if features[i].name == wanted {
                    return match &features[i].value {
                        Some(value) => Some(value.as_str()),
                        None => None,
                    };
                }
                i += 1;
            }
            return None;
        }
        None
    }
}

} // verus!
