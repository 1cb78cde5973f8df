use vstd::prelude::*;

verus! {

/// A vocabulary entry.
#[derive(Debug)]
pub struct Word {
    pub id: i64,
    pub word: String,
    pub translation: String,
    pub image: String,
    pub audio: String,
}

/// A collection row without its words.
#[derive(Debug)]
pub struct RawCollection {
    pub id: i64,
    pub name: String,
    pub description: String,
}

/// A collection with the words associated with it, in row order.
#[derive(Debug)]
pub struct Collection {
    pub id: i64,
    pub name: String,
    pub description: String,
    pub words: Vec<Word>,
}

/// A collection as a mathematical value.
pub struct CollectionView {
    pub id: i64,
    pub name: Seq<char>,
    pub description: Seq<char>,
    pub words: Seq<Word>,
}

impl View for Collection {
    type V = CollectionView;

    open spec fn view(&self) -> CollectionView {
        CollectionView {
            id: self.id,
            name: self.name@,
            description: self.description@,
            words: self.words@,
        }
    }
}

/// One answer of a generated quiz question.
#[derive(Debug)]
pub struct AnswerOption {
    pub name: String,
    pub correct: bool,
}

/// A generated quiz question with its answers.
#[derive(Debug)]
pub struct Question {
    pub question: String,
    pub options: Vec<AnswerOption>,
}

} // verus!
