//! What a resolution knows of the disk. The resolver never touches the disk:
//! it reads recorded answers, and names the question whose answer it lacks.

use vstd::prelude::*;
use vstd::string::*;
use crate::ordered::{lemma_lookup_push, lookup, lookup_from};
use crate::text::{copy_text, optional_text, str_eq};

verus! {

/// A question about the disk.
#[derive(Debug, PartialEq, Eq)]
pub enum Query {
    /// Is this path a regular file?
    IsFile(String),
    /// What text does the file at this path hold?
    ReadFile(String),
    /// What is the canonical, absolute form of this path?
    Canonicalize(String),
}

/// A question about the disk, as plain values.
pub enum QueryView {
    IsFile(Seq<char>),
    ReadFile(Seq<char>),
    Canonicalize(Seq<char>),
}

impl View for Query {
    type V = QueryView;

    open spec fn view(&self) -> QueryView {
        match self {
            Query::IsFile(p) => QueryView::IsFile(p@),
            Query::ReadFile(p) => QueryView::ReadFile(p@),
            Query::Canonicalize(p) => QueryView::Canonicalize(p@),
        }
    }
}

/// The recorded answers, as plain values: for each kind of question the
/// paths asked about, each with its answer, in the order of recording.
pub struct FileFactsView {
    pub files: Seq<(Seq<char>, bool)>,
    pub texts: Seq<(Seq<char>, Option<Seq<char>>)>,
    pub canonical: Seq<(Seq<char>, Option<Seq<char>>)>,
}

impl FileFactsView {
    /// Whether `path` is a regular file, where that is known.
    pub open spec fn is_file(self, path: Seq<char>) -> Option<bool> {
        lookup(self.files, path)
    }

    /// The text of the file at `path`, where it is known whether it can be
    /// read; `Some(None)` for a file that cannot.
    pub open spec fn text(self, path: Seq<char>) -> Option<Option<Seq<char>>> {
        lookup(self.texts, path)
    }

    /// The canonical form of `path`, where it is known whether it has one;
    /// `Some(None)` for a path that has none.
    pub open spec fn canonical_of(self, path: Seq<char>) -> Option<Option<Seq<char>>> {
        lookup(self.canonical, path)
    }

    /// Whether these answers hold every answer of `earlier`: what `earlier`
    /// knows, these know alike.
    pub open spec fn extends(self, earlier: FileFactsView) -> bool {
        &&& forall|p: Seq<char>| #[trigger]
            earlier.is_file(p) is Some ==> self.is_file(p) == earlier.is_file(p)
        &&& forall|p: Seq<char>| #[trigger]
            earlier.text(p) is Some ==> self.text(p) == earlier.text(p)
        &&& forall|p: Seq<char>| #[trigger]
            earlier.canonical_of(p) is Some ==> self.canonical_of(p) == earlier.canonical_of(p)
    }

    /// Whether the answer to `query` is recorded.
    pub open spec fn knows(self, query: QueryView) -> bool {
        match query {
            QueryView::IsFile(p) => self.is_file(p) is Some,
            QueryView::ReadFile(p) => self.text(p) is Some,
            QueryView::Canonicalize(p) => self.canonical_of(p) is Some,
        }
    }
}

impl FileFactsView {
    /// These answers and, behind them, whether `path` is a regular file.
    pub open spec fn with_file(self, path: Seq<char>, answer: bool) -> FileFactsView {
        FileFactsView { files: self.files.push((path, answer)), ..self }
    }

    /// These answers and, behind them, the text of the file at `path`.
    pub open spec fn with_text(self, path: Seq<char>, answer: Option<Seq<char>>) -> FileFactsView {
        FileFactsView { texts: self.texts.push((path, answer)), ..self }
    }

    /// These answers and, behind them, the canonical form of `path`.
    pub open spec fn with_canonical(
        self,
        path: Seq<char>,
        answer: Option<Seq<char>>,
    ) -> FileFactsView {
        FileFactsView { canonical: self.canonical.push((path, answer)), ..self }
    }

    /// One more answer whether a path is a file leaves every recorded answer
    /// as it is, and is the answer for that path unless one was recorded.
    pub proof fn lemma_with_file(self, path: Seq<char>, answer: bool)
        ensures
            self.with_file(path, answer).extends(self),
            self.with_file(path, answer).is_file(path) is Some,
            self.is_file(path) is None ==> self.with_file(path, answer).is_file(path) == Some(
                answer,
            ),
    {
        assert forall|p: Seq<char>| #[trigger] self.is_file(p) is Some implies self.with_file(
            path,
            answer,
        ).is_file(p) == self.is_file(p) by {
            lemma_lookup_push(self.files, p, (path, answer), 0);
        }
        lemma_lookup_push(self.files, path, (path, answer), 0);
    }

    /// One more text leaves every recorded answer as it is, and is the
    /// answer for that path unless one was recorded.
    pub proof fn lemma_with_text(self, path: Seq<char>, answer: Option<Seq<char>>)
        ensures
            self.with_text(path, answer).extends(self),
            self.with_text(path, answer).text(path) is Some,
            self.text(path) is None ==> self.with_text(path, answer).text(path) == Some(answer),
    {
        assert forall|p: Seq<char>| #[trigger] self.text(p) is Some implies self.with_text(
            path,
            answer,
        ).text(p) == self.text(p) by {
            lemma_lookup_push(self.texts, p, (path, answer), 0);
        }
        lemma_lookup_push(self.texts, path, (path, answer), 0);
    }

    /// One more canonical form leaves every recorded answer as it is, and
    /// is the answer for that path unless one was recorded.
    pub proof fn lemma_with_canonical(self, path: Seq<char>, answer: Option<Seq<char>>)
        ensures
            self.with_canonical(path, answer).extends(self),
            self.with_canonical(path, answer).canonical_of(path) is Some,
            self.canonical_of(path) is None ==> self.with_canonical(path, answer).canonical_of(
                path,
            ) == Some(answer),
    {
        assert forall|p: Seq<char>| #[trigger]
            self.canonical_of(p) is Some implies self.with_canonical(path, answer).canonical_of(
            p,
        ) == self.canonical_of(p) by {
            lemma_lookup_push(self.canonical, p, (path, answer), 0);
        }
        lemma_lookup_push(self.canonical, path, (path, answer), 0);
    }
}

/// The recorded answers to questions about the disk. The first answer that
/// is recorded for a question stands.
#[derive(Debug)]
pub struct FileFacts {
    files: Vec<(String, bool)>,
    texts: Vec<(String, Option<String>)>,
    canonical: Vec<(String, Option<String>)>,
}

impl View for FileFacts {
    type V = FileFactsView;

    closed spec fn view(&self) -> FileFactsView {
        FileFactsView {
            files: Seq::new(self.files@.len(), |i: int| (self.files@[i].0@, self.files@[i].1)),
            texts: Seq::new(
                self.texts@.len(),
                |i: int| (self.texts@[i].0@, optional_text(self.texts@[i].1)),
            ),
            canonical: Seq::new(
                self.canonical@.len(),
                |i: int| (self.canonical@[i].0@, optional_text(self.canonical@[i].1)),
            ),
        }
    }
}

/// The first answer recorded under `path`.
fn find_text(entries: &Vec<(String, Option<String>)>, path: &str) -> (r: Option<Option<String>>)
    ensures
        match r {
            Some(t) => lookup(
                Seq::new(entries@.len(), |i: int| (entries@[i].0@, optional_text(entries@[i].1))),
                path@,
            ) == Some(optional_text(t)),
            None => lookup(
                Seq::new(entries@.len(), |i: int| (entries@[i].0@, optional_text(entries@[i].1))),
                path@,
            ) is None,
        },
{
    let ghost model = Seq::new(
        entries@.len(),
        |i: int| (entries@[i].0@, optional_text(entries@[i].1)),
    );
    let mut i: usize = 0;
    while i < entries.len()
        invariant
            i <= entries.len(),
            model == Seq::new(
                entries@.len(),
                |i: int| (entries@[i].0@, optional_text(entries@[i].1)),
            ),
            lookup(model, path@) == lookup_from(model, path@, i as int),
        decreases entries.len() - i,
    {
        if str_eq(entries[i].0.as_str(), path) {
            return Some(copy_text(&entries[i].1));
        }
        i += 1;
    }
    None
}

impl FileFacts {
    /// No answers at all.
    pub fn new() -> (r: Self)
        ensures
            r@.files.len() == 0,
            r@.texts.len() == 0,
            r@.canonical.len() == 0,
    {
        FileFacts { files: Vec::new(), texts: Vec::new(), canonical: Vec::new() }
    }

    /// Records whether `path` is a regular file.
    pub fn record_is_file(&mut self, path: &str, answer: bool)
        ensures
            final(self)@ == old(self)@.with_file(path@, answer),
            final(self)@.extends(old(self)@),
            final(self)@.is_file(path@) is Some,
            old(self)@.is_file(path@) is None ==> final(self)@.is_file(path@) == Some(answer),
    {
        proof {
            self@.lemma_with_file(path@, answer);
        }
        self.files.push((String::from_str(path), answer));
        assert(final(self)@.files =~= old(self)@.files.push((path@, answer)));
    }

    /// Records the text of the file at `path`, or that it cannot be read.
    pub fn record_text(&mut self, path: &str, answer: Option<String>)
        ensures
            final(self)@ == old(self)@.with_text(path@, optional_text(answer)),
            final(self)@.extends(old(self)@),
            final(self)@.text(path@) is Some,
            old(self)@.text(path@) is None ==> final(self)@.text(path@) == Some(
                optional_text(answer),
            ),
    {
        proof {
            self@.lemma_with_text(path@, optional_text(answer));
        }
        self.texts.push((String::from_str(path), answer));
        assert(final(self)@.texts =~= old(self)@.texts.push((path@, optional_text(answer))));
    }

    /// Records the canonical form of `path`, or that it has none.
    pub fn record_canonical(&mut self, path: &str, answer: Option<String>)
        ensures
            final(self)@ == old(self)@.with_canonical(path@, optional_text(answer)),
            final(self)@.extends(old(self)@),
            final(self)@.canonical_of(path@) is Some,
            old(self)@.canonical_of(path@) is None ==> final(self)@.canonical_of(path@) == Some(
                optional_text(answer),
            ),
    {
        proof {
            self@.lemma_with_canonical(path@, optional_text(answer));
        }
        self.canonical.push((String::from_str(path), answer));
        assert(final(self)@.canonical =~= old(self)@.canonical.push(
            (path@, optional_text(answer)),
        ));
    }

    /// Whether `path` is a regular file; the question itself where the answer
    /// is not recorded.
    pub fn is_file(&self, path: &str) -> (r: Result<bool, Query>)
        ensures
            match r {
                Ok(b) => self@.is_file(path@) == Some(b),
                Err(q) => self@.is_file(path@) is None && q@ == QueryView::IsFile(path@),
            },
    {
        let mut i: usize = 0;
        while i < self.files.len()
            invariant
                i <= self.files.len(),
                lookup(self@.files, path@) == lookup_from(self@.files, path@, i as int),
            decreases self.files.len() - i,
        {
            if str_eq(self.files[i].0.as_str(), path) {
                return Ok(self.files[i].1);
            }
            i += 1;
        }
        Err(Query::IsFile(String::from_str(path)))
    }

    /// The text of the file at `path`, `None` where it cannot be read; the
    /// question itself where the answer is not recorded.
    pub fn read(&self, path: &str) -> (r: Result<Option<String>, Query>)
        ensures
            match r {
                Ok(t) => self@.text(path@) == Some(optional_text(t)),
                Err(q) => self@.text(path@) is None && q@ == QueryView::ReadFile(path@),
            },
    {
        match find_text(&self.texts, path) {
            Some(t) => Ok(t),
            None => Err(Query::ReadFile(String::from_str(path))),
        }
    }

    /// The canonical form of `path`, `None` where it has none; the question
    /// itself where the answer is not recorded.
    pub fn canonicalize(&self, path: &str) -> (r: Result<Option<String>, Query>)
        ensures
            match r {
                Ok(t) => self@.canonical_of(path@) == Some(optional_text(t)),
                Err(q) => self@.canonical_of(path@) is None && q@ == QueryView::Canonicalize(path@),
            },
    {
        match find_text(&self.canonical, path) {
            Some(t) => Ok(t),
            None => Err(Query::Canonicalize(String::from_str(path))),
        }
    }
}

} // verus!
