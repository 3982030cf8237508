//! A property graph of books, readers and what each reader has read, held in
//! memory and behaving as the statements of [`crate::database`] ask the graph
//! store to: nodes keyed by the caller, keys not unique, lookups first-match,
//! edges unique per pair, a removed node taking its edges along. It says what
//! those statements mean, and stands in for the store where there is none.
//!
//! In one thing it reads a statement more strictly than the store does. For a
//! recommendation the readers under the asked key count as one reader: none
//! of them is a neighbour, and no book that any of them has read is
//! recommended. `RECOMMEND` compares nodes: of two readers under one key it
//! takes each as the other's neighbour, and may recommend to one what the
//! other has read. The two agree wherever a key names one reader.

use crate::database::{book_views, Book, BookView, User, UserView};
use crate::recommend::{ints, is_ranking, rank, TOP};
use vstd::prelude::*;
use vstd::seq_lib::lemma_seq_contains_after_push;

verus! {

/// A book node: the store's identifier and the book.
pub struct BookNodeView {
    pub element: u64,
    pub book: BookView,
}

/// A reader node: the store's identifier and the reader.
pub struct UserNodeView {
    pub element: u64,
    pub user: UserView,
}

/// The graph as a value: the nodes in the order they were created, the
/// `HAS_READ` edges as pairs of a reader node and a book node, and the
/// identifier that the next node gets.
#[verifier::ext_equal]
pub struct GraphView {
    pub books: Seq<BookNodeView>,
    pub users: Seq<UserNodeView>,
    pub reads: Set<(u64, u64)>,
    pub next: u64,
}

impl GraphView {
    /// No node, no edge.
    pub open spec fn empty() -> GraphView {
        GraphView { books: Seq::empty(), users: Seq::empty(), reads: Set::empty(), next: 0 }
    }

    /// Some book node has the identifier `element`.
    pub open spec fn has_book(self, element: u64) -> bool {
        exists|i: int| 0 <= i < self.books.len() && (#[trigger] self.books[i]).element == element
    }

    /// Some reader node has the identifier `element`.
    pub open spec fn has_user(self, element: u64) -> bool {
        exists|i: int| 0 <= i < self.users.len() && (#[trigger] self.users[i]).element == element
    }

    /// The book node `element` has the key `id`.
    pub open spec fn book_keyed(self, element: u64, id: Seq<char>) -> bool {
        exists|i: int|
            0 <= i < self.books.len() && (#[trigger] self.books[i]).element == element
                && self.books[i].book.id == id
    }

    /// The reader node `element` has the key `id`.
    pub open spec fn user_keyed(self, element: u64, id: int) -> bool {
        exists|i: int|
            0 <= i < self.users.len() && (#[trigger] self.users[i]).element == element
                && self.users[i].user.id == id
    }

    /// Identifiers are below `next` and name one node each, and every edge
    /// runs from a reader node to a book node of this graph.
    pub open spec fn wf(self) -> bool {
        &&& forall|i: int| 0 <= i < self.books.len() ==> (#[trigger] self.books[i]).element < self.next
        &&& forall|i: int| 0 <= i < self.users.len() ==> (#[trigger] self.users[i]).element < self.next
        &&& forall|i: int, j: int|
            0 <= i < j < self.books.len() ==> (#[trigger] self.books[i]).element != (
            #[trigger] self.books[j]).element
        &&& forall|i: int, j: int|
            0 <= i < j < self.users.len() ==> (#[trigger] self.users[i]).element != (
            #[trigger] self.users[j]).element
        &&& forall|u: u64, b: u64| #[trigger]
            self.reads.contains((u, b)) ==> self.has_user(u) && self.has_book(b)
    }

    /// The books, in the order of their nodes.
    pub open spec fn all_books(self) -> Seq<BookView> {
        Seq::new(self.books.len(), |i: int| self.books[i].book)
    }

    /// The readers, in the order of their nodes.
    pub open spec fn all_users(self) -> Seq<UserView> {
        Seq::new(self.users.len(), |i: int| self.users[i].user)
    }

    /// The node at `i` is the first book node keyed `id`.
    pub open spec fn first_book_at(self, i: int, id: Seq<char>) -> bool {
        &&& 0 <= i < self.books.len()
        &&& self.books[i].book.id == id
        &&& forall|j: int| 0 <= j < i ==> (#[trigger] self.books[j]).book.id != id
    }

    /// The node at `i` is the first reader node keyed `id`.
    pub open spec fn first_user_at(self, i: int, id: int) -> bool {
        &&& 0 <= i < self.users.len()
        &&& self.users[i].user.id == id
        &&& forall|j: int| 0 <= j < i ==> (#[trigger] self.users[j]).user.id != id
    }

    /// The first book keyed `id`, if there is one.
    pub open spec fn book(self, id: Seq<char>) -> Option<BookView> {
        if exists|i: int| self.first_book_at(i, id) {
            Some(self.books[choose|i: int| self.first_book_at(i, id)].book)
        } else {
            None
        }
    }

    /// The first reader keyed `id`, if there is one.
    pub open spec fn user(self, id: int) -> Option<UserView> {
        if exists|i: int| self.first_user_at(i, id) {
            Some(self.users[choose|i: int| self.first_user_at(i, id)].user)
        } else {
            None
        }
    }

    /// The graph with one more book node, which gets the identifier `next`.
    pub open spec fn with_book(self, book: BookView) -> GraphView {
        GraphView {
            books: self.books.push(BookNodeView { element: self.next, book }),
            next: (self.next + 1) as u64,
            ..self
        }
    }

    /// The graph with one more reader node, which gets the identifier `next`.
    pub open spec fn with_user(self, user: UserView) -> GraphView {
        GraphView {
            users: self.users.push(UserNodeView { element: self.next, user }),
            next: (self.next + 1) as u64,
            ..self
        }
    }

    /// The graph without the books keyed `id` and without the edges at them.
    pub open spec fn without_book(self, id: Seq<char>) -> GraphView {
        GraphView {
            books: self.books.filter(book_not_keyed(id)),
            reads: Set::new(|e: (u64, u64)| self.reads.contains(e) && !self.book_keyed(e.1, id)),
            ..self
        }
    }

    /// The graph without the readers keyed `id` and without the edges at them.
    pub open spec fn without_user(self, id: int) -> GraphView {
        GraphView {
            users: self.users.filter(user_not_keyed(id)),
            reads: Set::new(|e: (u64, u64)| self.reads.contains(e) && !self.user_keyed(e.0, id)),
            ..self
        }
    }

    /// The graph with an edge from every reader keyed `user_id` to every book
    /// keyed `book_id`. An edge that is there already is not added again.
    pub open spec fn with_read(self, user_id: int, book_id: Seq<char>) -> GraphView {
        GraphView {
            reads: Set::new(
                |e: (u64, u64)|
                    self.reads.contains(e) || (self.user_keyed(e.0, user_id) && self.book_keyed(
                        e.1,
                        book_id,
                    )),
            ),
            ..self
        }
    }

    /// The graph without the edges from a reader keyed `user_id` to a book
    /// keyed `book_id`.
    pub open spec fn without_read(self, user_id: int, book_id: Seq<char>) -> GraphView {
        GraphView {
            reads: Set::new(
                |e: (u64, u64)|
                    self.reads.contains(e) && !(self.user_keyed(e.0, user_id) && self.book_keyed(
                        e.1,
                        book_id,
                    )),
            ),
            ..self
        }
    }

    /// The books among the first `k` that the reader node `reader` has read,
    /// in the order of their nodes.
    pub open spec fn shelf_upto(self, reader: u64, k: nat) -> Seq<BookView>
        decreases k,
    {
        if k == 0 {
            Seq::empty()
        } else {
            let rest = self.shelf_upto(reader, (k - 1) as nat);
            if k <= self.books.len() && self.reads.contains((reader, self.books[k - 1].element)) {
                rest.push(self.books[k - 1].book)
            } else {
                rest
            }
        }
    }

    /// The books that the reader node `reader` has read, each once.
    pub open spec fn shelf(self, reader: u64) -> Seq<BookView> {
        self.shelf_upto(reader, self.books.len())
    }

    /// The shelves of the readers keyed `id` among the first `k`, one after
    /// the other.
    pub open spec fn reading_upto(self, id: int, k: nat) -> Seq<BookView>
        decreases k,
    {
        if k == 0 {
            Seq::empty()
        } else {
            let rest = self.reading_upto(id, (k - 1) as nat);
            if k <= self.users.len() && self.users[k - 1].user.id == id {
                rest + self.shelf(self.users[k - 1].element)
            } else {
                rest
            }
        }
    }

    /// The books that the readers keyed `id` have read.
    pub open spec fn reading(self, id: int) -> Seq<BookView> {
        self.reading_upto(id, self.users.len())
    }

    /// The book node `book` has been read by a reader keyed `id`.
    pub open spec fn read_by_target(self, book: u64, id: int) -> bool {
        exists|r: u64| self.user_keyed(r, id) && #[trigger] self.reads.contains((r, book))
    }

    /// The reader node `reader` is a neighbour of the readers keyed `id`: it
    /// is none of them, and has read a book that one of them has read. Where
    /// several readers share the key `id`, the store's own statement would
    /// take each of them as a neighbour of the others; here they are one.
    pub open spec fn neighbour(self, reader: u64, id: int) -> bool {
        !self.user_keyed(reader, id) && exists|b: u64|
            self.read_by_target(b, id) && #[trigger] self.reads.contains((reader, b))
    }

    /// The number of neighbours, among the first `k` reader nodes, who have
    /// read the book node `book`.
    pub open spec fn score_upto(self, book: u64, id: int, k: nat) -> nat
        decreases k,
    {
        if k == 0 {
            0
        } else {
            let rest = self.score_upto(book, id, (k - 1) as nat);
            if k <= self.users.len() && self.neighbour(self.users[k - 1].element, id)
                && self.reads.contains((self.users[k - 1].element, book)) {
                rest + 1
            } else {
                rest
            }
        }
    }

    /// The number of distinct neighbours of the readers keyed `id` who have
    /// read the book node `book`.
    pub open spec fn score(self, book: u64, id: int) -> nat {
        self.score_upto(book, id, self.users.len())
    }

    /// What the book node at `i` is worth to the readers keyed `id`: nothing
    /// where one of them has read it, else its score.
    pub open spec fn rating(self, i: int, id: int) -> int {
        if self.read_by_target(self.books[i].element, id) {
            0
        } else {
            self.score(self.books[i].element, id) as int
        }
    }

    /// The rating of every book node, in the order of the nodes.
    pub open spec fn ratings(self, id: int) -> Seq<int> {
        Seq::new(self.books.len(), |i: int| self.rating(i, id))
    }

    /// `picks` holds the positions of the book nodes to recommend to the
    /// readers keyed `id`, best first.
    pub open spec fn ranked(self, id: int, picks: Seq<int>) -> bool {
        is_ranking(self.ratings(id), picks, TOP as int)
    }

    /// The books at the positions `picks`.
    pub open spec fn picked(self, picks: Seq<int>) -> Seq<BookView> {
        Seq::new(picks.len(), |k: int| self.books[picks[k]].book)
    }

    /// The graph with the title, author, genre and cover of `book` written
    /// over those of every book keyed `id`. A key stays as it is.
    pub open spec fn with_book_edited(self, id: Seq<char>, book: BookView) -> GraphView {
        GraphView {
            books: Seq::new(self.books.len(), |i: int| edited_book(self.books[i], id, book)),
            ..self
        }
    }

    /// The graph with the name of `user` written over that of every reader
    /// keyed `id`. A key stays as it is.
    pub open spec fn with_user_edited(self, id: int, user: UserView) -> GraphView {
        GraphView {
            users: Seq::new(self.users.len(), |i: int| edited_user(self.users[i], id, user)),
            ..self
        }
    }
}

/// Holds of the book nodes with another key than `id`.
pub open spec fn book_not_keyed(id: Seq<char>) -> spec_fn(BookNodeView) -> bool {
    |n: BookNodeView| n.book.id != id
}

/// Holds of the reader nodes with another key than `id`.
pub open spec fn user_not_keyed(id: int) -> spec_fn(UserNodeView) -> bool {
    |n: UserNodeView| n.user.id != id
}

/// The identifier of a book node.
pub open spec fn book_element() -> spec_fn(BookNodeView) -> u64 {
    |n: BookNodeView| n.element
}

/// The identifier of a reader node.
pub open spec fn user_element() -> spec_fn(UserNodeView) -> u64 {
    |n: UserNodeView| n.element
}

/// No two items of `s` have the same tag.
pub open spec fn distinct_by<A>(s: Seq<A>, tag: spec_fn(A) -> u64) -> bool {
    forall|i: int, j: int| 0 <= i < j < s.len() ==> tag(#[trigger] s[i]) != tag(#[trigger] s[j])
}

/// What is left of a sequence without repeated tags has none either.
proof fn lemma_filter_distinct<A>(s: Seq<A>, keep: spec_fn(A) -> bool, tag: spec_fn(A) -> u64)
    requires
        distinct_by(s, tag),
    ensures
        distinct_by(s.filter(keep), tag),
    decreases s.len(),
{
    reveal(Seq::filter);
    if s.len() > 0 {
        let rest = s.drop_last();
        assert forall|i: int, j: int| 0 <= i < j < rest.len() implies tag(#[trigger] rest[i])
            != tag(#[trigger] rest[j]) by {
            assert(rest[i] == s[i] && rest[j] == s[j]);
        }
        lemma_filter_distinct(rest, keep, tag);
        let kept = rest.filter(keep);
        if keep(s.last()) {
            assert forall|i: int, j: int| 0 <= i < j < kept.push(s.last()).len() implies tag(
                #[trigger] kept.push(s.last())[i],
            ) != tag(#[trigger] kept.push(s.last())[j]) by {
                if j == kept.len() {
                    assert(kept.contains(kept[i]));
                    rest.lemma_filter_contains_rev(keep, kept[i]);
                    let a = choose|a: int| 0 <= a < rest.len() && rest[a] == kept[i];
                    assert(s[a] == kept[i]);
                    assert(s[s.len() - 1] == s.last());
                } else {
                    assert(kept.push(s.last())[i] == kept[i]);
                    assert(kept.push(s.last())[j] == kept[j]);
                }
            }
        }
    }
}

/// A book node after an edit of the books keyed `id`.
pub open spec fn edited_book(node: BookNodeView, id: Seq<char>, book: BookView) -> BookNodeView {
    if node.book.id == id {
        BookNodeView {
            element: node.element,
            book: BookView {
                id: node.book.id,
                title: book.title,
                author: book.author,
                genre: book.genre,
                cover: book.cover,
            },
        }
    } else {
        node
    }
}

/// A reader node after an edit of the readers keyed `id`.
pub open spec fn edited_user(node: UserNodeView, id: int, user: UserView) -> UserNodeView {
    if node.user.id == id {
        UserNodeView { element: node.element, user: UserView { id: node.user.id, name: user.name } }
    } else {
        node
    }
}

/// A graph stays well formed where its nodes keep their identifiers and its
/// edges stay as they are.
proof fn lemma_relabel(before: GraphView, after: GraphView)
    requires
        before.wf(),
        after.books.len() == before.books.len(),
        after.users.len() == before.users.len(),
        forall|i: int|
            0 <= i < before.books.len() ==> (#[trigger] after.books[i]).element
                == before.books[i].element,
        forall|i: int|
            0 <= i < before.users.len() ==> (#[trigger] after.users[i]).element
                == before.users[i].element,
        after.reads == before.reads,
        after.next == before.next,
    ensures
        after.wf(),
{
    assert forall|u: u64, b: u64| #[trigger] after.reads.contains((u, b)) implies after.has_user(u)
        && after.has_book(b) by {
        assert(before.reads.contains((u, b)));
        let i = choose|i: int|
            0 <= i < before.books.len() && (#[trigger] before.books[i]).element == b;
        assert(after.books[i].element == b);
        let j = choose|j: int|
            0 <= j < before.users.len() && (#[trigger] before.users[j]).element == u;
        assert(after.users[j].element == u);
    }
    assert forall|i: int, j: int| 0 <= i < j < after.books.len() implies (
    #[trigger] after.books[i]).element != (#[trigger] after.books[j]).element by {
        assert(before.books[i].element != before.books[j].element);
    }
    assert forall|i: int, j: int| 0 <= i < j < after.users.len() implies (
    #[trigger] after.users[i]).element != (#[trigger] after.users[j]).element by {
        assert(before.users[i].element != before.users[j].element);
    }
    assert forall|i: int| 0 <= i < after.books.len() implies (#[trigger] after.books[i]).element
        < after.next by {
        assert(before.books[i].element < before.next);
    }
    assert forall|i: int| 0 <= i < after.users.len() implies (#[trigger] after.users[i]).element
        < after.next by {
        assert(before.users[i].element < before.next);
    }
}

/// A book node of the graph.
pub struct BookNode {
    element: u64,
    book: Book,
}

impl View for BookNode {
    type V = BookNodeView;

    closed spec fn view(&self) -> BookNodeView {
        BookNodeView { element: self.element, book: self.book@ }
    }
}

/// A reader node of the graph.
pub struct UserNode {
    element: u64,
    user: User,
}

impl View for UserNode {
    type V = UserNodeView;

    closed spec fn view(&self) -> UserNodeView {
        UserNodeView { element: self.element, user: self.user@ }
    }
}

/// The graph in memory.
pub struct Graph {
    books: Vec<BookNode>,
    users: Vec<UserNode>,
    reads: Vec<(u64, u64)>,
    next: u64,
}

impl View for Graph {
    type V = GraphView;

    closed spec fn view(&self) -> GraphView {
        GraphView {
            books: Seq::new(self.books@.len(), |i: int| self.books@[i]@),
            users: Seq::new(self.users@.len(), |i: int| self.users@[i]@),
            reads: self.reads@.to_set(),
            next: self.next,
        }
    }
}

impl Graph {
    /// The graph is well formed.
    pub open spec fn wf(&self) -> bool {
        self@.wf()
    }

    /// An empty graph.
    pub fn new() -> (graph: Self)
        ensures
            graph.wf(),
            graph@ == GraphView::empty(),
    {
        let graph = Graph { books: Vec::new(), users: Vec::new(), reads: Vec::new(), next: 0 };
        assert(graph@.reads =~= Set::empty());
        graph
    }

    /// Every book, in the order of creation: what `ALL_BOOKS` asks for.
    pub fn get_all_books(&self) -> (books: Vec<Book>)
        ensures
            crate::database::book_views(books@) == self@.all_books(),
    {
        let mut books: Vec<Book> = Vec::new();
        let mut i: usize = 0;
        while i < self.books.len()
            invariant
                i <= self.books.len(),
                books.len() == i,
                forall|k: int| 0 <= k < i ==> (#[trigger] books[k])@ == self.books[k]@.book,
            decreases self.books.len() - i,
        {
            books.push(self.books[i].book.clone());
            i += 1;
        }
        books
    }

    /// The first book keyed `id`; `None` where no book has that key: the first
    /// row of what `BOOK_BY_ID` asks for.
    pub fn get_book(&self, id: &str) -> (book: Option<Book>)
        ensures
            book is Some <==> self@.book(id@) is Some,
            book matches Some(b) ==> self@.book(id@) == Some(b@),
    {
        let key = id.to_owned();
        let mut i: usize = 0;
        while i < self.books.len()
            invariant
                i <= self.books.len(),
                key@ == id@,
                forall|j: int| 0 <= j < i ==> (#[trigger] self@.books[j]).book.id != id@,
            decreases self.books.len() - i,
        {
            if *self.books[i].book.id() == key {
                assert(self@.books[i as int] == self.books[i as int]@);
                assert(self@.first_book_at(i as int, id@));
                return Some(self.books[i].book.clone());
            }
            assert(self@.books[i as int] == self.books[i as int]@);
            i += 1;
        }
        None
    }

    /// Adds a book node with the fields of `book`, whatever its key, and
    /// returns the node's identifier; `None`, and no change, where the graph
    /// has run out of identifiers.
    pub fn add_book(&mut self, book: &Book) -> (element: Option<u64>)
        requires
            old(self).wf(),
        ensures
            final(self).wf(),
            old(self)@.next < u64::MAX ==> element == Some(old(self)@.next) && final(self)@ == old(
                self,
            )@.with_book(book@),
            old(self)@.next == u64::MAX ==> element is None && final(self)@ == old(self)@,
    {
        if self.next == u64::MAX {
            return None;
        }
        let element = self.next;
        self.books.push(BookNode { element, book: book.clone() });
        self.next = self.next + 1;
        proof {
            let before = old(self)@;
            let after = self@;
            assert(after.books =~= before.books.push(BookNodeView { element, book: book@ }));
            assert(after.users =~= before.users);
            assert forall|u: u64, b: u64| #[trigger] after.reads.contains((u, b)) implies after.has_user(
                u,
            ) && after.has_book(b) by {
                assert(before.reads.contains((u, b)));
                let i = choose|i: int|
                    0 <= i < before.books.len() && (#[trigger] before.books[i]).element == b;
                assert(after.books[i].element == b);
            }
        }
        Some(element)
    }

    /// Every reader, in the order of creation: what `ALL_USERS` asks for.
    pub fn get_all_users(&self) -> (users: Vec<User>)
        ensures
            crate::database::user_views(users@) == self@.all_users(),
    {
        let mut users: Vec<User> = Vec::new();
        let mut i: usize = 0;
        while i < self.users.len()
            invariant
                i <= self.users.len(),
                users.len() == i,
                forall|k: int| 0 <= k < i ==> (#[trigger] users[k])@ == self.users[k]@.user,
            decreases self.users.len() - i,
        {
            users.push(self.users[i].user.clone());
            i += 1;
        }
        users
    }

    /// The first reader keyed `id`; `None` where no reader has that key: the
    /// first row of what `USER_BY_ID` asks for.
    pub fn get_user(&self, id: i32) -> (user: Option<User>)
        ensures
            user is Some <==> self@.user(id as int) is Some,
            user matches Some(u) ==> self@.user(id as int) == Some(u@),
    {
        let mut i: usize = 0;
        while i < self.users.len()
            invariant
                i <= self.users.len(),
                forall|j: int| 0 <= j < i ==> (#[trigger] self@.users[j]).user.id != id as int,
            decreases self.users.len() - i,
        {
            assert(self@.users[i as int] == self.users[i as int]@);
            if self.users[i].user.id() == id {
                assert(self@.first_user_at(i as int, id as int));
                return Some(self.users[i].user.clone());
            }
            i += 1;
        }
        None
    }

    /// Adds a reader node with the fields of `user`, whatever its key, and
    /// returns the node's identifier; `None`, and no change, where the graph
    /// has run out of identifiers.
    pub fn add_user(&mut self, user: &User) -> (element: Option<u64>)
        requires
            old(self).wf(),
        ensures
            final(self).wf(),
            old(self)@.next < u64::MAX ==> element == Some(old(self)@.next) && final(self)@ == old(
                self,
            )@.with_user(user@),
            old(self)@.next == u64::MAX ==> element is None && final(self)@ == old(self)@,
    {
        if self.next == u64::MAX {
            return None;
        }
        let element = self.next;
        self.users.push(UserNode { element, user: user.clone() });
        self.next = self.next + 1;
        proof {
            let before = old(self)@;
            let after = self@;
            assert(after.users =~= before.users.push(UserNodeView { element, user: user@ }));
            assert(after.books =~= before.books);
            assert forall|u: u64, b: u64| #[trigger] after.reads.contains((u, b)) implies after.has_user(
                u,
            ) && after.has_book(b) by {
                assert(before.reads.contains((u, b)));
                let i = choose|i: int|
                    0 <= i < before.users.len() && (#[trigger] before.users[i]).element == u;
                assert(after.users[i].element == u);
            }
        }
        Some(element)
    }

    /// Writes the title, author, genre and cover of `book` over those of
    /// every book keyed `id`. Where no book has that key nothing changes.
    pub fn edit_book(&mut self, id: &str, book: &Book)
        requires
            old(self).wf(),
        ensures
            final(self).wf(),
            final(self)@ == old(self)@.with_book_edited(id@, book@),
    {
        let key = id.to_owned();
        let mut i: usize = 0;
        while i < self.books.len()
            invariant
                i <= self.books.len(),
                key@ == id@,
                self.books.len() == old(self).books.len(),
                self.users == old(self).users,
                self.reads == old(self).reads,
                self.next == old(self).next,
                forall|k: int|
                    0 <= k < i ==> (#[trigger] self.books[k])@ == edited_book(
                        old(self).books[k]@,
                        id@,
                        book@,
                    ),
                forall|k: int|
                    i <= k < self.books.len() ==> (#[trigger] self.books[k]) == old(self).books[k],
            decreases self.books.len() - i,
        {
            if *self.books[i].book.id() == key {
                let element = self.books[i].element;
                let edited = Book::new(
                    self.books[i].book.id().clone(),
                    book.title().clone(),
                    book.author().clone(),
                    book.genre().clone(),
                    book.cover().clone(),
                );
                self.books.set(i, BookNode { element, book: edited });
            }
            i += 1;
        }
        proof {
            assert(self@.books =~= old(self)@.with_book_edited(id@, book@).books);
            assert(self@.users =~= old(self)@.users);
            lemma_relabel(old(self)@, self@);
        }
    }

    /// Writes the name of `user` over that of every reader keyed `id`. Where
    /// no reader has that key nothing changes.
    pub fn edit_user(&mut self, id: i32, user: &User)
        requires
            old(self).wf(),
        ensures
            final(self).wf(),
            final(self)@ == old(self)@.with_user_edited(id as int, user@),
    {
        let mut i: usize = 0;
        while i < self.users.len()
            invariant
                i <= self.users.len(),
                self.users.len() == old(self).users.len(),
                self.books == old(self).books,
                self.reads == old(self).reads,
                self.next == old(self).next,
                forall|k: int|
                    0 <= k < i ==> (#[trigger] self.users[k])@ == edited_user(
                        old(self).users[k]@,
                        id as int,
                        user@,
                    ),
                forall|k: int|
                    i <= k < self.users.len() ==> (#[trigger] self.users[k]) == old(self).users[k],
            decreases self.users.len() - i,
        {
            if self.users[i].user.id() == id {
                let element = self.users[i].element;
                let edited = User::new(id, user.name().clone());
                self.users.set(i, UserNode { element, user: edited });
            }
            i += 1;
        }
        proof {
            assert(self@.users =~= old(self)@.with_user_edited(id as int, user@).users);
            assert(self@.books =~= old(self)@.books);
            lemma_relabel(old(self)@, self@);
        }
    }

    fn book_has_key(&self, element: u64, key: &String) -> (keyed: bool)
        requires
            self.wf(),
        ensures
            keyed == self@.book_keyed(element, key@),
    {
        let mut i: usize = 0;
        while i < self.books.len()
            invariant
                i <= self.books.len(),
                self.wf(),
                forall|j: int| 0 <= j < i ==> (#[trigger] self@.books[j]).element != element,
            decreases self.books.len() - i,
        {
            assert(self@.books[i as int] == self.books[i as int]@);
            if self.books[i].element == element {
                let keyed = *self.books[i].book.id() == *key;
                proof {
                    if !keyed {
                        assert forall|j: int|
                            0 <= j < self@.books.len() && (#[trigger] self@.books[j]).element
                                == element implies self@.books[j].book.id != key@ by {
                            if j != i {
                                assert(self@.books[j].element != self@.books[i as int].element);
                            }
                        }
                    }
                }
                return keyed;
            }
            i += 1;
        }
        false
    }

    fn user_has_key(&self, element: u64, id: i32) -> (keyed: bool)
        requires
            self.wf(),
        ensures
            keyed == self@.user_keyed(element, id as int),
    {
        let mut i: usize = 0;
        while i < self.users.len()
            invariant
                i <= self.users.len(),
                self.wf(),
                forall|j: int| 0 <= j < i ==> (#[trigger] self@.users[j]).element != element,
            decreases self.users.len() - i,
        {
            assert(self@.users[i as int] == self.users[i as int]@);
            if self.users[i].element == element {
                let keyed = self.users[i].user.id() == id;
                proof {
                    if !keyed {
                        assert forall|j: int|
                            0 <= j < self@.users.len() && (#[trigger] self@.users[j]).element
                                == element implies self@.users[j].user.id != id as int by {
                            if j != i {
                                assert(self@.users[j].element != self@.users[i as int].element);
                            }
                        }
                    }
                }
                return keyed;
            }
            i += 1;
        }
        false
    }

    fn has_read(&self, reader: u64, book: u64) -> (read: bool)
        ensures
            read == self.reads@.contains((reader, book)),
            read == self@.reads.contains((reader, book)),
    {
        let mut i: usize = 0;
        while i < self.reads.len()
            invariant
                i <= self.reads.len(),
                forall|j: int| 0 <= j < i ==> self.reads@[j] != (reader, book),
            decreases self.reads.len() - i,
        {
            if self.reads[i].0 == reader && self.reads[i].1 == book {
                assert(self.reads@[i as int] == (reader, book));
                return true;
            }
            i += 1;
        }
        false
    }

    /// Removes every book keyed `id`, and every edge at one of them. Where no
    /// book has that key nothing changes.
    pub fn delete_book(&mut self, id: &str)
        requires
            old(self).wf(),
        ensures
            final(self).wf(),
            final(self)@ == old(self)@.without_book(id@),
    {
        let key = id.to_owned();
        let mut reads: Vec<(u64, u64)> = Vec::new();
        let mut k: usize = 0;
        while k < self.reads.len()
            invariant
                k <= self.reads.len(),
                self.wf(),
                key@ == id@,
                forall|e: (u64, u64)| #[trigger]
                    reads@.contains(e) ==> self.reads@.take(k as int).contains(e)
                        && !self@.book_keyed(e.1, id@),
                forall|e: (u64, u64)| #[trigger]
                    self.reads@.take(k as int).contains(e) && !self@.book_keyed(e.1, id@)
                        ==> reads@.contains(e),
            decreases self.reads.len() - k,
        {
            let e = self.reads[k];
            let dead = self.book_has_key(e.1, &key);
            let ghost kept = reads@;
            let ghost seen = self.reads@.take(k as int);
            if !dead {
                reads.push(e);
            }
            proof {
                let now = self.reads@.take(k + 1);
                assert(now =~= seen.push(e));
                assert forall|x: (u64, u64)| #[trigger] reads@.contains(x) implies now.contains(x)
                    && !self@.book_keyed(x.1, id@) by {
                    lemma_seq_contains_after_push(seen, e, x);
                    if !dead {
                        lemma_seq_contains_after_push(kept, e, x);
                    }
                }
                assert forall|x: (u64, u64)| #[trigger]
                    now.contains(x) && !self@.book_keyed(x.1, id@) implies reads@.contains(x) by {
                    lemma_seq_contains_after_push(seen, e, x);
                    if !dead {
                        lemma_seq_contains_after_push(kept, e, x);
                    }
                }
            }
            k += 1;
        }
        assert(self.reads@.take(k as int) =~= self.reads@);
        let ghost keep = book_not_keyed(id@);
        let mut books: Vec<BookNode> = Vec::new();
        let mut i: usize = 0;
        while i < self.books.len()
            invariant
                i <= self.books.len(),
                key@ == id@,
                keep == book_not_keyed(id@),
                Seq::new(books@.len(), |a: int| books@[a]@) == self@.books.take(i as int).filter(
                    keep,
                ),
            decreases self.books.len() - i,
        {
            proof {
                assert(self@.books[i as int] == self.books[i as int]@);
                assert(self@.books.take(i + 1) =~= self@.books.take(i as int).push(
                    self@.books[i as int],
                ));
                self@.books.take(i as int).lemma_filter_push(self@.books[i as int], keep);
            }
            if !(*self.books[i].book.id() == key) {
                let ghost shown = Seq::new(books@.len(), |a: int| books@[a]@);
                let node = BookNode {
                    element: self.books[i].element,
                    book: self.books[i].book.clone(),
                };
                books.push(node);
                assert(Seq::new(books@.len(), |a: int| books@[a]@) =~= shown.push(
                    self@.books[i as int],
                ));
            }
            i += 1;
        }
        assert(self@.books.take(i as int) =~= self@.books);
        self.books = books;
        self.reads = reads;
        proof {
            let before = old(self)@;
            let after = self@;
            assert(after.books =~= before.books.filter(keep));
            assert(after.users =~= before.users);
            assert(after.reads =~= before.without_book(id@).reads);
            assert(distinct_by(before.books, book_element()));
            lemma_filter_distinct(before.books, keep, book_element());
            assert forall|a: int| 0 <= a < after.books.len() implies (#[trigger] after.books[a]).element
                < after.next by {
                assert(before.books.filter(keep).contains(after.books[a]));
                before.books.lemma_filter_contains_rev(keep, after.books[a]);
                let b = choose|b: int| 0 <= b < before.books.len() && before.books[b] == after.books[a];
                assert(before.books[b].element < before.next);
            }
            assert forall|u: u64, b: u64| #[trigger] after.reads.contains((u, b)) implies after.has_user(
                u,
            ) && after.has_book(b) by {
                assert(before.reads.contains((u, b)));
                let c = choose|c: int|
                    0 <= c < before.books.len() && (#[trigger] before.books[c]).element == b;
                assert(keep(before.books[c]));
                before.books.lemma_filter_contains(keep, c);
                let d = choose|d: int|
                    0 <= d < after.books.len() && after.books[d] == before.books[c];
                assert(after.books[d].element == b);
            }
            assert forall|a: int, b: int| 0 <= a < b < after.books.len() implies (
            #[trigger] after.books[a]).element != (#[trigger] after.books[b]).element by {
                assert(book_element()(after.books[a]) != book_element()(after.books[b]));
            }
        }
    }

    /// Removes every reader keyed `id`, and every edge at one of them. Where
    /// no reader has that key nothing changes.
    pub fn delete_user(&mut self, id: i32)
        requires
            old(self).wf(),
        ensures
            final(self).wf(),
            final(self)@ == old(self)@.without_user(id as int),
    {
        let mut reads: Vec<(u64, u64)> = Vec::new();
        let mut k: usize = 0;
        while k < self.reads.len()
            invariant
                k <= self.reads.len(),
                self.wf(),
                forall|e: (u64, u64)| #[trigger]
                    reads@.contains(e) ==> self.reads@.take(k as int).contains(e)
                        && !self@.user_keyed(e.0, id as int),
                forall|e: (u64, u64)| #[trigger]
                    self.reads@.take(k as int).contains(e) && !self@.user_keyed(e.0, id as int)
                        ==> reads@.contains(e),
            decreases self.reads.len() - k,
        {
            let e = self.reads[k];
            let dead = self.user_has_key(e.0, id);
            let ghost kept = reads@;
            let ghost seen = self.reads@.take(k as int);
            if !dead {
                reads.push(e);
            }
            proof {
                let now = self.reads@.take(k + 1);
                assert(now =~= seen.push(e));
                assert forall|x: (u64, u64)| #[trigger] reads@.contains(x) implies now.contains(x)
                    && !self@.user_keyed(x.0, id as int) by {
                    lemma_seq_contains_after_push(seen, e, x);
                    if !dead {
                        lemma_seq_contains_after_push(kept, e, x);
                    }
                }
                assert forall|x: (u64, u64)| #[trigger]
                    now.contains(x) && !self@.user_keyed(x.0, id as int) implies reads@.contains(x) by {
                    lemma_seq_contains_after_push(seen, e, x);
                    if !dead {
                        lemma_seq_contains_after_push(kept, e, x);
                    }
                }
            }
            k += 1;
        }
        assert(self.reads@.take(k as int) =~= self.reads@);
        let ghost keep = user_not_keyed(id as int);
        let mut users: Vec<UserNode> = Vec::new();
        let mut i: usize = 0;
        while i < self.users.len()
            invariant
                i <= self.users.len(),
                keep == user_not_keyed(id as int),
                Seq::new(users@.len(), |a: int| users@[a]@) == self@.users.take(i as int).filter(
                    keep,
                ),
            decreases self.users.len() - i,
        {
            proof {
                assert(self@.users[i as int] == self.users[i as int]@);
                assert(self@.users.take(i + 1) =~= self@.users.take(i as int).push(
                    self@.users[i as int],
                ));
                self@.users.take(i as int).lemma_filter_push(self@.users[i as int], keep);
            }
            if self.users[i].user.id() != id {
                let ghost shown = Seq::new(users@.len(), |a: int| users@[a]@);
                let node = UserNode {
                    element: self.users[i].element,
                    user: self.users[i].user.clone(),
                };
                users.push(node);
                assert(Seq::new(users@.len(), |a: int| users@[a]@) =~= shown.push(
                    self@.users[i as int],
                ));
            }
            i += 1;
        }
        assert(self@.users.take(i as int) =~= self@.users);
        self.users = users;
        self.reads = reads;
        proof {
            let before = old(self)@;
            let after = self@;
            assert(after.users =~= before.users.filter(keep));
            assert(after.books =~= before.books);
            assert(after.reads =~= before.without_user(id as int).reads);
            assert(distinct_by(before.users, user_element()));
            lemma_filter_distinct(before.users, keep, user_element());
            assert forall|a: int| 0 <= a < after.users.len() implies (#[trigger] after.users[a]).element
                < after.next by {
                assert(before.users.filter(keep).contains(after.users[a]));
                before.users.lemma_filter_contains_rev(keep, after.users[a]);
                let b = choose|b: int| 0 <= b < before.users.len() && before.users[b] == after.users[a];
                assert(before.users[b].element < before.next);
            }
            assert forall|u: u64, b: u64| #[trigger] after.reads.contains((u, b)) implies after.has_user(
                u,
            ) && after.has_book(b) by {
                assert(before.reads.contains((u, b)));
                let c = choose|c: int|
                    0 <= c < before.users.len() && (#[trigger] before.users[c]).element == u;
                assert(keep(before.users[c]));
                before.users.lemma_filter_contains(keep, c);
                let d = choose|d: int|
                    0 <= d < after.users.len() && after.users[d] == before.users[c];
                assert(after.users[d].element == u);
            }
            assert forall|a: int, b: int| 0 <= a < b < after.users.len() implies (
            #[trigger] after.users[a]).element != (#[trigger] after.users[b]).element by {
                assert(user_element()(after.users[a]) != user_element()(after.users[b]));
            }
        }
    }

    fn shelve(&self, reader: u64, out: &mut Vec<Book>)
        ensures
            book_views(final(out)@) == book_views(old(out)@) + self@.shelf(reader),
    {
        let mut j: usize = 0;
        assert(book_views(out@) =~= book_views(old(out)@) + self@.shelf_upto(reader, 0));
        while j < self.books.len()
            invariant
                j <= self.books.len(),
                book_views(out@) == book_views(old(out)@) + self@.shelf_upto(reader, j as nat),
            decreases self.books.len() - j,
        {
            assert(self@.books[j as int] == self.books[j as int]@);
            if self.has_read(reader, self.books[j].element) {
                let ghost shown = book_views(out@);
                out.push(self.books[j].book.clone());
                assert(book_views(out@) =~= shown.push(self@.books[j as int].book));
            }
            j += 1;
            assert(book_views(out@) =~= book_views(old(out)@) + self@.shelf_upto(reader, j as nat));
        }
    }

    /// The books that the readers keyed `id` have read: for each such reader,
    /// in the order of creation, the books they have read, each once, in the
    /// order of creation.
    pub fn get_user_books(&self, id: i32) -> (books: Vec<Book>)
        ensures
            book_views(books@) == self@.reading(id as int),
    {
        let mut books: Vec<Book> = Vec::new();
        let mut k: usize = 0;
        assert(book_views(books@) =~= self@.reading_upto(id as int, 0));
        while k < self.users.len()
            invariant
                k <= self.users.len(),
                book_views(books@) == self@.reading_upto(id as int, k as nat),
            decreases self.users.len() - k,
        {
            assert(self@.users[k as int] == self.users[k as int]@);
            if self.users[k].user.id() == id {
                self.shelve(self.users[k].element, &mut books);
            }
            k += 1;
        }
        books
    }

    fn readers_keyed(&self, id: i32) -> (found: Vec<u64>)
        ensures
            forall|e: u64| #[trigger] found@.contains(e) ==> self@.user_keyed(e, id as int),
            forall|e: u64| #[trigger] self@.user_keyed(e, id as int) ==> found@.contains(e),
    {
        let mut found: Vec<u64> = Vec::new();
        let mut i: usize = 0;
        while i < self.users.len()
            invariant
                i <= self.users.len(),
                forall|e: u64| #[trigger] found@.contains(e) ==> self@.user_keyed(e, id as int),
                forall|j: int|
                    0 <= j < i && (#[trigger] self@.users[j]).user.id == id as int
                        ==> found@.contains(self@.users[j].element),
            decreases self.users.len() - i,
        {
            assert(self@.users[i as int] == self.users[i as int]@);
            if self.users[i].user.id() == id {
                let ghost before = found@;
                let element = self.users[i].element;
                found.push(element);
                proof {
                    assert forall|e: u64| #[trigger] found@.contains(e) implies self@.user_keyed(
                        e,
                        id as int,
                    ) by {
                        lemma_seq_contains_after_push(before, element, e);
                    }
                    assert forall|j: int|
                        0 <= j < i + 1 && (#[trigger] self@.users[j]).user.id == id as int implies found@.contains(
                        self@.users[j].element) by {
                        lemma_seq_contains_after_push(before, element, self@.users[j].element);
                    }
                }
            }
            i += 1;
        }
        found
    }

    fn books_keyed(&self, key: &String) -> (found: Vec<u64>)
        ensures
            forall|e: u64| #[trigger] found@.contains(e) ==> self@.book_keyed(e, key@),
            forall|e: u64| #[trigger] self@.book_keyed(e, key@) ==> found@.contains(e),
    {
        let mut found: Vec<u64> = Vec::new();
        let mut i: usize = 0;
        while i < self.books.len()
            invariant
                i <= self.books.len(),
                forall|e: u64| #[trigger] found@.contains(e) ==> self@.book_keyed(e, key@),
                forall|j: int|
                    0 <= j < i && (#[trigger] self@.books[j]).book.id == key@ ==> found@.contains(
                        self@.books[j].element,
                    ),
            decreases self.books.len() - i,
        {
            assert(self@.books[i as int] == self.books[i as int]@);
            if *self.books[i].book.id() == *key {
                let ghost before = found@;
                let element = self.books[i].element;
                found.push(element);
                proof {
                    assert forall|e: u64| #[trigger] found@.contains(e) implies self@.book_keyed(
                        e,
                        key@,
                    ) by {
                        lemma_seq_contains_after_push(before, element, e);
                    }
                    assert forall|j: int|
                        0 <= j < i + 1 && (#[trigger] self@.books[j]).book.id == key@ implies found@.contains(
                        self@.books[j].element) by {
                        lemma_seq_contains_after_push(before, element, self@.books[j].element);
                    }
                }
            }
            i += 1;
        }
        found
    }

    fn link(&mut self, reader: u64, books: &Vec<u64>)
        ensures
            final(self).books == old(self).books,
            final(self).users == old(self).users,
            final(self).next == old(self).next,
            forall|x: (u64, u64)| #[trigger]
                final(self).reads@.contains(x) ==> old(self).reads@.contains(x) || (x.0 == reader
                    && books@.contains(x.1)),
            forall|x: (u64, u64)| #[trigger]
                old(self).reads@.contains(x) ==> final(self).reads@.contains(x),
            forall|b: u64| #[trigger]
                books@.contains(b) ==> final(self).reads@.contains((reader, b)),
    {
        let mut j: usize = 0;
        while j < books.len()
            invariant
                j <= books.len(),
                self.books == old(self).books,
                self.users == old(self).users,
                self.next == old(self).next,
                forall|x: (u64, u64)| #[trigger]
                    self.reads@.contains(x) ==> old(self).reads@.contains(x) || (x.0 == reader
                        && books@.contains(x.1)),
                forall|x: (u64, u64)| #[trigger]
                    old(self).reads@.contains(x) ==> self.reads@.contains(x),
                forall|i: int| 0 <= i < j ==> self.reads@.contains((reader, #[trigger] books@[i])),
            decreases books.len() - j,
        {
            let book = books[j];
            let ghost before = self.reads@;
            if !self.has_read(reader, book) {
                self.reads.push((reader, book));
            }
            proof {
                assert(books@.contains(book));
                assert forall|x: (u64, u64)| #[trigger] self.reads@.contains(x) implies old(
                    self,
                ).reads@.contains(x) || (x.0 == reader && books@.contains(x.1)) by {
                    lemma_seq_contains_after_push(before, (reader, book), x);
                }
                assert forall|x: (u64, u64)| #[trigger] before.contains(x) implies self.reads@.contains(
                    x,
                ) by {
                    lemma_seq_contains_after_push(before, (reader, book), x);
                }
                lemma_seq_contains_after_push(before, (reader, book), (reader, book));
            }
            j += 1;
        }
    }

    /// Records that every reader keyed `user_id` has read every book keyed
    /// `book_id`. What is recorded already stays as it is, so a second call
    /// changes nothing; where no reader or no book has the key, neither does
    /// the first.
    pub fn add_book_to_user(&mut self, user_id: i32, book_id: &str)
        requires
            old(self).wf(),
        ensures
            final(self).wf(),
            final(self)@ == old(self)@.with_read(user_id as int, book_id@),
    {
        let key = book_id.to_owned();
        let readers = self.readers_keyed(user_id);
        let books = self.books_keyed(&key);
        let mut a: usize = 0;
        while a < readers.len()
            invariant
                a <= readers.len(),
                self.books == old(self).books,
                self.users == old(self).users,
                self.next == old(self).next,
                forall|x: (u64, u64)| #[trigger]
                    self.reads@.contains(x) ==> old(self).reads@.contains(x) || (
                    readers@.contains(x.0) && books@.contains(x.1)),
                forall|x: (u64, u64)| #[trigger]
                    old(self).reads@.contains(x) ==> self.reads@.contains(x),
                forall|i: int, b: u64|
                    0 <= i < a && #[trigger] books@.contains(b) ==> self.reads@.contains(
                        (#[trigger] readers@[i], b),
                    ),
            decreases readers.len() - a,
        {
            assert(readers@.contains(readers@[a as int]));
            self.link(readers[a], &books);
            a += 1;
        }
        proof {
            let before = old(self)@;
            let after = self@;
            let wanted = before.with_read(user_id as int, book_id@);
            assert(after.books =~= before.books);
            assert(after.users =~= before.users);
            assert forall|x: (u64, u64)| after.reads.contains(x) == wanted.reads.contains(x) by {
                if before.user_keyed(x.0, user_id as int) && before.book_keyed(x.1, book_id@) {
                    assert(readers@.contains(x.0));
                    assert(books@.contains(x.1));
                    let i = choose|i: int| 0 <= i < readers@.len() && readers@[i] == x.0;
                    assert(self.reads@.contains((readers@[i], x.1)));
                }
                if before.reads.contains(x) {
                    assert(old(self).reads@.contains(x));
                }
            }
            assert(after.reads =~= wanted.reads);
            assert forall|u: u64, b: u64| #[trigger] after.reads.contains((u, b)) implies after.has_user(
                u,
            ) && after.has_book(b) by {
                if !before.reads.contains((u, b)) {
                    assert(before.user_keyed(u, user_id as int));
                    assert(before.book_keyed(b, book_id@));
                }
            }
        }
    }

    /// Forgets that a reader keyed `user_id` has read a book keyed `book_id`.
    /// The nodes stay; where there is no such edge nothing changes.
    pub fn remove_book_from_user(&mut self, user_id: i32, book_id: &str)
        requires
            old(self).wf(),
        ensures
            final(self).wf(),
            final(self)@ == old(self)@.without_read(user_id as int, book_id@),
    {
        let key = book_id.to_owned();
        let mut reads: Vec<(u64, u64)> = Vec::new();
        let mut k: usize = 0;
        while k < self.reads.len()
            invariant
                k <= self.reads.len(),
                self.wf(),
                key@ == book_id@,
                forall|e: (u64, u64)| #[trigger]
                    reads@.contains(e) ==> self.reads@.take(k as int).contains(e) && !(
                    self@.user_keyed(e.0, user_id as int) && self@.book_keyed(e.1, book_id@)),
                forall|e: (u64, u64)| #[trigger]
                    self.reads@.take(k as int).contains(e) && !(self@.user_keyed(
                        e.0,
                        user_id as int,
                    ) && self@.book_keyed(e.1, book_id@)) ==> reads@.contains(e),
            decreases self.reads.len() - k,
        {
            let e = self.reads[k];
            let dead = self.user_has_key(e.0, user_id) && self.book_has_key(e.1, &key);
            let ghost kept = reads@;
            let ghost seen = self.reads@.take(k as int);
            if !dead {
                reads.push(e);
            }
            proof {
                let now = self.reads@.take(k + 1);
                assert(now =~= seen.push(e));
                assert forall|x: (u64, u64)| #[trigger] reads@.contains(x) implies now.contains(x)
                    && !(self@.user_keyed(x.0, user_id as int) && self@.book_keyed(
                    x.1,
                    book_id@,
                )) by {
                    lemma_seq_contains_after_push(seen, e, x);
                    if !dead {
                        lemma_seq_contains_after_push(kept, e, x);
                    }
                }
                assert forall|x: (u64, u64)| #[trigger]
                    now.contains(x) && !(self@.user_keyed(x.0, user_id as int)
                        && self@.book_keyed(x.1, book_id@)) implies reads@.contains(x) by {
                    lemma_seq_contains_after_push(seen, e, x);
                    if !dead {
                        lemma_seq_contains_after_push(kept, e, x);
                    }
                }
            }
            k += 1;
        }
        assert(self.reads@.take(k as int) =~= self.reads@);
        self.reads = reads;
        proof {
            let before = old(self)@;
            let after = self@;
            assert(after.books =~= before.books);
            assert(after.users =~= before.users);
            assert(after.reads =~= before.without_read(user_id as int, book_id@).reads);
            assert forall|u: u64, b: u64| #[trigger] after.reads.contains((u, b)) implies after.has_user(
                u,
            ) && after.has_book(b) by {
                assert(before.reads.contains((u, b)));
            }
        }
    }

    fn targets_read(&self, targets: &Vec<u64>, book: u64, id: i32) -> (read: bool)
        requires
            forall|e: u64| #[trigger] targets@.contains(e) ==> self@.user_keyed(e, id as int),
            forall|e: u64| #[trigger] self@.user_keyed(e, id as int) ==> targets@.contains(e),
        ensures
            read == self@.read_by_target(book, id as int),
    {
        let mut t: usize = 0;
        while t < targets.len()
            invariant
                t <= targets.len(),
                forall|e: u64| #[trigger] targets@.contains(e) ==> self@.user_keyed(e, id as int),
                forall|j: int| 0 <= j < t ==> !self@.reads.contains((#[trigger] targets@[j], book)),
            decreases targets.len() - t,
        {
            if self.has_read(targets[t], book) {
                assert(targets@.contains(targets@[t as int]));
                return true;
            }
            t += 1;
        }
        proof {
            assert forall|r: u64| self@.user_keyed(r, id as int) implies !(
            #[trigger] self@.reads.contains((r, book))) by {
                assert(targets@.contains(r));
                let j = choose|j: int| 0 <= j < targets@.len() && targets@[j] == r;
                assert(!self@.reads.contains((targets@[j], book)));
            }
        }
        false
    }

    fn is_neighbour(&self, targets: &Vec<u64>, at: usize, id: i32) -> (near: bool)
        requires
            self.wf(),
            at < self@.users.len(),
            forall|e: u64| #[trigger] targets@.contains(e) ==> self@.user_keyed(e, id as int),
            forall|e: u64| #[trigger] self@.user_keyed(e, id as int) ==> targets@.contains(e),
        ensures
            near == self@.neighbour(self@.users[at as int].element, id as int),
    {
        assert(self@.users[at as int] == self.users[at as int]@);
        let reader = self.users[at].element;
        if self.user_has_key(reader, id) {
            return false;
        }
        let mut i: usize = 0;
        while i < self.books.len()
            invariant
                i <= self.books.len(),
                at < self@.users.len(),
                reader == self@.users[at as int].element,
                !self@.user_keyed(reader, id as int),
                forall|e: u64| #[trigger] targets@.contains(e) ==> self@.user_keyed(e, id as int),
                forall|e: u64| #[trigger] self@.user_keyed(e, id as int) ==> targets@.contains(e),
                forall|j: int|
                    0 <= j < i ==> !(self@.read_by_target((#[trigger] self@.books[j]).element, id as int)
                        && self@.reads.contains((reader, self@.books[j].element))),
            decreases self.books.len() - i,
        {
            assert(self@.books[i as int] == self.books[i as int]@);
            let book = self.books[i].element;
            if self.has_read(reader, book) && self.targets_read(targets, book, id) {
                return true;
            }
            i += 1;
        }
        proof {
            assert forall|b: u64| self@.read_by_target(b, id as int) implies !(
            #[trigger] self@.reads.contains((reader, b))) by {
                if self@.reads.contains((reader, b)) {
                    assert(self@.has_book(b));
                    let j = choose|j: int|
                        0 <= j < self@.books.len() && (#[trigger] self@.books[j]).element == b;
                    assert(!(self@.read_by_target(self@.books[j].element, id as int)
                        && self@.reads.contains((reader, self@.books[j].element))));
                }
            }
        }
        false
    }

    fn neighbours(&self, targets: &Vec<u64>, id: i32) -> (near: Vec<bool>)
        requires
            self.wf(),
            forall|e: u64| #[trigger] targets@.contains(e) ==> self@.user_keyed(e, id as int),
            forall|e: u64| #[trigger] self@.user_keyed(e, id as int) ==> targets@.contains(e),
        ensures
            near.len() == self@.users.len(),
            forall|u: int|
                0 <= u < near.len() ==> #[trigger] near[u] == self@.neighbour(
                    self@.users[u].element,
                    id as int,
                ),
    {
        let mut near: Vec<bool> = Vec::new();
        let mut u: usize = 0;
        while u < self.users.len()
            invariant
                u <= self.users.len(),
                self.wf(),
                near.len() == u,
                forall|e: u64| #[trigger] targets@.contains(e) ==> self@.user_keyed(e, id as int),
                forall|e: u64| #[trigger] self@.user_keyed(e, id as int) ==> targets@.contains(e),
                forall|v: int|
                    0 <= v < u ==> #[trigger] near[v] == self@.neighbour(
                        self@.users[v].element,
                        id as int,
                    ),
            decreases self.users.len() - u,
        {
            let is_near = self.is_neighbour(targets, u, id);
            near.push(is_near);
            u += 1;
        }
        near
    }

    fn rate(&self, targets: &Vec<u64>, near: &Vec<bool>, at: usize, id: i32) -> (rating: usize)
        requires
            at < self@.books.len(),
            near.len() == self@.users.len(),
            forall|e: u64| #[trigger] targets@.contains(e) ==> self@.user_keyed(e, id as int),
            forall|e: u64| #[trigger] self@.user_keyed(e, id as int) ==> targets@.contains(e),
            forall|u: int|
                0 <= u < near.len() ==> #[trigger] near[u] == self@.neighbour(
                    self@.users[u].element,
                    id as int,
                ),
        ensures
            rating as int == self@.rating(at as int, id as int),
    {
        assert(self@.books[at as int] == self.books[at as int]@);
        let book = self.books[at].element;
        if self.targets_read(targets, book, id) {
            return 0;
        }
        let mut count: usize = 0;
        let mut u: usize = 0;
        while u < self.users.len()
            invariant
                u <= self.users.len(),
                near.len() == self@.users.len(),
                count <= u,
                count as nat == self@.score_upto(book, id as int, u as nat),
                forall|v: int|
                    0 <= v < near.len() ==> #[trigger] near[v] == self@.neighbour(
                        self@.users[v].element,
                        id as int,
                    ),
            decreases self.users.len() - u,
        {
            assert(self@.users[u as int] == self.users[u as int]@);
            if near[u] && self.has_read(self.users[u].element, book) {
                count += 1;
            }
            u += 1;
        }
        count
    }

    /// The books to recommend to the readers keyed `id`, best first, each with
    /// its score: the number of distinct neighbours who have read it. A
    /// neighbour is a reader with another key who shares a book with them. A
    /// book that one of them has read is not recommended, nor one that no
    /// neighbour has read. At most five come back; among equal scores the
    /// earlier book wins, which callers should not rely on.
    pub fn recommend_scored(&self, id: i32) -> (scored: Vec<(Book, usize)>)
        requires
            self.wf(),
        ensures
            exists|picks: Seq<int>|
                {
                    &&& #[trigger] self@.ranked(id as int, picks)
                    &&& picks.len() == scored.len()
                    &&& forall|k: int|
                        0 <= k < scored.len() ==> (#[trigger] scored[k]).0@
                            == self@.books[picks[k]].book && scored[k].1 as int
                            == self@.ratings(id as int)[picks[k]]
                },
    {
        let targets = self.readers_keyed(id);
        let near = self.neighbours(&targets, id);
        let mut ratings: Vec<usize> = Vec::new();
        let mut i: usize = 0;
        while i < self.books.len()
            invariant
                i <= self.books.len(),
                ratings.len() == i,
                near.len() == self@.users.len(),
                forall|e: u64| #[trigger] targets@.contains(e) ==> self@.user_keyed(e, id as int),
                forall|e: u64| #[trigger] self@.user_keyed(e, id as int) ==> targets@.contains(e),
                forall|u: int|
                    0 <= u < near.len() ==> #[trigger] near[u] == self@.neighbour(
                        self@.users[u].element,
                        id as int,
                    ),
                forall|j: int|
                    0 <= j < i ==> #[trigger] ratings[j] as int == self@.rating(j, id as int),
            decreases self.books.len() - i,
        {
            let rating = self.rate(&targets, &near, i, id);
            ratings.push(rating);
            i += 1;
        }
        assert(ints(ratings@) =~= self@.ratings(id as int));
        let picks = rank(&ratings);
        let mut scored: Vec<(Book, usize)> = Vec::new();
        let mut k: usize = 0;
        while k < picks.len()
            invariant
                k <= picks.len(),
                scored.len() == k,
                ratings.len() == self.books.len(),
                ints(ratings@) == self@.ratings(id as int),
                is_ranking(ints(ratings@), ints(picks@), TOP as int),
                forall|l: int|
                    0 <= l < k ==> (#[trigger] scored[l]).0@ == self@.books[ints(picks@)[l]].book
                        && scored[l].1 as int == self@.ratings(id as int)[ints(picks@)[l]],
            decreases picks.len() - k,
        {
            let at = picks[k];
            assert(crate::recommend::eligible(ints(ratings@), ints(picks@)[k as int]));
            assert(self@.books[at as int] == self.books[at as int]@);
            assert(ints(ratings@)[at as int] == ratings[at as int] as int);
            scored.push((self.books[at].book.clone(), ratings[at]));
            k += 1;
        }
        assert(self@.ranked(id as int, ints(picks@)));
        scored
    }

    /// The books to recommend to the readers keyed `id`, best first: the books
    /// of `recommend_scored`, without their scores.
    pub fn recommend_books(&self, id: i32) -> (books: Vec<Book>)
        requires
            self.wf(),
        ensures
            exists|picks: Seq<int>| #[trigger]
                self@.ranked(id as int, picks) && book_views(books@) == self@.picked(picks),
    {
        let scored = self.recommend_scored(id);
        let ghost picks = choose|picks: Seq<int>|
            {
                &&& #[trigger] self@.ranked(id as int, picks)
                &&& picks.len() == scored.len()
                &&& forall|k: int|
                    0 <= k < scored.len() ==> (#[trigger] scored[k]).0@
                        == self@.books[picks[k]].book && scored[k].1 as int == self@.ratings(
                        id as int,
                    )[picks[k]]
            };
        let mut books: Vec<Book> = Vec::new();
        let mut k: usize = 0;
        while k < scored.len()
            invariant
                k <= scored.len(),
                books.len() == k,
                picks.len() == scored.len(),
                forall|l: int|
                    0 <= l < scored.len() ==> (#[trigger] scored[l]).0@
                        == self@.books[picks[l]].book,
                forall|l: int| 0 <= l < k ==> (#[trigger] books[l])@ == self@.books[picks[l]].book,
            decreases scored.len() - k,
        {
            books.push(scored[k].0.clone());
            k += 1;
        }
        assert(book_views(books@) =~= self@.picked(picks));
        books
    }
}

} // verus!
