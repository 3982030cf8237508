//! What holds of the graph across several operations.

use crate::database::{BookView, UserView};
use crate::graph::{book_not_keyed, edited_book, edited_user, user_not_keyed, GraphView};
use vstd::prelude::*;

verus! {

/// A book created under a key that no book has yet is the book found under
/// that key, field by field.
pub proof fn lemma_created_book_is_found(g: GraphView, book: BookView)
    requires
        g.book(book.id) is None,
    ensures
        g.with_book(book).book(book.id) == Some(book),
{
    let after = g.with_book(book);
    let last = g.books.len() as int;
    assert forall|j: int| 0 <= j < last implies (#[trigger] after.books[j]).book.id != book.id by {
        if g.books[j].book.id == book.id {
            lemma_some_book_is_first(g, j, book.id);
        }
    }
    assert(after.first_book_at(last, book.id));
    lemma_first_book_is_one(after, last, book.id);
}

/// A book edited under its key is found under that key with the new title,
/// author, genre and cover.
pub proof fn lemma_edited_book_is_found(g: GraphView, id: Seq<char>, book: BookView)
    requires
        g.book(id) is Some,
    ensures
        g.with_book_edited(id, book).book(id) == Some(
            BookView {
                id,
                title: book.title,
                author: book.author,
                genre: book.genre,
                cover: book.cover,
            },
        ),
{
    let after = g.with_book_edited(id, book);
    let i = choose|i: int| g.first_book_at(i, id);
    assert(after.books[i] == edited_book(g.books[i], id, book));
    assert forall|j: int| 0 <= j < i implies (#[trigger] after.books[j]).book.id != id by {
        assert(after.books[j] == edited_book(g.books[j], id, book));
        assert(g.books[j].book.id != id);
    }
    assert(after.first_book_at(i, id));
    lemma_first_book_is_one(after, i, id);
}

/// After the books under a key are deleted, none is found under it.
pub proof fn lemma_deleted_book_is_gone(g: GraphView, id: Seq<char>)
    ensures
        g.without_book(id).book(id) is None,
{
    let after = g.without_book(id);
    if exists|i: int| after.first_book_at(i, id) {
        let i = choose|i: int| after.first_book_at(i, id);
        g.books.lemma_filter_pred(book_not_keyed(id), i);
    }
}

/// A reader created under a key that no reader has yet is the reader found
/// under that key.
pub proof fn lemma_created_user_is_found(g: GraphView, user: UserView)
    requires
        g.user(user.id) is None,
    ensures
        g.with_user(user).user(user.id) == Some(user),
{
    let after = g.with_user(user);
    let last = g.users.len() as int;
    assert forall|j: int| 0 <= j < last implies (#[trigger] after.users[j]).user.id != user.id by {
        if g.users[j].user.id == user.id {
            lemma_some_user_is_first(g, j, user.id);
        }
    }
    assert(after.first_user_at(last, user.id));
    lemma_first_user_is_one(after, last, user.id);
}

/// A reader edited under its key is found under that key with the new name.
pub proof fn lemma_edited_user_is_found(g: GraphView, id: int, user: UserView)
    requires
        g.user(id) is Some,
    ensures
        g.with_user_edited(id, user).user(id) == Some(UserView { id, name: user.name }),
{
    let after = g.with_user_edited(id, user);
    let i = choose|i: int| g.first_user_at(i, id);
    assert(after.users[i] == edited_user(g.users[i], id, user));
    assert forall|j: int| 0 <= j < i implies (#[trigger] after.users[j]).user.id != id by {
        assert(after.users[j] == edited_user(g.users[j], id, user));
        assert(g.users[j].user.id != id);
    }
    assert(after.first_user_at(i, id));
    lemma_first_user_is_one(after, i, id);
}

/// After the readers under a key are deleted, none is found under it.
pub proof fn lemma_deleted_user_is_gone(g: GraphView, id: int)
    ensures
        g.without_user(id).user(id) is None,
{
    let after = g.without_user(id);
    if exists|i: int| after.first_user_at(i, id) {
        let i = choose|i: int| after.first_user_at(i, id);
        g.users.lemma_filter_pred(user_not_keyed(id), i);
    }
}

/// Recording a read a second time changes nothing.
pub proof fn lemma_read_twice_is_read_once(g: GraphView, user_id: int, book_id: Seq<char>)
    ensures
        g.with_read(user_id, book_id).with_read(user_id, book_id) == g.with_read(user_id, book_id),
{
    let once = g.with_read(user_id, book_id);
    let twice = once.with_read(user_id, book_id);
    assert forall|e: (u64, u64)| twice.reads.contains(e) == once.reads.contains(e) by {
        assert(once.user_keyed(e.0, user_id) == g.user_keyed(e.0, user_id));
        assert(once.book_keyed(e.1, book_id) == g.book_keyed(e.1, book_id));
    }
    assert(twice.reads =~= once.reads);
}

/// The graph after the same read was recorded `n` times in a row.
pub open spec fn read_times(g: GraphView, user_id: int, book_id: Seq<char>, n: nat) -> GraphView
    decreases n,
{
    if n == 0 {
        g
    } else {
        read_times(g, user_id, book_id, (n - 1) as nat).with_read(user_id, book_id)
    }
}

/// However often the same read is recorded, one after the other, the graph
/// is the one after the first time.
pub proof fn lemma_read_many_times_is_read_once(
    g: GraphView,
    user_id: int,
    book_id: Seq<char>,
    n: nat,
)
    requires
        n >= 1,
    ensures
        read_times(g, user_id, book_id, n) == g.with_read(user_id, book_id),
    decreases n,
{
    if n > 1 {
        lemma_read_many_times_is_read_once(g, user_id, book_id, (n - 1) as nat);
        lemma_read_twice_is_read_once(g, user_id, book_id);
    } else {
        assert(read_times(g, user_id, book_id, 0) == g);
    }
}

/// How often a book keyed `id` stands in a list.
pub open spec fn times_listed(books: Seq<BookView>, id: Seq<char>) -> nat
    decreases books.len(),
{
    if books.len() == 0 {
        0
    } else {
        times_listed(books.drop_last(), id) + if books.last().id == id {
            1nat
        } else {
            0nat
        }
    }
}

/// Where one reader has the key `user_id` and one book the key `book_id`,
/// the reader's list holds that book once after the read was recorded,
/// however often it was.
pub proof fn lemma_read_is_listed_once(
    g: GraphView,
    user_id: int,
    book_id: Seq<char>,
    reader: int,
    book: int,
    n: nat,
)
    requires
        n >= 1,
        0 <= reader < g.users.len(),
        0 <= book < g.books.len(),
        forall|j: int|
            0 <= j < g.users.len() ==> ((#[trigger] g.users[j]).user.id == user_id <==> j == reader),
        forall|j: int|
            0 <= j < g.books.len() ==> ((#[trigger] g.books[j]).book.id == book_id <==> j == book),
    ensures
        times_listed(read_times(g, user_id, book_id, n).reading(user_id), book_id) == 1,
{
    lemma_read_many_times_is_read_once(g, user_id, book_id, n);
    let after = g.with_read(user_id, book_id);
    assert(g.user_keyed(g.users[reader].element, user_id));
    assert(g.book_keyed(g.books[book].element, book_id));
    assert(after.reads.contains((g.users[reader].element, g.books[book].element)));
    lemma_reading_lists_once(after, user_id, book_id, reader, book, after.users.len());
}

proof fn lemma_times_listed_push(books: Seq<BookView>, one: BookView, id: Seq<char>)
    ensures
        times_listed(books.push(one), id) == times_listed(books, id) + if one.id == id {
            1nat
        } else {
            0nat
        },
{
    assert(books.push(one).drop_last() =~= books);
}

proof fn lemma_times_listed_add(a: Seq<BookView>, b: Seq<BookView>, id: Seq<char>)
    ensures
        times_listed(a + b, id) == times_listed(a, id) + times_listed(b, id),
    decreases b.len(),
{
    if b.len() == 0 {
        assert(a + b =~= a);
    } else {
        assert((a + b).drop_last() =~= a + b.drop_last());
        lemma_times_listed_add(a, b.drop_last(), id);
    }
}

proof fn lemma_shelf_lists_once(g: GraphView, node: u64, id: Seq<char>, book: int, k: nat)
    requires
        k <= g.books.len(),
        0 <= book < g.books.len(),
        forall|j: int|
            0 <= j < g.books.len() ==> ((#[trigger] g.books[j]).book.id == id <==> j == book),
    ensures
        times_listed(g.shelf_upto(node, k), id) == if k > book && g.reads.contains(
            (node, g.books[book].element),
        ) {
            1nat
        } else {
            0nat
        },
    decreases k,
{
    if k > 0 {
        lemma_shelf_lists_once(g, node, id, book, (k - 1) as nat);
        let rest = g.shelf_upto(node, (k - 1) as nat);
        lemma_times_listed_push(rest, g.books[k - 1].book, id);
        assert(g.books[k - 1].book.id == id <==> k - 1 == book);
    }
}

proof fn lemma_reading_lists_once(
    g: GraphView,
    user_id: int,
    id: Seq<char>,
    reader: int,
    book: int,
    k: nat,
)
    requires
        k <= g.users.len(),
        0 <= reader < g.users.len(),
        0 <= book < g.books.len(),
        forall|j: int|
            0 <= j < g.users.len() ==> ((#[trigger] g.users[j]).user.id == user_id <==> j == reader),
        forall|j: int|
            0 <= j < g.books.len() ==> ((#[trigger] g.books[j]).book.id == id <==> j == book),
        g.reads.contains((g.users[reader].element, g.books[book].element)),
    ensures
        times_listed(g.reading_upto(user_id, k), id) == if k > reader {
            1nat
        } else {
            0nat
        },
    decreases k,
{
    if k > 0 {
        lemma_reading_lists_once(g, user_id, id, reader, book, (k - 1) as nat);
        let rest = g.reading_upto(user_id, (k - 1) as nat);
        assert(g.users[k - 1].user.id == user_id <==> k - 1 == reader);
        if k - 1 == reader {
            lemma_shelf_lists_once(g, g.users[reader].element, id, book, g.books.len());
            lemma_times_listed_add(rest, g.shelf(g.users[reader].element), id);
        }
    }
}

proof fn lemma_some_book_is_first(g: GraphView, j: int, id: Seq<char>)
    requires
        0 <= j < g.books.len(),
        g.books[j].book.id == id,
    ensures
        g.book(id) is Some,
    decreases j,
{
    if exists|i: int| 0 <= i < j && (#[trigger] g.books[i]).book.id == id {
        let i = choose|i: int| 0 <= i < j && (#[trigger] g.books[i]).book.id == id;
        lemma_some_book_is_first(g, i, id);
    } else {
        assert(g.first_book_at(j, id));
    }
}

proof fn lemma_first_book_is_one(g: GraphView, i: int, id: Seq<char>)
    requires
        g.first_book_at(i, id),
    ensures
        g.book(id) == Some(g.books[i].book),
{
    let c = choose|c: int| g.first_book_at(c, id);
    if c < i {
        assert(g.books[c].book.id != id);
    }
    if i < c {
        assert(g.books[i].book.id != id);
    }
}

proof fn lemma_some_user_is_first(g: GraphView, j: int, id: int)
    requires
        0 <= j < g.users.len(),
        g.users[j].user.id == id,
    ensures
        g.user(id) is Some,
    decreases j,
{
    if exists|i: int| 0 <= i < j && (#[trigger] g.users[i]).user.id == id {
        let i = choose|i: int| 0 <= i < j && (#[trigger] g.users[i]).user.id == id;
        lemma_some_user_is_first(g, i, id);
    } else {
        assert(g.first_user_at(j, id));
    }
}

proof fn lemma_first_user_is_one(g: GraphView, i: int, id: int)
    requires
        g.first_user_at(i, id),
    ensures
        g.user(id) == Some(g.users[i].user),
{
    let c = choose|c: int| g.first_user_at(c, id);
    if c < i {
        assert(g.users[c].user.id != id);
    }
    if i < c {
        assert(g.users[i].user.id != id);
    }
}

} // verus!
