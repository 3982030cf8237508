//! The catalogue's entities and the exchange with the graph store: the
//! statement each operation sends, and what it makes of the rows that come
//! back.

use crate::bolt::{bind_int, bind_text, statement};
use crate::bolt::{query_ints, query_text, query_texts};
use crate::bolt::{no_ints, no_texts};
use crate::recommend::TOP;
use crate::row::Row;
use neo4rs::{Error, Query};
use vstd::prelude::*;

verus! {

/// What a book is, as a value.
pub struct BookView {
    pub id: Seq<char>,
    pub title: Seq<char>,
    pub author: Seq<char>,
    pub genre: Seq<char>,
    pub cover: Seq<char>,
}

/// A book of the catalogue. Its `id` is the caller's key, not the store's.
#[derive(Debug)]
pub struct Book {
    id: String,
    title: String,
    author: String,
    genre: String,
    cover: String,
}

impl View for Book {
    type V = BookView;

    closed spec fn view(&self) -> BookView {
        BookView {
            id: self.id@,
            title: self.title@,
            author: self.author@,
            genre: self.genre@,
            cover: self.cover@,
        }
    }
}

impl Clone for Book {
    fn clone(&self) -> (copy: Self)
        ensures
            copy@ == self@,
    {
        Book {
            id: self.id.clone(),
            title: self.title.clone(),
            author: self.author.clone(),
            genre: self.genre.clone(),
            cover: self.cover.clone(),
        }
    }
}

impl Book {
    pub fn new(
        id: String,
        title: String,
        author: String,
        genre: String,
        cover: String,
    ) -> (book: Self)
        ensures
            book@ == (BookView {
                id: id@,
                title: title@,
                author: author@,
                genre: genre@,
                cover: cover@,
            }),
    {
        Self { id, title, author, genre, cover }
    }

    pub fn id(&self) -> (id: &String)
        ensures
            id@ == self@.id,
    {
        &self.id
    }

    pub fn title(&self) -> (title: &String)
        ensures
            title@ == self@.title,
    {
        &self.title
    }

    pub fn author(&self) -> (author: &String)
        ensures
            author@ == self@.author,
    {
        &self.author
    }

    pub fn genre(&self) -> (genre: &String)
        ensures
            genre@ == self@.genre,
    {
        &self.genre
    }

    pub fn cover(&self) -> (cover: &String)
        ensures
            cover@ == self@.cover,
    {
        &self.cover
    }
}

/// What a reader is, as a value.
pub struct UserView {
    pub id: int,
    pub name: Seq<char>,
}

/// A reader in the graph. Its `id` is the caller's key, not the store's.
#[derive(Debug)]
pub struct User {
    id: i32,
    name: String,
}

impl View for User {
    type V = UserView;

    closed spec fn view(&self) -> UserView {
        UserView { id: self.id as int, name: self.name@ }
    }
}

impl Clone for User {
    fn clone(&self) -> (copy: Self)
        ensures
            copy@ == self@,
    {
        User { id: self.id, name: self.name.clone() }
    }
}

impl User {
    pub fn new(id: i32, name: String) -> (user: Self)
        ensures
            user@ == (UserView { id: id as int, name: name@ }),
    {
        Self { id, name }
    }

    pub fn id(&self) -> (id: i32)
        ensures
            id as int == self@.id,
    {
        self.id
    }

    pub fn name(&self) -> (name: &String)
        ensures
            name@ == self@.name,
    {
        &self.name
    }
}

/// The statement that lists every book.
pub const ALL_BOOKS: &'static str =
    "MATCH (b:Book) RETURN b.id, b.title, b.author, b.genre, b.cover";

/// The statement that finds the books with the key `$id`.
pub const BOOK_BY_ID: &'static str =
    "MATCH (b:Book {id: $id}) RETURN b.id, b.title, b.author, b.genre, b.cover";

/// The statement that creates a book and returns the store's identifier of it.
pub const CREATE_BOOK: &'static str =
    "CREATE (b:Book {id: $id, title: $title, author: $author, genre: $genre, cover: $cover}) RETURN elementId(b) AS id";

/// The statement that overwrites every field but the key of the books keyed `$id`.
pub const UPDATE_BOOK: &'static str =
    "MATCH (b:Book {id: $id}) SET b.title = $title, b.author = $author, b.genre = $genre, b.cover = $cover";

/// The statement that removes the books keyed `$id` with every edge at them.
pub const DELETE_BOOK: &'static str = "MATCH (b:Book {id: $id}) DETACH DELETE b";

/// The statement that lists every reader.
pub const ALL_USERS: &'static str = "MATCH (u:User) RETURN u.id, u.name";

/// The statement that finds the readers with the key `$id`.
pub const USER_BY_ID: &'static str = "MATCH (u:User {id: $id}) RETURN u.id, u.name";

/// The statement that creates a reader and returns the store's identifier of it.
pub const CREATE_USER: &'static str =
    "CREATE (u:User {id: $id, name: $name}) RETURN elementId(u) AS id";

/// The statement that overwrites the name of the readers keyed `$id`.
pub const UPDATE_USER: &'static str = "MATCH (u:User {id: $id}) SET u.name = $name";

/// The statement that removes the readers keyed `$id` with every edge at them.
pub const DELETE_USER: &'static str = "MATCH (u:User {id: $id}) DETACH DELETE u";

/// The statement that lists the books a reader has read.
pub const USER_BOOKS: &'static str =
    "MATCH (u:User {id: $id})-[:HAS_READ]->(b:Book) RETURN b.id, b.title, b.author, b.genre, b.cover";

/// The statement that records, once, that a reader has read a book.
pub const ADD_READ: &'static str =
    "MATCH (u:User {id: $user_id}) MATCH (b:Book {id: $book_id}) MERGE (u)-[r:HAS_READ]->(b)";

/// The statement that forgets that a reader has read a book.
pub const REMOVE_READ: &'static str =
    "MATCH (u:User {id: $user_id})-[r:HAS_READ]->(b:Book {id: $book_id}) DELETE r";

/// The statement that ranks the books unread by a reader by the number of
/// distinct other readers who share a book with them and have read it, and
/// keeps the first five. Among equal scores the store's order is not fixed.
pub const RECOMMEND: &'static str =
    "MATCH (u:User {id: $id})-[:HAS_READ]->(b:Book) MATCH (similarUser:User)-[:HAS_READ]->(b) WHERE similarUser <> u MATCH (similarUser)-[:HAS_READ]->(rec:Book) WHERE NOT (u)-[:HAS_READ]->(rec) RETURN rec.id, rec.title, rec.author, rec.genre, rec.cover, COUNT(DISTINCT similarUser) AS score ORDER BY score DESC LIMIT 5";

/// The number of rows the driver fetches at a time.
pub const FETCH_SIZE: usize = 500;

/// The string in a column, or the empty string where the column is missing
/// or holds anything but a string.
pub open spec fn text_or_empty(row: Row, name: Seq<char>) -> Seq<char> {
    match row.text_at(name) {
        Some(text) => text,
        None => Seq::empty(),
    }
}

/// The integer in a column, or zero where the column is missing, holds
/// anything but an integer, or holds one that is no `i32`.
pub open spec fn int_or_zero(row: Row, name: Seq<char>) -> int {
    match row.integer_at(name) {
        Some(n) => if i32::MIN <= n <= i32::MAX {
            n
        } else {
            0
        },
        None => 0,
    }
}

/// The book in a row of `b.*` columns, each missing field empty.
pub open spec fn book_of_row(row: Row) -> BookView {
    BookView {
        id: text_or_empty(row, "b.id"@),
        title: text_or_empty(row, "b.title"@),
        author: text_or_empty(row, "b.author"@),
        genre: text_or_empty(row, "b.genre"@),
        cover: text_or_empty(row, "b.cover"@),
    }
}

/// The book in a row of `rec.*` columns, each missing field empty.
pub open spec fn recommended_of_row(row: Row) -> BookView {
    BookView {
        id: text_or_empty(row, "rec.id"@),
        title: text_or_empty(row, "rec.title"@),
        author: text_or_empty(row, "rec.author"@),
        genre: text_or_empty(row, "rec.genre"@),
        cover: text_or_empty(row, "rec.cover"@),
    }
}

/// The reader in a row of `u.*` columns, a missing key zero and a missing name empty.
pub open spec fn user_of_row(row: Row) -> UserView {
    UserView { id: int_or_zero(row, "u.id"@), name: text_or_empty(row, "u.name"@) }
}

/// The names of the columns that the statements return.
pub open spec fn column_names() -> Seq<Seq<char>> {
    seq![
        "b.id"@,
        "b.title"@,
        "b.author"@,
        "b.genre"@,
        "b.cover"@,
        "u.id"@,
        "u.name"@,
        "rec.id"@,
        "rec.title"@,
        "rec.author"@,
        "rec.genre"@,
        "rec.cover"@,
        "id"@,
    ]
}

/// The rows an exchange brought: none where the query failed.
pub open spec fn rows_of(fetched: Result<Vec<Row>, Error>) -> Seq<Row> {
    match fetched {
        Ok(rows) => rows@,
        Err(_) => Seq::empty(),
    }
}

/// The books in rows of `b.*` columns, row by row.
pub open spec fn books_of_rows(rows: Seq<Row>) -> Seq<BookView> {
    Seq::new(rows.len(), |i: int| book_of_row(rows[i]))
}

/// The books in rows of `rec.*` columns, row by row.
pub open spec fn recommended_of_rows(rows: Seq<Row>) -> Seq<BookView> {
    Seq::new(rows.len(), |i: int| recommended_of_row(rows[i]))
}

/// The readers in rows of `u.*` columns, row by row.
pub open spec fn users_of_rows(rows: Seq<Row>) -> Seq<UserView> {
    Seq::new(rows.len(), |i: int| user_of_row(rows[i]))
}

/// How many of `n` rows a recommendation keeps.
pub open spec fn top_of(n: nat) -> nat {
    if n < TOP {
        n
    } else {
        TOP as nat
    }
}

/// The values of a list of books.
pub open spec fn book_views(books: Seq<Book>) -> Seq<BookView> {
    Seq::new(books.len(), |i: int| books[i]@)
}

/// The values of a list of readers.
pub open spec fn user_views(users: Seq<User>) -> Seq<UserView> {
    Seq::new(users.len(), |i: int| users[i]@)
}

/// The parameters that carry a book's fields other than its key.
pub open spec fn book_fields(book: BookView) -> Map<Seq<char>, Seq<char>> {
    no_texts().insert("title"@, book.title).insert("author"@, book.author).insert(
        "genre"@,
        book.genre,
    ).insert("cover"@, book.cover)
}

fn text_or_default(row: &Row, name: &str) -> (text: String)
    ensures
        text@ == text_or_empty(*row, name@),
{
    match row.text(name) {
        Some(text) => text,
        None => String::new(),
    }
}

fn int_or_default(row: &Row, name: &str) -> (n: i32)
    ensures
        n as int == int_or_zero(*row, name@),
{
    match row.integer(name) {
        Some(n) => {
            if n >= i32::MIN as i64 && n <= i32::MAX as i64 {
                n as i32
            } else {
                0
            }
        },
        None => 0,
    }
}

impl Book {
    /// Reads a book out of a row of `b.*` columns. A field that the row lacks,
    /// or holds as something other than a string, comes out empty.
    pub fn from_row(row: &Row) -> (book: Book)
        ensures
            book@ == book_of_row(*row),
    {
        Book {
            id: text_or_default(row, "b.id"),
            title: text_or_default(row, "b.title"),
            author: text_or_default(row, "b.author"),
            genre: text_or_default(row, "b.genre"),
            cover: text_or_default(row, "b.cover"),
        }
    }

    /// Reads a book out of a row of `rec.*` columns, with the same leniency.
    pub fn from_recommendation(row: &Row) -> (book: Book)
        ensures
            book@ == recommended_of_row(*row),
    {
        Book {
            id: text_or_default(row, "rec.id"),
            title: text_or_default(row, "rec.title"),
            author: text_or_default(row, "rec.author"),
            genre: text_or_default(row, "rec.genre"),
            cover: text_or_default(row, "rec.cover"),
        }
    }
}

impl User {
    /// Reads a reader out of a row of `u.*` columns. A missing key comes out
    /// as zero, a missing name as the empty string.
    pub fn from_row(row: &Row) -> (user: User)
        ensures
            user@ == user_of_row(*row),
    {
        User { id: int_or_default(row, "u.id"), name: text_or_default(row, "u.name") }
    }
}

/// A statement that the store did not carry out.
#[derive(Debug)]
pub struct QueryFailure {}

/// Where the graph store is, and who asks.
pub struct EndpointView {
    pub uri: Seq<char>,
    pub user: Seq<char>,
    pub password: Seq<char>,
}

/// The graph store's endpoint, and the exchange with it: for each operation
/// the statement to send (`.._query`) and the reading of what came back.
///
/// Reads fail open: where the query failed they give nothing rather than an
/// error. Writes report the failure, and nothing else: a write that matched
/// no node has succeeded.
pub struct DatabaseService {
    uri: String,
    user: String,
    password: String,
}

impl View for DatabaseService {
    type V = EndpointView;

    closed spec fn view(&self) -> EndpointView {
        EndpointView { uri: self.uri@, user: self.user@, password: self.password@ }
    }
}

impl DatabaseService {
    /// The settings of a connection to `uri` as `user`.
    pub fn new(uri: &str, user: &str, password: &str) -> (service: Self)
        ensures
            service@ == (EndpointView { uri: uri@, user: user@, password: password@ }),
    {
        Self { uri: uri.to_owned(), user: user.to_owned(), password: password.to_owned() }
    }

    /// Where the store is.
    pub fn uri(&self) -> (uri: &String)
        ensures
            uri@ == self@.uri,
    {
        &self.uri
    }

    /// Who asks.
    pub fn user(&self) -> (user: &String)
        ensures
            user@ == self@.user,
    {
        &self.user
    }

    /// The password of who asks.
    pub fn password(&self) -> (password: &String)
        ensures
            password@ == self@.password,
    {
        &self.password
    }

    /// The number of rows to fetch at a time from this endpoint.
    pub fn fetch_size(&self) -> (n: usize)
        ensures
            n == FETCH_SIZE,
    {
        FETCH_SIZE
    }

    /// The names of the columns that the statements return: what a row has
    /// to hold for the readings below.
    pub fn columns() -> (names: Vec<&'static str>)
        ensures
            names@.len() == 13,
            forall|i: int| 0 <= i < 13 ==> (#[trigger] names@[i])@ == column_names()[i],
    {
        let mut names: Vec<&'static str> = Vec::new();
        names.push("b.id");
        names.push("b.title");
        names.push("b.author");
        names.push("b.genre");
        names.push("b.cover");
        names.push("u.id");
        names.push("u.name");
        names.push("rec.id");
        names.push("rec.title");
        names.push("rec.author");
        names.push("rec.genre");
        names.push("rec.cover");
        names.push("id");
        names
    }

    /// One step of reading a result stream: a row is kept and reading goes
    /// on; the end of the stream, or an error, ends it with what was kept.
    pub fn take_row(rows: &mut Vec<Row>, next: Result<Option<Row>, Error>) -> (more: bool)
        ensures
            more <==> next matches Ok(Some(_)),
            next matches Ok(Some(row)) ==> final(rows)@ == old(rows)@.push(row),
            !more ==> final(rows)@ == old(rows)@,
    {
        match next {
            Ok(Some(row)) => {
                rows.push(row);
                true
            },
            _ => false,
        }
    }

    /// The statement of `get_all_books`: `ALL_BOOKS`, without parameters.
    pub fn get_all_books_query() -> (q: Query)
        ensures
            query_text(q) == ALL_BOOKS@,
            query_texts(q) == no_texts(),
            query_ints(q) == no_ints(),
    {
        statement(ALL_BOOKS)
    }

    /// Every book that the rows hold, in their order; none where the query
    /// failed.
    pub fn get_all_books(fetched: Result<Vec<Row>, Error>) -> (books: Vec<Book>)
        ensures
            book_views(books@) == books_of_rows(rows_of(fetched)),
    {
        match fetched {
            Ok(rows) => Self::read_books(&rows),
            Err(_) => Vec::new(),
        }
    }

    fn read_books(rows: &Vec<Row>) -> (books: Vec<Book>)
        ensures
            book_views(books@) == books_of_rows(rows@),
    {
        let mut books: Vec<Book> = Vec::new();
        let mut i: usize = 0;
        while i < rows.len()
            invariant
                i <= rows.len(),
                books.len() == i,
                forall|k: int| 0 <= k < i ==> (#[trigger] books[k])@ == book_of_row(rows[k]),
            decreases rows.len() - i,
        {
            books.push(Book::from_row(&rows[i]));
            i += 1;
        }
        books
    }

    /// The statement of `get_book`: `BOOK_BY_ID` with the key as `id`.
    pub fn get_book_query(id: &str) -> (q: Query)
        ensures
            query_text(q) == BOOK_BY_ID@,
            query_texts(q) == no_texts().insert("id"@, id@),
            query_ints(q) == no_ints(),
    {
        bind_text(statement(BOOK_BY_ID), "id", id)
    }

    /// The book in the first row; `None` where there is no row, or the query
    /// failed.
    pub fn get_book(fetched: Result<Vec<Row>, Error>) -> (book: Option<Book>)
        ensures
            book is Some <==> rows_of(fetched).len() > 0,
            book matches Some(b) ==> b@ == book_of_row(rows_of(fetched)[0]),
    {
        match fetched {
            Ok(rows) => {
                if rows.len() > 0 {
                    Some(Book::from_row(&rows[0]))
                } else {
                    None
                }
            },
            Err(_) => None,
        }
    }

    /// The statement of `add_book`: `CREATE_BOOK` with every field of the book.
    pub fn add_book_query(book: &Book) -> (q: Query)
        ensures
            query_text(q) == CREATE_BOOK@,
            query_texts(q) == book_fields(book@).insert("id"@, book@.id),
            query_ints(q) == no_ints(),
    {
        let q = statement(CREATE_BOOK);
        let q = bind_text(q, "title", book.title.as_str());
        let q = bind_text(q, "author", book.author.as_str());
        let q = bind_text(q, "genre", book.genre.as_str());
        let q = bind_text(q, "cover", book.cover.as_str());
        bind_text(q, "id", book.id.as_str())
    }

    /// The store's identifier of the node just created: the `id` column of the
    /// first row where it reads as a string, `None` otherwise.
    pub fn add_book(fetched: Result<Vec<Row>, Error>) -> (element: Option<String>)
        ensures
            element is Some <==> rows_of(fetched).len() > 0 && rows_of(fetched)[0].text_at(
                "id"@,
            ) is Some,
            element matches Some(e) ==> rows_of(fetched)[0].text_at("id"@) == Some(e@),
    {
        Self::created(fetched)
    }

    fn created(fetched: Result<Vec<Row>, Error>) -> (element: Option<String>)
        ensures
            element is Some <==> rows_of(fetched).len() > 0 && rows_of(fetched)[0].text_at(
                "id"@,
            ) is Some,
            element matches Some(e) ==> rows_of(fetched)[0].text_at("id"@) == Some(e@),
    {
        match fetched {
            Ok(rows) => {
                if rows.len() > 0 {
                    rows[0].text("id")
                } else {
                    None
                }
            },
            Err(_) => None,
        }
    }

    /// The statement of `edit_book`: `UPDATE_BOOK`. The key a book is found by
    /// is `id`; the key inside `book` is not sent.
    pub fn edit_book_query(id: &str, book: &Book) -> (q: Query)
        ensures
            query_text(q) == UPDATE_BOOK@,
            query_texts(q) == book_fields(book@).insert("id"@, id@),
            query_ints(q) == no_ints(),
    {
        let q = statement(UPDATE_BOOK);
        let q = bind_text(q, "title", book.title.as_str());
        let q = bind_text(q, "author", book.author.as_str());
        let q = bind_text(q, "genre", book.genre.as_str());
        let q = bind_text(q, "cover", book.cover.as_str());
        bind_text(q, "id", id)
    }

    /// Fails where the store did, and only there.
    pub fn edit_book(outcome: Result<(), Error>) -> (done: Result<(), QueryFailure>)
        ensures
            done is Ok <==> outcome is Ok,
    {
        Self::settled(outcome)
    }

    fn settled(outcome: Result<(), Error>) -> (done: Result<(), QueryFailure>)
        ensures
            done is Ok <==> outcome is Ok,
    {
        match outcome {
            Ok(_) => Ok(()),
            Err(_) => Err(QueryFailure {  }),
        }
    }

    /// The statement of `delete_book`: `DELETE_BOOK` with the key as `id`.
    pub fn delete_book_query(id: &str) -> (q: Query)
        ensures
            query_text(q) == DELETE_BOOK@,
            query_texts(q) == no_texts().insert("id"@, id@),
            query_ints(q) == no_ints(),
    {
        bind_text(statement(DELETE_BOOK), "id", id)
    }

    /// Fails where the store did, and only there.
    pub fn delete_book(outcome: Result<(), Error>) -> (done: Result<(), QueryFailure>)
        ensures
            done is Ok <==> outcome is Ok,
    {
        Self::settled(outcome)
    }

    /// The statement of `get_all_users`: `ALL_USERS`, without parameters.
    pub fn get_all_users_query() -> (q: Query)
        ensures
            query_text(q) == ALL_USERS@,
            query_texts(q) == no_texts(),
            query_ints(q) == no_ints(),
    {
        statement(ALL_USERS)
    }

    /// Every reader that the rows hold, in their order; none where the query
    /// failed.
    pub fn get_all_users(fetched: Result<Vec<Row>, Error>) -> (users: Vec<User>)
        ensures
            user_views(users@) == users_of_rows(rows_of(fetched)),
    {
        match fetched {
            Ok(rows) => {
                let mut users: Vec<User> = Vec::new();
                let mut i: usize = 0;
                while i < rows.len()
                    invariant
                        i <= rows.len(),
                        users.len() == i,
                        forall|k: int|
                            0 <= k < i ==> (#[trigger] users[k])@ == user_of_row(rows[k]),
                    decreases rows.len() - i,
                {
                    users.push(User::from_row(&rows[i]));
                    i += 1;
                }
                users
            },
            Err(_) => Vec::new(),
        }
    }

    /// The statement of `get_user`: `USER_BY_ID` with the key as `id`.
    pub fn get_user_query(id: i32) -> (q: Query)
        ensures
            query_text(q) == USER_BY_ID@,
            query_texts(q) == no_texts(),
            query_ints(q) == no_ints().insert("id"@, id as int),
    {
        bind_int(statement(USER_BY_ID), "id", id)
    }

    /// The reader in the first row; `None` where there is no row, or the query
    /// failed.
    pub fn get_user(fetched: Result<Vec<Row>, Error>) -> (user: Option<User>)
        ensures
            user is Some <==> rows_of(fetched).len() > 0,
            user matches Some(u) ==> u@ == user_of_row(rows_of(fetched)[0]),
    {
        match fetched {
            Ok(rows) => {
                if rows.len() > 0 {
                    Some(User::from_row(&rows[0]))
                } else {
                    None
                }
            },
            Err(_) => None,
        }
    }

    /// The statement of `add_user`: `CREATE_USER` with the key and the name.
    pub fn add_user_query(user: &User) -> (q: Query)
        ensures
            query_text(q) == CREATE_USER@,
            query_texts(q) == no_texts().insert("name"@, user@.name),
            query_ints(q) == no_ints().insert("id"@, user@.id),
    {
        let q = statement(CREATE_USER);
        let q = bind_int(q, "id", user.id);
        proof {
            reveal_strlit("id");
            reveal_strlit("name");
            assert("id"@.len() != "name"@.len());
        }
        bind_text(q, "name", user.name.as_str())
    }

    /// The store's identifier of the node just created: the `id` column of the
    /// first row where it reads as a string, `None` otherwise.
    pub fn add_user(fetched: Result<Vec<Row>, Error>) -> (element: Option<String>)
        ensures
            element is Some <==> rows_of(fetched).len() > 0 && rows_of(fetched)[0].text_at(
                "id"@,
            ) is Some,
            element matches Some(e) ==> rows_of(fetched)[0].text_at("id"@) == Some(e@),
    {
        Self::created(fetched)
    }

    /// The statement of `edit_user`: `UPDATE_USER`. The key a reader is found
    /// by is `id`; the key inside `user` is not sent.
    pub fn edit_user_query(id: i32, user: &User) -> (q: Query)
        ensures
            query_text(q) == UPDATE_USER@,
            query_texts(q) == no_texts().insert("name"@, user@.name),
            query_ints(q) == no_ints().insert("id"@, id as int),
    {
        let q = statement(UPDATE_USER);
        let q = bind_int(q, "id", id);
        proof {
            reveal_strlit("id");
            reveal_strlit("name");
            assert("id"@.len() != "name"@.len());
        }
        bind_text(q, "name", user.name.as_str())
    }

    /// Fails where the store did, and only there.
    pub fn edit_user(outcome: Result<(), Error>) -> (done: Result<(), QueryFailure>)
        ensures
            done is Ok <==> outcome is Ok,
    {
        Self::settled(outcome)
    }

    /// The statement of `delete_user`: `DELETE_USER` with the key as `id`.
    pub fn delete_user_query(id: i32) -> (q: Query)
        ensures
            query_text(q) == DELETE_USER@,
            query_texts(q) == no_texts(),
            query_ints(q) == no_ints().insert("id"@, id as int),
    {
        bind_int(statement(DELETE_USER), "id", id)
    }

    /// Fails where the store did, and only there.
    pub fn delete_user(outcome: Result<(), Error>) -> (done: Result<(), QueryFailure>)
        ensures
            done is Ok <==> outcome is Ok,
    {
        Self::settled(outcome)
    }

    /// The statement of `get_user_books`: `USER_BOOKS` with the reader's key as `id`.
    pub fn get_user_books_query(id: i32) -> (q: Query)
        ensures
            query_text(q) == USER_BOOKS@,
            query_texts(q) == no_texts(),
            query_ints(q) == no_ints().insert("id"@, id as int),
    {
        bind_int(statement(USER_BOOKS), "id", id)
    }

    /// The books that the rows hold, in their order; none where the query
    /// failed.
    pub fn get_user_books(fetched: Result<Vec<Row>, Error>) -> (books: Vec<Book>)
        ensures
            book_views(books@) == books_of_rows(rows_of(fetched)),
    {
        match fetched {
            Ok(rows) => Self::read_books(&rows),
            Err(_) => Vec::new(),
        }
    }

    /// The statement of `add_book_to_user`: `ADD_READ` with both keys.
    pub fn add_book_to_user_query(user_id: i32, book_id: &str) -> (q: Query)
        ensures
            query_text(q) == ADD_READ@,
            query_texts(q) == no_texts().insert("book_id"@, book_id@),
            query_ints(q) == no_ints().insert("user_id"@, user_id as int),
    {
        let q = statement(ADD_READ);
        let q = bind_int(q, "user_id", user_id);
        proof {
            reveal_strlit("user_id");
            reveal_strlit("book_id");
            assert("user_id"@[0] != "book_id"@[0]);
        }
        bind_text(q, "book_id", book_id)
    }

    /// Fails where the store did, and only there.
    pub fn add_book_to_user(outcome: Result<(), Error>) -> (done: Result<(), QueryFailure>)
        ensures
            done is Ok <==> outcome is Ok,
    {
        Self::settled(outcome)
    }

    /// The statement of `remove_book_from_user`: `REMOVE_READ` with both keys.
    pub fn remove_book_from_user_query(user_id: i32, book_id: &str) -> (q: Query)
        ensures
            query_text(q) == REMOVE_READ@,
            query_texts(q) == no_texts().insert("book_id"@, book_id@),
            query_ints(q) == no_ints().insert("user_id"@, user_id as int),
    {
        let q = statement(REMOVE_READ);
        let q = bind_int(q, "user_id", user_id);
        proof {
            reveal_strlit("user_id");
            reveal_strlit("book_id");
            assert("user_id"@[0] != "book_id"@[0]);
        }
        bind_text(q, "book_id", book_id)
    }

    /// Fails where the store did, and only there.
    pub fn remove_book_from_user(outcome: Result<(), Error>) -> (done: Result<(), QueryFailure>)
        ensures
            done is Ok <==> outcome is Ok,
    {
        Self::settled(outcome)
    }

    /// The statement of `recommend_books`: `RECOMMEND` with the reader's key as `id`.
    pub fn recommend_books_query(id: i32) -> (q: Query)
        ensures
            query_text(q) == RECOMMEND@,
            query_texts(q) == no_texts(),
            query_ints(q) == no_ints().insert("id"@, id as int),
    {
        bind_int(statement(RECOMMEND), "id", id)
    }

    /// The books in the first five rows, in the store's order, which is by
    /// falling score; none where the query failed.
    pub fn recommend_books(fetched: Result<Vec<Row>, Error>) -> (books: Vec<Book>)
        ensures
            books.len() == top_of(rows_of(fetched).len()),
            book_views(books@) == recommended_of_rows(rows_of(fetched)).take(books.len() as int),
    {
        match fetched {
            Ok(rows) => {
                let mut books: Vec<Book> = Vec::new();
                let mut i: usize = 0;
                while i < rows.len() && i < TOP
                    invariant
                        i <= rows.len(),
                        i <= TOP,
                        books.len() == i,
                        forall|k: int|
                            0 <= k < i ==> (#[trigger] books[k])@ == recommended_of_row(rows[k]),
                    decreases rows.len() - i,
                {
                    books.push(Book::from_recommendation(&rows[i]));
                    i += 1;
                }
                books
            },
            Err(_) => Vec::new(),
        }
    }
}

} // verus!
