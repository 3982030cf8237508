use bookshelf::database::{Book, User};
use bookshelf::graph::Graph;

fn book(id: &str, title: &str) -> Book {
    Book::new(
        id.to_string(),
        title.to_string(),
        format!("author of {}", title),
        "novel".to_string(),
        format!("{}.png", id),
    )
}

fn ids(books: &Vec<Book>) -> Vec<String> {
    let mut out = Vec::new();
    for b in books {
        out.push(b.id().clone());
    }
    out
}

fn library() -> Graph {
    // A has read X, Y; B has read X, Z; C has read Y, Z, W.
    let mut g = Graph::new();
    for (id, name) in [(1, "A"), (2, "B"), (3, "C")] {
        assert!(g.add_user(&User::new(id, name.to_string())).is_some());
    }
    for id in ["X", "Y", "Z", "W"] {
        assert!(g.add_book(&book(id, id)).is_some());
    }
    for (u, b) in [(1, "X"), (1, "Y"), (2, "X"), (2, "Z"), (3, "Y"), (3, "Z"), (3, "W")] {
        g.add_book_to_user(u, b);
    }
    g
}

#[test]
fn created_book_is_fetched_with_all_fields() {
    let mut g = Graph::new();
    let dune = Book::new(
        "b1".to_string(),
        "Dune".to_string(),
        "Frank Herbert".to_string(),
        "sf".to_string(),
        "dune.png".to_string(),
    );
    assert_eq!(g.add_book(&dune), Some(0));
    let got = g.get_book("b1").unwrap();
    assert_eq!(got.id(), "b1");
    assert_eq!(got.title(), "Dune");
    assert_eq!(got.author(), "Frank Herbert");
    assert_eq!(got.genre(), "sf");
    assert_eq!(got.cover(), "dune.png");
    assert!(g.get_book("b2").is_none());
}

#[test]
fn nodes_get_rising_identifiers() {
    let mut g = Graph::new();
    assert_eq!(g.add_book(&book("a", "A")), Some(0));
    assert_eq!(g.add_user(&User::new(7, "u".to_string())), Some(1));
    assert_eq!(g.add_book(&book("a", "again")), Some(2));
    assert_eq!(g.get_all_books().len(), 2);
}

#[test]
fn edited_book_is_fetched_with_new_fields_and_old_key() {
    let mut g = Graph::new();
    g.add_book(&book("b1", "Dune"));
    g.add_book(&book("b2", "Emma"));
    let change = Book::new(
        "ignored".to_string(),
        "Dune Messiah".to_string(),
        "F. Herbert".to_string(),
        "space".to_string(),
        "messiah.png".to_string(),
    );
    g.edit_book("b1", &change);
    let got = g.get_book("b1").unwrap();
    assert_eq!(got.id(), "b1");
    assert_eq!(got.title(), "Dune Messiah");
    assert_eq!(got.author(), "F. Herbert");
    assert_eq!(got.genre(), "space");
    assert_eq!(got.cover(), "messiah.png");
    assert_eq!(g.get_book("b2").unwrap().title(), "Emma");
    assert!(g.get_book("ignored").is_none());
}

#[test]
fn edit_of_unknown_key_changes_nothing() {
    let mut g = Graph::new();
    g.add_book(&book("b1", "Dune"));
    g.edit_book("nope", &book("nope", "Other"));
    assert_eq!(g.get_all_books().len(), 1);
    assert_eq!(g.get_book("b1").unwrap().title(), "Dune");
    assert!(g.get_book("nope").is_none());
}

#[test]
fn deleted_book_is_not_found() {
    let mut g = Graph::new();
    g.add_book(&book("b1", "Dune"));
    g.add_book(&book("b2", "Emma"));
    g.delete_book("b1");
    assert!(g.get_book("b1").is_none());
    assert_eq!(ids(&g.get_all_books()), vec!["b2".to_string()]);
    g.delete_book("b1");
    assert_eq!(g.get_all_books().len(), 1);
}

#[test]
fn delete_removes_every_book_under_the_key() {
    let mut g = Graph::new();
    g.add_book(&book("b1", "first"));
    g.add_book(&book("b2", "other"));
    g.add_book(&book("b1", "second"));
    g.delete_book("b1");
    assert_eq!(ids(&g.get_all_books()), vec!["b2".to_string()]);
}

#[test]
fn lookup_under_a_shared_key_gives_the_first() {
    let mut g = Graph::new();
    g.add_book(&book("b1", "first"));
    g.add_book(&book("b1", "second"));
    assert_eq!(g.get_book("b1").unwrap().title(), "first");
    assert_eq!(g.get_all_books().len(), 2);
}

#[test]
fn delete_book_takes_its_edges_along() {
    let mut g = library();
    g.delete_book("X");
    assert_eq!(ids(&g.get_user_books(1)), vec!["Y".to_string()]);
    assert_eq!(ids(&g.get_user_books(2)), vec!["Z".to_string()]);
    // a book created later under the same key is unread
    g.add_book(&book("X", "X again"));
    assert_eq!(ids(&g.get_user_books(1)), vec!["Y".to_string()]);
}

#[test]
fn delete_user_takes_its_edges_along() {
    let mut g = library();
    g.delete_user(3);
    assert!(g.get_user(3).is_none());
    assert!(g.get_user_books(3).is_empty());
    g.add_user(&User::new(3, "C again".to_string()));
    assert!(g.get_user_books(3).is_empty());
    assert_eq!(ids(&g.get_user_books(1)), vec!["X".to_string(), "Y".to_string()]);
}

#[test]
fn readers_are_created_fetched_edited_and_deleted() {
    let mut g = Graph::new();
    g.add_user(&User::new(1, "Ann".to_string()));
    g.add_user(&User::new(2, "Bob".to_string()));
    let ann = g.get_user(1).unwrap();
    assert_eq!(ann.id(), 1);
    assert_eq!(ann.name(), "Ann");
    g.edit_user(1, &User::new(99, "Anna".to_string()));
    let anna = g.get_user(1).unwrap();
    assert_eq!(anna.id(), 1);
    assert_eq!(anna.name(), "Anna");
    assert!(g.get_user(99).is_none());
    assert_eq!(g.get_user(2).unwrap().name(), "Bob");
    g.delete_user(1);
    assert!(g.get_user(1).is_none());
    let left = g.get_all_users();
    assert_eq!(left.len(), 1);
    assert_eq!(left[0].id(), 2);
}

#[test]
fn a_read_recorded_twice_is_listed_once() {
    let mut g = Graph::new();
    g.add_user(&User::new(1, "Ann".to_string()));
    g.add_book(&book("b1", "Dune"));
    g.add_book_to_user(1, "b1");
    assert_eq!(ids(&g.get_user_books(1)), vec!["b1".to_string()]);
    g.add_book_to_user(1, "b1");
    assert_eq!(ids(&g.get_user_books(1)), vec!["b1".to_string()]);
}

#[test]
fn a_read_recorded_many_times_is_one_edge() {
    let mut g = Graph::new();
    g.add_user(&User::new(1, "Ann".to_string()));
    g.add_book(&book("b1", "Dune"));
    g.add_book(&book("b2", "Emma"));
    for _ in 0..50 {
        g.add_book_to_user(1, "b1");
    }
    assert_eq!(ids(&g.get_user_books(1)), vec!["b1".to_string()]);
    g.remove_book_from_user(1, "b1");
    assert!(g.get_user_books(1).is_empty());
}

#[test]
fn a_read_needs_both_ends() {
    let mut g = Graph::new();
    g.add_user(&User::new(1, "Ann".to_string()));
    g.add_book(&book("b1", "Dune"));
    g.add_book_to_user(2, "b1");
    g.add_book_to_user(1, "b2");
    assert!(g.get_user_books(1).is_empty());
    assert!(g.get_user_books(2).is_empty());
}

#[test]
fn removing_a_read_leaves_the_nodes() {
    let mut g = library();
    g.remove_book_from_user(1, "X");
    assert_eq!(ids(&g.get_user_books(1)), vec!["Y".to_string()]);
    assert_eq!(ids(&g.get_user_books(2)), vec!["X".to_string(), "Z".to_string()]);
    assert!(g.get_book("X").is_some());
    assert!(g.get_user(1).is_some());
    g.remove_book_from_user(1, "X");
    assert_eq!(ids(&g.get_user_books(1)), vec!["Y".to_string()]);
}

#[test]
fn books_of_a_reader_come_in_catalogue_order() {
    let g = library();
    assert_eq!(
        ids(&g.get_user_books(3)),
        vec!["Y".to_string(), "Z".to_string(), "W".to_string()]
    );
    assert!(g.get_user_books(4).is_empty());
}

#[test]
fn recommendation_ranks_by_distinct_neighbours() {
    let g = library();
    let scored = g.recommend_scored(1);
    assert_eq!(scored.len(), 2);
    assert_eq!(scored[0].0.id(), "Z");
    assert_eq!(scored[0].1, 2);
    assert_eq!(scored[1].0.id(), "W");
    assert_eq!(scored[1].1, 1);
    assert_eq!(ids(&g.recommend_books(1)), vec!["Z".to_string(), "W".to_string()]);
}

#[test]
fn a_neighbour_counts_once_however_many_books_are_shared() {
    let mut g = Graph::new();
    g.add_user(&User::new(1, "A".to_string()));
    g.add_user(&User::new(2, "B".to_string()));
    for id in ["X", "Y", "Z"] {
        g.add_book(&book(id, id));
    }
    for (u, b) in [(1, "X"), (1, "Y"), (2, "X"), (2, "Y"), (2, "Z")] {
        g.add_book_to_user(u, b);
    }
    let scored = g.recommend_scored(1);
    assert_eq!(scored.len(), 1);
    assert_eq!(scored[0].0.id(), "Z");
    assert_eq!(scored[0].1, 1);
}

#[test]
fn recommendation_keeps_the_five_best() {
    // Reader 0 has read S. Reader k (1..=7) has read S and the books B1..Bk,
    // so Bj is read by the 8 - j neighbours j..=7.
    let mut g = Graph::new();
    for u in 0..8 {
        g.add_user(&User::new(u, format!("reader {}", u)));
    }
    // stored in rising score, so that the order of the nodes is not the answer
    for j in (1..=7).rev() {
        g.add_book(&book(&format!("B{}", j), "b"));
    }
    g.add_book(&book("S", "shared"));
    g.add_book(&book("U", "unread"));
    g.add_book_to_user(0, "S");
    for k in 1..=7 {
        g.add_book_to_user(k, "S");
        for j in 1..=k {
            g.add_book_to_user(k, &format!("B{}", j));
        }
    }
    let scored = g.recommend_scored(0);
    let got: Vec<(String, usize)> = scored.iter().map(|(b, s)| (b.id().clone(), *s)).collect();
    assert_eq!(
        got,
        vec![
            ("B1".to_string(), 7),
            ("B2".to_string(), 6),
            ("B3".to_string(), 5),
            ("B4".to_string(), 4),
            ("B5".to_string(), 3),
        ]
    );
}

#[test]
fn readers_who_share_nothing_do_not_count() {
    let mut g = library();
    g.add_user(&User::new(4, "D".to_string()));
    g.add_book(&book("V", "V"));
    g.add_book_to_user(4, "V");
    g.add_book_to_user(4, "W");
    // D shares no book with A: W stays at one neighbour, V is no candidate
    let scored = g.recommend_scored(1);
    assert_eq!(scored.len(), 2);
    assert_eq!((scored[0].0.id().as_str(), scored[0].1), ("Z", 2));
    assert_eq!((scored[1].0.id().as_str(), scored[1].1), ("W", 1));
}

#[test]
fn nothing_is_recommended_without_reads_or_reader() {
    let mut g = library();
    g.add_user(&User::new(9, "new".to_string()));
    assert!(g.recommend_books(9).is_empty());
    assert!(g.recommend_books(1234).is_empty());
    assert!(Graph::new().recommend_books(1).is_empty());
}

#[test]
fn every_reader_gets_their_own_ranking() {
    let g = library();
    // for C: neighbours are A (via Y) and B (via Z); X is read by both
    let scored = g.recommend_scored(3);
    assert_eq!(scored.len(), 1);
    assert_eq!((scored[0].0.id().as_str(), scored[0].1), ("X", 2));
    // for B: neighbours A (via X) and C (via Z); Y read by A and C, W by C
    let scored = g.recommend_scored(2);
    assert_eq!(scored.len(), 2);
    assert_eq!((scored[0].0.id().as_str(), scored[0].1), ("Y", 2));
    assert_eq!((scored[1].0.id().as_str(), scored[1].1), ("W", 1));
}
