//! A row of a result as plain values: each column's name and what it holds.
//! Whoever talks to the store turns the driver's rows into these.

use vstd::prelude::*;

verus! {

/// What a column holds, as far as this library reads it.
#[derive(Debug)]
pub enum Value {
    /// Nothing.
    Null,
    /// A string.
    Text(String),
    /// An integer.
    Integer(i64),
    /// Anything else: a number with a fraction, a date, a list, a node.
    Other,
}

/// What a column holds, as a value.
pub enum ValueView {
    Null,
    Text(Seq<char>),
    Integer(int),
    Other,
}

impl View for Value {
    type V = ValueView;

    open spec fn view(&self) -> ValueView {
        match self {
            Value::Null => ValueView::Null,
            Value::Text(text) => ValueView::Text(text@),
            Value::Integer(n) => ValueView::Integer(*n as int),
            Value::Other => ValueView::Other,
        }
    }
}

/// What the columns hold under a name: the value put there last, if any was.
pub open spec fn column(columns: Seq<(Seq<char>, ValueView)>, name: Seq<char>) -> Option<
    ValueView,
>
    decreases columns.len(),
{
    if columns.len() == 0 {
        None
    } else if columns.last().0 == name {
        Some(columns.last().1)
    } else {
        column(columns.drop_last(), name)
    }
}

/// A row of a result: columns by name.
#[derive(Debug)]
pub struct Row {
    columns: Vec<(String, Value)>,
}

impl View for Row {
    type V = Seq<(Seq<char>, ValueView)>;

    closed spec fn view(&self) -> Seq<(Seq<char>, ValueView)> {
        Seq::new(self.columns@.len(), |i: int| (self.columns@[i].0@, self.columns@[i].1@))
    }
}

impl Row {
    /// The string in the column `name`, where the column is there and holds
    /// one.
    pub open spec fn text_at(&self, name: Seq<char>) -> Option<Seq<char>> {
        match column(self@, name) {
            Some(ValueView::Text(text)) => Some(text),
            _ => None,
        }
    }

    /// The integer in the column `name`, where the column is there and holds
    /// one.
    pub open spec fn integer_at(&self, name: Seq<char>) -> Option<int> {
        match column(self@, name) {
            Some(ValueView::Integer(n)) => Some(n),
            _ => None,
        }
    }

    /// A row without columns.
    pub fn new() -> (row: Self)
        ensures
            row@ == Seq::<(Seq<char>, ValueView)>::empty(),
    {
        let row = Row { columns: Vec::new() };
        assert(row@ =~= Seq::empty());
        row
    }

    /// Puts a value into the column `name`, in place of what was there.
    pub fn put(&mut self, name: &str, value: Value)
        ensures
            final(self)@ == old(self)@.push((name@, value@)),
            column(final(self)@, name@) == Some(value@),
            forall|other: Seq<char>|
                other != name@ ==> column(final(self)@, other) == column(old(self)@, other),
    {
        self.columns.push((name.to_owned(), value));
        assert(self@ =~= old(self)@.push((name@, value@)));
        assert(self@.last() == (name@, value@));
        assert(self@.drop_last() =~= old(self)@);
    }

    fn find(&self, name: &str) -> (at: Option<usize>)
        ensures
            at is Some <==> column(self@, name@) is Some,
            at matches Some(i) ==> i < self.columns.len() && column(self@, name@) == Some(
                self.columns[i as int].1@,
            ),
    {
        let key = name.to_owned();
        let mut i: usize = self.columns.len();
        assert(self@.take(i as int) =~= self@);
        while i > 0
            invariant
                i <= self.columns.len(),
                key@ == name@,
                column(self@, name@) == column(self@.take(i as int), name@),
            decreases i,
        {
            let ghost seen = self@.take(i as int);
            assert(seen.last() == self@[i - 1]);
            assert(seen.drop_last() =~= self@.take(i - 1));
            if self.columns[i - 1].0 == key {
                return Some(i - 1);
            }
            i -= 1;
        }
        None
    }

    /// The string in the column `name`; `None` where the column is missing
    /// or holds something else.
    pub fn text(&self, name: &str) -> (text: Option<String>)
        ensures
            text is Some <==> self.text_at(name@) is Some,
            text matches Some(t) ==> self.text_at(name@) == Some(t@),
    {
        match self.find(name) {
            Some(i) => match &self.columns[i].1 {
                Value::Text(text) => Some(text.clone()),
                _ => None,
            },
            None => None,
        }
    }

    /// The integer in the column `name`; `None` where the column is missing
    /// or holds something else.
    pub fn integer(&self, name: &str) -> (n: Option<i64>)
        ensures
            n is Some <==> self.integer_at(name@) is Some,
            n matches Some(v) ==> self.integer_at(name@) == Some(v as int),
    {
        match self.find(name) {
            Some(i) => match &self.columns[i].1 {
                Value::Integer(n) => Some(*n),
                _ => None,
            },
            None => None,
        }
    }
}

} // verus!
