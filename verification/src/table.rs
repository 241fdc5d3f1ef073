//! The table of live connections.
//!
//! The table has a fixed number of slots, and a token is the number of a
//! slot counted from the table's first token. A connection sits in the slot
//! of its own token, so tokens of live connections are never shared, and a
//! token is given out again only after the slot was emptied.

use crate::clock::Timestamp;
use crate::connection::{fresh_connection, Connection, ConnectionView, Token};
use vstd::prelude::*;

verus! {

/// What a [`ConnectionTable`] holds: the first token, and for each slot the
/// connection in it, if any.
pub struct TableView {
    pub first: usize,
    pub slots: Seq<Option<ConnectionView>>,
}

impl TableView {
    /// Whether the token is that of some slot, taken or free.
    pub open spec fn in_range(self, token: Token) -> bool {
        self.first <= token.0 < self.first + self.slots.len()
    }

    /// The connection that lives under the token, if any.
    pub open spec fn get(self, token: Token) -> Option<ConnectionView> {
        if self.in_range(token) {
            self.slots[token.0 - self.first]
        } else {
            None
        }
    }

    /// Whether a connection lives under the token.
    pub open spec fn is_live(self, token: Token) -> bool {
        self.get(token) is Some
    }

    /// Whether every slot is taken.
    pub open spec fn is_full(self) -> bool {
        forall|i: int| 0 <= i < self.slots.len() ==> (#[trigger] self.slots[i]) is Some
    }

    /// The first free slot, or the number of slots if none is free.
    pub open spec fn first_free(self) -> int {
        first_free_from(self.slots, 0)
    }

    /// The table without the connection under the token. A token that no
    /// connection lives under leaves the table as it is.
    pub open spec fn without(self, token: Token) -> TableView {
        if self.is_live(token) {
            TableView { slots: self.slots.update(token.0 - self.first, None), ..self }
        } else {
            self
        }
    }

    /// The table with the connection in the slot of its token.
    pub open spec fn with(self, c: ConnectionView) -> TableView {
        TableView { slots: self.slots.update(c.token.0 - self.first, Some(c)), ..self }
    }

    /// Every connection sits in the slot of its own token.
    pub open spec fn tokens_match(self) -> bool {
        forall|i: int|
            0 <= i < self.slots.len() ==> match #[trigger] self.slots[i] {
                Some(c) => c.token.0 == self.first + i,
                None => true,
            }
    }
}

/// The first free slot at or after `from`, or the number of slots if none
/// is free.
pub open spec fn first_free_from(slots: Seq<Option<ConnectionView>>, from: int) -> int
    decreases slots.len() - from,
{
    if from >= slots.len() {
        slots.len() as int
    } else if slots[from] is None {
        from
    } else {
        first_free_from(slots, from + 1)
    }
}

/// Where the first free slot lies: it is free, the slots ahead of it are
/// taken, and there is one unless the table is full.
pub proof fn first_free_facts(table: TableView)
    ensures
        0 <= table.first_free() <= table.slots.len(),
        table.first_free() < table.slots.len() ==> table.slots[table.first_free()] is None,
        forall|i: int| 0 <= i < table.first_free() ==> (#[trigger] table.slots[i]) is Some,
        table.is_full() <==> table.first_free() == table.slots.len(),
{
    first_free_from_facts(table.slots, 0);
    if table.first_free() < table.slots.len() {
        assert(table.slots[table.first_free()] is None);
    }
}

proof fn first_free_from_facts(slots: Seq<Option<ConnectionView>>, from: int)
    requires
        0 <= from <= slots.len(),
    ensures
        from <= first_free_from(slots, from) <= slots.len(),
        first_free_from(slots, from) < slots.len() ==> slots[first_free_from(slots, from)] is None,
        forall|i: int| from <= i < first_free_from(slots, from) ==> (#[trigger] slots[i]) is Some,
    decreases slots.len() - from,
{
    if from < slots.len() && slots[from] is Some {
        first_free_from_facts(slots, from + 1);
    }
}

/// Tearing a connection down is idempotent: a second removal of a token
/// changes nothing, and neither does the removal of a token that no
/// connection lives under. What is removed is gone, and no other
/// connection is touched.
pub proof fn removal_is_idempotent(table: TableView, token: Token, other: Token)
    ensures
        table.without(token).without(token) == table.without(token),
        !table.is_live(token) ==> table.without(token) == table,
        !table.without(token).is_live(token),
        other != token ==> table.without(token).get(other) == table.get(other),
{
}

/// The live connections, each in the slot of its token.
pub struct ConnectionTable {
    first: usize,
    slots: Vec<Option<Connection>>,
}

/// What each slot of a list holds.
pub open spec fn slot_views(slots: Seq<Option<Connection>>) -> Seq<Option<ConnectionView>> {
    slots.map_values(
        |slot: Option<Connection>|
            match slot {
                Some(c) => Some(c@),
                None => None,
            },
    )
}

impl View for ConnectionTable {
    type V = TableView;

    closed spec fn view(&self) -> TableView {
        TableView { first: self.first, slots: slot_views(self.slots@) }
    }
}

impl ConnectionTable {
    #[verifier::type_invariant]
    spec fn well_formed(&self) -> bool {
        self@.tokens_match() && self.first + self.slots@.len() <= usize::MAX
    }

    /// An empty table of `capacity` slots, the first of which has the
    /// token `first`.
    pub fn new_starting_at(first: Token, capacity: usize) -> (table: ConnectionTable)
        requires
            first.0 + capacity <= usize::MAX,
        ensures
            table@.first == first.0,
            table@.slots == Seq::new(capacity as nat, |i: int| None::<ConnectionView>),
    {
        let mut slots: Vec<Option<Connection>> = Vec::new();
        let mut i: usize = 0;
        while i < capacity
            invariant
                i <= capacity,
                slots@.len() == i,
                forall|j: int| 0 <= j < i ==> (#[trigger] slots@[j]) is None,
            decreases capacity - i,
        {
            slots.push(None);
            i += 1;
        }
        let table = ConnectionTable { first: first.0, slots };
        assert(table@.slots =~= Seq::new(capacity as nat, |i: int| None::<ConnectionView>));
        table
    }

    /// Number of slots. Every connection in the table sits in the slot of
    /// its own token.
    pub fn capacity(&self) -> (n: usize)
        ensures
            n == self@.slots.len(),
            self@.tokens_match(),
            self@.first + n <= usize::MAX,
    {
        proof {
            use_type_invariant(self);
        }
        self.slots.len()
    }

    /// The token of the first slot.
    pub fn first_token(&self) -> (t: Token)
        ensures
            t.0 == self@.first,
    {
        Token(self.first)
    }

    fn index_of(&self, token: Token) -> (r: Option<usize>)
        ensures
            match r {
                Some(i) => self@.in_range(token) && i == token.0 - self@.first,
                None => !self@.in_range(token),
            },
    {
        proof {
            use_type_invariant(self);
        }
        if token.0 >= self.first && token.0 - self.first < self.slots.len() {
            Some(token.0 - self.first)
        } else {
            None
        }
    }

    /// Whether a connection lives under the token.
    pub fn contains(&self, token: Token) -> (b: bool)
        ensures
            b == self@.is_live(token),
    {
        match self.index_of(token) {
            Some(i) => self.slots[i].is_some(),
            None => false,
        }
    }

    /// The connection that lives under the token.
    pub fn get(&self, token: Token) -> (r: Option<&Connection>)
        ensures
            match r {
                Some(c) => self@.get(token) == Some(c@),
                None => self@.get(token) is None,
            },
    {
        match self.index_of(token) {
            Some(i) => self.slots[i].as_ref(),
            None => None,
        }
    }

    /// Puts a new connection, last updated at `now`, into the first free
    /// slot and returns its token. A full table stays as it is and returns
    /// nothing.
    pub fn insert_new(&mut self, now: Timestamp) -> (r: Option<Token>)
        ensures
            match r {
                Some(token) => {
                    &&& !old(self)@.is_full()
                    &&& token.0 == old(self)@.first + old(self)@.first_free()
                    &&& !old(self)@.is_live(token)
                    &&& final(self)@ == old(self)@.with(fresh_connection(token, now))
                },
                None => old(self)@.is_full() && final(self)@ == old(self)@,
            },
    {
        proof {
            use_type_invariant(&*self);
            first_free_facts(self@);
        }
        let n: usize = self.slots.len();
        let mut i: usize = 0;
        while i < n && self.slots[i].is_some()
            invariant
                i <= n,
                n == self@.slots.len(),
                self@ == old(self)@,
                first_free_from(self@.slots, 0) == first_free_from(self@.slots, i as int),
            decreases n - i,
        {
            i += 1;
        }
        if i == n {
            return None;
        }
        let token = Token(self.first + i);
        let connection = Connection::new_at(token, now);
        let mut slots: Vec<Option<Connection>> = Vec::new();
        core::mem::swap(&mut slots, &mut self.slots);
        slots.set(i, Some(connection));
        assert(slot_views(slots@) =~= old(self)@.slots.update(
            i as int,
            Some(fresh_connection(token, now)),
        ));
        self.slots = slots;
        Some(token)
    }

    /// Takes the connection under the token out of the table. A token that
    /// no connection lives under leaves the table as it is.
    pub fn remove(&mut self, token: Token) -> (r: Option<Connection>)
        ensures
            final(self)@ == old(self)@.without(token),
            match r {
                Some(c) => old(self)@.get(token) == Some(c@) && c@.token == token,
                None => !old(self)@.is_live(token),
            },
    {
        proof {
            use_type_invariant(&*self);
        }
        match self.index_of(token) {
            Some(i) => {
                let mut slots: Vec<Option<Connection>> = Vec::new();
                core::mem::swap(&mut slots, &mut self.slots);
                let mut slot: Option<Connection> = None;
                core::mem::swap(&mut slot, vstd::std_specs::vec::vec_index_mut(&mut slots, i));
                assert(slot_views(slots@) =~= old(self)@.without(token).slots);
                self.slots = slots;
                slot
            },
            None => None,
        }
    }

    /// Puts a connection back into the slot of its token. Where that slot
    /// is taken, or the token is not one of the table, the table stays as
    /// it is and the connection is handed back.
    pub fn restore(&mut self, connection: Connection) -> (r: Option<Connection>)
        ensures
            match r {
                None => {
                    &&& old(self)@.in_range(connection@.token)
                    &&& !old(self)@.is_live(connection@.token)
                    &&& final(self)@ == old(self)@.with(connection@)
                },
                Some(c) => {
                    &&& !old(self)@.in_range(connection@.token) || old(self)@.is_live(
                        connection@.token,
                    )
                    &&& final(self)@ == old(self)@
                    &&& c@ == connection@
                },
            },
    {
        proof {
            use_type_invariant(&*self);
        }
        match self.index_of(connection.token()) {
            Some(i) => {
                if self.slots[i].is_some() {
                    Some(connection)
                } else {
                    let mut slots: Vec<Option<Connection>> = Vec::new();
                    core::mem::swap(&mut slots, &mut self.slots);
                    slots.set(i, Some(connection));
                    assert(slot_views(slots@) =~= old(self)@.with(connection@).slots);
                    self.slots = slots;
                    None
                }
            },
            None => Some(connection),
        }
    }
}

} // verus!
