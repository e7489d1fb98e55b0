//! An in-memory registry: the table from tokens to descriptors and interests.

use vstd::prelude::*;
use crate::interest::InterestSet;
use crate::registry::{Registrar, Request};

verus! {

/// What a token stands for: a descriptor and the directions watched on it.
#[derive(Clone, Copy, Debug, PartialEq, Eq, Structural)]
pub struct Registration {
    pub descriptor: i32,
    pub interests: InterestSet,
}

/// Why a table turned a request down.
#[derive(Clone, Copy, Debug, PartialEq, Eq, Structural)]
pub enum TableError {
    /// The token already stands for another registration.
    TokenInUse,
    /// The descriptor is already entered.
    AlreadyRegistered,
    /// The descriptor is not entered.
    NotRegistered,
}

/// Whether some token of `entries` stands for `descriptor`.
pub open spec fn watched(entries: Map<usize, Registration>, descriptor: i32) -> bool {
    exists|token: usize| #[trigger] entries.contains_key(token) && entries[token].descriptor == descriptor
}

/// A token of `entries` that stands for `descriptor`, where there is one.
pub open spec fn token_of(entries: Map<usize, Registration>, descriptor: i32) -> usize {
    choose|token: usize| #[trigger] entries.contains_key(token) && entries[token].descriptor == descriptor
}

/// Whether no descriptor of `entries` is entered under two tokens.
pub open spec fn one_token_each(entries: Map<usize, Registration>) -> bool {
    forall|a: usize, b: usize|
        #[trigger] entries.contains_key(a) && #[trigger] entries.contains_key(b)
            && entries[a].descriptor == entries[b].descriptor ==> a == b
}

/// Why a table holding `entries` turns `request` down, if it does.
///
/// A registration needs a free token and a descriptor that is not entered
/// yet. A change or a removal needs an entered descriptor, and a change may
/// move it only to its own token or to a free one.
pub open spec fn refusal(entries: Map<usize, Registration>, request: Request) -> Option<TableError> {
    match request {
        Request::Register { descriptor, token, interests } => {
            if entries.contains_key(token) {
                Some(TableError::TokenInUse)
            } else if watched(entries, descriptor) {
                Some(TableError::AlreadyRegistered)
            } else {
                None
            }
        },
        Request::Reregister { descriptor, token, interests } => {
            if !watched(entries, descriptor) {
                Some(TableError::NotRegistered)
            } else if token != token_of(entries, descriptor) && entries.contains_key(token) {
                Some(TableError::TokenInUse)
            } else {
                None
            }
        },
        Request::Deregister { descriptor } => {
            if !watched(entries, descriptor) {
                Some(TableError::NotRegistered)
            } else {
                None
            }
        },
    }
}

/// What a table holding `entries` holds once it has answered `request`.
///
/// A request that is turned down changes nothing.
pub open spec fn entries_after(entries: Map<usize, Registration>, request: Request) -> Map<usize, Registration> {
    if refusal(entries, request) is Some {
        entries
    } else {
        match request {
            Request::Register { descriptor, token, interests } => {
                entries.insert(token, Registration { descriptor, interests })
            },
            Request::Reregister { descriptor, token, interests } => {
                entries.remove(token_of(entries, descriptor)).insert(token, Registration { descriptor, interests })
            },
            Request::Deregister { descriptor } => entries.remove(token_of(entries, descriptor)),
        }
    }
}

struct Entry {
    descriptor: i32,
    token: usize,
    interests: InterestSet,
}

impl Entry {
    spec fn registration(self) -> Registration {
        Registration { descriptor: self.descriptor, interests: self.interests }
    }
}

/// Whether no token and no descriptor occurs twice in `rows`.
spec fn distinct(rows: Seq<Entry>) -> bool {
    forall|i: int, j: int|
        0 <= i < j < rows.len() ==> (#[trigger] rows[i]).token != (#[trigger] rows[j]).token
            && rows[i].descriptor != rows[j].descriptor
}

spec fn holds_token(rows: Seq<Entry>, token: usize) -> bool {
    exists|i: int| 0 <= i < rows.len() && (#[trigger] rows[i]).token == token
}

spec fn row_of_token(rows: Seq<Entry>, token: usize) -> int {
    choose|i: int| 0 <= i < rows.len() && (#[trigger] rows[i]).token == token
}

spec fn model(rows: Seq<Entry>) -> Map<usize, Registration> {
    Map::new(|token: usize| holds_token(rows, token), |token: usize| rows[row_of_token(rows, token)].registration())
}

proof fn lemma_model_at(rows: Seq<Entry>, i: int)
    requires
        distinct(rows),
        0 <= i < rows.len(),
    ensures
        model(rows).contains_key(rows[i].token),
        model(rows)[rows[i].token] == rows[i].registration(),
        watched(model(rows), rows[i].descriptor),
        token_of(model(rows), rows[i].descriptor) == rows[i].token,
{
    let token = rows[i].token;
    assert(holds_token(rows, token));
    assert(row_of_token(rows, token) == i);
    let found = token_of(model(rows), rows[i].descriptor);
    assert(model(rows).contains_key(token) && model(rows)[token].descriptor == rows[i].descriptor);
    assert(holds_token(rows, found));
    assert(rows[row_of_token(rows, found)].descriptor == rows[i].descriptor);
    assert(row_of_token(rows, found) == i);
}

proof fn lemma_model_without(rows: Seq<Entry>, descriptor: i32)
    requires
        forall|i: int| 0 <= i < rows.len() ==> (#[trigger] rows[i]).descriptor != descriptor,
    ensures
        !watched(model(rows), descriptor),
{
    if watched(model(rows), descriptor) {
        let token = token_of(model(rows), descriptor);
        assert(holds_token(rows, token));
        assert(rows[row_of_token(rows, token)].descriptor == descriptor);
    }
}

proof fn lemma_model_valid(rows: Seq<Entry>)
    requires
        distinct(rows),
    ensures
        one_token_each(model(rows)),
{
    assert forall|a: usize, b: usize|
        #[trigger] model(rows).contains_key(a) && #[trigger] model(rows).contains_key(b)
            && model(rows)[a].descriptor == model(rows)[b].descriptor implies a == b by {
        assert(holds_token(rows, a));
        assert(holds_token(rows, b));
        let i = row_of_token(rows, a);
        let j = row_of_token(rows, b);
        assert(rows[i].descriptor == rows[j].descriptor);
        assert(i == j);
    }
}

proof fn lemma_model_push(rows: Seq<Entry>, row: Entry)
    requires
        distinct(rows),
        forall|i: int| 0 <= i < rows.len() ==> (#[trigger] rows[i]).token != row.token,
        forall|i: int| 0 <= i < rows.len() ==> (#[trigger] rows[i]).descriptor != row.descriptor,
    ensures
        distinct(rows.push(row)),
        model(rows.push(row)) == model(rows).insert(row.token, row.registration()),
{
    let grown = rows.push(row);
    assert(distinct(grown));
    let expected = model(rows).insert(row.token, row.registration());
    assert forall|token: usize| model(grown).contains_key(token) implies expected.contains_key(token)
        && model(grown)[token] == expected[token] by {
        let i = row_of_token(grown, token);
        assert(holds_token(grown, token));
        lemma_model_at(grown, i);
        if i < rows.len() {
            assert(grown[i] == rows[i]);
            lemma_model_at(rows, i);
        }
    }
    assert forall|token: usize| expected.contains_key(token) implies model(grown).contains_key(token) by {
        if token == row.token {
            assert(grown[rows.len() as int].token == token);
        } else {
            assert(holds_token(rows, token));
            let i = row_of_token(rows, token);
            assert(grown[i].token == token);
        }
    }
    assert(model(grown) =~= expected);
}

proof fn lemma_model_remove(rows: Seq<Entry>, at: int)
    requires
        distinct(rows),
        0 <= at < rows.len(),
    ensures
        distinct(rows.remove(at)),
        model(rows.remove(at)) == model(rows).remove(rows[at].token),
{
    let shrunk = rows.remove(at);
    assert forall|i: int, j: int| 0 <= i < j < shrunk.len() implies (#[trigger] shrunk[i]).token != (
    #[trigger] shrunk[j]).token && shrunk[i].descriptor != shrunk[j].descriptor by {
        let i0 = if i < at { i } else { i + 1 };
        let j0 = if j < at { j } else { j + 1 };
        assert(shrunk[i] == rows[i0]);
        assert(shrunk[j] == rows[j0]);
    }
    let expected = model(rows).remove(rows[at].token);
    assert forall|token: usize| model(shrunk).contains_key(token) implies expected.contains_key(token)
        && model(shrunk)[token] == expected[token] by {
        assert(holds_token(shrunk, token));
        let i = row_of_token(shrunk, token);
        let i0 = if i < at { i } else { i + 1 };
        lemma_model_at(shrunk, i);
        assert(shrunk[i] == rows[i0]);
        lemma_model_at(rows, i0);
        assert(rows[i0].token != rows[at].token);
    }
    assert forall|token: usize| expected.contains_key(token) implies model(shrunk).contains_key(token) by {
        assert(holds_token(rows, token));
        let i0 = row_of_token(rows, token);
        assert(i0 != at);
        let i = if i0 < at { i0 } else { i0 - 1 };
        assert(shrunk[i] == rows[i0]);
    }
    assert(model(shrunk) =~= expected);
}

proof fn lemma_model_update(rows: Seq<Entry>, at: int, row: Entry)
    requires
        distinct(rows),
        0 <= at < rows.len(),
        row.descriptor == rows[at].descriptor,
        forall|i: int| 0 <= i < rows.len() && i != at ==> (#[trigger] rows[i]).token != row.token,
    ensures
        distinct(rows.update(at, row)),
        model(rows.update(at, row)) == model(rows).remove(rows[at].token).insert(row.token, row.registration()),
{
    let changed = rows.update(at, row);
    assert(distinct(changed));
    let expected = model(rows).remove(rows[at].token).insert(row.token, row.registration());
    assert forall|token: usize| model(changed).contains_key(token) implies expected.contains_key(token)
        && model(changed)[token] == expected[token] by {
        assert(holds_token(changed, token));
        let i = row_of_token(changed, token);
        lemma_model_at(changed, i);
        if i != at {
            assert(changed[i] == rows[i]);
            lemma_model_at(rows, i);
        }
    }
    assert forall|token: usize| expected.contains_key(token) implies model(changed).contains_key(token) by {
        if token == row.token {
            assert(changed[at].token == token);
        } else {
            assert(holds_token(rows, token));
            let i = row_of_token(rows, token);
            assert(i != at);
            assert(changed[i].token == token);
        }
    }
    assert(model(changed) =~= expected);
}

/// A registry held in memory, for a reactor that keeps its own books.
///
/// No token and no descriptor is entered twice.
pub struct RegistrationTable {
    rows: Vec<Entry>,
}

impl View for RegistrationTable {
    type V = Map<usize, Registration>;

    /// The registration that each entered token stands for.
    closed spec fn view(&self) -> Map<usize, Registration> {
        model(self.rows@)
    }
}

impl RegistrationTable {
    /// Whether the table is one that its operations can have produced.
    #[verifier::type_invariant]
    pub closed spec fn wf(&self) -> bool {
        distinct(self.rows@)
    }

    /// However a table came about, it enters no descriptor under two
    /// tokens: what is watched has one token at a time.
    pub proof fn law_one_token_each(&self)
        requires
            self.wf(),
        ensures
            one_token_each(self@),
    {
        lemma_model_valid(self.rows@);
    }

    /// A table without entries.
    pub fn new() -> (table: RegistrationTable)
        ensures
            table.wf(),
            table@ == Map::<usize, Registration>::empty(),
    {
        let table = RegistrationTable { rows: Vec::new() };
        assert(table@ =~= Map::<usize, Registration>::empty());
        table
    }

    /// Moves the rows out and leaves the table empty, so that they can be
    /// changed and put back in one step.
    fn take_rows(&mut self) -> (rows: Vec<Entry>)
        ensures
            rows@ == old(self).rows@,
            final(self).rows@ == Seq::<Entry>::empty(),
    {
        let mut rows: Vec<Entry> = Vec::new();
        std::mem::swap(&mut self.rows, &mut rows);
        rows
    }

    fn row_with_token(&self, token: usize) -> (found: Option<usize>)
        ensures
            match found {
                Some(i) => i < self.rows@.len() && self.rows@[i as int].token == token,
                None => forall|i: int| 0 <= i < self.rows@.len() ==> (#[trigger] self.rows@[i]).token != token,
            },
    {
        let mut i: usize = 0;
        while i < self.rows.len()
            invariant
                i <= self.rows@.len(),
                forall|k: int| 0 <= k < i ==> (#[trigger] self.rows@[k]).token != token,
            decreases self.rows@.len() - i,
        {
            if self.rows[i].token == token {
                return Some(i);
            }
            i += 1;
        }
        None
    }

    fn row_with_descriptor(&self, descriptor: i32) -> (found: Option<usize>)
        ensures
            match found {
                Some(i) => i < self.rows@.len() && self.rows@[i as int].descriptor == descriptor,
                None => forall|i: int|
                    0 <= i < self.rows@.len() ==> (#[trigger] self.rows@[i]).descriptor != descriptor,
            },
    {
        let mut i: usize = 0;
        while i < self.rows.len()
            invariant
                i <= self.rows@.len(),
                forall|k: int| 0 <= k < i ==> (#[trigger] self.rows@[k]).descriptor != descriptor,
            decreases self.rows@.len() - i,
        {
            if self.rows[i].descriptor == descriptor {
                return Some(i);
            }
            i += 1;
        }
        None
    }

    /// The registration that `token` stands for, if it is entered.
    pub fn lookup(&self, token: usize) -> (found: Option<Registration>)
        ensures
            found is Some <==> self@.contains_key(token),
            found matches Some(registration) ==> registration == self@[token],
    {
        proof {
            use_type_invariant(self);
        }
        match self.row_with_token(token) {
            Some(i) => {
                proof {
                    lemma_model_at(self.rows@, i as int);
                }
                Some(Registration { descriptor: self.rows[i].descriptor, interests: self.rows[i].interests })
            },
            None => None,
        }
    }

    /// The token under which `descriptor` is entered, if it is.
    pub fn token_for(&self, descriptor: i32) -> (found: Option<usize>)
        ensures
            found is Some <==> watched(self@, descriptor),
            found matches Some(token) ==> token == token_of(self@, descriptor),
    {
        proof {
            use_type_invariant(self);
        }
        match self.row_with_descriptor(descriptor) {
            Some(i) => {
                proof {
                    lemma_model_at(self.rows@, i as int);
                }
                Some(self.rows[i].token)
            },
            None => {
                proof {
                    lemma_model_without(self.rows@, descriptor);
                }
                None
            },
        }
    }
}

impl Registrar for RegistrationTable {
    type Failure = TableError;

    /// The table answers as `refusal` says and then holds what
    /// `entries_after` says.
    open spec fn serves(&self, request: Request, after: &Self, outcome: Result<(), TableError>) -> bool {
        &&& after@ == entries_after(self@, request)
        &&& after.wf()
        &&& match outcome {
            Ok(_) => refusal(self@, request) is None,
            Err(e) => refusal(self@, request) == Some(e),
        }
    }

    fn register(&mut self, descriptor: i32, token: usize, interests: InterestSet) -> (outcome: Result<
        (),
        TableError,
    >) {
        proof {
            use_type_invariant(&*self);
        }
        if self.row_with_token(token).is_some() {
            return Err(TableError::TokenInUse);
        }
        match self.row_with_descriptor(descriptor) {
            Some(i) => {
                proof {
                    lemma_model_at(self.rows@, i as int);
                }
                Err(TableError::AlreadyRegistered)
            },
            None => {
                proof {
                    lemma_model_without(self.rows@, descriptor);
                    lemma_model_push(self.rows@, Entry { descriptor, token, interests });
                }
                let mut rows = self.take_rows();
                rows.push(Entry { descriptor, token, interests });
                self.rows = rows;
                Ok(())
            },
        }
    }

    fn reregister(&mut self, descriptor: i32, token: usize, interests: InterestSet) -> (outcome: Result<
        (),
        TableError,
    >) {
        proof {
            use_type_invariant(&*self);
        }
        match self.row_with_descriptor(descriptor) {
            None => {
                proof {
                    lemma_model_without(self.rows@, descriptor);
                }
                Err(TableError::NotRegistered)
            },
            Some(i) => {
                proof {
                    lemma_model_at(self.rows@, i as int);
                }
                if self.rows[i].token != token && self.row_with_token(token).is_some() {
                    return Err(TableError::TokenInUse);
                }
                proof {
                    lemma_model_update(self.rows@, i as int, Entry { descriptor, token, interests });
                }
                let mut rows = self.take_rows();
                rows.set(i, Entry { descriptor, token, interests });
                self.rows = rows;
                Ok(())
            },
        }
    }

    fn deregister(&mut self, descriptor: i32) -> (outcome: Result<(), TableError>) {
        proof {
            use_type_invariant(&*self);
        }
        match self.row_with_descriptor(descriptor) {
            None => {
                proof {
                    lemma_model_without(self.rows@, descriptor);
                }
                Err(TableError::NotRegistered)
            },
            Some(i) => {
                proof {
                    lemma_model_at(self.rows@, i as int);
                    lemma_model_remove(self.rows@, i as int);
                }
                let mut rows = self.take_rows();
                let _ = rows.remove(i);
                self.rows = rows;
                Ok(())
            },
        }
    }
}

} // verus!
