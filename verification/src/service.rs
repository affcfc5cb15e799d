//! The HTTP surface of the `users` resource: what each handler decides and
//! returns, stated against a verified model of the table.

use vstd::prelude::*;
use vstd::string::*;
use crate::json::{spec_user_json, spec_users_inner, spec_users_json, users_json};
use crate::user::{rows_of, CreateUser, User};

verus! {

/// An HTTP response as the handlers shape it: a status code, an optional
/// content type, and a body.
pub struct Response {
    pub status: u16,
    pub content_type: Option<String>,
    pub body: String,
}

/// A version-4 identifier: the version nibble reads 4 and the variant bits
/// read binary 10.
pub open spec fn is_uuid_v4(id: u128) -> bool {
    (id >> 76) & 0xf == 4 && (id >> 62) & 3 == 2
}

/// Relies on uuid::Uuid::new_v4, which draws a random identifier and stamps
/// the version-4 and RFC 4122 variant bits, and on Uuid::as_u128, which
/// returns it as the big-endian 128-bit value.
#[verifier::external_body]
fn fresh_user_id() -> (r: u128)
    ensures
        is_uuid_v4(r),
{
    uuid::Uuid::new_v4().as_u128()
}

/// Whether some row carries the identifier.
pub open spec fn has_id(rows: Seq<(u128, Seq<char>)>, id: u128) -> bool {
    exists|i: int| 0 <= i < rows.len() && rows[i].0 == id
}

/// All row identifiers are distinct.
pub open spec fn ids_unique(rows: Seq<(u128, Seq<char>)>) -> bool {
    forall|i: int, j: int| 0 <= i < j < rows.len() ==> rows[i].0 != rows[j].0
}

/// The view of a parsed create body: its username and password characters.
pub open spec fn req_of(parsed: Option<CreateUser>) -> Option<(Seq<char>, Seq<char>)> {
    match parsed {
        None => None,
        Some(c) => Some((c.username@, c.password@)),
    }
}

/// What one create request does to the table, given the identifier drawn for
/// it: a body that did not parse is rejected with 400 and the table stands;
/// an identifier already present is refused by the table's primary key,
/// surfacing as 500; otherwise the row is appended and 201 returned. The
/// password plays no part.
pub open spec fn create_transition(
    rows: Seq<(u128, Seq<char>)>,
    req: Option<(Seq<char>, Seq<char>)>,
    id: u128,
) -> (Seq<(u128, Seq<char>)>, u16) {
    match req {
        None => (rows, 400),
        Some(r) => if has_id(rows, id) {
            (rows, 500)
        } else {
            (rows.push((id, r.0)), 201)
        },
    }
}

/// The users table as the service observes it: the verified model against
/// which the handlers' contracts are stated.
pub struct Store {
    users: Vec<User>,
}

impl View for Store {
    type V = Seq<(u128, Seq<char>)>;

    closed spec fn view(&self) -> Seq<(u128, Seq<char>)> {
        rows_of(self.users@)
    }
}

impl Store {
    /// A freshly migrated table holds no rows.
    pub fn new() -> (r: Store)
        ensures
            r@ == Seq::<(u128, Seq<char>)>::empty(),
    {
        let r = Store { users: Vec::new() };
        proof {
            assert(r@ =~= Seq::<(u128, Seq<char>)>::empty());
        }
        r
    }

    /// Whether a row with this identifier is already present.
    fn contains_id(&self, id: u128) -> (b: bool)
        ensures
            b == has_id(self@, id),
    {
        let mut i: usize = 0;
        while i < self.users.len()
            invariant
                i <= self.users.len(),
                self@.len() == self.users@.len(),
                forall|j: int| 0 <= j < i ==> self@[j].0 != id,
            decreases self.users.len() - i,
        {
            if self.users[i].id == id {
                assert(self@[i as int].0 == id);
                return true;
            }
            i = i + 1;
        }
        false
    }

    /// GET `/users`: always 200, with the whole table as a JSON array.
    pub fn list(&self) -> (r: Response)
        ensures
            r.status == 200,
            r.body@ == spec_users_json(self@),
            r.content_type matches Some(ct) && ct@ == "application/json"@,
    {
        Response {
            status: 200,
            content_type: Some(String::from_str("application/json")),
            body: users_json(&self.users),
        }
    }

    /// POST `/users`, with the identifier drawn for this request: applies
    /// exactly the create transition and returns an empty body.
    pub fn create_with_id(&mut self, parsed: Option<CreateUser>, id: u128) -> (r: Response)
        ensures
            (final(self)@, r.status) == create_transition(old(self)@, req_of(parsed), id),
            ids_unique(old(self)@) ==> ids_unique(final(self)@),
            r.body@ == Seq::<char>::empty(),
            r.content_type is None,
    {
        proof {
            if ids_unique(self@) {
                lemma_ids_stay_unique(self@, req_of(parsed), id);
            }
        }
        let status: u16 = match parsed {
            None => 400,
            Some(c) => {
                if self.contains_id(id) {
                    500
                } else {
                    self.users.push(User { id, username: c.username });
                    proof {
                        assert(self@ =~= old(self)@.push((id, self.users@.last().username@)));
                    }
                    201
                }
            },
        };
        let r = Response { status, content_type: None, body: String::new() };
        r
    }

    /// POST `/users`: draws a fresh version-4 identifier and applies the
    /// create transition with it.
    pub fn create(&mut self, parsed: Option<CreateUser>) -> (r: Response)
        ensures
            exists|id: u128|
                #[trigger] is_uuid_v4(id) && (final(self)@, r.status) == create_transition(
                    old(self)@,
                    req_of(parsed),
                    id,
                ),
            ids_unique(old(self)@) ==> ids_unique(final(self)@),
            r.body@ == Seq::<char>::empty(),
            r.content_type is None,
    {
        let id = fresh_user_id();
        let r = self.create_with_id(parsed, id);
        proof {
            assert(is_uuid_v4(id) && (self@, r.status) == create_transition(
                old(self)@,
                req_of(parsed),
                id,
            ));
        }
        r
    }
}

/// What the create handler resolves to before any store work.
pub enum CreatePlan {
    /// The body did not parse: respond 400 and touch nothing.
    Reject,
    /// Insert this row; 201 on success, a store failure surfaces as 500.
    Insert { id: u128, username: String },
}

/// The decision of the create handler, given the parsed body: a body that
/// did not parse is rejected; a parsed one is inserted under a fresh
/// version-4 identifier with its username kept verbatim, and its password
/// discarded.
pub fn plan_create(parsed: Option<CreateUser>) -> (r: CreatePlan)
    ensures
        match parsed {
            None => r is Reject,
            Some(c) => r matches CreatePlan::Insert { id, username } && is_uuid_v4(id)
                && username@ == c.username@,
        },
{
    match parsed {
        None => CreatePlan::Reject,
        Some(c) => CreatePlan::Insert { id: fresh_user_id(), username: c.username },
    }
}

/// The one statement the list handler runs.
pub fn select_users_sql() -> (r: &'static str)
    ensures
        r@ == "select id, username from users"@,
{
    "select id, username from users"
}

/// The one statement the create handler runs; the identifier and username
/// are bound as parameters, never interpolated.
pub fn insert_user_sql() -> (r: &'static str)
    ensures
        r@ == "insert into users (id, username) values ($1, $2)"@,
{
    "insert into users (id, username) values ($1, $2)"
}

/// After a successful create, the listed table contains a row whose
/// username equals the posted one.
pub proof fn lemma_create_then_list(
    rows: Seq<(u128, Seq<char>)>,
    username: Seq<char>,
    password: Seq<char>,
    id: u128,
)
    requires
        create_transition(rows, Some((username, password)), id).1 == 201,
    ensures
        exists|i: int|
            0 <= i < create_transition(rows, Some((username, password)), id).0.len()
                && #[trigger] create_transition(rows, Some((username, password)), id).0[i].1
                == username,
{
    let after = create_transition(rows, Some((username, password)), id).0;
    assert(after[rows.len() as int].1 == username);
}

/// After a successful create, the body a list returns carries the new
/// row's rendered object, identifier and posted username included.
pub proof fn lemma_created_row_rendered(
    rows: Seq<(u128, Seq<char>)>,
    username: Seq<char>,
    password: Seq<char>,
    id: u128,
)
    requires
        create_transition(rows, Some((username, password)), id).1 == 201,
    ensures
        exists|a: int|
            0 <= a && a + spec_user_json(id, username).len() <= spec_users_json(
                create_transition(rows, Some((username, password)), id).0,
            ).len() && #[trigger] spec_users_json(
                create_transition(rows, Some((username, password)), id).0,
            ).subrange(a, a + spec_user_json(id, username).len() as int) == spec_user_json(
                id,
                username,
            ),
{
    let after = create_transition(rows, Some((username, password)), id).0;
    let body = spec_users_json(after);
    let obj = spec_user_json(id, username);
    reveal_strlit("[");
    reveal_strlit(",");
    assert(after.last() == (id, username));
    if after.len() == 1 {
        let a = 1int;
        assert(body.subrange(a, a + obj.len() as int) =~= obj);
        assert(body.subrange(a, a + obj.len() as int) == obj);
    } else {
        assert(after.drop_last() =~= rows);
        let a: int = 2 + spec_users_inner(rows).len() as int;
        assert(body.subrange(a, a + obj.len() as int) =~= obj);
        assert(body.subrange(a, a + obj.len() as int) == obj);
    }
}

/// The password has no bearing on what a create does: two requests that
/// agree on the username lead to the same table and the same status.
pub proof fn lemma_password_ignored(
    rows: Seq<(u128, Seq<char>)>,
    username: Seq<char>,
    password1: Seq<char>,
    password2: Seq<char>,
    id: u128,
)
    ensures
        create_transition(rows, Some((username, password1)), id) == create_transition(
            rows,
            Some((username, password2)),
            id,
        ),
{
}

/// A create preserves distinctness of the identifiers: a duplicate draw is
/// refused, so the table's identifiers stay unique whatever happens.
pub proof fn lemma_ids_stay_unique(
    rows: Seq<(u128, Seq<char>)>,
    req: Option<(Seq<char>, Seq<char>)>,
    id: u128,
)
    requires
        ids_unique(rows),
    ensures
        ids_unique(create_transition(rows, req, id).0),
{
    let after = create_transition(rows, req, id).0;
    if req is Some && !has_id(rows, id) {
        assert forall|i: int, j: int| 0 <= i < j < after.len() implies after[i].0 != after[j].0 by {
            if j == rows.len() as int {
                assert(after[i] == rows[i]);
                assert(!(0 <= i < rows.len() && rows[i].0 == id));
            }
        }
    }
}

} // verus!
