//! The per-test database harness: deriving an isolated database name,
//! splitting a connection string into server and database parts, and the
//! management statements that provision and tear a database down.

use vstd::prelude::*;
use vstd::string::*;

verus! {

/// The index of the last occurrence of `c` in `s`, or -1 when there is none.
pub open spec fn last_index_of(s: Seq<char>, c: char) -> int
    decreases s.len(),
{
    if s.len() == 0 {
        -1
    } else if s.last() == c {
        s.len() - 1
    } else {
        last_index_of(s.drop_last(), c)
    }
}

/// What the last index means: it lies below the length; where it is
/// non-negative it carries `c` and nothing after it does; where it is -1
/// nothing carries `c` at all.
pub proof fn lemma_last_index_of_props(s: Seq<char>, c: char)
    ensures
        last_index_of(s, c) < s.len(),
        last_index_of(s, c) >= -1,
        last_index_of(s, c) >= 0 ==> s[last_index_of(s, c)] == c,
        forall|j: int| last_index_of(s, c) < j < s.len() ==> s[j] != c,
    decreases s.len(),
{
    if s.len() > 0 {
        lemma_last_index_of_props(s.drop_last(), c);
        if s.last() != c {
            assert forall|j: int| last_index_of(s, c) < j < s.len() implies s[j] != c by {
                if j < s.len() - 1 {
                    assert(s[j] == s.drop_last()[j]);
                }
            }
        }
    }
}

/// Appending characters that are not `c` leaves the last index of `c`
/// where it was.
pub proof fn lemma_last_index_of_append(s: Seq<char>, t: Seq<char>, c: char)
    requires
        forall|j: int| 0 <= j < t.len() ==> t[j] != c,
    ensures
        last_index_of(s + t, c) == last_index_of(s, c),
    decreases t.len(),
{
    if t.len() == 0 {
        assert(s + t =~= s);
    } else {
        assert((s + t).last() == t.last());
        assert((s + t).drop_last() =~= s + t.drop_last());
        lemma_last_index_of_append(s, t.drop_last(), c);
    }
}

/// Splits a connection string at its last `/` into the server part, slash
/// included, and the database name after it. A string without a `/` has no
/// database part and yields nothing.
pub fn parse_db_url(db_url: &str) -> (r: Option<(String, String)>)
    ensures
        match r {
            Some(parts) => {
                let p = last_index_of(db_url@, '/');
                &&& p >= 0
                &&& parts.0@ == db_url@.subrange(0, p + 1)
                &&& parts.1@ == db_url@.subrange(p + 1, db_url@.len() as int)
            },
            None => last_index_of(db_url@, '/') == -1,
        },
{
    let len = db_url.unicode_len();
    let mut i: usize = len;
    while i > 0
        invariant
            len == db_url@.len(),
            i <= len,
            forall|j: int| i <= j < len ==> db_url@[j] != '/',
        decreases i,
    {
        if db_url.get_char(i - 1) == '/' {
            let server = String::from_str(db_url.substring_char(0, i));
            let name = String::from_str(db_url.substring_char(i, len));
            proof {
                lemma_last_index_of_props(db_url@, '/');
                let p = last_index_of(db_url@, '/');
                assert(p >= i - 1) by {
                    lemma_last_index_of_props(db_url@, '/');
                    assert(db_url@[i - 1] == '/');
                }
                assert(p <= i - 1);
            }
            return Some((server, name));
        }
        i = i - 1;
    }
    proof {
        lemma_last_index_of_props(db_url@, '/');
        assert(last_index_of(db_url@, '/') == -1);
    }
    None
}

/// An ASCII letter or digit.
pub open spec fn is_alphanumeric_char(c: char) -> bool {
    ('0' <= c && c <= '9') || ('a' <= c && c <= 'z') || ('A' <= c && c <= 'Z')
}

/// A name safe to interpolate into a management statement: letters, digits
/// and underscores only, so it can carry neither a quote nor a separator.
pub open spec fn sql_safe_name(s: Seq<char>) -> bool {
    forall|i: int| 0 <= i < s.len() ==> (is_alphanumeric_char(s[i]) || s[i] == '_')
}

/// Relies on rand's Alphanumeric distribution: each sampled byte is an
/// ASCII letter or digit, and sample_string collects exactly `len` of them.
#[verifier::external_body]
fn random_suffix(len: usize) -> (r: String)
    ensures
        r@.len() == len,
        forall|i: int| 0 <= i < r@.len() ==> is_alphanumeric_char(r@[i]),
{
    rand::distr::SampleString::sample_string(&rand::distr::Alphanumeric, &mut rand::rng(), len)
}

/// The derived connection string for one suffix: the base, an underscore,
/// then the suffix.
pub open spec fn derived_url(base: Seq<char>, suffix: Seq<char>) -> Seq<char> {
    base + seq!['_'] + suffix
}

/// Concatenates a base connection string with an underscore and a suffix.
pub fn test_db_url(base: &str, suffix: &str) -> (r: String)
    ensures
        r@ == derived_url(base@, suffix@),
{
    let mut r = String::from_str(base);
    r.append("_");
    r.append(suffix);
    proof {
        reveal_strlit("_");
        assert(r@ =~= derived_url(base@, suffix@));
    }
    r
}

/// Derives a connection string for one test run: the base with a fresh
/// random 16-character alphanumeric suffix appended after an underscore.
pub fn fresh_db_url(base: &str) -> (r: String)
    ensures
        exists|suffix: Seq<char>|
            {
                &&& #[trigger] derived_url(base@, suffix) == r@
                &&& suffix.len() == 16
                &&& sql_safe_name(suffix)
            },
{
    let suffix = random_suffix(16);
    let r = test_db_url(base, suffix.as_str());
    proof {
        assert(derived_url(base@, suffix@) == r@ && suffix@.len() == 16 && sql_safe_name(suffix@));
    }
    r
}

/// The statement that provisions a test database, its name standing in
/// double quotes.
pub fn create_db_sql(db_name: &str) -> (r: String)
    requires
        sql_safe_name(db_name@),
    ensures
        r@ == "CREATE DATABASE \""@ + db_name@ + "\""@,
{
    let mut r = String::from_str("CREATE DATABASE \"");
    r.append(db_name);
    r.append("\"");
    proof {
        assert(r@ =~= "CREATE DATABASE \""@ + db_name@ + "\""@);
    }
    r
}

/// The statement that evicts every session still attached to the database,
/// except the one issuing it.
pub fn terminate_backends_sql(db_name: &str) -> (r: String)
    requires
        sql_safe_name(db_name@),
    ensures
        r@ == "SELECT pg_terminate_backend(pg_stat_activity.pid)\nFROM pg_stat_activity\nWHERE pg_stat_activity.datname = '"@
            + db_name@ + "'\nAND pid <> pg_backend_pid();"@,
{
    let mut r = String::from_str(
        "SELECT pg_terminate_backend(pg_stat_activity.pid)\nFROM pg_stat_activity\nWHERE pg_stat_activity.datname = '",
    );
    r.append(db_name);
    r.append("'\nAND pid <> pg_backend_pid();");
    proof {
        assert(r@ =~= "SELECT pg_terminate_backend(pg_stat_activity.pid)\nFROM pg_stat_activity\nWHERE pg_stat_activity.datname = '"@
            + db_name@ + "'\nAND pid <> pg_backend_pid();"@);
    }
    r
}

/// The statement that drops a test database, its name standing in double
/// quotes.
pub fn drop_db_sql(db_name: &str) -> (r: String)
    requires
        sql_safe_name(db_name@),
    ensures
        r@ == "DROP DATABASE \""@ + db_name@ + "\";"@,
{
    let mut r = String::from_str("DROP DATABASE \"");
    r.append(db_name);
    r.append("\";");
    proof {
        assert(r@ =~= "DROP DATABASE \""@ + db_name@ + "\";"@);
    }
    r
}

/// The teardown plan for one test database: first evict its sessions, then
/// drop it, in that order and nothing else.
pub fn teardown_sql(db_name: &str) -> (r: Vec<String>)
    requires
        sql_safe_name(db_name@),
    ensures
        r@.len() == 2,
        r@[0]@ == "SELECT pg_terminate_backend(pg_stat_activity.pid)\nFROM pg_stat_activity\nWHERE pg_stat_activity.datname = '"@
            + db_name@ + "'\nAND pid <> pg_backend_pid();"@,
        r@[1]@ == "DROP DATABASE \""@ + db_name@ + "\";"@,
{
    let mut r: Vec<String> = Vec::new();
    r.push(terminate_backends_sql(db_name));
    r.push(drop_db_sql(db_name));
    r
}

/// The statement that establishes the schema on a fresh database: the
/// `users` table with its identifier and username columns.
pub fn bootstrap_sql() -> (r: &'static str)
    ensures
        r@ == "CREATE TABLE users (id UUID PRIMARY KEY, username TEXT NOT NULL)"@,
{
    "CREATE TABLE users (id UUID PRIMARY KEY, username TEXT NOT NULL)"
}

/// Distinct suffixes of one length derive distinct connection strings: two
/// test runs never share a database.
pub proof fn lemma_distinct_suffixes(base: Seq<char>, s1: Seq<char>, s2: Seq<char>)
    requires
        s1.len() == s2.len(),
        s1 != s2,
    ensures
        derived_url(base, s1) != derived_url(base, s2),
{
    if derived_url(base, s1) == derived_url(base, s2) {
        assert forall|i: int| 0 <= i < s1.len() implies s1[i] == s2[i] by {
            assert(derived_url(base, s1)[base.len() + 1 + i] == s1[i]);
            assert(derived_url(base, s2)[base.len() + 1 + i] == s2[i]);
        }
        assert(s1 =~= s2);
    }
}

/// A derived connection string still splits at the base's last slash: the
/// server part is the base's, and the database name is the base's last
/// segment with the underscore and suffix appended. The harness therefore
/// manages exactly the database it derived, against the right server.
pub proof fn lemma_derived_url_parses(base: Seq<char>, suffix: Seq<char>)
    requires
        sql_safe_name(suffix),
        last_index_of(base, '/') >= 0,
    ensures
        last_index_of(derived_url(base, suffix), '/') == last_index_of(base, '/'),
        derived_url(base, suffix).subrange(0, last_index_of(base, '/') + 1) == base.subrange(
            0,
            last_index_of(base, '/') + 1,
        ),
        derived_url(base, suffix).subrange(
            last_index_of(base, '/') + 1,
            derived_url(base, suffix).len() as int,
        ) == base.subrange(last_index_of(base, '/') + 1, base.len() as int) + seq!['_'] + suffix,
{
    let tail = seq!['_'] + suffix;
    assert forall|j: int| 0 <= j < tail.len() implies tail[j] != '/' by {
        if j > 0 {
            assert(tail[j] == suffix[j - 1]);
        }
    }
    assert(derived_url(base, suffix) =~= base + tail);
    lemma_last_index_of_append(base, tail, '/');
    lemma_last_index_of_props(base, '/');
    let p = last_index_of(base, '/');
    assert(derived_url(base, suffix).subrange(0, p + 1) =~= base.subrange(0, p + 1));
    assert(derived_url(base, suffix).subrange(p + 1, derived_url(base, suffix).len() as int)
        =~= base.subrange(p + 1, base.len() as int) + seq!['_'] + suffix);
}

} // verus!
