//! Validated identifier tokens and database addresses.

use vstd::prelude::*;
use vstd::string::StringExecFns;

verus! {


/// A token is ASCII, 1 to 32 characters, leading character alphabetic and the
/// rest alphanumeric.
pub open spec fn spec_valid_token(s: Seq<char>) -> bool {
    &&& 1 <= s.len() <= 32
    &&& spec_is_alpha(s[0])
    &&& forall|i: int| 1 <= i < s.len() ==> spec_is_alphanumeric(#[trigger] s[i])
}

/// ASCII `A`-`Z` or `a`-`z`.
pub open spec fn spec_is_alpha(c: char) -> bool {
    ('A' <= c && c <= 'Z') || ('a' <= c && c <= 'z')
}

/// ASCII alphabetic or `0`-`9`.
pub open spec fn spec_is_alphanumeric(c: char) -> bool {
    spec_is_alpha(c) || ('0' <= c && c <= '9')
}

/// Decides whether `raw` may serve as a project or database identifier.
pub fn is_valid_token(raw: &str) -> (r: bool)
    ensures
        r == spec_valid_token(raw@),
{
    let n = raw.unicode_len();
    if n < 1 || n > 32 {
        return false;
    }
    let first = raw.get_char(0);
    if !is_alpha(first) {
        return false;
    }
    let mut i: usize = 1;
    while i < n
        invariant
            1 <= i <= n,
            n == raw@.len(),
            forall|j: int| 1 <= j < i ==> spec_is_alphanumeric(#[trigger] raw@[j]),
        decreases n - i,
    {
        if !is_alphanumeric(raw.get_char(i)) {
            return false;
        }
        i = i + 1;
    }
    true
}

fn is_alpha(c: char) -> (r: bool)
    ensures
        r == spec_is_alpha(c),
{
    ('A' <= c && c <= 'Z') || ('a' <= c && c <= 'z')
}

fn is_alphanumeric(c: char) -> (r: bool)
    ensures
        r == spec_is_alphanumeric(c),
{
    is_alpha(c) || ('0' <= c && c <= '9')
}

/// A validated project identifier. A value of this type always satisfies the
/// token grammar; the only way to make one from an untrusted string is
/// [`ProjectId::new`], which runs the validator.
#[derive(Debug, Clone, PartialEq, Eq, Hash)]
pub struct ProjectId(String);

impl View for ProjectId {
    type V = Seq<char>;

    closed spec fn view(&self) -> Seq<char> {
        self.0@
    }
}

impl ProjectId {
    /// Well-formedness: the wrapped string satisfies the token grammar.
    /// The constructor establishes it, and the type is immutable.
    pub open spec fn wf(self) -> bool {
        spec_valid_token(self@)
    }

    /// Validates `s` and wraps it; rejects exactly the strings the token
    /// grammar rejects.
    pub fn new(s: &str) -> (r: Option<ProjectId>)
        ensures
            r is Some <==> spec_valid_token(s@),
            r matches Some(p) ==> p@ == s@ && p.wf(),
    {
        if is_valid_token(s) {
            Some(ProjectId(s.to_owned()))
        } else {
            None
        }
    }

    pub fn as_str(&self) -> (r: &str)
        ensures
            r@ == self@,
    {
        self.0.as_str()
    }
}

/// A validated database identifier; the same grammar as [`ProjectId`].
#[derive(Debug, Clone, PartialEq, Eq, Hash)]
pub struct DatabaseId(String);

impl View for DatabaseId {
    type V = Seq<char>;

    closed spec fn view(&self) -> Seq<char> {
        self.0@
    }
}

impl DatabaseId {
    /// Well-formedness: the wrapped string satisfies the token grammar.
    /// The constructor establishes it, and the type is immutable.
    pub open spec fn wf(self) -> bool {
        spec_valid_token(self@)
    }

    /// Validates `s` and wraps it; rejects exactly the strings the token
    /// grammar rejects.
    pub fn new(s: &str) -> (r: Option<DatabaseId>)
        ensures
            r is Some <==> spec_valid_token(s@),
            r matches Some(d) ==> d@ == s@ && d.wf(),
    {
        if is_valid_token(s) {
            Some(DatabaseId(s.to_owned()))
        } else {
            None
        }
    }

    pub fn as_str(&self) -> (r: &str)
        ensures
            r@ == self@,
    {
        self.0.as_str()
    }
}

/// The pair that names one isolated database.
#[derive(Debug, Clone, PartialEq, Eq, Hash)]
pub struct DatabaseAddress {
    pub project_id: ProjectId,
    pub database_id: DatabaseId,
}

impl View for DatabaseAddress {
    type V = (Seq<char>, Seq<char>);

    open spec fn view(&self) -> (Seq<char>, Seq<char>) {
        (self.project_id@, self.database_id@)
    }
}

impl DatabaseAddress {
    /// Whether two addresses name the same database.
    pub fn addr_eq(&self, other: &DatabaseAddress) -> (r: bool)
        ensures
            r == (self@ == other@),
    {
        let same = self.project_id.0 == other.project_id.0 && self.database_id.0
            == other.database_id.0;
        same
    }

    /// The deterministic filename projection of an address. The token
    /// grammar admits no path separators, so the result is a plain file
    /// name (see [`lemma_filename_has_no_separator`]).
    pub fn filename(&self) -> (r: String)
        ensures
            r@ == spec_filename(self.project_id@, self.database_id@),
    {
        let mut s = self.project_id.0.clone();
        s.append("-");
        s.append(self.database_id.0.as_str());
        s.append(".sqlite");
        proof {
            assert(s@ == spec_filename(self.project_id@, self.database_id@));
        }
        s
    }
}

/// The filename an address projects to: the two tokens joined by a dash,
/// with the database file suffix.
pub open spec fn spec_filename(p: Seq<char>, d: Seq<char>) -> Seq<char> {
    p + "-"@ + d + ".sqlite"@
}

/// No escaping is needed in the filename projection: the token grammar
/// forbids path separators, and the fixed parts carry none, so the
/// projection of valid tokens never names a directory.
pub proof fn lemma_filename_has_no_separator(p: Seq<char>, d: Seq<char>)
    requires
        spec_valid_token(p),
        spec_valid_token(d),
    ensures
        forall|i: int|
            0 <= i < spec_filename(p, d).len() ==> (#[trigger] spec_filename(p, d)[i]) != '/'
                && spec_filename(p, d)[i] != '\\',
{
    reveal_strlit("-");
    reveal_strlit(".sqlite");
    let s = spec_filename(p, d);
    assert forall|i: int| 0 <= i < s.len() implies s[i] != '/' && s[i] != '\\' by {
        if i < p.len() {
            assert(s[i] == p[i]);
            if i == 0 {
                assert(spec_is_alpha(p[0]));
            } else {
                assert(spec_is_alphanumeric(p[i]));
            }
        } else if i == p.len() {
            assert(s[i] == '-');
        } else if i < p.len() + 1 + d.len() {
            let j = i - p.len() - 1;
            assert(s[i] == d[j]);
            if j == 0 {
                assert(spec_is_alpha(d[0]));
            } else {
                assert(spec_is_alphanumeric(d[j]));
            }
        } else {
            let j = i - p.len() - 1 - d.len();
            assert(s[i] == ".sqlite"@[j]);
        }
    }
}

/// Whether a bearer credential is the fixed administrative token that
/// guards the raw and policy routes.
pub fn is_admin_token(token: &str) -> (r: bool)
    ensures
        r == (token@ == "admin"@),
{
    let t = token.to_owned();
    let expected: String = "admin".to_owned();
    t == expected
}

/// Validates two path segments into a database address: the request is
/// rejected before any routing when either token is invalid.
pub fn parse_address(project: &str, database: &str) -> (r: Option<DatabaseAddress>)
    ensures
        r is Some <==> spec_valid_token(project@) && spec_valid_token(database@),
        r matches Some(a) ==> a.project_id@ == project@ && a.database_id@ == database@
            && a.project_id.wf() && a.database_id.wf(),
{
    match (ProjectId::new(project), DatabaseId::new(database)) {
        (Some(p), Some(d)) => Some(
            DatabaseAddress { project_id: p, database_id: d },
        ),
        _ => None,
    }
}

} // verus!
