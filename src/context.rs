use vstd::prelude::*;
use vstd::string::{StrSliceExecFns, StringExecFns};

use crate::error::Error;

verus! {

#[verifier::external_type_specification]
#[verifier::external_body]
pub struct ExContext(tera::Context);

/// What `char::is_alphanumeric` answers for a character outside ASCII.
pub uninterp spec fn alphanumeric(c: char) -> bool;

/// An ASCII letter or digit.
pub open spec fn ascii_alphanumeric(c: char) -> bool {
    ('a' <= c && c <= 'z') || ('A' <= c && c <= 'Z') || ('0' <= c && c <= '9')
}

/// A letter or a digit: within ASCII the letters and digits, elsewhere what
/// Unicode's alphabetic and numeric properties say.
pub open spec fn letter_or_digit(c: char) -> bool {
    if (c as u32) < 128 {
        ascii_alphanumeric(c)
    } else {
        alphanumeric(c)
    }
}

/// The string-valued entries of a tera context, by key.
pub uninterp spec fn text_entries(c: tera::Context) -> Map<Seq<char>, Seq<char>>;

/// The keys of a tera context, whatever their values.
pub uninterp spec fn context_keys(c: tera::Context) -> Set<Seq<char>>;

/// Relies on char::is_alphanumeric: whether the character is alphabetic or numeric.
/// Within ASCII those are exactly the letters and the digits.
#[verifier::external_body]
fn is_alphanumeric(c: char) -> (r: bool)
    ensures
        (c as u32) < 128 ==> r == ascii_alphanumeric(c),
        (c as u32) >= 128 ==> r == alphanumeric(c),
{
    c.is_alphanumeric()
}

/// An ASCII digit.
pub open spec fn is_digit(c: char) -> bool {
    '0' <= c && c <= '9'
}

/// A UTC timestamp written `YYYY-MM-DDTHH:MM:SSZ`: a year of at least four digits,
/// signed beyond 9999, then a dash, two-digit month and day, `T`, two-digit hour,
/// minute and second separated by colons, and `Z`.
pub open spec fn utc_timestamp_shape(s: Seq<char>) -> bool {
    let k = s.len() - 16;
    &&& s.len() >= 20
    &&& forall|i: int| 0 <= i < k ==> (is_digit(#[trigger] s[i]) || (i == 0 && s[i] == '+'))
    &&& s[k] == '-' && is_digit(s[k + 1]) && is_digit(s[k + 2])
    &&& s[k + 3] == '-' && is_digit(s[k + 4]) && is_digit(s[k + 5])
    &&& s[k + 6] == 'T' && is_digit(s[k + 7]) && is_digit(s[k + 8])
    &&& s[k + 9] == ':' && is_digit(s[k + 10]) && is_digit(s[k + 11])
    &&& s[k + 12] == ':' && is_digit(s[k + 13]) && is_digit(s[k + 14])
    &&& s[k + 15] == 'Z'
}

/// Relies on chrono's Utc::now and its `format` with `%Y-%m-%dT%H:%M:%SZ`: the
/// current UTC time. Each field is zero-padded to its width; the year has at least
/// four digits and a sign after 9999 (`Utc::now` is never before 1970).
#[verifier::external_body]
fn utc_timestamp() -> (r: String)
    ensures
        utc_timestamp_shape(r@),
{
    chrono::Utc::now().format("%Y-%m-%dT%H:%M:%SZ").to_string()
}

/// The entries of a context that holds nothing.
pub open spec fn no_entries() -> Map<Seq<char>, Seq<char>> {
    Map::empty()
}

/// The keys of a context that holds nothing.
pub open spec fn no_keys() -> Set<Seq<char>> {
    Set::empty()
}

/// Relies on tera::Context::new: a context without entries.
#[verifier::external_body]
fn empty_context() -> (r: tera::Context)
    ensures
        text_entries(r) == no_entries(),
        context_keys(r) == no_keys(),
{
    tera::Context::new()
}

/// Relies on tera::Context::insert: the key now holds the string, whatever it held before.
#[verifier::external_body]
fn insert_text(c: &mut tera::Context, key: &str, value: &str)
    ensures
        text_entries(*final(c)) == text_entries(*old(c)).insert(key@, value@),
        context_keys(*final(c)) == context_keys(*old(c)).insert(key@),
{
    c.insert(key, value)
}

/// The separator between namespace and name in a project identifier.
pub const SEPARATOR: char = '/';

/// The user recorded when none is given.
pub open spec fn default_username() -> Seq<char> {
    "example"@
}

/// The vendor recorded when none is given.
pub open spec fn default_vendor() -> Seq<char> {
    "Example Corp"@
}

/// The version every new project starts at.
pub open spec fn initial_version() -> Seq<char> {
    "0.1.0"@
}

/// The revision marker of a new project.
pub open spec fn initial_revision() -> Seq<char> {
    "HEAD"@
}

/// A character that may appear in a namespace or a name.
pub open spec fn allowed_char(c: char) -> bool {
    letter_or_digit(c) || c == '-' || c == '_'
}

/// A non-empty namespace or name made of allowed characters only.
pub open spec fn valid_segment(s: Seq<char>) -> bool {
    s.len() > 0 && forall|i: int| 0 <= i < s.len() ==> #[trigger] allowed_char(s[i])
}

/// `k` is the position of the one and only separator in `p`.
pub open spec fn sole_separator_at(p: Seq<char>, k: int) -> bool {
    &&& 0 <= k < p.len()
    &&& p[k] == SEPARATOR
    &&& forall|j: int| 0 <= j < p.len() && j != k ==> p[j] != SEPARATOR
}

/// The identifier has exactly one separator.
pub open spec fn has_sole_separator(p: Seq<char>) -> bool {
    exists|k: int| sole_separator_at(p, k)
}

/// The position of the separator of an identifier that has exactly one.
pub open spec fn separator_index(p: Seq<char>) -> int
    recommends
        has_sole_separator(p),
{
    choose|k: int| sole_separator_at(p, k)
}

/// The part before the separator.
pub open spec fn namespace_of(p: Seq<char>) -> Seq<char> {
    p.take(separator_index(p))
}

/// The part after the separator.
pub open spec fn name_of(p: Seq<char>) -> Seq<char> {
    p.skip(separator_index(p) + 1)
}

/// A project identifier `namespace/name` with one separator and two valid segments.
pub open spec fn valid_project(p: Seq<char>) -> bool {
    &&& has_sole_separator(p)
    &&& valid_segment(namespace_of(p))
    &&& valid_segment(name_of(p))
}

/// The substitution variables of one project.
#[derive(Debug, Clone)]
pub struct TemplateContext {
    pub repo_username: String,
    pub repo_namespace: String,
    pub image_name: String,
    pub vendor: String,
    pub version: String,
    pub build_date: String,
    pub vcs_ref: String,
}

/// The variables a rendered template can refer to, with their values.
pub open spec fn variables_of(c: TemplateContext) -> Map<Seq<char>, Seq<char>> {
    map![
        "repo_username"@ => c.repo_username@,
        "repo_namespace"@ => c.repo_namespace@,
        "image_name"@ => c.image_name@,
        "vendor"@ => c.vendor@,
        "build_date"@ => c.build_date@,
        "version"@ => c.version@,
        "vcs_ref"@ => c.vcs_ref@
    ]
}

/// The value given, or the default when none is.
pub open spec fn or_default(v: Option<String>, default: Seq<char>) -> Seq<char> {
    match v {
        Some(s) => s@,
        None => default,
    }
}

/// The context built for a valid identifier, the overrides and a build date.
pub open spec fn context_for(
    p: Seq<char>,
    username: Option<String>,
    vendor: Option<String>,
    build_date: Seq<char>,
    c: TemplateContext,
) -> bool {
    &&& c.repo_namespace@ == namespace_of(p)
    &&& c.image_name@ == name_of(p)
    &&& c.repo_username@ == or_default(username, default_username())
    &&& c.vendor@ == or_default(vendor, default_vendor())
    &&& c.version@ == initial_version()
    &&& c.build_date@ == build_date
    &&& c.vcs_ref@ == initial_revision()
}

/// Whether every character of `s` is allowed, and `s` is not empty.
fn check_segment(s: &Vec<char>) -> (r: bool)
    ensures
        r == valid_segment(s@),
{
    if s.len() == 0 {
        return false;
    }
    let mut i: usize = 0;
    while i < s.len()
        invariant
            0 <= i <= s.len(),
            forall|j: int| 0 <= j < i ==> #[trigger] allowed_char(s@[j]),
        decreases s.len() - i,
    {
        let c = s[i];
        if !(is_alphanumeric(c) || c == '-' || c == '_') {
            assert(!allowed_char(s@[i as int]));
            return false;
        }
        i += 1;
    }
    true
}

/// The characters of `s` from `from` up to `to`, collected as a `String`.
fn string_of(s: &Vec<char>, from: usize, to: usize) -> (r: String)
    requires
        from <= to <= s.len(),
    ensures
        r@ == s@.subrange(from as int, to as int),
{
    let mut r = String::new();
    let mut i: usize = from;
    while i < to
        invariant
            from <= i <= to <= s.len(),
            r@ == s@.subrange(from as int, i as int),
        decreases to - i,
    {
        push_char(&mut r, s[i]);
        assert(r@ =~= s@.subrange(from as int, i + 1));
        i += 1;
    }
    r
}

/// Relies on String::push: the character is appended.
#[verifier::external_body]
fn push_char(s: &mut String, c: char)
    ensures
        final(s)@ == old(s)@.push(c),
{
    s.push(c)
}

/// The characters of a string slice.
pub(crate) fn chars_of(s: &str) -> (r: Vec<char>)
    ensures
        r@ == s@,
{
    let n = s.unicode_len();
    let mut r: Vec<char> = Vec::new();
    let mut i: usize = 0;
    while i < n
        invariant
            n == s@.len(),
            0 <= i <= n,
            r@ == s@.take(i as int),
        decreases n - i,
    {
        r.push(s.get_char(i));
        assert(r@ =~= s@.take(i + 1));
        i += 1;
    }
    assert(r@ =~= s@);
    r
}

impl TemplateContext {
    /// Builds the context of a project from its identifier `namespace/name`, the
    /// optional user and vendor, and the build date to record.
    pub fn with_build_date(
        project: &str,
        username: Option<String>,
        vendor: Option<String>,
        build_date: String,
    ) -> (r: Result<TemplateContext, Error>)
        ensures
            valid_project(project@) <==> r is Ok,
            r matches Ok(c) ==> context_for(project@, username, vendor, build_date@, c),
            r matches Err(e) ==> e matches Error::InvalidProjectName(m) && m@ == project@,
    {
        let p = chars_of(project);
        let n = p.len();
        let mut count: usize = 0;
        let mut at: usize = 0;
        let mut i: usize = 0;
        while i < n
            invariant
                n == p@.len(),
                p@ == project@,
                0 <= i <= n,
                count <= i,
                count == 0 ==> forall|j: int| 0 <= j < i ==> p@[j] != SEPARATOR,
                count >= 1 ==> at < i && p@[at as int] == SEPARATOR,
                count == 1 ==> forall|j: int| 0 <= j < i && j != at ==> p@[j] != SEPARATOR,
                count >= 2 ==> exists|j: int| 0 <= j < i && j != at && p@[j] == SEPARATOR,
            decreases n - i,
        {
            if p[i] == SEPARATOR {
                if count == 0 {
                    at = i;
                }
                if count < 2 {
                    count += 1;
                }
            }
            i += 1;
        }
        if count != 1 {
            proof {
                if has_sole_separator(p@) {
                    let k = choose|k: int| sole_separator_at(p@, k);
                    if count >= 2 {
                        let j = choose|j: int| 0 <= j < n && j != at && p@[j] == SEPARATOR;
                        assert(j == k);
                        assert(at as int == k);
                    } else {
                        assert(p@[k] != SEPARATOR);
                    }
                }
            }
            return Err(Error::InvalidProjectName(String::from_str(project)));
        }
        proof {
            assert(sole_separator_at(p@, at as int));
            let k = separator_index(p@);
            assert(sole_separator_at(p@, k));
            assert(k == at);
        }
        let ns = string_of(&p, 0, at);
        let nm = string_of(&p, at + 1, n);
        let ns_chars = chars_of(ns.as_str());
        let nm_chars = chars_of(nm.as_str());
        assert(ns@ =~= namespace_of(project@));
        assert(nm@ =~= name_of(project@));
        if !check_segment(&ns_chars) || !check_segment(&nm_chars) {
            return Err(Error::InvalidProjectName(String::from_str(project)));
        }
        let repo_username = match username {
            Some(u) => u,
            None => String::from_str("example"),
        };
        let vendor_name = match vendor {
            Some(v) => v,
            None => String::from_str("Example Corp"),
        };
        Ok(TemplateContext {
            repo_username,
            repo_namespace: ns,
            image_name: nm,
            vendor: vendor_name,
            version: String::from_str("0.1.0"),
            build_date,
            vcs_ref: String::from_str("HEAD"),
        })
    }

    /// The tera context holding the seven variables under their names.
    pub fn into_context(self) -> (r: tera::Context)
        ensures
            text_entries(r) == variables_of(self),
            context_keys(r) == variables_of(self).dom(),
    {
        let mut c = empty_context();
        insert_text(&mut c, "repo_username", self.repo_username.as_str());
        insert_text(&mut c, "repo_namespace", self.repo_namespace.as_str());
        insert_text(&mut c, "image_name", self.image_name.as_str());
        insert_text(&mut c, "vendor", self.vendor.as_str());
        insert_text(&mut c, "build_date", self.build_date.as_str());
        insert_text(&mut c, "version", self.version.as_str());
        insert_text(&mut c, "vcs_ref", self.vcs_ref.as_str());
        assert(text_entries(c) =~= variables_of(self));
        assert(context_keys(c) =~= variables_of(self).dom());
        c
    }

    /// Builds the context of a project from its identifier `namespace/name`, with
    /// the current UTC time as build date.
    pub fn new(project: &str, username: Option<String>, vendor: Option<String>) -> (r: Result<
        TemplateContext,
        Error,
    >)
        ensures
            valid_project(project@) <==> r is Ok,
            r matches Ok(c) ==> context_for(project@, username, vendor, c.build_date@, c),
            r matches Ok(c) ==> utc_timestamp_shape(c.build_date@),
            r matches Err(e) ==> e matches Error::InvalidProjectName(m) && m@ == project@,
    {
        let build_date = utc_timestamp();
        Self::with_build_date(project, username, vendor, build_date)
    }
}

proof fn lemma_segment_has_no_separator(s: Seq<char>)
    requires
        valid_segment(s),
    ensures
        forall|i: int| 0 <= i < s.len() ==> s[i] != SEPARATOR,
{
    assert forall|i: int| 0 <= i < s.len() implies s[i] != SEPARATOR by {
        assert(allowed_char(s[i]));
        if s[i] == SEPARATOR {
            assert(!allowed_char(SEPARATOR));
        }
    }
}

/// Any two valid segments joined by the separator form a valid identifier, which
/// splits back into exactly those segments: building a context from it succeeds
/// and records them as namespace and name.
pub proof fn lemma_valid_identifier_accepted(ns: Seq<char>, name: Seq<char>)
    requires
        valid_segment(ns),
        valid_segment(name),
    ensures
        valid_project(ns + seq![SEPARATOR] + name),
        namespace_of(ns + seq![SEPARATOR] + name) == ns,
        name_of(ns + seq![SEPARATOR] + name) == name,
{
    let p = ns + seq![SEPARATOR] + name;
    let k = ns.len() as int;
    lemma_segment_has_no_separator(ns);
    lemma_segment_has_no_separator(name);
    assert forall|j: int| 0 <= j < p.len() && j != k implies p[j] != SEPARATOR by {
        if j < k {
            assert(p[j] == ns[j]);
        } else {
            assert(p[j] == name[j - k - 1]);
        }
    }
    assert(sole_separator_at(p, k));
    let c = separator_index(p);
    assert(sole_separator_at(p, c));
    assert(c == k);
    assert(p.take(k) =~= ns);
    assert(p.skip(k + 1) =~= name);
}

/// An identifier without a separator, with two or more, or with a namespace or
/// name that holds a character other than a letter, a digit, `-` or `_`, is not
/// valid: building a context from it fails with `InvalidProjectName`.
pub proof fn lemma_malformed_identifier_rejected(p: Seq<char>)
    requires
        (forall|j: int| 0 <= j < p.len() ==> p[j] != SEPARATOR) || (exists|a: int, b: int|
            0 <= a < b < p.len() && p[a] == SEPARATOR && p[b] == SEPARATOR) || (exists|k: int, j: int|
            sole_separator_at(p, k) && 0 <= j < p.len() && j != k && !allowed_char(p[j])),
    ensures
        !valid_project(p),
{
    if valid_project(p) {
        let k = separator_index(p);
        assert(sole_separator_at(p, k));
        if exists|a: int, b: int| 0 <= a < b < p.len() && p[a] == SEPARATOR && p[b] == SEPARATOR {
            let (a, b) = choose|a: int, b: int|
                0 <= a < b < p.len() && p[a] == SEPARATOR && p[b] == SEPARATOR;
            assert(a == k && b == k);
        } else if exists|k2: int, j: int|
            sole_separator_at(p, k2) && 0 <= j < p.len() && j != k2 && !allowed_char(p[j]) {
            let (k2, j) = choose|k2: int, j: int|
                sole_separator_at(p, k2) && 0 <= j < p.len() && j != k2 && !allowed_char(p[j]);
            assert(k2 == k);
            if j < k {
                assert(namespace_of(p)[j] == p[j]);
            } else {
                assert(name_of(p)[j - k - 1] == p[j]);
            }
        } else {
            assert(p[k] == SEPARATOR);
        }
    }
}

} // verus!
