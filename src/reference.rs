//! Classification of the references a user attaches to a prompt.
use path_absolutize::Absolutize;
use vstd::prelude::*;

verus! {

/// The token that asks for the previous reply to be reused as input.
pub open spec fn sentinel_token() -> Seq<char> {
    seq!['%', '%']
}

pub open spec fn is_ascii_alpha(c: char) -> bool {
    ('a' <= c && c <= 'z') || ('A' <= c && c <= 'Z')
}

pub open spec fn is_ascii_digit(c: char) -> bool {
    '0' <= c && c <= '9'
}

/// A character allowed after the first one of a URL scheme.
pub open spec fn is_scheme_char(c: char) -> bool {
    is_ascii_alpha(c) || is_ascii_digit(c) || c == '+' || c == '-' || c == '.'
}

/// A character that ends the authority part of a URL.
pub open spec fn ends_authority(c: char) -> bool {
    c == '/' || c == '?' || c == '#'
}

/// `s[0..i]` is a URL scheme: a letter, then letters, digits, `+`, `-` or `.`.
pub open spec fn scheme_before(s: Seq<char>, i: int) -> bool {
    1 <= i <= s.len() && is_ascii_alpha(s[0]) && forall|j: int| 1 <= j < i ==> is_scheme_char(#[trigger] s[j])
}

/// `s` is `<scheme>://<authority>...` with a non-empty authority.
pub open spec fn is_url(s: Seq<char>) -> bool {
    exists|i: int|
        #![trigger scheme_before(s, i)]
        scheme_before(s, i) && i + 3 < s.len() && s[i] == ':' && s[i + 1] == '/' && s[i + 2] == '/'
            && !ends_authority(s[i + 3])
}

/// The class of a reference, over plain sequences of characters.
pub enum RefClass {
    Sentinel,
    Command(Seq<char>),
    Local(Seq<char>),
    Remote(Seq<char>),
}

/// A reference string, classified.
#[derive(Debug, Clone)]
pub enum Reference {
    /// `%%`: reuse the previous reply.
    Sentinel,
    /// `` `cmd` ``: run `cmd` and use its output; holds the text between the backticks.
    ShellCommand(String),
    /// A local path or glob pattern, with a leading `~/` expanded.
    LocalPath(String),
    /// A remote URL.
    RemoteUrl(String),
}

impl View for Reference {
    type V = RefClass;

    open spec fn view(&self) -> RefClass {
        match self {
            Reference::Sentinel => RefClass::Sentinel,
            Reference::ShellCommand(c) => RefClass::Command(c@),
            Reference::LocalPath(p) => RefClass::Local(p@),
            Reference::RemoteUrl(u) => RefClass::Remote(u@),
        }
    }
}

pub open spec fn is_command_ref(s: Seq<char>) -> bool {
    s.len() > 2 && s[0] == '`' && s[s.len() - 1] == '`'
}

pub open spec fn starts_with_home(s: Seq<char>) -> bool {
    s.len() >= 2 && s[0] == '~' && s[1] == '/'
}

/// What `Path::join` gives for a base directory and a relative part.
pub uninterp spec fn joined_path_of(base: Seq<char>, rest: Seq<char>) -> Seq<char>;

/// A local path with a leading `~/` resolved against the home directory, if one is known.
pub open spec fn expand_home(s: Seq<char>, home: Option<Seq<char>>) -> Seq<char> {
    if starts_with_home(s) && home is Some {
        joined_path_of(home->Some_0, s.subrange(2, s.len() as int))
    } else {
        s
    }
}

/// Classification rules, applied in order: URL, sentinel, shell command, local path.
pub open spec fn classify_spec(s: Seq<char>, home: Option<Seq<char>>) -> RefClass {
    if is_url(s) {
        RefClass::Remote(s)
    } else if s == sentinel_token() {
        RefClass::Sentinel
    } else if is_command_ref(s) {
        RefClass::Command(s.subrange(1, s.len() - 1))
    } else {
        RefClass::Local(expand_home(s, home))
    }
}

/// Relies on `std::path::Path::join`: the result depends on the two paths alone.
#[verifier::external_body]
fn join_path(base: &str, rest: &str) -> (r: String)
    ensures
        r@ == joined_path_of(base@, rest@),
{
    std::path::Path::new(base).join(rest).display().to_string()
}

/// Relies on `path_absolutize::Absolutize::absolutize`: an absolute form of a path,
/// computed against the working directory, without resolving links.
#[verifier::external_body]
pub(crate) fn absolutize_path(path: &str) -> (r: Option<String>) {
    std::path::Path::new(path).absolutize().ok().map(|p| p.display().to_string())
}

/// Whether `s` has the shape `<scheme>://<authority>...`.
pub fn is_url_str(s: &str) -> (r: bool)
    ensures
        r == is_url(s@),
{
    let n = s.unicode_len();
    if n == 0 || !is_alpha_char(s.get_char(0)) {
        proof {
            assert forall|i: int| !(#[trigger] scheme_before(s@, i)) by {}
        }
        return false;
    }
    let mut j: usize = 1;
    while j < n && is_scheme_char_exec(s.get_char(j))
        invariant
            1 <= j <= n,
            n == s@.len(),
            scheme_before(s@, j as int),
        decreases n - j,
    {
        j = j + 1;
    }
    let r = n - j > 3 && s.get_char(j) == ':' && s.get_char(j + 1) == '/' && s.get_char(j + 2) == '/'
        && !is_authority_end(s.get_char(j + 3));
    proof {
        if r {
            assert(scheme_before(s@, j as int));
        } else {
            assert forall|i: int| #[trigger] scheme_before(s@, i) && i + 3 < s@.len() && s@[i] == ':'
                implies !(s@[i + 1] == '/' && s@[i + 2] == '/' && !ends_authority(s@[i + 3])) by {
                if i < j {
                    assert(is_scheme_char(s@[i]));
                } else if i > j {
                    assert(is_scheme_char(s@[j as int]));
                }
            }
        }
    }
    r
}

fn is_alpha_char(c: char) -> (r: bool)
    ensures
        r == is_ascii_alpha(c),
{
    ('a' <= c && c <= 'z') || ('A' <= c && c <= 'Z')
}

fn is_scheme_char_exec(c: char) -> (r: bool)
    ensures
        r == is_scheme_char(c),
{
    is_alpha_char(c) || ('0' <= c && c <= '9') || c == '+' || c == '-' || c == '.'
}

fn is_authority_end(c: char) -> (r: bool)
    ensures
        r == ends_authority(c),
{
    c == '/' || c == '?' || c == '#'
}

/// Classifies a reference; `home` is the home directory used to expand `~/`.
pub fn classify_reference(s: &str, home: &Option<String>) -> (r: Reference)
    ensures
        r@ == classify_spec(s@, match home { Some(h) => Some(h@), None => None }),
{
    let n = s.unicode_len();
    if is_url_str(s) {
        return Reference::RemoteUrl(String::from_str(s));
    }
    if n == 2 && s.get_char(0) == '%' && s.get_char(1) == '%' {
        assert(s@ =~= sentinel_token());
        return Reference::Sentinel;
    }
    proof {
        if s@ == sentinel_token() {
            assert(s@[0] == '%' && s@[1] == '%');
        }
    }
    if n > 2 && s.get_char(0) == '`' && s.get_char(n - 1) == '`' {
        return Reference::ShellCommand(String::from_str(s.substring_char(1, n - 1)));
    }
    if n >= 2 && s.get_char(0) == '~' && s.get_char(1) == '/' {
        match home {
            Some(h) => {
                let rest = s.substring_char(2, n);
                return Reference::LocalPath(join_path(h.as_str(), rest));
            },
            None => {},
        }
    }
    Reference::LocalPath(String::from_str(s))
}

/// Classification never depends on anything but the string and the home directory,
/// and a string in URL shape is always a remote reference, whatever else it looks like.
pub proof fn lemma_url_always_remote(s: Seq<char>, home: Option<Seq<char>>)
    requires
        is_url(s),
    ensures
        classify_spec(s, home) == RefClass::Remote(s),
{
}

/// Each string falls in exactly one class, decided by the first rule that applies:
/// URL, then the sentinel, then a backtick-quoted command, then a local path.
pub proof fn lemma_classification_precedence(s: Seq<char>, home: Option<Seq<char>>)
    ensures
        classify_spec(s, home) is Remote <==> is_url(s),
        classify_spec(s, home) is Sentinel <==> !is_url(s) && s == sentinel_token(),
        classify_spec(s, home) is Command <==> !is_url(s) && s != sentinel_token() && is_command_ref(s),
        classify_spec(s, home) is Local <==> !is_url(s) && s != sentinel_token() && !is_command_ref(s),
{
}

} // verus!
