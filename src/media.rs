//! Image references: extension rules, inline data payloads, and the table that
//! maps each distinct payload back to the reference it came from.
use crate::error::InputError;
use crate::text::strings_view;
use base64::Engine;
use sha2::Digest;
use vstd::prelude::*;

verus! {

pub open spec fn ascii_lower(c: char) -> char {
    if 'A' <= c && c <= 'Z' {
        ((c as u8) + 32) as char
    } else {
        c
    }
}

pub open spec fn lower_seq(s: Seq<char>) -> Seq<char> {
    s.map_values(|c: char| ascii_lower(c))
}

/// `d` is the dot that starts the extension of the path `s`: the last dot of the
/// final component, not its first character.
pub open spec fn is_ext_dot(s: Seq<char>, d: int) -> bool {
    1 <= d < s.len() && s[d] == '.' && s[d - 1] != '/' && forall|k: int|
        d < k < s.len() ==> #[trigger] s[k] != '.' && s[k] != '/'
}

/// The extension of a path, as written.
pub open spec fn extension_of(s: Seq<char>) -> Option<Seq<char>> {
    if exists|d: int| is_ext_dot(s, d) {
        let d = choose|d: int| is_ext_dot(s, d);
        Some(s.subrange(d + 1, s.len() as int))
    } else {
        None
    }
}

/// The MIME type of an image extension (already lower-cased).
pub open spec fn mime_for_ext(e: Seq<char>) -> Option<Seq<char>> {
    if e == "png"@ {
        Some("image/png"@)
    } else if e == "jpg"@ || e == "jpeg"@ {
        Some("image/jpeg"@)
    } else if e == "webp"@ {
        Some("image/webp"@)
    } else if e == "gif"@ {
        Some("image/gif"@)
    } else {
        None
    }
}

/// The MIME type of a path, decided by its extension without regard to ASCII case.
pub open spec fn mime_of_path(s: Seq<char>) -> Option<Seq<char>> {
    match extension_of(s) {
        Some(e) => mime_for_ext(lower_seq(e)),
        None => None,
    }
}

/// A path is an image when its extension is one of png, jpeg, jpg, webp, gif.
pub open spec fn is_image_path(s: Seq<char>) -> bool {
    mime_of_path(s) is Some
}

/// Standard base64 (with padding) of some bytes.
pub uninterp spec fn base64_of(b: Seq<u8>) -> Seq<char>;

/// Lower-case hex SHA-256 digest of the UTF-8 bytes of a string.
pub uninterp spec fn sha256_hex_of(s: Seq<char>) -> Seq<char>;

/// The inline payload `data:<mime>;base64,<encoding>`.
pub open spec fn data_url_spec(mime: Seq<char>, bytes: Seq<u8>) -> Seq<char> {
    "data:"@ + mime + ";base64,"@ + base64_of(bytes)
}

pub open spec fn is_data_url(s: Seq<char>) -> bool {
    s.len() >= 5 && s.subrange(0, 5) == "data:"@
}

/// Relies on `base64`'s standard engine: `encode` of the given bytes.
#[verifier::external_body]
fn base64_encode(bytes: &[u8]) -> (r: String)
    ensures
        r@ == base64_of(bytes@),
{
    base64::engine::general_purpose::STANDARD.encode(bytes)
}

/// Relies on `sha2::Sha256::digest` over the string's bytes, printed as lower-case hex.
#[verifier::external_body]
fn sha256_hex(s: &str) -> (r: String)
    ensures
        r@ == sha256_hex_of(s@),
{
    format!("{:x}", sha2::Sha256::digest(s.as_bytes()))
}

/// Start of the extension of `s` (the index after its dot), if it has one.
fn extension_start(s: &str) -> (r: Option<usize>)
    ensures
        r matches Some(i) ==> i <= s@.len() && extension_of(s@) == Some(s@.subrange(i as int, s@.len() as int)),
        r is None ==> extension_of(s@) is None,
{
    let n = s.unicode_len();
    let mut i: usize = n;
    while i > 0 && s.get_char(i - 1) != '.' && s.get_char(i - 1) != '/'
        invariant
            i <= n == s@.len(),
            forall|k: int| i <= k < n ==> #[trigger] s@[k] != '.' && s@[k] != '/',
        decreases i,
    {
        i = i - 1;
    }
    if i > 1 && s.get_char(i - 1) == '.' && s.get_char(i - 2) != '/' {
        let ghost d = (i - 1) as int;
        assert(is_ext_dot(s@, d));
        proof {
            let d2 = choose|d2: int| is_ext_dot(s@, d2);
            if d2 < d {
                assert(s@[d] != '.');
            } else if d2 > d {
                assert(s@[d2] != '.');
            }
        }
        Some(i)
    } else {
        proof {
            assert forall|d: int| !is_ext_dot(s@, d) by {
                if is_ext_dot(s@, d) {
                    if d < i as int - 1 {
                        assert(s@[i as int - 1] != '.' && s@[i as int - 1] != '/');
                    } else if d >= i {
                        assert(s@[d] != '.');
                    }
                }
            }
        }
        None
    }
}

fn lower_char(c: char) -> (r: char)
    ensures
        r == ascii_lower(c),
{
    if 'A' <= c && c <= 'Z' {
        ((c as u8) + 32) as char
    } else {
        c
    }
}

/// Whether the tail of `s` from `from` equals `lit` once ASCII letters are lower-cased.
fn tail_matches(s: &str, from: usize, lit: &str) -> (r: bool)
    requires
        from <= s@.len(),
    ensures
        r == (lower_seq(s@.subrange(from as int, s@.len() as int)) == lit@),
{
    let n = s.unicode_len();
    let m = lit.unicode_len();
    let ghost t = lower_seq(s@.subrange(from as int, s@.len() as int));
    if n - from != m {
        assert(t.len() != lit@.len());
        return false;
    }
    let mut k: usize = 0;
    while k < m
        invariant
            from + m == n == s@.len(),
            m == lit@.len(),
            t == lower_seq(s@.subrange(from as int, s@.len() as int)),
            k <= m,
            forall|j: int| 0 <= j < k ==> t[j] == lit@[j],
        decreases m - k,
    {
        if lower_char(s.get_char(from + k)) != lit.get_char(k) {
            assert(t[k as int] != lit@[k as int]);
            return false;
        }
        k = k + 1;
    }
    assert(t =~= lit@);
    true
}

/// The MIME type of a media path, from its extension.
pub fn mime_type(path: &str) -> (r: Option<&'static str>)
    ensures
        r matches Some(m) ==> mime_of_path(path@) == Some(m@),
        r is None ==> mime_of_path(path@) is None,
{
    match extension_start(path) {
        None => None,
        Some(i) => {
            if tail_matches(path, i, "png") {
                Some("image/png")
            } else if tail_matches(path, i, "jpg") || tail_matches(path, i, "jpeg") {
                Some("image/jpeg")
            } else if tail_matches(path, i, "webp") {
                Some("image/webp")
            } else if tail_matches(path, i, "gif") {
                Some("image/gif")
            } else {
                None
            }
        },
    }
}

/// Whether a path names an image, by its extension, without regard to ASCII case.
pub fn is_image(path: &str) -> (r: bool)
    ensures
        r == is_image_path(path@),
{
    mime_type(path).is_some()
}

/// Encodes the bytes read from a media path as an inline data payload.
pub fn read_media_to_data_url(path: &str, bytes: &[u8]) -> (r: Result<String, InputError>)
    ensures
        r matches Ok(u) ==> mime_of_path(path@) matches Some(m) && u@ == data_url_spec(m, bytes@),
        r matches Err(e) ==> e matches InputError::UnexpectedMediaType { path: p } && p@ == path@,
        r is Err <==> mime_of_path(path@) is None,
{
    match mime_type(path) {
        None => Err(InputError::UnexpectedMediaType { path: String::from_str(path) }),
        Some(m) => {
            let mut u = String::from_str("data:");
            u.append(m);
            u.append(";base64,");
            let enc = base64_encode(bytes);
            u.append(enc.as_str());
            Ok(u)
        },
    }
}

/// A table of `(hash, reference)` pairs, read as a map: each hash at most once.
pub open spec fn table_wf(t: Seq<(Seq<char>, Seq<char>)>) -> bool {
    forall|i: int, j: int| 0 <= i < j < t.len() ==> #[trigger] t[i].0 != #[trigger] t[j].0
}

pub open spec fn has_key(t: Seq<(Seq<char>, Seq<char>)>, k: Seq<char>) -> bool {
    exists|i: int| 0 <= i < t.len() && #[trigger] t[i].0 == k
}

/// The reference stored under hash `k`, if any.
pub open spec fn lookup(t: Seq<(Seq<char>, Seq<char>)>, k: Seq<char>) -> Option<Seq<char>> {
    if has_key(t, k) {
        let i = choose|i: int| 0 <= i < t.len() && #[trigger] t[i].0 == k;
        Some(t[i].1)
    } else {
        None
    }
}

pub open spec fn table_view(t: Vec<(String, String)>) -> Seq<(Seq<char>, Seq<char>)> {
    t@.map_values(|e: (String, String)| (e.0@, e.1@))
}

/// The table after a payload from `reference` was seen: the first reference wins.
pub open spec fn table_insert(t: Seq<(Seq<char>, Seq<char>)>, data_url: Seq<char>, reference: Seq<char>) -> Seq<(Seq<char>, Seq<char>)> {
    if has_key(t, sha256_hex_of(data_url)) {
        t
    } else {
        t.push((sha256_hex_of(data_url), reference))
    }
}

/// What a payload is shown as: its reference where the table knows it, else itself.
pub open spec fn resolve_spec(t: Seq<(Seq<char>, Seq<char>)>, data_url: Seq<char>) -> Seq<char> {
    if is_data_url(data_url) && lookup(t, sha256_hex_of(data_url)) is Some {
        lookup(t, sha256_hex_of(data_url))->Some_0
    } else {
        data_url
    }
}

/// The media of an input: every payload in reference order, and the table that
/// maps each distinct payload's hash back to a reference.
#[derive(Debug, Clone)]
pub struct Medias {
    medias: Vec<String>,
    data_urls: Vec<(String, String)>,
}

pub struct MediasView {
    pub medias: Seq<Seq<char>>,
    pub table: Seq<(Seq<char>, Seq<char>)>,
}

impl View for Medias {
    type V = MediasView;

    closed spec fn view(&self) -> MediasView {
        MediasView {
            medias: self.medias@.map_values(|m: String| m@),
            table: table_view(self.data_urls),
        }
    }
}

/// Each hash in the table is that of some payload, and each payload's hash is
/// in the table, once.
pub open spec fn medias_wf(ms: Seq<Seq<char>>, t: Seq<(Seq<char>, Seq<char>)>) -> bool {
    &&& table_wf(t)
    &&& forall|i: int| 0 <= i < t.len() ==> exists|j: int| 0 <= j < ms.len() && sha256_hex_of(#[trigger] ms[j]) == (#[trigger] t[i]).0
    &&& forall|j: int| 0 <= j < ms.len() ==> has_key(t, sha256_hex_of(#[trigger] ms[j]))
}

pub open spec fn medias_added(m: MediasView, reference: Seq<char>, data_url: Seq<char>) -> MediasView {
    MediasView {
        medias: m.medias.push(data_url),
        table: table_insert(m.table, data_url, reference),
    }
}

/// Position of hash `k` in the table.
fn find_hash(t: &Vec<(String, String)>, k: &String) -> (r: Option<usize>)
    ensures
        r matches Some(i) ==> i < t@.len() && table_view(*t)[i as int].0 == k@,
        r is None ==> !has_key(table_view(*t), k@),
{
    let mut i: usize = 0;
    while i < t.len()
        invariant
            i <= t@.len(),
            forall|j: int| 0 <= j < i ==> #[trigger] table_view(*t)[j].0 != k@,
        decreases t@.len() - i,
    {
        if t[i].0 == *k {
            return Some(i);
        }
        i = i + 1;
    }
    None
}

proof fn lemma_lookup_at(t: Seq<(Seq<char>, Seq<char>)>, i: int)
    requires
        table_wf(t),
        0 <= i < t.len(),
    ensures
        lookup(t, t[i].0) == Some(t[i].1),
{
    assert(has_key(t, t[i].0));
    let j = choose|j: int| 0 <= j < t.len() && #[trigger] t[j].0 == t[i].0;
    if j != i {
        if j < i {
            assert(t[j].0 != t[i].0);
        } else {
            assert(t[i].0 != t[j].0);
        }
    }
}

impl Medias {
    pub open spec fn wf(&self) -> bool {
        medias_wf(self@.medias, self@.table)
    }

    /// The payloads, in the order their references were given.
    pub fn medias(&self) -> (r: &Vec<String>)
        ensures
            strings_view(r@) == self@.medias,
    {
        &self.medias
    }

    /// The `(hash, reference)` table.
    pub fn data_urls(&self) -> (r: &Vec<(String, String)>)
        ensures
            table_view(*r) == self@.table,
    {
        &self.data_urls
    }

    pub fn new() -> (r: Medias)
        ensures
            r.wf(),
            r@.medias.len() == 0,
            r@.table.len() == 0,
    {
        Medias { medias: Vec::new(), data_urls: Vec::new() }
    }

    /// Appends a payload loaded from `reference`; the table keeps the first
    /// reference seen for each distinct payload.
    pub fn add(&mut self, reference: String, data_url: String)
        requires
            old(self).wf(),
        ensures
            final(self).wf(),
            final(self)@ == medias_added(old(self)@, reference@, data_url@),
    {
        let hash = sha256_hex(data_url.as_str());
        let ghost t0 = table_view(self.data_urls);
        let ghost m0 = self@.medias;
        let ghost k = sha256_hex_of(data_url@);
        match find_hash(&self.data_urls, &hash) {
            Some(i) => {
                assert(has_key(t0, hash@));
            },
            None => {
                self.data_urls.push((hash, reference));
                assert(table_view(self.data_urls) =~= t0.push((sha256_hex_of(data_url@), reference@)));
            },
        }
        self.medias.push(data_url);
        assert(self@.medias =~= old(self)@.medias.push(data_url@));
        proof {
            let t1 = self@.table;
            let m1 = self@.medias;
            assert(m1[m0.len() as int] == data_url@);
            if !has_key(t0, k) {
                assert(t1[t0.len() as int].0 == k);
                assert forall|i: int, j: int| 0 <= i < j < t1.len() implies #[trigger] t1[i].0 != #[trigger] t1[j].0 by {
                    if j == t0.len() {
                        assert(t0[i].0 == t1[i].0);
                    }
                }
            }
            assert forall|i: int| 0 <= i < t1.len() implies exists|j: int| 0 <= j < m1.len() && sha256_hex_of(#[trigger] m1[j]) == (#[trigger] t1[i]).0 by {
                if i < t0.len() {
                    assert(t1[i] == t0[i]);
                    let j = choose|j: int| 0 <= j < m0.len() && sha256_hex_of(#[trigger] m0[j]) == t0[i].0;
                    assert(m1[j] == m0[j]);
                } else {
                    assert(sha256_hex_of(m1[m0.len() as int]) == t1[i].0);
                }
            }
            assert forall|j: int| 0 <= j < m1.len() implies has_key(t1, sha256_hex_of(#[trigger] m1[j])) by {
                if j < m0.len() {
                    assert(m1[j] == m0[j]);
                    assert(has_key(t0, sha256_hex_of(m0[j])));
                    let i = choose|i: int| 0 <= i < t0.len() && #[trigger] t0[i].0 == sha256_hex_of(m0[j]);
                    assert(t1[i] == t0[i]);
                } else {
                    if has_key(t0, k) {
                        let i = choose|i: int| 0 <= i < t0.len() && #[trigger] t0[i].0 == k;
                        assert(t1[i] == t0[i]);
                    } else {
                        assert(t1[t0.len() as int].0 == k);
                    }
                }
            }
        }
    }
}

/// What a payload is shown as: the reference it was loaded from where the table
/// knows its hash, else the payload itself.
pub fn resolve_data_url(data_urls: &Vec<(String, String)>, data_url: String) -> (r: String)
    requires
        table_wf(table_view(*data_urls)),
    ensures
        r@ == resolve_spec(table_view(*data_urls), data_url@),
{
    let n = data_url.as_str().unicode_len();
    let u = data_url.as_str();
    proof {
        reveal_strlit("data:");
    }
    if n >= 5 && u.get_char(0) == 'd' && u.get_char(1) == 'a' && u.get_char(2) == 't' && u.get_char(3) == 'a'
        && u.get_char(4) == ':' {
        assert(data_url@.subrange(0, 5) =~= "data:"@);
        let hash = sha256_hex(data_url.as_str());
        match find_hash(data_urls, &hash) {
            Some(i) => {
                proof {
                    lemma_lookup_at(table_view(*data_urls), i as int);
                }
                return data_urls[i].1.clone();
            },
            None => {},
        }
    } else {
        proof {
            if is_data_url(data_url@) {
                assert(data_url@.subrange(0, 5)[0] == 'd');
                assert(data_url@.subrange(0, 5)[1] == 'a');
                assert(data_url@.subrange(0, 5)[2] == 't');
                assert(data_url@.subrange(0, 5)[3] == 'a');
                assert(data_url@.subrange(0, 5)[4] == ':');
            }
        }
    }
    data_url
}

/// Two references whose payloads are identical leave one table entry for that
/// payload, while both payloads are kept, equal, in the media sequence.
pub proof fn lemma_identical_payloads_dedup(m: MediasView, r1: Seq<char>, r2: Seq<char>, d: Seq<char>)
    requires
        table_wf(m.table),
    ensures
        ({
            let m2 = medias_added(medias_added(m, r1, d), r2, d);
            &&& m2.medias == m.medias.push(d).push(d)
            &&& m2.table == table_insert(m.table, d, r1)
            &&& has_key(m2.table, sha256_hex_of(d))
            &&& table_wf(m2.table)
            &&& forall|i: int, j: int|
                0 <= i < m2.table.len() && 0 <= j < m2.table.len() && m2.table[i].0 == sha256_hex_of(d)
                    && m2.table[j].0 == sha256_hex_of(d) ==> i == j
        }),
{
    let t1 = table_insert(m.table, d, r1);
    let k = sha256_hex_of(d);
    if !has_key(m.table, k) {
        assert(t1[m.table.len() as int].0 == k);
        assert forall|i: int, j: int| 0 <= i < j < t1.len() implies #[trigger] t1[i].0 != #[trigger] t1[j].0 by {
            if j == m.table.len() {
                assert(m.table[i].0 == t1[i].0);
            }
        }
    }
    assert(has_key(t1, k));
}

} // verus!
