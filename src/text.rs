//! Text helpers: trimming, control-character cleanup, joining, and the
//! width-bounded one-line summary.
use unicode_width::UnicodeWidthStr;
use vstd::prelude::*;

verus! {

/// Visual width budget of a summary, in columns.
pub const SUMMARY_MAX_WIDTH: usize = 80;

/// Unicode `White_Space`, the set `char::is_whitespace` documents.
pub open spec fn is_white_space(c: char) -> bool {
    let u = c as u32;
    (0x09 <= u <= 0x0D) || u == 0x20 || u == 0x85 || u == 0xA0 || u == 0x1680 || (0x2000 <= u
        <= 0x200A) || u == 0x2028 || u == 0x2029 || u == 0x202F || u == 0x205F || u == 0x3000
}

/// General category `Cc`, the set `char::is_control` documents.
pub open spec fn is_control_char(c: char) -> bool {
    let u = c as u32;
    u < 0x20 || (0x7F <= u && u < 0xA0)
}

pub open spec fn trim_start_spec(s: Seq<char>) -> Seq<char>
    decreases s.len(),
{
    if s.len() > 0 && is_white_space(s[0]) {
        trim_start_spec(s.drop_first())
    } else {
        s
    }
}

pub open spec fn trim_end_spec(s: Seq<char>) -> Seq<char>
    decreases s.len(),
{
    if s.len() > 0 && is_white_space(s.last()) {
        trim_end_spec(s.drop_last())
    } else {
        s
    }
}

pub open spec fn trim_spec(s: Seq<char>) -> Seq<char> {
    trim_end_spec(trim_start_spec(s))
}

pub open spec fn control_to_space(c: char) -> char {
    if is_control_char(c) {
        ' '
    } else {
        c
    }
}

/// The text a summary starts from: trimmed, each control character made a space.
pub open spec fn clean_spec(s: Seq<char>) -> Seq<char> {
    trim_spec(s).map_values(|c: char| control_to_space(c))
}

/// Display width of a string in CJK context, as `UnicodeWidthStr::width_cjk` gives it.
pub uninterp spec fn str_width_cjk_of(s: Seq<char>) -> usize;

pub open spec fn ellipsis() -> Seq<char> {
    seq!['.', '.', '.']
}

/// The first `k` characters of `s` followed by an ellipsis.
pub open spec fn cut_at(s: Seq<char>, k: int) -> Seq<char> {
    s.subrange(0, k) + ellipsis()
}

/// `k` is where a summary of `s` is cut: every cut up to `k` fits the budget,
/// ellipsis included, and the next one (if any) would not.
pub open spec fn is_cut(s: Seq<char>, k: int) -> bool {
    &&& 0 <= k <= s.len()
    &&& str_width_cjk_of(cut_at(s, k)) <= SUMMARY_MAX_WIDTH
    &&& forall|j: int| 0 <= j < k ==> str_width_cjk_of(#[trigger] cut_at(s, j + 1)) <= SUMMARY_MAX_WIDTH
    &&& (k == s.len() || str_width_cjk_of(cut_at(s, k + 1)) > SUMMARY_MAX_WIDTH)
}


/// The summary of a text: the cleaned text if it fits the budget, else its cut
/// prefix followed by an ellipsis.
pub open spec fn summary_spec(s: Seq<char>, r: Seq<char>) -> bool {
    let t = clean_spec(s);
    if str_width_cjk_of(t) <= SUMMARY_MAX_WIDTH {
        r == t
    } else {
        exists|k: int| is_cut(t, k) && r == cut_at(t, k)
    }
}

/// `parts` joined with `sep` between each two.
pub open spec fn join_spec(parts: Seq<Seq<char>>, sep: Seq<char>) -> Seq<char>
    decreases parts.len(),
{
    if parts.len() == 0 {
        Seq::empty()
    } else if parts.len() == 1 {
        parts[0]
    } else {
        join_spec(parts.drop_last(), sep) + sep + parts.last()
    }
}

/// Relies on `String::push`: appends one character.
#[verifier::external_body]
pub(crate) fn push_char(s: &mut String, c: char)
    ensures
        final(s)@ == old(s)@.push(c),
{
    s.push(c)
}

/// Relies on `UnicodeWidthStr::width_cjk`: the display width of the whole string;
/// a string of printable ASCII characters takes one column per character.
#[verifier::external_body]
fn str_width_cjk(s: &str) -> (r: usize)
    ensures
        r == str_width_cjk_of(s@),
        (forall|i: int| 0 <= i < s@.len() ==> 0x20 <= (#[trigger] s@[i]) as u32 && (s@[i] as u32) < 0x7F) ==> r
            == s@.len(),
{
    s.width_cjk()
}

fn is_white_space_exec(c: char) -> (r: bool)
    ensures
        r == is_white_space(c),
{
    let u = c as u32;
    (0x09 <= u && u <= 0x0D) || u == 0x20 || u == 0x85 || u == 0xA0 || u == 0x1680 || (0x2000 <= u
        && u <= 0x200A) || u == 0x2028 || u == 0x2029 || u == 0x202F || u == 0x205F || u == 0x3000
}

fn is_control_exec(c: char) -> (r: bool)
    ensures
        r == is_control_char(c),
{
    let u = c as u32;
    u < 0x20 || (0x7F <= u && u < 0xA0)
}

/// Copies `s` without leading and trailing white space, each control character
/// made a space.
pub fn clean_text(s: &str) -> (r: String)
    ensures
        r@ == clean_spec(s@),
{
    let n = s.unicode_len();
    let mut a: usize = 0;
    assert(s@.subrange(0, n as int) =~= s@);
    while a < n && is_white_space_exec(s.get_char(a))
        invariant
            a <= n == s@.len(),
            trim_start_spec(s@) == trim_start_spec(s@.subrange(a as int, n as int)),
        decreases n - a,
    {
        assert(s@.subrange(a as int + 1, n as int) =~= s@.subrange(a as int, n as int).drop_first());
        a = a + 1;
    }
    let ghost st = s@.subrange(a as int, n as int);
    assert(trim_start_spec(st) == st);
    let mut b: usize = n;
    while b > a && is_white_space_exec(s.get_char(b - 1))
        invariant
            a <= b <= n == s@.len(),
            st == s@.subrange(a as int, n as int),
            trim_end_spec(st) == trim_end_spec(s@.subrange(a as int, b as int)),
        decreases b,
    {
        assert(s@.subrange(a as int, b as int - 1) =~= s@.subrange(a as int, b as int).drop_last());
        b = b - 1;
    }
    let ghost t = s@.subrange(a as int, b as int);
    assert(trim_end_spec(t) == t);
    let mut out = String::new();
    let mut i: usize = a;
    while i < b
        invariant
            a <= i <= b <= n == s@.len(),
            t == s@.subrange(a as int, b as int),
            out@ == t.subrange(0, i - a).map_values(|c: char| control_to_space(c)),
        decreases b - i,
    {
        let c = s.get_char(i);
        let d = if is_control_exec(c) { ' ' } else { c };
        push_char(&mut out, d);
        assert(t.subrange(0, i + 1 - a) =~= t.subrange(0, i - a).push(c));
        assert(out@ =~= t.subrange(0, i + 1 - a).map_values(|c: char| control_to_space(c)));
        i = i + 1;
    }
    assert(t.subrange(0, b - a) =~= t);
    out
}

/// A one-line summary of `s` whose display width stays within the budget.
pub fn summary_of(s: &str) -> (r: String)
    ensures
        summary_spec(s@, r@),
{
    let text = clean_text(s);
    let ts = text.as_str();
    if str_width_cjk(ts) <= SUMMARY_MAX_WIDTH {
        return text;
    }
    let n = ts.unicode_len();
    let dots = "...";
    proof {
        reveal_strlit("...");
    }
    assert(dots@ =~= ellipsis());
    let w0 = str_width_cjk(dots);
    assert(w0 == 3) by {
        assert forall|i: int| 0 <= i < dots@.len() implies 0x20 <= (#[trigger] dots@[i]) as u32 && (dots@[i] as u32)
            < 0x7F by {}
    }
    assert(cut_at(ts@, 0) =~= ellipsis());
    let mut k: usize = 0;
    let mut stop = false;
    while !stop && k < n
        invariant
            k <= n == ts@.len(),
            ts@ == clean_spec(s@),
            dots@ == ellipsis(),
            str_width_cjk_of(cut_at(ts@, k as int)) <= SUMMARY_MAX_WIDTH,
            forall|j: int| 0 <= j < k ==> str_width_cjk_of(#[trigger] cut_at(ts@, j + 1)) <= SUMMARY_MAX_WIDTH,
            stop ==> k < n && str_width_cjk_of(cut_at(ts@, k + 1)) > SUMMARY_MAX_WIDTH,
        decreases n - k + (if stop { 0int } else { 1int }),
    {
        let cand = String::from_str(ts.substring_char(0, k + 1)).concat(dots);
        assert(cand@ == cut_at(ts@, k + 1));
        if str_width_cjk(cand.as_str()) > SUMMARY_MAX_WIDTH {
            stop = true;
        } else {
            k = k + 1;
        }
    }
    let out = String::from_str(ts.substring_char(0, k)).concat(dots);
    assert(is_cut(clean_spec(s@), k as int) && out@ == cut_at(clean_spec(s@), k as int));
    out
}

/// A summary never takes more columns than the budget and holds no control
/// character; it is cut, and ends in an ellipsis, exactly when the cleaned text
/// is wider than the budget.
pub proof fn lemma_summary_within_budget(s: Seq<char>, r: Seq<char>)
    requires
        summary_spec(s, r),
    ensures
        str_width_cjk_of(r) <= SUMMARY_MAX_WIDTH,
        forall|i: int| 0 <= i < r.len() ==> !is_control_char(#[trigger] r[i]),
        str_width_cjk_of(clean_spec(s)) <= SUMMARY_MAX_WIDTH ==> r == clean_spec(s),
        str_width_cjk_of(clean_spec(s)) > SUMMARY_MAX_WIDTH ==> {
            &&& r.len() >= 3
            &&& r.subrange(r.len() - 3, r.len() as int) == ellipsis()
        },
{
    let t = clean_spec(s);
    assert forall|i: int| 0 <= i < t.len() implies !is_control_char(#[trigger] t[i]) by {}
    if str_width_cjk_of(t) > SUMMARY_MAX_WIDTH {
        let k = choose|k: int| is_cut(t, k) && r == cut_at(t, k);
        assert(r.subrange(r.len() - 3, r.len() as int) =~= ellipsis());
        assert forall|i: int| 0 <= i < r.len() implies !is_control_char(#[trigger] r[i]) by {
            if i < k {
                assert(r[i] == t[i]);
            }
        }
    }
}

pub open spec fn strings_view(v: Seq<String>) -> Seq<Seq<char>> {
    v.map_values(|s: String| s@)
}

pub proof fn lemma_strings_view_push(v: Seq<String>, s: String)
    ensures
        strings_view(v.push(s)) == strings_view(v).push(s@),
{
    assert(strings_view(v.push(s)) =~= strings_view(v).push(s@));
}

/// Joins `parts` with `sep` between each two.
pub fn join_strings(parts: &Vec<String>, sep: &str) -> (r: String)
    ensures
        r@ == join_spec(strings_view(parts@), sep@),
{
    let mut out = String::new();
    let mut i: usize = 0;
    while i < parts.len()
        invariant
            i <= parts@.len(),
            out@ == join_spec(strings_view(parts@.subrange(0, i as int)), sep@),
        decreases parts@.len() - i,
    {
        let ghost prev = strings_view(parts@.subrange(0, i as int));
        let ghost next = strings_view(parts@.subrange(0, i as int + 1));
        assert(next.drop_last() =~= prev);
        assert(next.last() == parts@[i as int]@);
        if i > 0 {
            out.append(sep);
        } else {
            assert(out@ =~= Seq::<char>::empty());
        }
        out.append(parts[i].as_str());
        i = i + 1;
    }
    assert(parts@.subrange(0, parts@.len() as int) =~= parts@);
    out
}

} // verus!
