use vstd::prelude::*;
use vstd::string::*;

use crate::text::push_char;
use crate::types::{Hint, strings_view, view_kind_name};

verus! {

/// Draws an index uniformly at random from `0..len` with rand's thread-local
/// generator (`rand::thread_rng().gen_range(0..len)`). The contract claims only
/// that the index is in range, which holds of every draw; `gen_range` panics on
/// an empty range, so `len` must be positive.
#[verifier::external_body]
pub(crate) fn random_index(len: usize) -> (i: usize)
    requires
        len > 0,
    ensures
        i < len,
{
    rand::Rng::gen_range(&mut rand::thread_rng(), 0..len)
}

/// Draws an index uniformly at random from `0..len` straight from the operating
/// system's generator (`rand::rngs::OsRng.gen_range(0..len)`). As with
/// `random_index`, the contract claims only that the index is in range, and
/// `len` must be positive.
#[verifier::external_body]
pub(crate) fn os_random_index(len: usize) -> (i: usize)
    requires
        len > 0,
    ensures
        i < len,
{
    rand::Rng::gen_range(&mut rand::rngs::OsRng, 0..len)
}

/// Removes and returns the element at `index` (the rest keep their order).
pub fn take_element_at<T>(v: &mut Vec<T>, index: usize) -> (r: T)
    requires
        index < old(v)@.len(),
    ensures
        r == old(v)@[index as int],
        final(v)@ == old(v)@.remove(index as int),
{
    v.remove(index)
}

/// Removes a randomly chosen element from `v` and returns it; `None` when `v` is empty.
pub fn get_random_element_from_vec<T>(v: &mut Vec<T>) -> (r: Option<T>)
    ensures
        old(v)@.len() == 0 <==> r is None,
        r is None ==> final(v)@ == old(v)@,
        r is Some ==> exists|i: int|
            0 <= i < old(v)@.len() && r == Some(old(v)@[i]) && final(v)@ == old(v)@.remove(i),
{
    if v.len() == 0 {
        None
    } else {
        let i = random_index(v.len());
        let x = take_element_at(v, i);
        assert(final(v)@ == old(v)@.remove(i as int));
        Some(x)
    }
}

/// Whether `c` is a white-space character (Unicode `White_Space`, as `char::is_whitespace`).
pub open spec fn is_white_space(c: char) -> bool {
    let n = c as u32;
    (0x09 <= n && n <= 0x0d) || n == 0x20 || n == 0x85 || n == 0xa0 || n == 0x1680
        || (0x2000 <= n && n <= 0x200a) || n == 0x2028 || n == 0x2029 || n == 0x202f
        || n == 0x205f || n == 0x3000
}

fn white_space(c: char) -> (b: bool)
    ensures
        b == is_white_space(c),
{
    let n = c as u32;
    (0x09 <= n && n <= 0x0d) || n == 0x20 || n == 0x85 || n == 0xa0 || n == 0x1680
        || (0x2000 <= n && n <= 0x200a) || n == 0x2028 || n == 0x2029 || n == 0x202f
        || n == 0x205f || n == 0x3000
}

/// `s` without its trailing white space (what `str::trim_end` keeps).
pub open spec fn trim_end(s: Seq<char>) -> Seq<char>
    decreases s.len(),
{
    if s.len() > 0 && is_white_space(s.last()) {
        trim_end(s.drop_last())
    } else {
        s
    }
}

/// Every string followed by a line feed, all joined together.
pub open spec fn lines_joined(v: Seq<Seq<char>>) -> Seq<char>
    decreases v.len(),
{
    if v.len() == 0 {
        Seq::empty()
    } else {
        lines_joined(v.drop_last()) + v.last() + seq!['\n']
    }
}

/// The strings one per line, with the trailing white space cut off.
pub open spec fn display_lines(v: Seq<Seq<char>>) -> Seq<char> {
    trim_end(lines_joined(v))
}

proof fn lemma_trim_end_take(s: Seq<char>, k: int)
    requires
        0 <= k <= s.len(),
        forall|i: int| k <= i < s.len() ==> is_white_space(#[trigger] s[i]),
        k == 0 || !is_white_space(s[k - 1]),
    ensures
        trim_end(s) == s.take(k),
    decreases s.len(),
{
    if s.len() > 0 && is_white_space(s.last()) {
        assert(k < s.len());
        lemma_trim_end_take(s.drop_last(), k);
        assert(s.drop_last().take(k) =~= s.take(k));
    } else {
        if k < s.len() {
            assert(is_white_space(s[s.len() - 1]));
        }
        assert(s.take(k) =~= s);
    }
}

/// Cuts the trailing white space off `chars` and gathers the rest into a string.
fn trimmed_string(chars: &Vec<char>) -> (r: String)
    ensures
        r@ == trim_end(chars@),
{
    let mut k = chars.len();
    while k > 0 && white_space(chars[k - 1])
        invariant
            k <= chars@.len(),
            forall|i: int| k <= i < chars@.len() ==> is_white_space(#[trigger] chars@[i]),
        decreases k,
    {
        k = k - 1;
    }
    proof {
        lemma_trim_end_take(chars@, k as int);
    }
    let mut r = String::new();
    let mut i: usize = 0;
    while i < k
        invariant
            i <= k <= chars@.len(),
            r@ == chars@.take(i as int),
        decreases k - i,
    {
        push_char(&mut r, chars[i]);
        assert(chars@.take(i + 1) =~= chars@.take(i as int).push(chars@[i as int]));
        i = i + 1;
    }
    r
}

/// Appends the characters of `s` to `out`.
fn push_chars(out: &mut Vec<char>, s: &str)
    ensures
        final(out)@ == old(out)@ + s@,
{
    let n = s.unicode_len();
    let mut i: usize = 0;
    while i < n
        invariant
            i <= n,
            n == s@.len(),
            out@ == old(out)@ + s@.take(i as int),
        decreases n - i,
    {
        out.push(s.get_char(i));
        assert(s@.take(i + 1) =~= s@.take(i as int).push(s@[i as int]));
        i = i + 1;
    }
    assert(s@.take(n as int) =~= s@);
}

/// Shows the strings one per line, without trailing white space.
pub fn display_str_vec(v: &Vec<String>) -> (r: String)
    ensures
        r@ == display_lines(strings_view(v@)),
{
    let mut chars: Vec<char> = Vec::new();
    let mut i: usize = 0;
    while i < v.len()
        invariant
            i <= v@.len(),
            chars@ == lines_joined(strings_view(v@.take(i as int))),
        decreases v@.len() - i,
    {
        push_chars(&mut chars, v[i].as_str());
        chars.push('\n');
        assert(strings_view(v@.take(i + 1)).drop_last() =~= strings_view(v@.take(i as int)));
        i = i + 1;
    }
    assert(v@.take(v@.len() as int) =~= v@);
    trimmed_string(&chars)
}

/// Whether two string slices hold the same characters.
pub fn str_equal(a: &str, b: &str) -> (r: bool)
    ensures
        r == (a@ == b@),
{
    let x = String::from_str(a);
    let y = String::from_str(b);
    x == y
}

/// The name under which a user asks for a kind of hint.
pub open spec fn hint_kind_name(h: Hint) -> Seq<char> {
    view_kind_name(h@)
}

fn hint_kind_matches(h: &Hint, hint_type: &str) -> (b: bool)
    ensures
        b == (hint_kind_name(*h) == hint_type@),
{
    match h {
        Hint::Season(_) => str_equal("Season", hint_type),
        Hint::SeasonYear(_) => str_equal("Year", hint_type),
        Hint::Format(_) => str_equal("Format", hint_type),
        Hint::Genres(_) => str_equal("Genre", hint_type),
        Hint::Studios(_) => str_equal("Studio", hint_type),
        Hint::VoiceActors(_) => str_equal("Voice Actor", hint_type),
        Hint::Tag(_) => str_equal("Tag", hint_type),
        Hint::Staff(_) => str_equal("Staff", hint_type),
        Hint::AverageScore(_) => str_equal("AL Score", hint_type),
        Hint::Source(_) => str_equal("Source", hint_type),
        Hint::UserScore(_) => str_equal("User Score", hint_type),
    }
}

/// Removes and returns the first hint of the kind named `hint_type`; `None`
/// (and `v` unchanged) when there is none.
pub fn get_typed_hint(v: &mut Vec<Hint>, hint_type: &str) -> (r: Option<Hint>)
    ensures
        r is None <==> (forall|i: int| 0 <= i < old(v)@.len() ==> hint_kind_name(#[trigger] old(v)@[i]) != hint_type@),
        r is None ==> final(v)@ == old(v)@,
        r is Some ==> exists|i: int|
            0 <= i < old(v)@.len()
            && hint_kind_name(old(v)@[i]) == hint_type@
            && (forall|k: int| 0 <= k < i ==> hint_kind_name(#[trigger] old(v)@[k]) != hint_type@)
            && r == Some(old(v)@[i])
            && final(v)@ == old(v)@.remove(i),
{
    let mut i: usize = 0;
    while i < v.len()
        invariant
            i <= v@.len(),
            v@ == old(v)@,
            forall|k: int| 0 <= k < i ==> hint_kind_name(#[trigger] v@[k]) != hint_type@,
        decreases v@.len() - i,
    {
        if hint_kind_matches(&v[i], hint_type) {
            let h = take_element_at(v, i);
            return Some(h);
        }
        i = i + 1;
    }
    None
}

proof fn lemma_trim_end_last(s: Seq<char>)
    ensures
        trim_end(s).len() == 0 || !is_white_space(trim_end(s).last()),
        trim_end(s).len() <= s.len(),
    decreases s.len(),
{
    if s.len() > 0 && is_white_space(s.last()) {
        lemma_trim_end_last(s.drop_last());
    }
}

/// Law: the strings shown one per line never end in white space.
pub proof fn lemma_display_no_trailing_space(v: Seq<Seq<char>>)
    ensures
        display_lines(v).len() == 0 || !is_white_space(display_lines(v).last()),
{
    lemma_trim_end_last(lines_joined(v));
}

} // verus!
