//! Small string utilities: building strings from character buffers and
//! extracting a file's display name from a path.

use vstd::prelude::*;
use vstd::string::StrSliceExecFns;
use vstd::string::StringExecFns;

verus! {

/// Appends one character to a string.
///
/// Relies on `String::push`: appends the given `char` to the end of the
/// string.
#[verifier::external_body]
pub fn push_char(s: &mut String, c: char)
    ensures
        final(s)@ == old(s)@.push(c),
{
    s.push(c);
}

/// Builds the string holding exactly the characters of `v`, in order.
pub fn chars_to_string(v: &Vec<char>) -> (s: String)
    ensures
        s@ == v@,
{
    let mut s = String::new();
    let mut i: usize = 0;
    while i < v.len()
        invariant
            i <= v.len(),
            s@ == v@.subrange(0, i as int),
        decreases v.len() - i,
    {
        push_char(&mut s, v[i]);
        i = i + 1;
        proof {
            assert(s@ =~= v@.subrange(0, i as int));
        }
    }
    proof {
        assert(v@.subrange(0, v@.len() as int) =~= v@);
    }
    s
}

/// The part of `path` after its last `'/'`; the whole of `path` when it
/// holds no `'/'`.
pub open spec fn file_name_of(path: Seq<char>) -> Seq<char>
    decreases path.len(),
{
    if path.len() == 0 {
        path
    } else if path.last() == '/' {
        Seq::empty()
    } else {
        file_name_of(path.drop_last()).push(path.last())
    }
}

proof fn lemma_file_name_suffix(p: Seq<char>, k: int)
    requires
        0 <= k <= p.len(),
        forall|i: int| k <= i < p.len() ==> p[i] != '/',
        k > 0 ==> p[k - 1] == '/',
    ensures
        file_name_of(p) == p.subrange(k, p.len() as int),
    decreases p.len(),
{
    if p.len() == 0 {
        assert(file_name_of(p) =~= p.subrange(k, p.len() as int));
    } else if p.last() == '/' {
        assert(k == p.len());
        assert(file_name_of(p) =~= p.subrange(k, p.len() as int));
    } else {
        assert(k < p.len());
        let pd = p.drop_last();
        lemma_file_name_suffix(pd, k);
        assert(file_name_of(p) =~= p.subrange(k, p.len() as int));
    }
}

/// The part of `name` before its first `'.'`; the whole of `name` when it
/// holds no `'.'`.
pub open spec fn stem_of(name: Seq<char>) -> Seq<char>
    decreases name.len(),
{
    if name.len() == 0 {
        name
    } else if name[0] == '.' {
        Seq::empty()
    } else {
        seq![name[0]] + stem_of(name.drop_first())
    }
}

proof fn lemma_stem_prefix(n: Seq<char>, k: int)
    requires
        0 <= k <= n.len(),
        forall|i: int| 0 <= i < k ==> n[i] != '.',
        k < n.len() ==> n[k] == '.',
    ensures
        stem_of(n) == n.subrange(0, k),
    decreases n.len(),
{
    if n.len() == 0 {
        assert(stem_of(n) =~= n.subrange(0, k));
    } else if n[0] == '.' {
        assert(k == 0);
        assert(stem_of(n) =~= n.subrange(0, k));
    } else {
        assert(k >= 1);
        lemma_stem_prefix(n.drop_first(), k - 1);
        assert(stem_of(n) =~= n.subrange(0, k));
    }
}

/// The characters of `name` up to (not including) its first `'.'`.
pub fn name_stem(name: &str) -> (stem: String)
    ensures
        stem@ == stem_of(name@),
{
    let n = name.unicode_len();
    let mut k: usize = 0;
    while k < n && name.get_char(k) != '.'
        invariant
            0 <= k <= n,
            n == name@.len(),
            forall|i: int| 0 <= i < k ==> name@[i] != '.',
        decreases n - k,
    {
        k = k + 1;
    }
    proof {
        lemma_stem_prefix(name@, k as int);
    }
    name.substring_char(0, k).to_owned()
}

/// The display name of a path: everything after the last `'/'`.
pub fn split_path_to_name(path: &str) -> (name: String)
    ensures
        name@ == file_name_of(path@),
{
    let n = path.unicode_len();
    let mut k: usize = n;
    while k > 0 && path.get_char(k - 1) != '/'
        invariant
            0 <= k <= n,
            n == path@.len(),
            forall|i: int| k <= i < n ==> path@[i] != '/',
        decreases k,
    {
        k = k - 1;
    }
    proof {
        lemma_file_name_suffix(path@, k as int);
    }
    let tail = path.substring_char(k, n);
    tail.to_owned()
}

/// Decides whether two strings hold the same characters.
pub fn str_eq(a: &str, b: &str) -> (r: bool)
    ensures
        r == (a@ == b@),
{
    let alen = a.unicode_len();
    let blen = b.unicode_len();
    if alen != blen {
        return false;
    }
    let mut i: usize = 0;
    while i < alen
        invariant
            0 <= i <= alen,
            alen == a@.len(),
            alen == b@.len(),
            forall|j: int| 0 <= j < i ==> a@[j] == b@[j],
        decreases alen - i,
    {
        if a.get_char(i) != b.get_char(i) {
            return false;
        }
        i = i + 1;
    }
    proof {
        assert(a@ =~= b@);
    }
    true
}

/// The directory holding `path`: the part before the last `'/'`, or the
/// root `"/"` when that slash comes first; `None` when `path` holds no
/// `'/'` at all.
pub open spec fn parent_dir_of(path: Seq<char>) -> Option<Seq<char>>
    decreases path.len(),
{
    if path.len() == 0 {
        None
    } else if path.last() == '/' {
        if path.len() == 1 {
            Some(path)
        } else {
            Some(path.drop_last())
        }
    } else {
        parent_dir_of(path.drop_last())
    }
}

proof fn lemma_parent_prefix(p: Seq<char>, k: int)
    requires
        0 <= k <= p.len(),
        forall|i: int| k <= i < p.len() ==> p[i] != '/',
        k > 0 ==> p[k - 1] == '/',
    ensures
        parent_dir_of(p) == if k == 0 {
            Option::<Seq<char>>::None
        } else if k == 1 {
            Some(p.subrange(0, 1))
        } else {
            Some(p.subrange(0, k - 1))
        },
    decreases p.len(),
{
    if p.len() == 0 {
    } else if p.last() == '/' {
        assert(k == p.len());
        if p.len() == 1 {
            assert(p.subrange(0, 1) =~= p);
        } else {
            assert(p.subrange(0, k - 1) =~= p.drop_last());
        }
    } else {
        assert(k < p.len());
        lemma_parent_prefix(p.drop_last(), k);
        if k == 1 {
            assert(p.drop_last().subrange(0, 1) =~= p.subrange(0, 1));
        } else if k > 1 {
            assert(p.drop_last().subrange(0, k - 1) =~= p.subrange(0, k - 1));
        }
    }
}

/// The directory holding `path`, per `parent_dir_of`.
pub fn parent_dir(path: &str) -> (parent: Option<String>)
    ensures
        match parent {
            Some(p) => parent_dir_of(path@) == Some(p@),
            None => parent_dir_of(path@) is None,
        },
{
    let n = path.unicode_len();
    let mut k: usize = n;
    while k > 0 && path.get_char(k - 1) != '/'
        invariant
            0 <= k <= n,
            n == path@.len(),
            forall|i: int| k <= i < n ==> path@[i] != '/',
        decreases k,
    {
        k = k - 1;
    }
    proof {
        lemma_parent_prefix(path@, k as int);
    }
    if k == 0 {
        None
    } else if k == 1 {
        Some(path.substring_char(0, 1).to_owned())
    } else {
        Some(path.substring_char(0, k - 1).to_owned())
    }
}

/// Lexicographic order on character sequences, by code point, with a prefix
/// ordered before every extension of it.
pub open spec fn lex_le(a: Seq<char>, b: Seq<char>) -> bool
    decreases a.len(),
{
    if a.len() == 0 {
        true
    } else if b.len() == 0 {
        false
    } else if (a[0] as u32) == (b[0] as u32) {
        lex_le(a.drop_first(), b.drop_first())
    } else {
        (a[0] as u32) < (b[0] as u32)
    }
}

pub proof fn lemma_lex_le_total(a: Seq<char>, b: Seq<char>)
    ensures
        lex_le(a, b) || lex_le(b, a),
    decreases a.len(),
{
    if a.len() == 0 || b.len() == 0 {
    } else if (a[0] as u32) == (b[0] as u32) {
        lemma_lex_le_total(a.drop_first(), b.drop_first());
    }
}

pub proof fn lemma_lex_le_trans(a: Seq<char>, b: Seq<char>, c: Seq<char>)
    requires
        lex_le(a, b),
        lex_le(b, c),
    ensures
        lex_le(a, c),
    decreases a.len(),
{
    if a.len() == 0 || b.len() == 0 || c.len() == 0 {
    } else if (a[0] as u32) == (b[0] as u32) && (b[0] as u32) == (c[0] as u32) {
        lemma_lex_le_trans(a.drop_first(), b.drop_first(), c.drop_first());
    } else if a.len() > 0 && b.len() > 0 && c.len() > 0 && (a[0] as u32) == (b[0] as u32) {
    }
}

/// If `a` and `b` agree on their first `i` characters, the order is decided
/// by the remainders.
proof fn lemma_lex_le_skip(a: Seq<char>, b: Seq<char>, i: int)
    requires
        0 <= i <= a.len(),
        0 <= i <= b.len(),
        forall|j: int| 0 <= j < i ==> (a[j] as u32) == (b[j] as u32),
    ensures
        lex_le(a, b) == lex_le(a.skip(i), b.skip(i)),
    decreases i,
{
    if i > 0 {
        assert(a.len() > 0 && b.len() > 0 && (a[0] as u32) == (b[0] as u32));
        lemma_lex_le_skip(a.drop_first(), b.drop_first(), i - 1);
        assert(a.drop_first().skip(i - 1) =~= a.skip(i));
        assert(b.drop_first().skip(i - 1) =~= b.skip(i));
    } else {
        assert(a.skip(0) =~= a);
        assert(b.skip(0) =~= b);
    }
}

/// Decides `lex_le` on two strings.
pub fn str_lex_le(a: &str, b: &str) -> (r: bool)
    ensures
        r == lex_le(a@, b@),
{
    let alen = a.unicode_len();
    let blen = b.unicode_len();
    let mut i: usize = 0;
    while i < alen && i < blen
        invariant
            0 <= i <= alen,
            0 <= i <= blen,
            alen == a@.len(),
            blen == b@.len(),
            forall|j: int| 0 <= j < i ==> (a@[j] as u32) == (b@[j] as u32),
        decreases alen - i,
    {
        let ca = a.get_char(i);
        let cb = b.get_char(i);
        if (ca as u32) != (cb as u32) {
            proof {
                lemma_lex_le_skip(a@, b@, i as int);
                assert(a@.skip(i as int)[0] == ca);
                assert(b@.skip(i as int)[0] == cb);
            }
            return (ca as u32) < (cb as u32);
        }
        i = i + 1;
    }
    proof {
        lemma_lex_le_skip(a@, b@, i as int);
    }
    alen <= blen
}

/// Whether `pat` occurs in `text` as a contiguous run of characters.
pub open spec fn contains_seq(text: Seq<char>, pat: Seq<char>) -> bool {
    exists|i: int|
        0 <= i && i + pat.len() <= text.len() && #[trigger] text.subrange(
            i,
            i + pat.len() as int,
        ) == pat
}

/// Whether the characters of `text` starting at `from` are exactly `pat`.
fn matches_at(text: &str, pat: &str, from: usize) -> (r: bool)
    requires
        from + pat@.len() <= text@.len(),
    ensures
        r == (text@.subrange(from as int, from + pat@.len() as int) == pat@),
{
    let tlen = text.unicode_len();
    let plen = pat.unicode_len();
    let mut j: usize = 0;
    while j < plen
        invariant
            0 <= j <= plen,
            plen == pat@.len(),
            tlen == text@.len(),
            from + plen <= tlen,
            forall|k: int| 0 <= k < j ==> text@[from + k] == pat@[k],
        decreases plen - j,
    {
        if text.get_char(from + j) != pat.get_char(j) {
            proof {
                let sub = text@.subrange(from as int, from + pat@.len() as int);
                assert(sub[j as int] != pat@[j as int]);
            }
            return false;
        }
        j = j + 1;
    }
    proof {
        assert(text@.subrange(from as int, from + pat@.len() as int) =~= pat@);
    }
    true
}

/// Decides whether `pat` occurs in `text`.
pub fn str_contains(text: &str, pat: &str) -> (r: bool)
    ensures
        r == contains_seq(text@, pat@),
{
    let tlen = text.unicode_len();
    let plen = pat.unicode_len();
    if plen > tlen {
        return false;
    }
    if plen == 0 {
        proof {
            assert(text@.subrange(0, 0 + pat@.len() as int) =~= pat@);
        }
        return true;
    }
    let bound = tlen - plen;
    let mut i: usize = 0;
    while i <= bound
        invariant
            0 <= i <= bound + 1,
            1 <= plen,
            bound + plen == tlen,
            tlen == text@.len(),
            plen == pat@.len(),
            forall|k: int|
                0 <= k < i ==> #[trigger] text@.subrange(k, k + pat@.len() as int) != pat@,
        decreases bound + 1 - i,
    {
        if matches_at(text, pat, i) {
            return true;
        }
        i = i + 1;
    }
    false
}

/// An ASCII whitespace character, as the buffers' trimming understands it.
pub open spec fn is_ws(c: char) -> bool {
    c == ' ' || c == '\t' || c == '\n' || c == '\r' || c == '\u{c}'
}

/// `s` with leading whitespace removed.
pub open spec fn trim_front(s: Seq<char>) -> Seq<char>
    decreases s.len(),
{
    if s.len() > 0 && is_ws(s[0]) {
        trim_front(s.drop_first())
    } else {
        s
    }
}

/// `s` with trailing whitespace removed.
pub open spec fn trim_back(s: Seq<char>) -> Seq<char>
    decreases s.len(),
{
    if s.len() > 0 && is_ws(s.last()) {
        trim_back(s.drop_last())
    } else {
        s
    }
}

/// `s` with whitespace removed from both ends.
pub open spec fn trim_ws(s: Seq<char>) -> Seq<char> {
    trim_back(trim_front(s))
}

proof fn lemma_trim_front_skip(s: Seq<char>, lo: int)
    requires
        0 <= lo <= s.len(),
        forall|i: int| 0 <= i < lo ==> is_ws(s[i]),
        lo < s.len() ==> !is_ws(s[lo]),
    ensures
        trim_front(s) == s.skip(lo),
    decreases lo,
{
    if lo == 0 {
        assert(s.skip(0) =~= s);
        if s.len() > 0 {
        }
    } else {
        assert(s.len() > 0 && is_ws(s[0]));
        lemma_trim_front_skip(s.drop_first(), lo - 1);
        assert(s.drop_first().skip(lo - 1) =~= s.skip(lo));
    }
}

proof fn lemma_trim_back_take(s: Seq<char>, hi: int)
    requires
        0 <= hi <= s.len(),
        forall|i: int| hi <= i < s.len() ==> is_ws(s[i]),
        hi > 0 ==> !is_ws(s[hi - 1]),
    ensures
        trim_back(s) == s.take(hi),
    decreases s.len(),
{
    if hi == s.len() {
        if s.len() > 0 {
            assert(!is_ws(s.last()));
        }
        assert(s.take(hi) =~= s);
    } else {
        assert(s.len() > 0 && is_ws(s.last()));
        lemma_trim_back_take(s.drop_last(), hi);
        assert(s.drop_last().take(hi) =~= s.take(hi));
    }
}

/// The whitespace-trimmed contents of a character buffer, as a string.
pub fn trimmed_string(v: &Vec<char>) -> (s: String)
    ensures
        s@ == trim_ws(v@),
{
    let n = v.len();
    let mut lo: usize = 0;
    while lo < n && is_ws_exec(v[lo])
        invariant
            0 <= lo <= n,
            n == v@.len(),
            forall|i: int| 0 <= i < lo ==> is_ws(v@[i]),
        decreases n - lo,
    {
        lo = lo + 1;
    }
    let mut hi: usize = n;
    while hi > lo && is_ws_exec(v[hi - 1])
        invariant
            lo <= hi <= n,
            n == v@.len(),
            forall|i: int| hi <= i < n ==> is_ws(v@[i]),
            lo < n ==> !is_ws(v@[lo as int]),
        decreases hi,
    {
        hi = hi - 1;
    }
    let mut s = String::new();
    let mut i: usize = lo;
    while i < hi
        invariant
            lo <= i <= hi <= n,
            n == v@.len(),
            s@ == v@.subrange(lo as int, i as int),
        decreases hi - i,
    {
        push_char(&mut s, v[i]);
        i = i + 1;
        proof {
            assert(s@ =~= v@.subrange(lo as int, i as int));
        }
    }
    proof {
        lemma_trim_front_skip(v@, lo as int);
        lemma_trim_back_take(v@.skip(lo as int), (hi - lo) as int);
        assert(v@.skip(lo as int).take((hi - lo) as int) =~= v@.subrange(
            lo as int,
            hi as int,
        ));
    }
    s
}

/// Decides `is_ws`.
pub fn is_ws_exec(c: char) -> (r: bool)
    ensures
        r == is_ws(c),
{
    c == ' ' || c == '\t' || c == '\n' || c == '\r' || c == '\u{c}'
}

} // verus!
